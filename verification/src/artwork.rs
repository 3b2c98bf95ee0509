//! Album art: where a player's cover is found, how remote covers are named
//! in the local cache, and the bookkeeping that keeps downloads and the
//! cache within their limits.

use vstd::prelude::*;

use crate::text::{
    ascii_bytes, decimal, ends_with_bytes, ends_with_ignoring_ascii_case, is_first_match,
    literal_bytes, lowercase_bytes, push_decimal, starts_with, starts_with_bytes, utf8_bytes,
};

verus! {

broadcast use vstd::string::group_string_axioms;

/// A byte that is an ASCII hexadecimal digit.
pub open spec fn is_hex_digit(b: u8) -> bool {
    (48 <= b <= 57) || (65 <= b <= 70) || (97 <= b <= 102)
}

/// Every `%` in `b` is followed by two hexadecimal digits.
pub open spec fn valid_percent_encoding(b: Seq<u8>) -> bool {
    forall|i: int|
        #![trigger b[i]]
        0 <= i < b.len() && b[i] == 37 ==> i + 2 < b.len() && is_hex_digit(b[i + 1])
            && is_hex_digit(b[i + 2])
}

fn hex_digit(b: u8) -> (r: bool)
    ensures
        r == is_hex_digit(b),
{
    (48 <= b && b <= 57) || (65 <= b && b <= 70) || (97 <= b && b <= 102)
}

/// Whether every `%` in `value` starts a complete `%XX` escape.
pub fn has_valid_percent_encoding(value: &str) -> (r: bool)
    ensures
        r == valid_percent_encoding(utf8_bytes(value@)),
{
    let bytes = value.as_bytes();
    let ghost b = bytes@;
    let mut index: usize = 0;
    while index < bytes.len()
        invariant
            b == bytes@,
            b == utf8_bytes(value@),
            index <= b.len(),
            forall|i: int| #![trigger b[i]]
                0 <= i < index && b[i] == 37 ==> i + 2 < b.len() && is_hex_digit(b[i + 1])
                    && is_hex_digit(b[i + 2]),
        decreases b.len() - index,
    {
        if bytes[index] == 37 {
            if bytes.len() - index <= 2 || !hex_digit(bytes[index + 1]) || !hex_digit(
                bytes[index + 2],
            ) {
                assert(b[index as int] == 37 && !(index + 2 < b.len() && is_hex_digit(
                    b[index + 1],
                ) && is_hex_digit(b[index + 2])));
                return false;
            }
            assert(b[index + 1] != 37 && b[index + 2] != 37);
            index = index + 3;
        } else {
            index = index + 1;
        }
    }
    true
}

/// Only secure remote artwork is downloaded.
pub open spec fn spec_is_downloadable_art_url(url: Seq<char>) -> bool {
    starts_with_bytes(utf8_bytes(url), ascii_bytes("https://"@))
}

/// Whether `url` names remote artwork the applet may download.
pub fn is_downloadable_art_url(url: &str) -> (r: bool)
    ensures
        r == spec_is_downloadable_art_url(url@),
{
    proof {
        reveal_strlit("https://");
    }
    starts_with(url.as_bytes(), literal_bytes("https://"))
}

/// The byte `?`, which starts the query part of a URL.
pub open spec fn is_query_mark() -> spec_fn(u8) -> bool {
    |x: u8| x == 63
}

/// `b` up to its first `?`, or all of `b` when it has none.
pub open spec fn before_query(b: Seq<u8>) -> Seq<u8> {
    if exists|i: int| #[trigger] is_first_match(b, is_query_mark(), i) {
        b.take(choose|i: int| #[trigger] is_first_match(b, is_query_mark(), i))
    } else {
        b
    }
}

/// The file extension of the cached copy of the artwork at `url`.
pub open spec fn spec_image_extension(url: Seq<char>) -> Seq<char> {
    let path = lowercase_bytes(before_query(utf8_bytes(url)));
    if ends_with_bytes(path, ascii_bytes(".png"@)) {
        "png"@
    } else if ends_with_bytes(path, ascii_bytes(".webp"@)) {
        "webp"@
    } else if ends_with_bytes(path, ascii_bytes(".jpeg"@)) {
        "jpeg"@
    } else {
        "jpg"@
    }
}

/// The index of the first `?` in `b`, or its length.
fn query_start(b: &[u8]) -> (r: usize)
    ensures
        r <= b@.len(),
        b@.take(r as int) == before_query(b@),
{
    let mut i: usize = 0;
    while i < b.len()
        invariant
            i <= b@.len(),
            forall|j: int| 0 <= j < i ==> !is_query_mark()(#[trigger] b@[j]),
        decreases b@.len() - i,
    {
        if b[i] == 63 {
            proof {
                let pred = is_query_mark();
                assert(is_first_match(b@, pred, i as int));
                let k = choose|k: int| is_first_match(b@, pred, k);
                assert(is_first_match(b@, pred, k));
                if k < i {
                    assert(!pred(b@[k]));
                } else if i < k {
                    assert(!pred(b@[i as int]));
                }
            }
            return i;
        }
        i = i + 1;
    }
    proof {
        let pred = is_query_mark();
        assert(!exists|k: int| is_first_match(b@, pred, k));
        assert(b@.take(i as int) =~= b@);
    }
    i
}

/// Picks a safe extension for the cached copy of remote artwork: the one
/// the URL's path names among png, webp and jpeg, else jpg.
pub fn image_extension(url: &str) -> (r: &'static str)
    ensures
        r@ == spec_image_extension(url@),
{
    proof {
        reveal_strlit(".png");
        reveal_strlit(".webp");
        reveal_strlit(".jpeg");
    }
    let bytes = url.as_bytes();
    let end = query_start(bytes);
    if ends_with_ignoring_ascii_case(bytes, end, literal_bytes(".png")) {
        "png"
    } else if ends_with_ignoring_ascii_case(bytes, end, literal_bytes(".webp")) {
        "webp"
    } else if ends_with_ignoring_ascii_case(bytes, end, literal_bytes(".jpeg")) {
        "jpeg"
    } else {
        "jpg"
    }
}

/// The 64-bit FNV-1a hash of `b`.
pub open spec fn fnv1a(b: Seq<u8>) -> u64
    decreases b.len(),
{
    if b.len() == 0 {
        0xcbf2_9ce4_8422_2325u64
    } else {
        (fnv1a(b.drop_last()) ^ (b.last() as u64)).wrapping_mul(0x0000_0100_0000_01b3u64)
    }
}

/// A stable, filesystem-safe name for remote artwork: the FNV-1a hash of
/// the URL's bytes.
pub fn stable_url_hash(url: &str) -> (r: u64)
    ensures
        r == fnv1a(utf8_bytes(url@)),
{
    let bytes = url.as_bytes();
    let mut hash: u64 = 0xcbf2_9ce4_8422_2325u64;
    let mut i: usize = 0;
    assert(bytes@.take(0) =~= Seq::<u8>::empty());
    while i < bytes.len()
        invariant
            i <= bytes@.len(),
            hash == fnv1a(bytes@.take(i as int)),
        decreases bytes@.len() - i,
    {
        assert(bytes@.take(i + 1).drop_last() =~= bytes@.take(i as int));
        hash = (hash ^ (bytes[i] as u64)).wrapping_mul(0x0000_0100_0000_01b3u64);
        i = i + 1;
    }
    assert(bytes@.take(i as int) =~= bytes@);
    hash
}

/// The name of the cached copy of the artwork at `url`: its hash in
/// decimal, a dot and its extension.
pub open spec fn spec_cache_file_name(url: Seq<char>) -> Seq<char> {
    decimal(fnv1a(utf8_bytes(url)) as nat) + "."@ + spec_image_extension(url)
}

/// A character that may stand in a cache file name: an ASCII digit, a
/// lowercase ASCII letter or a dot.
pub open spec fn is_safe_name_char(c: char) -> bool {
    ('0' <= c <= '9') || ('a' <= c <= 'z') || c == '.'
}

/// A cached cover's name is made of digits, lowercase letters and dots
/// only, whatever the URL: it can never name a file outside the cache
/// directory, and the URL itself never appears in it.
pub proof fn law_cache_file_name_is_safe(url: Seq<char>)
    ensures
        forall|i: int|
            0 <= i < spec_cache_file_name(url).len() ==> is_safe_name_char(
                #[trigger] spec_cache_file_name(url)[i],
            ),
{
    reveal_strlit(".");
    reveal_strlit("png");
    reveal_strlit("webp");
    reveal_strlit("jpeg");
    reveal_strlit("jpg");
    let d = decimal(fnv1a(utf8_bytes(url)) as nat);
    crate::text::lemma_decimal_digits(fnv1a(utf8_bytes(url)) as nat);
    let e = spec_image_extension(url);
    assert forall|i: int| 0 <= i < e.len() implies is_safe_name_char(#[trigger] e[i]) by {}
    let name = spec_cache_file_name(url);
    assert forall|i: int| 0 <= i < name.len() implies is_safe_name_char(#[trigger] name[i]) by {
        if i < d.len() {
            assert(name[i] == d[i]);
        } else if i == d.len() {
            assert(name[i] == '.');
        } else {
            assert(name[i] == e[i - d.len() - 1]);
        }
    }
}

/// The file name under which the artwork at `url` is cached.
pub fn cache_file_name(url: &str) -> (r: String)
    ensures
        r@ == spec_cache_file_name(url@),
{
    let mut name = String::new();
    push_decimal(&mut name, stable_url_hash(url));
    name.append(".");
    name.append(image_extension(url));
    name
}

/// The name of the partial download of the artwork at `url`: the cached
/// name with `.part` appended, so that an interrupted download is never
/// taken for a finished one.
pub fn partial_file_name(url: &str) -> (r: String)
    ensures
        r@ == spec_cache_file_name(url@) + ".part"@,
{
    let mut name = cache_file_name(url);
    name.append(".part");
    name
}


/// The bytes of an optional byte vector.
pub open spec fn bytes_of(o: Option<Vec<u8>>) -> Option<Seq<u8>> {
    match o {
        Some(v) => Some(v@),
        None => None,
    }
}

/// What `url::Url::parse` and then `url::Url::to_file_path` give for the
/// text `url`: the raw bytes of the percent-decoded path, for a URL of any
/// scheme that has path segments and no host or the host `localhost` (so
/// `http://localhost/a.png` gives `/a.png`); `None` where the text is not a
/// URL, the URL has no path segments, or it names another host.
pub uninterp spec fn url_file_path(url: Seq<char>) -> Option<Seq<u8>>;

/// Parses `url` with `url::Url::parse` and converts it with
/// `url::Url::to_file_path`; the path is handed back as its raw bytes.
/// Claimed: the result is `url_file_path` of the text, a function of the
/// text alone (on the Unix targets the applet runs on).
#[verifier::external_body]
fn parse_file_url(url: &str) -> (r: Option<Vec<u8>>)
    ensures
        bytes_of(r) == url_file_path(url@),
{
    match url::Url::parse(url) {
        Ok(parsed) => match parsed.to_file_path() {
            Ok(path) => Some(path.into_os_string().into_encoded_bytes()),
            Err(()) => None,
        },
        Err(_) => None,
    }
}

/// The local path a `file://` URL names, if it is well formed.
pub open spec fn spec_file_url_to_path(url: Seq<char>) -> Option<Seq<u8>> {
    if valid_percent_encoding(utf8_bytes(url)) {
        url_file_path(url)
    } else {
        None
    }
}

/// The local path, as raw bytes, that a `file://` URL names; `None` for a
/// URL with a broken `%` escape, for a URL on another host than `localhost`
/// and for one without path segments.
pub fn file_url_to_path(url: &str) -> (r: Option<Vec<u8>>)
    ensures
        bytes_of(r) == spec_file_url_to_path(url@),
{
    if !has_valid_percent_encoding(url) {
        return None;
    }
    parse_file_url(url)
}

/// Where the cover of a track is to be found.
pub enum ArtworkSource {
    /// The track publishes no usable cover.
    NoArtwork,
    /// The cover is the local file at this path (raw bytes).
    Local(Vec<u8>),
    /// The cover is remote and may be downloaded from this URL.
    Remote(String),
}

/// Where the cover published as `art_url` is found: a `file://` URL names a
/// local file; otherwise an `https://` URL is downloaded into the cache.
pub open spec fn spec_artwork_source(art_url: Option<Seq<char>>) -> (Option<Seq<u8>>, Option<
    Seq<char>,
>) {
    match art_url {
        None => (None, None),
        Some(u) => match spec_file_url_to_path(u) {
            Some(path) => (Some(path), None),
            None => if spec_is_downloadable_art_url(u) {
                (None, Some(u))
            } else {
                (None, None)
            },
        },
    }
}

/// The local path and the remote URL an `ArtworkSource` names.
pub open spec fn artwork_parts(a: ArtworkSource) -> (Option<Seq<u8>>, Option<Seq<char>>) {
    match a {
        ArtworkSource::NoArtwork => (None, None),
        ArtworkSource::Local(p) => (Some(p@), None),
        ArtworkSource::Remote(u) => (None, Some(u@)),
    }
}

/// Where the cover published as `url` is found, given the local path that
/// the URL names (`path`, as `file_url_to_path` gives it): that local file
/// if there is one, else the URL itself if it may be downloaded, else none.
pub fn artwork_source(path: Option<Vec<u8>>, url: &str) -> (r: ArtworkSource)
    ensures
        match path {
            Some(p) => r == ArtworkSource::Local(p),
            None => if spec_is_downloadable_art_url(url@) {
                r matches ArtworkSource::Remote(u) && u@ == url@
            } else {
                r == ArtworkSource::NoArtwork
            },
        },
{
    match path {
        Some(p) => ArtworkSource::Local(p),
        None => if is_downloadable_art_url(url) {
            ArtworkSource::Remote(url.to_owned())
        } else {
            ArtworkSource::NoArtwork
        },
    }
}

/// Decides where the cover art a player publishes is to be found: players
/// may publish a local `file://` URL or a remote URL; remote art is only
/// fetched over HTTPS.
pub fn album_art_path_from_metadata(art_url: Option<&str>) -> (r: ArtworkSource)
    ensures
        artwork_parts(r) == spec_artwork_source(
            match art_url {
                Some(u) => Some(u@),
                None => None,
            },
        ),
{
    match art_url {
        None => ArtworkSource::NoArtwork,
        Some(url) => artwork_source(file_url_to_path(url), url),
    }
}

/// The text of an optional URL.
pub open spec fn url_text(art_url: Option<&str>) -> Option<Seq<char>> {
    match art_url {
        Some(u) => Some(u@),
        None => None,
    }
}

/// `r` is a local file that shows the cover published as `art_url`: the
/// file a `file://` URL names; for a URL that may be downloaded, what
/// `download` hands back for it; else none.
pub open spec fn is_cover_path<F: FnOnce(String) -> Option<Vec<u8>>>(
    art_url: Option<Seq<char>>,
    download: F,
    r: Option<Vec<u8>>,
) -> bool {
    match spec_artwork_source(art_url) {
        (Some(p), _) => bytes_of(r) == Some(p),
        (None, Some(u)) => exists|s: String| s@ == u && #[trigger] call_ensures(download, (s,), r),
        (None, None) => r is None,
    }
}

/// `a` is the cover found for `art_url` (see `is_cover_path`) with the
/// dimensions `measure` read of that very file, or none.
pub open spec fn is_track_artwork<
    F: FnOnce(String) -> Option<Vec<u8>>,
    G: FnOnce(&Vec<u8>) -> Option<(u32, u32)>,
>(
    art_url: Option<Seq<char>>,
    download: F,
    measure: G,
    a: Option<(Vec<u8>, Option<(u32, u32)>)>,
) -> bool {
    match a {
        None => is_cover_path(art_url, download, None),
        Some(x) => is_cover_path(art_url, download, Some(x.0)) && call_ensures(
            measure,
            (&x.0,),
            x.1,
        ),
    }
}

/// The local file that shows the cover published as `art_url`: the file a
/// `file://` URL names; else, for a URL that may be downloaded, what
/// `download` hands back for it (the cached copy, or `None` while it is
/// being fetched); else none.
pub fn cover_path<F: FnOnce(String) -> Option<Vec<u8>>>(art_url: Option<&str>, download: F) -> (r:
    Option<Vec<u8>>)
    requires
        forall|u: String| call_requires(download, (u,)),
    ensures
        is_cover_path(url_text(art_url), download, r),
{
    match album_art_path_from_metadata(art_url) {
        ArtworkSource::NoArtwork => None,
        ArtworkSource::Local(path) => Some(path),
        ArtworkSource::Remote(url) => {
            let ghost u = url;
            let r = download(url);
            assert(call_ensures(download, (u,), r));
            r
        },
    }
}

/// The cover of a track published as `art_url` (see `cover_path`), with the
/// dimensions that `measure` reads of that file.
pub fn track_artwork<
    F: FnOnce(String) -> Option<Vec<u8>>,
    G: FnOnce(&Vec<u8>) -> Option<(u32, u32)>,
>(art_url: Option<&str>, download: F, measure: G) -> (r: Option<(Vec<u8>, Option<(u32, u32)>)>)
    requires
        forall|u: String| call_requires(download, (u,)),
        forall|p: &Vec<u8>| call_requires(measure, (p,)),
    ensures
        is_track_artwork(url_text(art_url), download, measure, r),
{
    match cover_path(art_url, download) {
        None => None,
        Some(path) => {
            let dims = measure(&path);
            Some((path, dims))
        },
    }
}

/// At most this many covers are downloaded at a time.
pub const MAX_ART_DOWNLOADS: usize = 2;

/// A cover larger than this many bytes is not kept.
pub const MAX_ART_BYTES: u64 = 10 * 1024 * 1024;

/// A URL whose download failed is not tried again for this long.
pub const ART_RETRY_NANOS: u64 = 30 * 1_000_000_000;

/// How long a monotonic clock ran from `then` to `now`; zero if `now` is earlier.
pub open spec fn elapsed(now: u64, then: u64) -> int {
    if now >= then {
        now - then
    } else {
        0
    }
}

/// `d` is all ASCII decimal digits.
pub open spec fn all_digits(d: Seq<u8>) -> bool {
    forall|i: int| 0 <= i < d.len() ==> 48 <= #[trigger] d[i] <= 57
}

/// The number the decimal digits `d` denote.
pub open spec fn digits_value(d: Seq<u8>) -> int
    decreases d.len(),
{
    if d.len() == 0 {
        0
    } else {
        digits_value(d.drop_last()) * 10 + (d.last() - 48)
    }
}

/// The digits of an unsigned number: the text without one leading `+`.
pub open spec fn unsigned_digits(b: Seq<u8>) -> Seq<u8> {
    if b.len() > 0 && b[0] == 43 {
        b.drop_first()
    } else {
        b
    }
}

/// How `u64::from_str` reads `b`: an optional `+` and at least one digit,
/// within the range of `u64`.
pub open spec fn spec_parse_u64(b: Seq<u8>) -> Option<u64> {
    let d = unsigned_digits(b);
    if d.len() > 0 && all_digits(d) && digits_value(d) <= u64::MAX {
        Some(digits_value(d) as u64)
    } else {
        None
    }
}

proof fn lemma_digits_value_nonnegative(d: Seq<u8>)
    requires
        all_digits(d),
    ensures
        digits_value(d) >= 0,
    decreases d.len(),
{
    if d.len() > 0 {
        lemma_digits_value_nonnegative(d.drop_last());
    }
}

proof fn lemma_digits_value_grows(d: Seq<u8>, i: int)
    requires
        all_digits(d),
        0 <= i <= d.len(),
    ensures
        digits_value(d.take(i)) <= digits_value(d),
    decreases d.len(),
{
    if i < d.len() {
        assert(d.drop_last().take(i) =~= d.take(i));
        lemma_digits_value_grows(d.drop_last(), i);
        lemma_digits_value_nonnegative(d.drop_last());
    } else {
        assert(d.take(i) =~= d);
    }
}

/// Reads a `Content-Length` header value as `u64::from_str` does.
pub fn parse_content_length(value: &str) -> (r: Option<u64>)
    ensures
        r == spec_parse_u64(utf8_bytes(value@)),
{
    let b = value.as_bytes();
    let ghost d = unsigned_digits(b@);
    let start: usize = if b.len() > 0 && b[0] == 43 {
        1
    } else {
        0
    };
    assert(d =~= b@.skip(start as int));
    if b.len() <= start {
        return None;
    }
    let mut n: u64 = 0;
    let mut i: usize = start;
    while i < b.len()
        invariant
            start <= i <= b@.len(),
            b@ == utf8_bytes(value@),
            d == unsigned_digits(b@),
            d == b@.skip(start as int),
            d.len() > 0,
            all_digits(d.take(i - start)),
            n == digits_value(d.take(i - start)),
        decreases b@.len() - i,
    {
        let c = b[i];
        assert(d.take(i + 1 - start).drop_last() =~= d.take(i - start));
        assert(d[i - start] == c);
        if c < 48 || c > 57 {
            assert(!all_digits(d));
            return None;
        }
        match n.checked_mul(10) {
            None => {
                proof {
                    lemma_digits_value_nonnegative(d.take(i - start));
                    if all_digits(d) {
                        lemma_digits_value_grows(d, i + 1 - start);
                    }
                }
                return None;
            },
            Some(m) => match m.checked_add((c - 48) as u64) {
                None => {
                    proof {
                        if all_digits(d) {
                            lemma_digits_value_grows(d, i + 1 - start);
                        }
                    }
                    return None;
                },
                Some(v) => {
                    n = v;
                },
            },
        }
        i = i + 1;
    }
    assert(d.take(i - start) =~= d);
    Some(n)
}

/// A download may go on only if the announced length, if any, is within the limit.
pub open spec fn spec_length_allowed(content_length: Option<u64>) -> bool {
    match content_length {
        Some(n) => n <= MAX_ART_BYTES,
        None => true,
    }
}

/// Whether a response announcing `content_length` bytes may be downloaded.
pub fn content_length_allowed(content_length: Option<u64>) -> (r: bool)
    ensures
        r == spec_length_allowed(content_length),
{
    match content_length {
        Some(n) => n <= MAX_ART_BYTES,
        None => true,
    }
}

/// How many bytes a download reads at most: one more than the limit, so
/// that an oversized body is noticed.
pub fn download_read_limit() -> (r: u64)
    ensures
        r == MAX_ART_BYTES + 1,
{
    MAX_ART_BYTES + 1
}

/// Whether a download that copied `copied` bytes stayed within the limit.
pub fn download_within_limit(copied: u64) -> (r: bool)
    ensures
        r == (copied <= MAX_ART_BYTES),
{
    copied <= MAX_ART_BYTES
}

/// The URLs of the covers being downloaded: no URL twice, and never more
/// than `MAX_ART_DOWNLOADS` at a time.
pub struct ActiveDownloads {
    urls: Vec<String>,
}

/// No two items of `s` have equal views.
pub open spec fn distinct_texts(s: Seq<String>) -> bool {
    forall|i: int, j: int| 0 <= i < s.len() && 0 <= j < s.len() && i != j ==> #[trigger] s[i]@
        != #[trigger] s[j]@
}

/// The views of the items of `s`.
pub open spec fn texts(s: Seq<String>) -> Seq<Seq<char>> {
    s.map_values(|t: String| t@)
}

proof fn lemma_distinct_texts(s: Seq<String>)
    requires
        distinct_texts(s),
    ensures
        texts(s).no_duplicates(),
{
    assert forall|i: int, j: int|
        0 <= i < texts(s).len() && 0 <= j < texts(s).len() && i != j implies texts(s)[i]
        != texts(s)[j] by {
        assert(texts(s)[i] == s[i]@ && texts(s)[j] == s[j]@);
    }
}

impl ActiveDownloads {
    #[verifier::type_invariant]
    spec fn bounded_and_distinct(self) -> bool {
        &&& self.urls@.len() <= MAX_ART_DOWNLOADS
        &&& distinct_texts(self.urls@)
    }

    /// The URLs being downloaded.
    pub closed spec fn in_progress(self) -> Seq<Seq<char>> {
        texts(self.urls@)
    }

    /// No download in progress.
    pub fn new() -> (r: Self)
        ensures
            r.in_progress().len() == 0,
    {
        ActiveDownloads { urls: Vec::new() }
    }

    fn position(&self, url: &String) -> (r: Option<usize>)
        ensures
            match r {
                Some(i) => i < self.urls@.len() && self.urls@[i as int]@ == url@,
                None => !self.in_progress().contains(url@),
            },
    {
        let mut i: usize = 0;
        while i < self.urls.len()
            invariant
                i <= self.urls@.len(),
                forall|j: int| 0 <= j < i ==> #[trigger] self.urls@[j]@ != url@,
            decreases self.urls@.len() - i,
        {
            if self.urls[i] == *url {
                return Some(i);
            }
            i = i + 1;
        }
        proof {
            if self.in_progress().contains(url@) {
                let k = choose|k: int| 0 <= k < self.in_progress().len() && self.in_progress()[k] == url@;
                assert(self.urls@[k]@ == url@);
            }
        }
        None
    }

    /// Starts downloading `url` if fewer than `MAX_ART_DOWNLOADS` downloads
    /// run and `url` is not among them; says whether it started.
    pub fn try_start(&mut self, url: &String) -> (r: bool)
        ensures
            r == (old(self).in_progress().len() < MAX_ART_DOWNLOADS && !old(
                self,
            ).in_progress().contains(url@)),
            r ==> final(self).in_progress() == old(self).in_progress().push(url@),
            !r ==> final(self).in_progress() == old(self).in_progress(),
            final(self).in_progress().len() <= MAX_ART_DOWNLOADS,
            final(self).in_progress().no_duplicates(),
    {
        proof {
            use_type_invariant(&*self);
            lemma_distinct_texts(self.urls@);
        }
        if self.urls.len() >= MAX_ART_DOWNLOADS {
            return false;
        }
        if let Some(i) = self.position(url) {
            assert(self.in_progress()[i as int] == url@);
            return false;
        }
        let ghost before = self.urls@;
        let mut urls = Vec::new();
        std::mem::swap(&mut urls, &mut self.urls);
        urls.push(url.clone());
        proof {
            assert forall|i: int, j: int|
                0 <= i < urls@.len() && 0 <= j < urls@.len() && i != j implies #[trigger] urls@[i]@
                != #[trigger] urls@[j]@ by {
                if i == before.len() {
                    assert(before.map_values(|t: String| t@)[j] == before[j]@);
                } else if j == before.len() {
                    assert(before.map_values(|t: String| t@)[i] == before[i]@);
                }
            }
            lemma_distinct_texts(urls@);
        }
        self.urls = urls;
        assert(self.in_progress() =~= old(self).in_progress().push(url@));
        true
    }

    /// Marks the download of `url` as over, whichever way it ended.
    #[verifier::spinoff_prover]
    #[verifier::rlimit(40)]
    pub fn finish(&mut self, url: &String)
        ensures
            final(self).in_progress() == old(self).in_progress().remove_value(url@),
            final(self).in_progress().len() <= MAX_ART_DOWNLOADS,
            final(self).in_progress().no_duplicates(),
    {
        proof {
            use_type_invariant(&*self);
            lemma_distinct_texts(self.urls@);
        }
        match self.position(url) {
            None => {
                proof {
                    old(self).in_progress().index_of_first_ensures(url@);
                }
            },
            Some(i) => {
                let ghost before = self.urls@;
                let mut urls = Vec::new();
                std::mem::swap(&mut urls, &mut self.urls);
                urls.remove(i);
                proof {
                    let t = texts(before);
                    assert(t.index_of_first(url@) == Some(i as int)) by {
                        assert(t[i as int] == url@);
                        let first = t.index_of_first(url@);
                        t.index_of_first_ensures(url@);
                        if first is Some && first->0 != i as int {
                            assert(before[first->0]@ == url@);
                        }
                    }
                    assert(texts(urls@) =~= t.remove(i as int));
                    assert forall|a: int, b: int|
                        0 <= a < urls@.len() && 0 <= b < urls@.len() && a != b implies #[trigger] urls@[a]@
                        != #[trigger] urls@[b]@ by {
                        let a0 = if a < i { a } else { a + 1 };
                        let b0 = if b < i { b } else { b + 1 };
                        assert(urls@[a] == before[a0] && urls@[b] == before[b0]);
                    }
                    lemma_distinct_texts(urls@);
                }
                self.urls = urls;
            },
        }
    }
}

/// The URLs whose download failed, with the moment of the last failure.
pub struct FailedDownloads {
    entries: Vec<(String, u64)>,
}

impl FailedDownloads {
    #[verifier::type_invariant]
    spec fn distinct_urls(self) -> bool {
        forall|i: int, j: int|
            0 <= i < self.entries@.len() && 0 <= j < self.entries@.len() && i != j
                ==> #[trigger] self.entries@[i].0@ != #[trigger] self.entries@[j].0@
    }

    /// The moment of the last failed download of each URL.
    pub closed spec fn failures(self) -> Map<Seq<char>, u64> {
        Map::new(
            |u: Seq<char>| exists|i: int| 0 <= i < self.entries@.len() && #[trigger] self.entries@[i].0@ == u,
            |u: Seq<char>| self.entries@[choose|i: int| 0 <= i < self.entries@.len() && #[trigger] self.entries@[i].0@ == u].1,
        )
    }

    /// No failure recorded.
    pub fn new() -> (r: Self)
        ensures
            r.failures() == Map::<Seq<char>, u64>::empty(),
    {
        let r = FailedDownloads { entries: Vec::new() };
        assert(r.failures() =~= Map::<Seq<char>, u64>::empty());
        r
    }

    /// Whether the download of `url` failed less than `ART_RETRY_NANOS` before `now`.
    pub fn recently_failed(&self, url: &String, now: u64) -> (r: bool)
        ensures
            r == (self.failures().dom().contains(url@) && elapsed(now, self.failures()[url@])
                < ART_RETRY_NANOS),
    {
        proof {
            use_type_invariant(self);
        }
        match self.position_in(&self.entries, url) {
            None => false,
            Some(i) => {
                proof {
                    let k = choose|k: int| 0 <= k < self.entries@.len() && #[trigger] self.entries@[k].0@ == url@;
                    assert(k == i);
                }
                let then = self.entries[i].1;
                if now >= then {
                    now - then < ART_RETRY_NANOS
                } else {
                    true
                }
            },
        }
    }

    /// Records that the download of `url` failed at `now`.
    pub fn record_failure(&mut self, url: &String, now: u64)
        ensures
            final(self).failures() == old(self).failures().insert(url@, now),
    {
        proof {
            use_type_invariant(&*self);
        }
        let ghost before = self.entries@;
        let mut entries = Vec::new();
        std::mem::swap(&mut entries, &mut self.entries);
        let ghost idx: int;
        match self.position_in(&entries, url) {
            Some(i) => {
                entries.set(i, (url.clone(), now));
                proof {
                    idx = i as int;
                }
            },
            None => {
                entries.push((url.clone(), now));
                proof {
                    idx = before.len() as int;
                }
            },
        }
        assert(entries@[idx].0@ == url@ && entries@[idx].1 == now);
        assert(forall|k: int| 0 <= k < entries@.len() && k != idx ==> entries@[k] == before[k]);
        assert(forall|k: int| 0 <= k < before.len() && k != idx ==> entries@[k] == before[k]);
        assert(forall|k: int| 0 <= k < before.len() && k != idx ==> before[k].0@ != url@);
        proof {
            assert forall|a: int, b: int|
                0 <= a < entries@.len() && 0 <= b < entries@.len() && a != b implies #[trigger] entries@[a].0@
                != #[trigger] entries@[b].0@ by {
                if a != idx && b != idx {
                    assert(entries@[a] == before[a] && entries@[b] == before[b]);
                }
            }
        }
        self.entries = entries;
        proof {
            let m = self.failures();
            let o = old(self).failures();
            let e = self.entries@;
            assert forall|u: Seq<char>| #[trigger] m.dom().contains(u) == o.insert(url@, now).dom().contains(u) by {
                if u == url@ {
                    assert(e[idx].0@ == u);
                } else {
                    if o.dom().contains(u) {
                        let k = choose|k: int| 0 <= k < before.len() && #[trigger] before[k].0@ == u;
                        assert(e[k].0@ == u);
                    }
                    if m.dom().contains(u) {
                        let k = choose|k: int| 0 <= k < e.len() && #[trigger] e[k].0@ == u;
                        assert(k != idx);
                        assert(before[k].0@ == u);
                    }
                }
            }
            assert forall|u: Seq<char>| #[trigger] m.dom().contains(u) implies m[u] == o.insert(url@, now)[u] by {
                let k = choose|k: int| 0 <= k < e.len() && #[trigger] e[k].0@ == u;
                if u == url@ {
                    assert(e[idx].0@ == u);
                    assert(k == idx);
                } else {
                    assert(k != idx);
                    assert(before[k].0@ == u);
                    let k0 = choose|k: int| 0 <= k < before.len() && #[trigger] before[k].0@ == u;
                    assert(k0 == k);
                }
            }
            assert(m =~= o.insert(url@, now));
        }
    }

    fn position_in(&self, entries: &Vec<(String, u64)>, url: &String) -> (r: Option<usize>)
        ensures
            match r {
                Some(i) => i < entries@.len() && entries@[i as int].0@ == url@,
                None => forall|j: int| 0 <= j < entries@.len() ==> #[trigger] entries@[j].0@ != url@,
            },
    {
        let mut i: usize = 0;
        while i < entries.len()
            invariant
                i <= entries@.len(),
                forall|j: int| 0 <= j < i ==> #[trigger] entries@[j].0@ != url@,
            decreases entries@.len() - i,
        {
            if entries[i].0 == *url {
                return Some(i);
            }
            i = i + 1;
        }
        None
    }
}

/// What becomes of a cover that may be downloaded.
#[derive(Clone, Copy, Debug, PartialEq, Eq, Structural)]
pub enum DownloadStart {
    /// The cover is already in the cache: use that file.
    UseCached,
    /// Its last download failed too recently: try again later.
    RecentlyFailed,
    /// It is being downloaded, or too many downloads run: wait.
    Busy,
    /// A download of it starts now.
    Start,
}

/// What becomes of the cover at `url` at `now`: the cached file if there is one;
/// else nothing while its last failure is less than `ART_RETRY_NANOS` old;
/// else a new download, if fewer than `MAX_ART_DOWNLOADS` run and none of
/// them is for `url`.
pub open spec fn spec_download_start(
    cached: bool,
    failures: Map<Seq<char>, u64>,
    active: Seq<Seq<char>>,
    url: Seq<char>,
    now: u64,
) -> DownloadStart {
    if cached {
        DownloadStart::UseCached
    } else if failures.dom().contains(url) && elapsed(now, failures[url]) < ART_RETRY_NANOS {
        DownloadStart::RecentlyFailed
    } else if active.len() < MAX_ART_DOWNLOADS && !active.contains(url) {
        DownloadStart::Start
    } else {
        DownloadStart::Busy
    }
}

/// The state shared by the cover downloads: the ones in progress and the
/// last failure of each URL.
pub struct CoverDownloads {
    pub active: ActiveDownloads,
    pub failures: FailedDownloads,
}

impl CoverDownloads {
    /// No download in progress and no failure recorded.
    pub fn new() -> (r: Self)
        ensures
            r.active.in_progress().len() == 0,
            r.failures.failures() == Map::<Seq<char>, u64>::empty(),
    {
        CoverDownloads { active: ActiveDownloads::new(), failures: FailedDownloads::new() }
    }

    /// Decides whether the cover at `url` is taken from the cache (`cached`:
    /// its cache file exists), skipped for now, or downloaded; a download
    /// that starts is counted as in progress.
    pub fn begin(&mut self, url: &String, cached: bool, now: u64) -> (r: DownloadStart)
        ensures
            r == spec_download_start(
                cached,
                old(self).failures.failures(),
                old(self).active.in_progress(),
                url@,
                now,
            ),
            r == DownloadStart::Start ==> final(self).active.in_progress() == old(
                self,
            ).active.in_progress().push(url@),
            r != DownloadStart::Start ==> final(self).active.in_progress() == old(
                self,
            ).active.in_progress(),
            final(self).failures.failures() == old(self).failures.failures(),
            final(self).active.in_progress().len() <= MAX_ART_DOWNLOADS,
            final(self).active.in_progress().no_duplicates(),
    {
        proof {
            use_type_invariant(&self.active);
            lemma_distinct_texts(self.active.urls@);
        }
        if cached {
            return DownloadStart::UseCached;
        }
        if self.failures.recently_failed(url, now) {
            return DownloadStart::RecentlyFailed;
        }
        if self.active.try_start(url) {
            DownloadStart::Start
        } else {
            DownloadStart::Busy
        }
    }

    /// Ends the download of `url`: it no longer counts as in progress, and a
    /// failed one is recorded as failed at `now`.
    pub fn finish(&mut self, url: &String, succeeded: bool, now: u64)
        ensures
            final(self).active.in_progress() == old(self).active.in_progress().remove_value(url@),
            final(self).failures.failures() == if succeeded {
                old(self).failures.failures()
            } else {
                old(self).failures.failures().insert(url@, now)
            },
            final(self).active.in_progress().len() <= MAX_ART_DOWNLOADS,
            final(self).active.in_progress().no_duplicates(),
    {
        if !succeeded {
            self.failures.record_failure(url, now);
        }
        self.active.finish(url);
    }
}

/// Whether a download whose body copy answered `copied` is kept (`kept`):
/// only a copy of at most `MAX_ART_BYTES` is moved into place, and then it
/// is kept as `keep` says.
pub open spec fn kept_after_copy<Keep: FnOnce() -> bool>(
    copied: Option<u64>,
    keep: Keep,
    kept: bool,
) -> bool {
    match copied {
        Some(n) => if n <= MAX_ART_BYTES {
            call_ensures(keep, (), kept)
        } else {
            !kept
        },
        None => !kept,
    }
}

/// Whether a download whose request answered `fetched` is kept (`kept`): a
/// failed request, or a response announcing more than `MAX_ART_BYTES`, is
/// not; otherwise the body is copied by `copy`, limited to
/// `MAX_ART_BYTES + 1` bytes, and `kept_after_copy` decides.
pub open spec fn kept_after_fetch<
    R,
    CopyBody: FnOnce(R, u64) -> Option<u64>,
    Keep: FnOnce() -> bool,
>(fetched: Option<(R, Option<u64>)>, copy: CopyBody, keep: Keep, kept: bool) -> bool {
    match fetched {
        None => !kept,
        Some(f) => if !spec_length_allowed(f.1) {
            !kept
        } else {
            exists|copied: Option<u64>|
                #[trigger] call_ensures(copy, (f.0, (MAX_ART_BYTES + 1) as u64), copied)
                    && kept_after_copy(copied, keep, kept)
        },
    }
}

/// Downloads a cover into its cache file. `fetch` sends the request and
/// hands back the response with the length it announces; a response that
/// announces more than `MAX_ART_BYTES` is dropped; otherwise `copy` copies
/// at most `download_read_limit()` bytes of the body into the partial file
/// and says how many it copied; a body within `MAX_ART_BYTES` is moved into
/// place by `keep`, and is kept if that succeeds. Whenever the cover is not
/// kept, `discard` removes the partial file. Says whether the cover was kept.
pub fn fetch_cover<
    R,
    Fetch: FnOnce() -> Option<(R, Option<u64>)>,
    CopyBody: FnOnce(R, u64) -> Option<u64>,
    Keep: FnOnce() -> bool,
    Discard: FnOnce(),
>(fetch: Fetch, copy: CopyBody, keep: Keep, discard: Discard) -> (kept: bool)
    requires
        call_requires(fetch, ()),
        forall|response: R, limit: u64| call_requires(copy, (response, limit)),
        call_requires(keep, ()),
        call_requires(discard, ()),
    ensures
        exists|fetched: Option<(R, Option<u64>)>|
            #[trigger] call_ensures(fetch, (), fetched) && kept_after_fetch(
                fetched,
                copy,
                keep,
                kept,
            ),
        !kept ==> call_ensures(discard, (), ()),
{
    let fetched = fetch();
    let ghost whole = fetched;
    let kept = match fetched {
        None => false,
        Some((response, length)) => {
            if !content_length_allowed(length) {
                false
            } else {
                let ghost body = response;
                let copied = copy(response, download_read_limit());
                let ghost answer = copied;
                let k = match copied {
                    None => false,
                    Some(n) => {
                        if download_within_limit(n) {
                            keep()
                        } else {
                            false
                        }
                    },
                };
                proof {
                    assert((whole->0).0 == body);
                    assert(call_ensures(copy, (body, (MAX_ART_BYTES + 1) as u64), answer));
                    assert(kept_after_copy(answer, keep, k));
                }
                k
            }
        },
    };
    proof {
        assert(call_ensures(fetch, (), whole));
        assert(kept_after_fetch(whole, copy, keep, kept));
    }
    if !kept {
        discard();
    }
    kept
}

/// A download starts only for a URL that is not cached,
/// has not failed within the last `ART_RETRY_NANOS` and is not being
/// downloaded, and only while fewer than `MAX_ART_DOWNLOADS` run; so at
/// most `MAX_ART_DOWNLOADS` downloads run, at most one per URL.
pub proof fn law_downloads_are_limited(
    cached: bool,
    failures: Map<Seq<char>, u64>,
    active: Seq<Seq<char>>,
    url: Seq<char>,
    now: u64,
)
    requires
        active.len() <= MAX_ART_DOWNLOADS,
        active.no_duplicates(),
    ensures
        spec_download_start(cached, failures, active, url, now) == DownloadStart::Start ==> {
            &&& !cached
            &&& !(failures.dom().contains(url) && elapsed(now, failures[url]) < ART_RETRY_NANOS)
            &&& active.push(url).len() <= MAX_ART_DOWNLOADS
            &&& active.push(url).no_duplicates()
        },
{
    if spec_download_start(cached, failures, active, url, now) == DownloadStart::Start {
        let s = active.push(url);
        assert forall|i: int, j: int| 0 <= i < s.len() && 0 <= j < s.len() && i != j implies s[i]
            != s[j] by {
            if i == active.len() {
                assert(active[j] == s[j]);
            } else if j == active.len() {
                assert(active[i] == s[i]);
            }
        }
    }
}

/// Only a URL whose text begins with the bytes of `https://` is downloaded.
pub proof fn law_only_https_is_downloaded(url: Seq<char>)
    ensures
        spec_is_downloadable_art_url(url) <==> starts_with_bytes(
            utf8_bytes(url),
            seq![104u8, 116u8, 116u8, 112u8, 115u8, 58u8, 47u8, 47u8],
        ),
{
    reveal_strlit("https://");
    assert(ascii_bytes("https://"@) =~= seq![104u8, 116u8, 116u8, 112u8, 115u8, 58u8, 47u8, 47u8]);
}

/// The cached copy keeps the URL path's extension when it is `.png`,
/// `.webp` or `.jpeg` in any case (the query aside), and is a `jpg` file
/// otherwise.
pub proof fn law_image_extensions(url: Seq<char>)
    ensures
        ({
            let path = lowercase_bytes(before_query(utf8_bytes(url)));
            let png = seq![46u8, 112u8, 110u8, 103u8];
            let webp = seq![46u8, 119u8, 101u8, 98u8, 112u8];
            let jpeg = seq![46u8, 106u8, 112u8, 101u8, 103u8];
            &&& ends_with_bytes(path, png) ==> spec_image_extension(url) == "png"@
            &&& !ends_with_bytes(path, png) && ends_with_bytes(path, webp) ==> spec_image_extension(
                url,
            ) == "webp"@
            &&& !ends_with_bytes(path, png) && !ends_with_bytes(path, webp) && ends_with_bytes(
                path,
                jpeg,
            ) ==> spec_image_extension(url) == "jpeg"@
            &&& !ends_with_bytes(path, png) && !ends_with_bytes(path, webp) && !ends_with_bytes(
                path,
                jpeg,
            ) ==> spec_image_extension(url) == "jpg"@
        }),
{
    reveal_strlit(".png");
    reveal_strlit(".webp");
    reveal_strlit(".jpeg");
    assert(ascii_bytes(".png"@) =~= seq![46u8, 112u8, 110u8, 103u8]);
    assert(ascii_bytes(".webp"@) =~= seq![46u8, 119u8, 101u8, 98u8, 112u8]);
    assert(ascii_bytes(".jpeg"@) =~= seq![46u8, 106u8, 112u8, 101u8, 103u8]);
}

/// The download limits: at most 2 downloads at a time, a body of at most
/// 10 MiB (an announced length beyond it is refused, no length is no
/// objection), and 30 seconds before a failed URL is tried again.
pub proof fn law_download_limits(length: u64)
    ensures
        MAX_ART_DOWNLOADS == 2,
        MAX_ART_BYTES == 10_485_760,
        ART_RETRY_NANOS == 30_000_000_000,
        spec_length_allowed(Some(length)) <==> length <= 10_485_760,
        spec_length_allowed(None),
{
}

/// A URL whose download failed is retried exactly once 30 seconds have
/// passed since the failure, and not before.
pub proof fn law_retry_after_thirty_seconds(
    failures: Map<Seq<char>, u64>,
    active: Seq<Seq<char>>,
    url: Seq<char>,
    failed_at: u64,
    now: u64,
)
    requires
        failed_at <= now,
        active.len() == 0,
    ensures
        spec_download_start(false, failures.insert(url, failed_at), active, url, now) == (if now
            - failed_at < 30_000_000_000 {
            DownloadStart::RecentlyFailed
        } else {
            DownloadStart::Start
        }),
{
}

} // verus!
