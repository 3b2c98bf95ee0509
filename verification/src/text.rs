//! Byte-level text helpers: ASCII case folding, substring tests and
//! decimal rendering, each specified over the UTF-8 bytes of a string.

use vstd::prelude::*;

verus! {

broadcast use vstd::string::group_string_axioms;

/// The UTF-8 bytes of a string given by its characters.
pub open spec fn utf8_bytes(s: Seq<char>) -> Seq<u8> {
    vstd::utf8::encode_utf8(s)
}

/// The bytes of an ASCII-only text, one per character.
pub open spec fn ascii_bytes(s: Seq<char>) -> Seq<u8> {
    s.map_values(|c: char| c as u8)
}

/// ASCII lower-casing of one byte; every other byte is kept.
pub open spec fn ascii_lower(b: u8) -> u8 {
    if 65 <= b <= 90 {
        (b + 32) as u8
    } else {
        b
    }
}

/// ASCII lower-casing of a byte string, byte by byte.
pub open spec fn lowercase_bytes(s: Seq<u8>) -> Seq<u8> {
    s.map_values(|b: u8| ascii_lower(b))
}

/// `needle` stands in `hay` starting at index `i`.
pub open spec fn occurs_at(hay: Seq<u8>, needle: Seq<u8>, i: int) -> bool {
    &&& 0 <= i
    &&& i + needle.len() <= hay.len()
    &&& hay.subrange(i, i + needle.len()) == needle
}

/// `needle` stands somewhere in `hay`.
pub open spec fn contains_bytes(hay: Seq<u8>, needle: Seq<u8>) -> bool {
    exists|i: int| occurs_at(hay, needle, i)
}

/// `s` begins with `prefix`.
pub open spec fn starts_with_bytes(s: Seq<u8>, prefix: Seq<u8>) -> bool {
    occurs_at(s, prefix, 0)
}

/// `s` ends with `suffix`.
pub open spec fn ends_with_bytes(s: Seq<u8>, suffix: Seq<u8>) -> bool {
    occurs_at(s, suffix, s.len() - suffix.len())
}

/// The bytes of an ASCII string literal.
pub fn literal_bytes(s: &str) -> (b: &[u8])
    requires
        vstd::string::is_ascii(s),
    ensures
        b@ == ascii_bytes(s@),
        b@ == utf8_bytes(s@),
{
    let b = s.as_bytes();
    assert(b@ =~= ascii_bytes(s@));
    b
}

/// Byte-wise ASCII lower-casing.
pub fn to_ascii_lower(b: u8) -> (r: u8)
    ensures
        r == ascii_lower(b),
{
    if 65 <= b && b <= 90 {
        b + 32
    } else {
        b
    }
}

/// Whether `needle` occurs at `start` in the ASCII lower-cased `hay`.
fn occurs_lowered_at(hay: &[u8], needle: &[u8], start: usize) -> (r: bool)
    requires
        start + needle@.len() <= hay@.len(),
    ensures
        r == occurs_at(lowercase_bytes(hay@), needle@, start as int),
{
    let n = hay.len();
    let mut j: usize = 0;
    while j < needle.len()
        invariant
            start + needle@.len() <= hay@.len(),
            n == hay@.len(),
            j <= needle@.len(),
            forall|k: int| 0 <= k < j ==> ascii_lower(hay@[start + k]) == needle@[k],
        decreases needle@.len() - j,
    {
        if to_ascii_lower(hay[start + j]) != needle[j] {
            assert(lowercase_bytes(hay@).subrange(start as int, start + needle@.len())[j as int]
                != needle@[j as int]);
            return false;
        }
        j = j + 1;
    }
    assert(lowercase_bytes(hay@).subrange(start as int, start + needle@.len()) =~= needle@);
    true
}

/// Whether `needle` occurs in `hay` once `hay` is ASCII lower-cased.
pub fn contains_ignoring_ascii_case(hay: &[u8], needle: &[u8]) -> (r: bool)
    ensures
        r == contains_bytes(lowercase_bytes(hay@), needle@),
{
    if needle.len() > hay.len() {
        assert forall|i: int| !occurs_at(lowercase_bytes(hay@), needle@, i) by {}
        return false;
    }
    let last = hay.len() - needle.len();
    let mut i: usize = 0;
    while i <= last
        invariant_except_break
            i <= last,
        invariant
            last + needle@.len() == hay@.len(),
            forall|k: int| 0 <= k < i ==> !occurs_at(lowercase_bytes(hay@), needle@, k),
        ensures
            i == last,
            forall|k: int| 0 <= k < i ==> !occurs_at(lowercase_bytes(hay@), needle@, k),
            !occurs_at(lowercase_bytes(hay@), needle@, last as int),
        decreases last - i,
    {
        if occurs_lowered_at(hay, needle, i) {
            return true;
        }
        if i == last {
            break;
        }
        i = i + 1;
    }
    assert forall|k: int| !occurs_at(lowercase_bytes(hay@), needle@, k) by {
        if 0 <= k <= i {
        }
    }
    false
}


/// The character of the decimal digit `d`.
pub open spec fn digit_char(d: nat) -> char {
    (48 + d) as char
}

/// The decimal rendering of `n`, without sign or leading zeros.
pub open spec fn decimal(n: nat) -> Seq<char>
    decreases n,
{
    if n < 10 {
        seq![digit_char(n)]
    } else {
        decimal(n / 10).push(digit_char(n % 10))
    }
}

/// The decimal rendering of `n` padded with zeros to two digits.
pub open spec fn two_digits(n: nat) -> Seq<char> {
    seq![digit_char(n / 10), digit_char(n % 10)]
}

/// The one-character string of the decimal digit `d`.
fn digit_str(d: u64) -> (r: &'static str)
    requires
        d < 10,
    ensures
        r@ == seq![digit_char(d as nat)],
{
    proof {
        reveal_strlit("0");
        reveal_strlit("1");
        reveal_strlit("2");
        reveal_strlit("3");
        reveal_strlit("4");
        reveal_strlit("5");
        reveal_strlit("6");
        reveal_strlit("7");
        reveal_strlit("8");
        reveal_strlit("9");
    }
    let r = if d == 0 {
        "0"
    } else if d == 1 {
        "1"
    } else if d == 2 {
        "2"
    } else if d == 3 {
        "3"
    } else if d == 4 {
        "4"
    } else if d == 5 {
        "5"
    } else if d == 6 {
        "6"
    } else if d == 7 {
        "7"
    } else if d == 8 {
        "8"
    } else {
        "9"
    };
    assert(r@ =~= seq![digit_char(d as nat)]);
    r
}

/// Appends the decimal rendering of `n` to `out`.
pub fn push_decimal(out: &mut String, n: u64)
    ensures
        final(out)@ == old(out)@ + decimal(n as nat),
    decreases n,
{
    if n >= 10 {
        push_decimal(out, n / 10);
    }
    out.append(digit_str(n % 10));
    assert(final(out)@ =~= old(out)@ + decimal(n as nat));
}

/// Appends `n`, which is below 100, as two decimal digits.
pub fn push_two_digits(out: &mut String, n: u64)
    requires
        n < 100,
    ensures
        final(out)@ == old(out)@ + two_digits(n as nat),
{
    out.append(digit_str(n / 10));
    out.append(digit_str(n % 10));
    assert(final(out)@ =~= old(out)@ + two_digits(n as nat));
}

/// `i` is the first index of `s` whose item satisfies `pred`.
pub open spec fn is_first_match<A>(s: Seq<A>, pred: spec_fn(A) -> bool, i: int) -> bool {
    &&& 0 <= i < s.len()
    &&& pred(s[i])
    &&& forall|j: int| 0 <= j < i ==> !pred(#[trigger] s[j])
}

/// The first item of `s` that satisfies `pred`, if any.
pub open spec fn first_match<A>(s: Seq<A>, pred: spec_fn(A) -> bool) -> Option<A> {
    if exists|i: int| is_first_match(s, pred, i) {
        Some(s[choose|i: int| is_first_match(s, pred, i)])
    } else {
        None
    }
}

/// A first match is unique, so `first_match` gives the item at any first-match index.
pub proof fn lemma_first_match_at<A>(s: Seq<A>, pred: spec_fn(A) -> bool, i: int)
    requires
        is_first_match(s, pred, i),
    ensures
        first_match(s, pred) == Some(s[i]),
{
    let k = choose|k: int| is_first_match(s, pred, k);
    assert(is_first_match(s, pred, k));
    if k < i {
        assert(!pred(s[k]));
    } else if i < k {
        assert(!pred(s[i]));
    }
}

/// With no item satisfying `pred`, there is no first match.
pub proof fn lemma_first_match_none<A>(s: Seq<A>, pred: spec_fn(A) -> bool)
    requires
        forall|j: int| 0 <= j < s.len() ==> !pred(#[trigger] s[j]),
    ensures
        first_match(s, pred) is None,
{
    assert(!exists|i: int| is_first_match(s, pred, i));
}

/// `s` begins with `prefix`.
pub fn starts_with(s: &[u8], prefix: &[u8]) -> (r: bool)
    ensures
        r == starts_with_bytes(s@, prefix@),
{
    if prefix.len() > s.len() {
        return false;
    }
    let mut j: usize = 0;
    while j < prefix.len()
        invariant
            prefix@.len() <= s@.len(),
            j <= prefix@.len(),
            forall|k: int| 0 <= k < j ==> s@[k] == prefix@[k],
        decreases prefix@.len() - j,
    {
        if s[j] != prefix[j] {
            assert(s@.subrange(0, prefix@.len() as int)[j as int] != prefix@[j as int]);
            return false;
        }
        j = j + 1;
    }
    assert(s@.subrange(0, prefix@.len() as int) =~= prefix@);
    true
}

/// Whether the ASCII lower-cased first `end` bytes of `hay` end with `suffix`.
pub fn ends_with_ignoring_ascii_case(hay: &[u8], end: usize, suffix: &[u8]) -> (r: bool)
    requires
        end <= hay@.len(),
    ensures
        r == ends_with_bytes(lowercase_bytes(hay@.take(end as int)), suffix@),
{
    let ghost cut = lowercase_bytes(hay@.take(end as int));
    if suffix.len() > end {
        return false;
    }
    let start = end - suffix.len();
    let mut j: usize = 0;
    while j < suffix.len()
        invariant
            start + suffix@.len() == end,
            end <= hay@.len(),
            cut == lowercase_bytes(hay@.take(end as int)),
            j <= suffix@.len(),
            forall|k: int| 0 <= k < j ==> ascii_lower(hay@[start + k]) == suffix@[k],
        decreases suffix@.len() - j,
    {
        if to_ascii_lower(hay[start + j]) != suffix[j] {
            assert(cut.subrange(start as int, end as int)[j as int] != suffix@[j as int]);
            return false;
        }
        j = j + 1;
    }
    assert(cut.subrange(start as int, end as int) =~= suffix@);
    true
}


/// An item satisfying `pred` at index `i` means a first match at `i` or before.
pub proof fn lemma_first_match_exists<A>(s: Seq<A>, pred: spec_fn(A) -> bool, i: int)
    requires
        0 <= i < s.len(),
        pred(s[i]),
    ensures
        exists|k: int| 0 <= k <= i && is_first_match(s, pred, k),
        first_match(s, pred) is Some,
    decreases i,
{
    if exists|j: int| 0 <= j < i && pred(#[trigger] s[j]) {
        let j = choose|j: int| 0 <= j < i && pred(#[trigger] s[j]);
        lemma_first_match_exists(s, pred, j);
        let k = choose|k: int| 0 <= k <= j && is_first_match(s, pred, k);
        lemma_first_match_at(s, pred, k);
    } else {
        assert(is_first_match(s, pred, i));
        lemma_first_match_at(s, pred, i);
    }
}


/// Every character of a decimal rendering is a digit.
pub proof fn lemma_decimal_digits(n: nat)
    ensures
        forall|i: int| 0 <= i < decimal(n).len() ==> '0' <= #[trigger] decimal(n)[i] <= '9',
    decreases n,
{
    let last = digit_char(n % 10);
    assert(last as u32 == 48 + n % 10);
    assert('0' <= last <= '9');
    if n >= 10 {
        lemma_decimal_digits(n / 10);
        assert forall|i: int| 0 <= i < decimal(n).len() implies '0' <= #[trigger] decimal(n)[i]
            <= '9' by {
            if i < decimal(n / 10).len() {
                assert(decimal(n)[i] == decimal(n / 10)[i]);
            }
        }
    }
}

/// The number that the decimal digits `s` denote.
pub open spec fn decimal_value(s: Seq<char>) -> int
    decreases s.len(),
{
    if s.len() == 0 {
        0
    } else {
        decimal_value(s.drop_last()) * 10 + (s.last() as int - 48)
    }
}

/// A decimal rendering reads back as its number, and has no leading zero.
pub proof fn lemma_decimal_reads_back(n: nat)
    ensures
        decimal_value(decimal(n)) == n,
        decimal(n).len() >= 1,
        n >= 10 ==> decimal(n).len() > 1,
        decimal(n).len() > 1 ==> decimal(n)[0] != '0',
    decreases n,
{
    let last = digit_char(n % 10);
    assert(last as u32 == 48 + n % 10);
    assert(last as int == 48 + n % 10);
    if n >= 10 {
        lemma_decimal_reads_back(n / 10);
        assert(decimal(n).drop_last() =~= decimal(n / 10));
        assert(decimal(n).last() == last);
        assert(decimal(n)[0] == decimal(n / 10)[0]);
        assert(n == (n / 10) * 10 + n % 10);
        assert(decimal_value(decimal(n)) == decimal_value(decimal(n / 10)) * 10 + (last as int - 48));
        if n / 10 < 10 {
            assert(decimal(n / 10) == seq![digit_char(n / 10)]);
            assert(digit_char(n / 10) as u32 == 48 + n / 10);
        }
    } else {
        assert(decimal(n) == seq![last]);
        assert(seq![last].drop_last() =~= Seq::<char>::empty());
        assert(seq![last].last() == last);
        assert(decimal_value(seq![last]) == decimal_value(Seq::<char>::empty()) * 10 + (last as int - 48));
    }
}

} // verus!
