use std::cell::Cell;
use cosmic_ext_applet_now_playing::artwork::{
    album_art_path_from_metadata, artwork_source, cache_file_name, cover_path, fetch_cover,
    track_artwork, content_length_allowed, download_read_limit,
    download_within_limit, file_url_to_path, has_valid_percent_encoding, image_extension,
    is_downloadable_art_url, parse_content_length, partial_file_name, stable_url_hash,
    ActiveDownloads, ArtworkSource, CoverDownloads, DownloadStart, FailedDownloads, ART_RETRY_NANOS, MAX_ART_BYTES,
};

fn path(text: &str) -> Option<Vec<u8>> {
    Some(text.as_bytes().to_vec())
}

#[test]
fn parses_file_url_paths() {
    assert_eq!(
        file_url_to_path("file:///home/user/Music/Album%20Art.png"),
        path("/home/user/Music/Album Art.png")
    );
}

#[test]
fn handles_localhost_and_unicode_file_urls() {
    assert_eq!(
        file_url_to_path("file://localhost/home/user/M%C3%BAsica.png"),
        path("/home/user/Música.png")
    );
    assert_eq!(
        file_url_to_path("file://example.com/home/user/cover.png"),
        None
    );
}

#[test]
fn ignores_non_file_urls() {
    assert_eq!(file_url_to_path("https://example.com/cover.png"), None);
}

#[test]
fn rejects_malformed_file_urls() {
    assert_eq!(file_url_to_path("file:///Music/cover%ZZ.png"), None);
}

#[test]
fn chooses_a_safe_cache_extension() {
    assert_eq!(
        image_extension("https://example.com/cover.webp?size=640"),
        "webp"
    );
    assert_eq!(image_extension("https://example.com/cover"), "jpg");
}

#[test]
fn downloads_only_secure_remote_artwork() {
    assert!(is_downloadable_art_url("https://example.com/cover.jpg"));
    assert!(!is_downloadable_art_url("http://example.com/cover.jpg"));
    assert!(!is_downloadable_art_url("file:///tmp/cover.jpg"));
}

#[test]
fn extension_ignores_case_and_query() {
    assert_eq!(image_extension("https://example.com/COVER.PNG"), "png");
    assert_eq!(image_extension("https://example.com/a.jpeg?x=.png"), "jpeg");
    assert_eq!(image_extension("https://example.com/a.png?"), "png");
    assert_eq!(image_extension("https://example.com/a.gif"), "jpg");
    assert_eq!(image_extension(""), "jpg");
}

#[test]
fn percent_escapes_must_be_complete() {
    assert!(has_valid_percent_encoding(""));
    assert!(has_valid_percent_encoding("a%20b%fF"));
    assert!(!has_valid_percent_encoding("%"));
    assert!(!has_valid_percent_encoding("%2"));
    assert!(!has_valid_percent_encoding("abc%2"));
    assert!(!has_valid_percent_encoding("%G0"));
    assert!(!has_valid_percent_encoding("%%41"));
}

#[test]
fn url_hash_is_fnv1a() {
    assert_eq!(stable_url_hash(""), 0xcbf2_9ce4_8422_2325);
    assert_eq!(stable_url_hash("a"), 0xaf63_dc4c_8601_ec8c);
    assert_eq!(stable_url_hash("foobar"), 0x8594_4171_f739_67e8);
}

#[test]
fn cache_names_hash_and_extension() {
    assert_eq!(cache_file_name(""), "14695981039346656037.jpg");
    assert_eq!(cache_file_name("a.png"), format!("{}.png", stable_url_hash("a.png")));
    assert_eq!(partial_file_name("a.webp"), format!("{}.webp.part", stable_url_hash("a.webp")));
}

#[test]
fn artwork_sources() {
    match album_art_path_from_metadata(Some("file:///tmp/c.png")) {
        ArtworkSource::Local(p) => assert_eq!(p, b"/tmp/c.png".to_vec()),
        _ => panic!("expected a local cover"),
    }
    match album_art_path_from_metadata(Some("https://example.com/c.png")) {
        ArtworkSource::Remote(u) => assert_eq!(u, "https://example.com/c.png"),
        _ => panic!("expected a remote cover"),
    }
    assert!(matches!(
        album_art_path_from_metadata(Some("http://example.com/c.png")),
        ArtworkSource::NoArtwork
    ));
    assert!(matches!(album_art_path_from_metadata(None), ArtworkSource::NoArtwork));
}

#[test]
fn a_local_file_comes_before_a_download() {
    match artwork_source(path("/tmp/c.png"), "https://example.com/c.png") {
        ArtworkSource::Local(p) => assert_eq!(p, b"/tmp/c.png".to_vec()),
        _ => panic!("expected a local cover"),
    }
    match artwork_source(None, "https://example.com/c.png") {
        ArtworkSource::Remote(u) => assert_eq!(u, "https://example.com/c.png"),
        _ => panic!("expected a remote cover"),
    }
    assert!(matches!(artwork_source(None, "ftp://example.com/c.png"), ArtworkSource::NoArtwork));
    assert_eq!(file_url_to_path("http://localhost/a.png"), path("/a.png"));
}

#[test]
fn content_length_limits() {
    assert_eq!(parse_content_length("123"), Some(123));
    assert_eq!(parse_content_length("+7"), Some(7));
    assert_eq!(parse_content_length("18446744073709551615"), Some(u64::MAX));
    assert_eq!(parse_content_length("18446744073709551616"), None);
    assert_eq!(parse_content_length(""), None);
    assert_eq!(parse_content_length("+"), None);
    assert_eq!(parse_content_length("-1"), None);
    assert_eq!(parse_content_length(" 1"), None);
    assert_eq!(parse_content_length("12a"), None);
    assert!(content_length_allowed(None));
    assert!(content_length_allowed(Some(MAX_ART_BYTES)));
    assert!(!content_length_allowed(Some(MAX_ART_BYTES + 1)));
    assert_eq!(download_read_limit(), 10 * 1024 * 1024 + 1);
    assert!(download_within_limit(MAX_ART_BYTES));
    assert!(!download_within_limit(MAX_ART_BYTES + 1));
}

#[test]
fn at_most_two_downloads_and_none_twice() {
    let mut active = ActiveDownloads::new();
    let a = String::from("https://a/1.png");
    let b = String::from("https://a/2.png");
    let c = String::from("https://a/3.png");
    assert!(active.try_start(&a));
    assert!(!active.try_start(&a));
    assert!(active.try_start(&b));
    assert!(!active.try_start(&c));
    active.finish(&a);
    assert!(active.try_start(&c));
    active.finish(&a);
    assert!(!active.try_start(&a));
}

#[test]
fn failed_downloads_wait_before_retry() {
    let mut failures = FailedDownloads::new();
    let a = String::from("https://a/1.png");
    let b = String::from("https://a/2.png");
    assert!(!failures.recently_failed(&a, 100));
    failures.record_failure(&a, 100);
    assert!(failures.recently_failed(&a, 100));
    assert!(failures.recently_failed(&a, 100 + ART_RETRY_NANOS - 1));
    assert!(!failures.recently_failed(&a, 100 + ART_RETRY_NANOS));
    assert!(failures.recently_failed(&a, 50));
    assert!(!failures.recently_failed(&b, 100));
    failures.record_failure(&a, 100 + ART_RETRY_NANOS);
    assert!(failures.recently_failed(&a, 100 + ART_RETRY_NANOS + 1));
}

#[test]
fn cache_file_names_stay_inside_the_cache() {
    for url in ["https://example.com/../../etc/passwd.PNG?x=/y", "https://h/a b/c.jpeg", ""] {
        let name = cache_file_name(url);
        assert!(name
            .chars()
            .all(|c| c.is_ascii_digit() || c.is_ascii_lowercase() || c == '.'));
        assert!(!name.contains('/'));
    }
}

#[test]
fn cover_downloads_check_cache_failures_and_running_downloads() {
    let mut downloads = CoverDownloads::new();
    let a = String::from("https://a/1.png");
    let b = String::from("https://a/2.png");
    let c = String::from("https://a/3.png");
    assert_eq!(downloads.begin(&a, true, 0), DownloadStart::UseCached);
    assert_eq!(downloads.begin(&a, false, 0), DownloadStart::Start);
    assert_eq!(downloads.begin(&a, false, 0), DownloadStart::Busy);
    assert_eq!(downloads.begin(&b, false, 0), DownloadStart::Start);
    assert_eq!(downloads.begin(&c, false, 0), DownloadStart::Busy);
    downloads.finish(&a, false, 10);
    assert_eq!(downloads.begin(&a, false, 10 + ART_RETRY_NANOS - 1), DownloadStart::RecentlyFailed);
    assert_eq!(downloads.begin(&a, true, 11), DownloadStart::UseCached);
    assert_eq!(downloads.begin(&c, false, 11), DownloadStart::Start);
    downloads.finish(&b, true, 12);
    assert_eq!(downloads.begin(&a, false, 10 + ART_RETRY_NANOS), DownloadStart::Start);
}

fn no_download(_: String) -> Option<Vec<u8>> {
    panic!("no download expected")
}

#[test]
fn the_cover_follows_the_published_url() {
    assert_eq!(cover_path(Some("file:///tmp/c.png"), no_download), path("/tmp/c.png"));
    assert_eq!(
        cover_path(Some("https://example.com/c.png"), |url: String| {
            assert_eq!(url, "https://example.com/c.png");
            path("/cache/1.png")
        }),
        path("/cache/1.png")
    );
    assert_eq!(cover_path(Some("https://example.com/c.png"), |_: String| None), None);
    assert_eq!(cover_path(Some("http://example.com/c.png"), no_download), None);
    assert_eq!(cover_path(None, no_download), None);
    let measured = track_artwork(Some("file:///tmp/c.png"), no_download, |p: &Vec<u8>| {
        assert_eq!(p, &b"/tmp/c.png".to_vec());
        Some((7, 8))
    });
    assert_eq!(measured, Some((b"/tmp/c.png".to_vec(), Some((7, 8)))));
    assert_eq!(track_artwork(None, no_download, |_: &Vec<u8>| Some((1, 1))), None);
}

#[test]
fn only_a_whole_body_within_the_limit_is_kept() {
    let kept_calls = Cell::new(0);
    let discarded = Cell::new(0);
    let run = |fetched: Option<((), Option<u64>)>, copied: Option<u64>, keep_ok: bool| {
        fetch_cover(
            || fetched,
            |_: (), limit: u64| {
                assert_eq!(limit, MAX_ART_BYTES + 1);
                copied
            },
            || {
                kept_calls.set(kept_calls.get() + 1);
                keep_ok
            },
            || discarded.set(discarded.get() + 1),
        )
    };
    assert!(!run(None, Some(1), true));
    assert_eq!((kept_calls.get(), discarded.get()), (0, 1));
    assert!(!run(Some(((), Some(MAX_ART_BYTES + 1))), Some(1), true));
    assert_eq!((kept_calls.get(), discarded.get()), (0, 2));
    assert!(!run(Some(((), None)), None, true));
    assert_eq!((kept_calls.get(), discarded.get()), (0, 3));
    assert!(!run(Some(((), None)), Some(MAX_ART_BYTES + 1), true));
    assert_eq!((kept_calls.get(), discarded.get()), (0, 4));
    assert!(run(Some(((), Some(MAX_ART_BYTES))), Some(MAX_ART_BYTES), true));
    assert_eq!((kept_calls.get(), discarded.get()), (1, 4));
    assert!(!run(Some(((), None)), Some(5), false));
    assert_eq!((kept_calls.get(), discarded.get()), (2, 5));
}
