use fast_dav_rs::error::Error;
use fast_dav_rs::uri::{
    build_uri, encode_path_segments, is_https_to_http_downgrade, percent_encode, remove_dot_segments,
    resolve_location, same_origin, EncodeSet, Uri,
};

fn base(s: &str) -> Uri {
    Uri::parse(s).expect("valid base URL")
}

#[test]
fn build_uri_base_without_trailing_slash_and_relative_path() {
    let uri = build_uri(&base("http://127.0.0.1:8080"), "calendars/").unwrap();
    assert_eq!(uri.path, "/calendars/");
}

#[test]
fn build_uri_empty_combined_uses_base_path() {
    let uri = build_uri(&base("http://127.0.0.1:8080/"), "").unwrap();
    assert_eq!(uri.path, "/");
}

#[test]
fn build_uri_question_mark_is_part_of_the_path() {
    let uri = build_uri(&base("http://127.0.0.1:8080/"), "?query").unwrap();
    assert_eq!(uri.path, "/%3Fquery");
    assert!(uri.query.is_none());
}

#[test]
fn build_uri_absolute_path_uses_as_is() {
    let uri = build_uri(&base("http://127.0.0.1:8080/base/"), "/calendars/").unwrap();
    assert_eq!(uri.path, "/calendars/");
}

#[test]
fn build_uri_absolute_url_parsed_directly() {
    let uri = build_uri(&base("http://127.0.0.1:8080/base/"), "https://other.example.com/foo").unwrap();
    assert_eq!(uri.path, "/foo");
    assert_eq!(uri.host.as_deref(), Some("other.example.com"));
}

#[test]
fn build_uri_relative_path_appends_to_base() {
    let uri = build_uri(&base("http://127.0.0.1:8080/base/"), "calendars/").unwrap();
    assert_eq!(uri.path, "/base/calendars/");
}

#[test]
fn build_uri_rejects_unparseable_absolute_url() {
    let err = build_uri(&base("http://127.0.0.1:8080/"), "http://exa mple.com/").unwrap_err();
    assert!(matches!(err, Error::InvalidUrl(_)), "{err:?}");
}

#[test]
fn form_encoding_escapes_reserved_characters() {
    let encoded = percent_encode("a&b=c d~e-f_g.h", EncodeSet::FormUnreserved);
    assert_eq!(encoded, "a%26b%3Dc%20d~e-f_g.h");
}

#[test]
fn percent_encode_escapes_non_ascii_bytes() {
    assert_eq!(percent_encode("é", EncodeSet::FormUnreserved), "%C3%A9");
    assert_eq!(percent_encode("a b", EncodeSet::PathSegment), "a%20b");
}

#[test]
fn encode_path_segments_keeps_slashes_and_escapes() {
    assert_eq!(encode_path_segments("/a b/c%20d/"), "/a%20b/c%20d/");
}

#[test]
fn remove_dot_segments_rfc3986_examples() {
    assert_eq!(remove_dot_segments("/a/b/c/./../../g"), "/a/g");
    assert_eq!(remove_dot_segments("mid/content=5/../6"), "mid/6");
}

#[test]
fn resolve_location_relative_and_absolute() {
    let cur = base("https://dav.example.com/a/b");
    let rel = resolve_location(&cur, "../c").unwrap();
    assert_eq!(rel.path, "/c");
    let abs = resolve_location(&cur, "https://other.example.com/x").unwrap();
    assert_eq!(abs.host.as_deref(), Some("other.example.com"));
}

#[test]
fn origin_and_downgrade_checks() {
    let a = base("https://dav.example.com/a");
    let b = base("https://dav.example.com/b");
    let c = base("http://dav.example.com/b");
    assert!(same_origin(&a, &b));
    assert!(!same_origin(&a, &c));
    assert!(is_https_to_http_downgrade(&a, &c));
    assert!(!is_https_to_http_downgrade(&c, &a));
}

#[test]
fn encoded_paths_encode_to_themselves_and_hide_query_marks() {
    for raw in ["report?q.ics", "a%41b.txt", "100% sure#1", "dé jà/vu", "%zz/%4", "/cal/work/"] {
        let once = encode_path_segments(raw);
        assert!(!once.contains('?') && !once.contains('#'), "{once}");
        assert_eq!(encode_path_segments(&once), once);
    }
    assert_eq!(encode_path_segments("a%41b.txt"), "a%41b.txt");
    assert_eq!(encode_path_segments("report?q.ics"), "report%3Fq.ics");
    assert_eq!(encode_path_segments("100% sure#1"), "100%25%20sure%231");
}

#[test]
fn dot_segments_never_survive_removal() {
    for raw in ["/a/./b/../../..", "./../x/.", "..", ".", "/a/b/..", "a//./b"] {
        let out = remove_dot_segments(raw);
        assert!(out.split('/').all(|seg| seg != "." && seg != ".."), "{raw} -> {out}");
    }
    assert_eq!(remove_dot_segments("/a/./"), "/a/");
    assert_eq!(remove_dot_segments("/a/.."), "/");
    assert_eq!(remove_dot_segments("a//./b"), "a//b");
}
