use fast_dav_rs::error::{Error, EtagReason};
use fast_dav_rs::etag::{
    if_match_header_value, is_etag_character, is_valid_entity_tag, normalize_etag, normalize_sync_token,
    validate_opaque_tag,
};

#[test]
fn test_normalize_etag_strips_double_quotes_strong() {
    assert_eq!(normalize_etag(r#""abc123""#), "abc123");
}

#[test]
fn test_normalize_etag_strips_double_quotes_weak() {
    assert_eq!(normalize_etag(r#"W/"weak123""#), "W/weak123");
}

#[test]
fn test_normalize_etag_bare_value_unchanged() {
    assert_eq!(normalize_etag("abc123"), "abc123");
}

#[test]
fn test_normalize_etag_bare_weak_unchanged() {
    assert_eq!(normalize_etag("W/abc123"), "W/abc123");
}

#[test]
fn test_normalize_etag_trims_whitespace() {
    assert_eq!(normalize_etag(r#"  "abc123"  "#), "abc123");
}

#[test]
fn test_normalize_etag_empty_string() {
    assert_eq!(normalize_etag(""), "");
}

#[test]
fn test_normalize_etag_only_quotes() {
    assert_eq!(normalize_etag(r#""""#), "");
}

#[test]
fn test_normalize_etag_preserves_single_quotes_inside() {
    assert_eq!(normalize_etag(r#""ab'cd""#), "ab'cd");
}

#[test]
fn test_normalize_sync_token_strips_double_quotes() {
    assert_eq!(normalize_sync_token(r#""token-123""#), "token-123");
}

#[test]
fn test_normalize_sync_token_bare_unchanged() {
    assert_eq!(
        normalize_sync_token("http://example.com/sync/42"),
        "http://example.com/sync/42"
    );
}

#[test]
fn test_normalize_sync_token_trims_whitespace() {
    assert_eq!(normalize_sync_token(r#"  "token"  "#), "token");
}

#[test]
fn test_if_match_wildcard() {
    let val = if_match_header_value("*").unwrap();
    assert_eq!(val, "*");
}

#[test]
fn test_if_match_quoted_strong_etag() {
    let val = if_match_header_value(r#""abc123""#).unwrap();
    assert_eq!(val, r#""abc123""#);
}

#[test]
fn test_if_match_unquoted_gets_quoted() {
    let val = if_match_header_value("abc123").unwrap();
    assert_eq!(val, r#""abc123""#);
}

#[test]
fn test_if_match_weak_quoted_rejected() {
    let err = if_match_header_value(r#"W/"abc""#).unwrap_err();
    assert!(matches!(err, Error::InvalidEtag { reason: EtagReason::Weak }));
}

#[test]
fn test_if_match_weak_unquoted_rejected() {
    let err = if_match_header_value("W/abc").unwrap_err();
    assert!(matches!(err, Error::InvalidEtag { reason: EtagReason::Weak }));
}

#[test]
fn test_if_match_trims_whitespace() {
    let val = if_match_header_value("  abc  ").unwrap();
    assert_eq!(val, r#""abc""#);
}

#[test]
fn test_if_match_empty_rejected() {
    let err = if_match_header_value("").unwrap_err();
    assert!(matches!(err, Error::InvalidEtag { reason: EtagReason::Empty }));
}

#[test]
fn test_if_match_whitespace_only_rejected() {
    let err = if_match_header_value("   ").unwrap_err();
    assert!(matches!(err, Error::InvalidEtag { reason: EtagReason::Empty }));
}

#[test]
fn test_validate_opaque_tag_empty() {
    let err = validate_opaque_tag("").unwrap_err();
    assert!(matches!(err, Error::InvalidEtag { reason: EtagReason::InvalidFormat }));
}

#[test]
fn test_validate_opaque_tag_contains_double_quote() {
    let err = validate_opaque_tag(r#"abc"def"#).unwrap_err();
    assert!(matches!(err, Error::InvalidEtag { reason: EtagReason::InvalidFormat }));
}

#[test]
fn test_validate_opaque_tag_invalid_characters() {
    let err = validate_opaque_tag("abc\ndef").unwrap_err();
    assert!(matches!(err, Error::InvalidEtag { reason: EtagReason::InvalidCharacters }));
}

#[test]
fn test_validate_opaque_tag_valid() {
    assert!(validate_opaque_tag("abc123").is_ok());
    assert!(validate_opaque_tag("W/abc").is_ok());
}

#[test]
fn test_is_valid_entity_tag_strong_quoted() {
    assert!(is_valid_entity_tag(r#""abc""#));
}

#[test]
fn test_is_valid_entity_tag_weak_quoted() {
    assert!(is_valid_entity_tag(r#"W/"abc""#));
}

#[test]
fn test_is_valid_entity_tag_unquoted_is_invalid() {
    assert!(!is_valid_entity_tag("abc"));
}

#[test]
fn test_is_valid_entity_tag_missing_closing_quote() {
    assert!(!is_valid_entity_tag(r#""abc"#));
}

#[test]
fn test_is_valid_entity_tag_missing_opening_quote() {
    assert!(!is_valid_entity_tag(r#"abc""#));
}

#[test]
fn test_is_valid_entity_tag_invalid_chars_inside_quotes() {
    assert!(!is_valid_entity_tag("\"ab\nc\""));
}

#[test]
fn test_is_etag_character_allowed() {
    assert!(is_etag_character(b'!'));
    assert!(is_etag_character(b'#'));
    assert!(is_etag_character(b'~'));
    assert!(is_etag_character(b'A'));
    assert!(is_etag_character(b'0'));
    assert!(is_etag_character(0x80));
}

#[test]
fn test_is_etag_character_disallowed() {
    assert!(!is_etag_character(b'"'));
    assert!(!is_etag_character(b' '));
    assert!(!is_etag_character(0x7F));
    assert!(!is_etag_character(b'\n'));
}

#[test]
fn normalize_etag_is_idempotent_on_examples() {
    for raw in [r#""abc""#, r#"W/"x""#, "  y  ", "", r#""""#] {
        let once = normalize_etag(raw);
        assert_eq!(normalize_etag(&once), once);
    }
}

#[test]
fn if_match_rejects_invalid_characters() {
    let err = if_match_header_value("a\u{7f}b").unwrap_err();
    assert!(matches!(err, Error::InvalidEtag { reason: EtagReason::InvalidCharacters }));
}

#[test]
fn normalized_strong_tag_is_requoted_for_if_match() {
    for sent in ["\"abc\"", "\"686897696a7c876b7e\"", "\"x-1\""] {
        let shown = normalize_etag(sent);
        assert_eq!(if_match_header_value(&shown).unwrap(), sent);
    }
}

#[test]
fn if_match_values_are_star_or_strong_tags() {
    for input in ["*", "abc", " \"q\" ", "\u{e9}t\u{e9}", "a b", "W/\"w\"", "\"\"", ""] {
        if let Ok(v) = if_match_header_value(input) {
            assert!(v == "*" || (v.starts_with('"') && v.ends_with('"') && v.len() >= 2 && is_valid_entity_tag(&v)), "{v}");
        }
    }
}
