use fast_dav_rs::auth::{check_refresh_config, parse_token_response, refresh_grant_form, token_response_from, token_status_error, TokenCache, TokenFields};
use fast_dav_rs::error::{Error, TokenRefreshReason};

fn refresh_error(body: &[u8]) -> Error {
    parse_token_response(body).unwrap_err()
}

#[test]
fn parse_token_response_full() {
    let (token, expires, refresh) = parse_token_response(
        br#"{"access_token":"abc","expires_in":3600,"refresh_token":"r2","token_type":"Bearer"}"#,
    )
    .unwrap();
    assert_eq!(token, "abc");
    assert_eq!(expires, Some(3600));
    assert_eq!(refresh.as_deref(), Some("r2"));
}

#[test]
fn parse_token_response_without_optional_fields() {
    let (token, expires, refresh) =
        parse_token_response(br#"{"access_token":"abc","token_type":"Bearer"}"#).unwrap();
    assert_eq!(token, "abc");
    assert_eq!(expires, None);
    assert_eq!(refresh, None);
}

#[test]
fn parse_token_response_missing_or_empty_access_token() {
    for body in [br#"{"token_type":"Bearer"}"#.as_slice(), br#"{"access_token":""}"#] {
        assert!(matches!(
            refresh_error(body),
            Error::TokenRefresh { reason: TokenRefreshReason::MalformedResponse, .. }
        ));
    }
    assert!(matches!(
        refresh_error(b"not json"),
        Error::TokenRefresh { reason: TokenRefreshReason::MalformedResponse, .. }
    ));
}

#[test]
fn parse_token_response_errors_never_contain_body() {
    let err = refresh_error(br#"{"weird_field":"leaked-value"}"#);
    assert!(!err.message().contains("leaked-value"), "{}", err.message());
}

#[test]
fn empty_credentials_rejected() {
    let err = check_refresh_config("https://auth.example.com/token", "", "s", "r").unwrap_err();
    assert!(matches!(err, Error::InvalidInput(_)), "{err:?}");
}

#[test]
fn invalid_token_endpoint_rejected() {
    let err = check_refresh_config("not a url", "c", "s", "r").unwrap_err();
    assert!(matches!(err, Error::InvalidUrl(_)), "{err:?}");
}

#[test]
fn valid_refresh_config_parses_endpoint() {
    let uri = check_refresh_config("https://auth.example.com/token", "c", "s", "r").unwrap();
    assert_eq!(uri.path, "/token");
}

#[test]
fn refresh_grant_form_encodes_every_value() {
    let form = refresh_grant_form("r t", "cid", "s&cret=");
    assert_eq!(
        form,
        "grant_type=refresh_token&refresh_token=r%20t&client_id=cid&client_secret=s%26cret%3D"
    );
}

#[test]
fn expires_in_of_wrong_type_is_ignored() {
    let (token, expires, refresh) =
        parse_token_response(br#"{"access_token":"abc","expires_in":"soon","refresh_token":7}"#).unwrap();
    assert_eq!(token, "abc");
    assert_eq!(expires, None);
    assert_eq!(refresh, None);
}

#[test]
fn token_fields_decide_the_result() {
    let ok = token_response_from(Some(TokenFields {
        access_token: Some("t".to_owned()),
        expires_in: Some(5),
        refresh_token: None,
    }))
    .unwrap();
    assert_eq!(ok, ("t".to_owned(), Some(5), None));
    assert!(token_response_from(None).is_err());
}

#[test]
fn token_cache_rotates_only_non_empty_refresh_tokens() {
    let mut cache = TokenCache::new("r1".to_owned());
    assert!(!cache.usable(false, 0));
    cache.store("a1".to_owned(), None, Some(String::new()), 0);
    assert_eq!(cache.refresh_token, "r1");
    assert!(cache.usable(false, 0));
    assert!(cache.usable(false, u64::MAX));
    assert!(!cache.usable(true, 0));
    cache.store("a2".to_owned(), None, Some("r2".to_owned()), 0);
    assert_eq!(cache.refresh_token, "r2");
    assert_eq!(cache.access_token, "a2");
}

#[test]
fn token_cache_expires_after_expires_in_seconds() {
    let mut cache = TokenCache::new("r1".to_owned());
    cache.store("a1".to_owned(), Some(3600), None, 5_000);
    assert_eq!(cache.expires_at, Some(3_605_000));
    assert!(!cache.expired(3_604_999));
    assert!(cache.expired(3_605_000));
    assert!(cache.usable(false, 3_604_999));
    assert!(!cache.usable(false, 3_605_000));
    cache.store("a2".to_owned(), Some(u64::MAX), None, 1);
    assert_eq!(cache.expires_at, Some(u64::MAX));
    cache.store("a3".to_owned(), None, None, 1);
    assert_eq!(cache.expires_at, None);
    assert!(!cache.expired(u64::MAX));
}

#[test]
fn token_endpoint_status_maps_to_rejected() {
    assert!(token_status_error(200).is_none());
    assert!(token_status_error(204).is_none());
    match token_status_error(401) {
        Some(Error::TokenRefresh { reason: TokenRefreshReason::Rejected, status: Some(401) }) => {}
        other => panic!("unexpected: {other:?}"),
    }
    assert!(token_status_error(302).is_some());
}
