use fast_dav_rs::compression::{CompressionState, ContentEncoding, RequestCompressionMode};
use fast_dav_rs::error::{Error, Operation, TokenRefreshReason};
use fast_dav_rs::multiget::{chunk_failure, chunk_items, missing_hrefs, reconcile_chunk};
use fast_dav_rs::pipeline::{SendConfig, SendState, SendStep};
use fast_dav_rs::retry::{
    backoff_base, is_idempotent_method, is_redirect_status, is_retryable_status, jitter_permille,
    parse_http_date, retry_after_delay, retry_after_for,
};
use fast_dav_rs::types::DavItem;
use fast_dav_rs::uri::Uri;

fn cfg() -> SendConfig {
    SendConfig { follow_redirects: true, max_redirects: 2, max_retries: 1, retry_all: false, has_token_provider: true }
}

#[test]
fn pipeline_refreshes_auth_once() {
    let mut s = SendState::new("PROPFIND", true, Uri::parse("https://a.example/x").unwrap());
    let mut comp = CompressionState::new(RequestCompressionMode::Disabled);
    assert_eq!(s.on_response(&cfg(), &mut comp, None, 401, None), SendStep::RefreshAuth);
    assert_eq!(s.on_response(&cfg(), &mut comp, None, 401, None), SendStep::Done);
}

#[test]
fn pipeline_retries_idempotent_methods_within_budget() {
    let mut s = SendState::new("GET", false, Uri::parse("https://a.example/x").unwrap());
    let mut comp = CompressionState::new(RequestCompressionMode::Disabled);
    assert_eq!(s.on_response(&cfg(), &mut comp, None, 503, None), SendStep::Retry { retry_index: 0 });
    assert_eq!(s.on_response(&cfg(), &mut comp, None, 503, None), SendStep::Done);
    let mut put = SendState::new("PUT", true, Uri::parse("https://a.example/x").unwrap());
    assert_eq!(put.on_response(&cfg(), &mut comp, None, 503, None), SendStep::Done);
}

#[test]
fn pipeline_resends_uncompressed_once() {
    let mut s = SendState::new("PUT", true, Uri::parse("https://a.example/x").unwrap());
    let mut comp = CompressionState::new(RequestCompressionMode::Auto);
    assert_eq!(s.on_response(&cfg(), &mut comp, Some(ContentEncoding::Gzip), 415, None), SendStep::ResendUncompressed);
    assert_eq!(comp.request_compression(), ContentEncoding::Identity);
}

#[test]
fn pipeline_redirects_strip_credentials_across_origins() {
    let mut s = SendState::new("PROPFIND", true, Uri::parse("https://a.example/x").unwrap());
    let mut comp = CompressionState::new(RequestCompressionMode::Disabled);
    let step = s.on_response(&cfg(), &mut comp, None, 301, Some("https://b.example/y"));
    assert_eq!(step, SendStep::Redirect { strip_credential_headers: true, drop_body_headers: false });
    assert_eq!(s.uri.host.as_deref(), Some("b.example"));
    let step = s.on_response(&cfg(), &mut comp, None, 303, Some("/z"));
    assert_eq!(step, SendStep::Redirect { strip_credential_headers: false, drop_body_headers: true });
    assert_eq!(s.method, "GET");
    assert_eq!(s.on_response(&cfg(), &mut comp, None, 302, Some("/w")), SendStep::TooManyRedirects);
}

#[test]
fn pipeline_refuses_https_to_http_downgrade() {
    let mut s = SendState::new("GET", false, Uri::parse("https://a.example/x").unwrap());
    let mut comp = CompressionState::new(RequestCompressionMode::Disabled);
    assert_eq!(s.on_response(&cfg(), &mut comp, None, 302, Some("http://a.example/x")), SendStep::Done);
}

#[test]
fn retry_classification() {
    assert!(is_retryable_status(429) && is_retryable_status(503) && is_retryable_status(504));
    assert!(!is_retryable_status(500));
    assert!(is_idempotent_method("PROPFIND") && is_idempotent_method("GET"));
    assert!(!is_idempotent_method("PUT"));
    assert!(is_redirect_status(307) && !is_redirect_status(304));
}

#[test]
fn retry_after_seconds_and_dates() {
    assert_eq!(retry_after_delay("120", None), Some(120));
    assert_eq!(parse_http_date("Sun, 06 Nov 1994 08:49:37 GMT"), Some(784111777));
    assert_eq!(retry_after_delay("Sun, 06 Nov 1994 08:49:47 GMT", Some(784111777)), Some(10));
    assert_eq!(retry_after_delay("Sun, 06 Nov 1994 08:49:37 GMT", Some(784111800)), Some(0));
    assert_eq!(retry_after_delay("soon", Some(0)), None);
    assert_eq!(retry_after_for(429, Some("5"), None), Some(5));
    assert_eq!(retry_after_for(503, Some("5"), None), None);
    assert_eq!(parse_http_date("Thu, 01 Jan 1970 00:00:00 GMT"), Some(0));
    assert_eq!(parse_http_date("Sun, 06 Nov 1994 08:49:37 GMT"), Some(784111777));
}

#[test]
fn backoff_doubles_up_to_the_cap() {
    let ms = 1_000_000u128;
    assert_eq!(backoff_base(0, 250 * ms, 8000 * ms), 250 * ms);
    assert_eq!(backoff_base(2, 250 * ms, 8000 * ms), 1000 * ms);
    assert_eq!(backoff_base(10, 250 * ms, 8000 * ms), 8000 * ms);
    let j = jitter_permille(12345);
    assert!((750..=1250).contains(&j));
}

#[test]
fn multiget_reports_hrefs_not_echoed() {
    let mut a = DavItem::new();
    a.href = "/c/a.ics".to_owned();
    let requested = vec!["/c/a.ics".to_owned(), "/c/b.ics".to_owned()];
    assert_eq!(missing_hrefs(&requested, &[a.clone()]), vec!["/c/b.ics".to_owned()]);
    let missing = missing_hrefs(&requested, &[a]);
    let items = chunk_items("/c/".to_owned(), requested.clone(), missing, vec![1u8, 2u8]);
    assert_eq!(items.len(), 2);
    assert_eq!(items[1].missing_hrefs, vec!["/c/b.ics".to_owned()]);
    assert_eq!(items[0].hrefs, requested);
    assert!(matches!(items[1].result, Ok(2)));
    let failed: fast_dav_rs::types::BatchItem<u8> = chunk_failure(
        "/c/".to_owned(),
        requested.clone(),
        Error::UnexpectedStatus { operation: Operation::ReportCalendarMultiget, status: 500 },
    );
    assert_eq!(failed.hrefs, requested);
    assert!(failed.missing_hrefs.is_empty());
    assert!(failed.result.is_err());
}

#[test]
fn error_messages() {
    let e = Error::UnexpectedStatus { operation: Operation::Lock, status: 423 };
    assert_eq!(e.message(), "LOCK failed with status 423");
    let t = Error::TokenRefresh { reason: TokenRefreshReason::Rejected, status: Some(401) };
    assert_eq!(t.message(), "token refresh failed: the token endpoint rejected the request (status 401)");
    assert_eq!(Error::InvalidUrl("https://u:p@h/".to_owned()).message(), "invalid URL");
    assert_eq!(Error::BodyTooLarge { limit: 1024 }.message(), "body exceeds the limit of 1024 bytes");
}

#[test]
fn timeout_error_has_a_fixed_description() {
    let e = fast_dav_rs::error::Error::Timeout { limit: std::time::Duration::from_secs(5) };
    assert_eq!(e.message(), "the operation ran past its time limit");
    assert_eq!(e.clone(), e);
}

#[test]
fn multiget_chunk_answers_become_batch_items() {
    let requested = vec!["/c/a.ics".to_owned(), "/c/b.ics".to_owned()];
    let body = br#"<D:multistatus xmlns:D="DAV:"><D:response><D:href>/c/a.ics</D:href><D:propstat><D:prop><D:getetag>"1"</D:getetag></D:prop><D:status>HTTP/1.1 200 OK</D:status></D:propstat></D:response></D:multistatus>"#;
    let ok = reconcile_chunk(Operation::ReportCalendarMultiget, "/c/".to_owned(), requested.clone(), Ok((207, body.to_vec())));
    assert_eq!(ok.len(), 1);
    assert_eq!(ok[0].missing_hrefs, vec!["/c/b.ics".to_owned()]);
    assert_eq!(ok[0].result.as_ref().unwrap().href, "/c/a.ics");
    let denied = reconcile_chunk(Operation::ReportCalendarMultiget, "/c/".to_owned(), requested.clone(), Ok((403, Vec::new())));
    assert_eq!(denied.len(), 1);
    assert_eq!(denied[0].hrefs, requested);
    assert!(matches!(denied[0].result, Err(Error::UnexpectedStatus { status: 403, .. })));
    let broken = reconcile_chunk(Operation::ReportCalendarMultiget, "/c/".to_owned(), requested.clone(), Ok((207, b"<D:multistatus".to_vec())));
    assert_eq!(broken.len(), 1);
    assert!(broken[0].result.is_err());
    let lost = reconcile_chunk(Operation::ReportCalendarMultiget, "/c/".to_owned(), requested, Err(Error::Other("reset".to_owned())));
    assert!(matches!(&lost[0].result, Err(Error::Other(m)) if m == "reset"));
    let empty = reconcile_chunk(Operation::ReportCalendarMultiget, "/c/".to_owned(), vec![], Ok((207, br#"<D:multistatus xmlns:D="DAV:"/>"#.to_vec())));
    assert!(empty.is_empty());
}
