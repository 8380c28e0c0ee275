use fast_dav_rs::error::{Error, Operation};
use fast_dav_rs::requests::{
    advertises_sync_collection, capabilities_from_header, check_destination, discovery_result, etag_from_headers,
    lock_body, lock_response, overwrite_value, preference_applied_from_headers, refresh_if_header, report_probe_capability,
    status_error, sync_answer_step, timeout_header_value, unlock_token_header, validate_lock_token, well_known_path,
};
use fast_dav_rs::types::{LockScope, Prefer, SyncCapability};

#[test]
fn lock_token_validation() {
    assert!(validate_lock_token("opaquelocktoken:abc-123").is_ok());
    match validate_lock_token("") {
        Err(Error::InvalidInput(m)) => assert_eq!(m, "lock token cannot be empty"),
        other => panic!("{other:?}"),
    }
    match validate_lock_token("a>b") {
        Err(Error::InvalidInput(m)) => assert!(m.ends_with("\"a>b\""), "{m}"),
        other => panic!("{other:?}"),
    }
    assert!(validate_lock_token("a b").is_err());
}

#[test]
fn lock_headers() {
    assert_eq!(refresh_if_header("  tok ").unwrap(), "(<tok>)");
    assert_eq!(unlock_token_header("tok").unwrap(), "<tok>");
    assert!(unlock_token_header("  ").is_err());
    assert_eq!(timeout_header_value(300), "Second-300");
    assert_eq!(timeout_header_value(u64::MAX), "Second-4294967295");
    assert_eq!(overwrite_value(true), "T");
    assert_eq!(overwrite_value(false), "F");
}

#[test]
fn lock_body_text() {
    let body = lock_body(LockScope::Exclusive, "  <D:href>me</D:href> ");
    assert_eq!(
        body,
        "<?xml version=\"1.0\" encoding=\"utf-8\"?>\n<D:lockinfo xmlns:D=\"DAV:\">\n  <D:lockscope><D:exclusive/></D:lockscope>\n  <D:locktype><D:write/></D:locktype>\n  <D:owner><D:href>me</D:href></D:owner>\n</D:lockinfo>"
    );
    assert!(!lock_body(LockScope::Shared, " ").contains("owner"));
}

#[test]
fn lock_response_fills_timeout_and_fallback_token() {
    let body = b"<D:prop xmlns:D=\"DAV:\"><D:lockdiscovery><D:activelock><D:lockscope><D:exclusive/></D:lockscope></D:activelock></D:lockdiscovery></D:prop>";
    let info = lock_response(body, Some("Second-60"), Some("tok")).unwrap();
    assert_eq!(info.timeout_secs, Some(60));
    assert_eq!(info.token, "tok");
    assert!(matches!(lock_response(body, None, None), Err(Error::InvalidInput(_))));
}

#[test]
fn status_error_surfaces_precondition() {
    let body = b"<D:error xmlns:D=\"DAV:\"><D:no-conflicting-lock/></D:error>";
    match status_error(Operation::Lock, 423, body) {
        Error::UnexpectedStatusWithDav { status, precondition, .. } => {
            assert_eq!(status, 423);
            assert_eq!(precondition, "no-conflicting-lock");
        }
        other => panic!("{other:?}"),
    }
    assert!(matches!(status_error(Operation::Unlock, 409, b""), Error::UnexpectedStatus { status: 409, .. }));
}

#[test]
fn stale_token_detection() {
    assert_eq!(sync_answer_step(207, b"").unwrap(), false);
    assert_eq!(sync_answer_step(410, b"").unwrap(), true);
    let body = b"<D:error xmlns:D=\"DAV:\"><D:valid-sync-token/></D:error>";
    assert_eq!(sync_answer_step(403, body).unwrap(), true);
    assert!(matches!(sync_answer_step(403, b""), Err(Error::UnexpectedStatus { status: 403, .. })));
    assert!(sync_answer_step(500, b"").is_err());
}

#[test]
fn sync_support_probing() {
    assert!(advertises_sync_collection(b"<D:report><D:SYNC-COLLECTION/></D:report>"));
    assert!(!advertises_sync_collection(b"<D:report><D:expand-property/></D:report>"));
    assert_eq!(report_probe_capability(Some(207)), SyncCapability::Supported);
    assert_eq!(report_probe_capability(Some(403)), SyncCapability::Unsupported);
    assert_eq!(report_probe_capability(None), SyncCapability::Unknown);
}

#[test]
fn destination_checks() {
    assert!(check_destination("https://dav.example.com/a").is_ok());
    assert!(check_destination("/relative").is_err());
    match check_destination("https://user:pw@dav.example.com/a") {
        Err(Error::InvalidInput(m)) => assert!(!m.contains("pw")),
        other => panic!("{other:?}"),
    }
}

#[test]
fn header_values_read_back() {
    assert_eq!(etag_from_headers(Some("\"abc\"")).as_deref(), Some("abc"));
    assert_eq!(etag_from_headers(Some("\"\"")), None);
    assert_eq!(etag_from_headers(None), None);
    assert_eq!(preference_applied_from_headers(Some(" Return=Representation ")), Some(Prefer::Representation));
    assert_eq!(preference_applied_from_headers(Some("return=minimal")), Some(Prefer::Minimal));
    assert_eq!(preference_applied_from_headers(Some("handling=lenient")), None);
    assert_eq!(preference_applied_from_headers(None), None);
    let caps = capabilities_from_header(Some("1, 2, calendar-access")).unwrap();
    assert!(caps.class1 && caps.class2 && !caps.class3);
    assert!(!capabilities_from_header(None).unwrap().class1);
}

#[test]
fn well_known_discovery() {
    let probe = well_known_path("caldav");
    assert_eq!(probe, "/.well-known/caldav");
    let op = Operation::DiscoverWellKnownCaldav;
    assert_eq!(discovery_result(404, &probe, &probe, "x", "https://b/", op).unwrap(), "https://b/");
    assert_eq!(discovery_result(207, &probe, &probe, "x", "https://b/", op).unwrap(), "https://b/");
    assert_eq!(discovery_result(207, &probe, "/dav/", "https://b/dav/", "https://b/", op).unwrap(), "https://b/dav/");
    match discovery_result(301, &probe, &probe, "x", "b", op) {
        Err(Error::Other(m)) => assert!(m.contains("301 Moved Permanently") && m.contains("/.well-known/caldav")),
        other => panic!("{other:?}"),
    }
    assert!(matches!(discovery_result(500, &probe, &probe, "x", "b", op), Err(Error::UnexpectedStatus { status: 500, .. })));
}
