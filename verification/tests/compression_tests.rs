use fast_dav_rs::compression::{BodyPlan, CompressionState, ContentEncoding, RequestCompressionMode};

fn make_state() -> CompressionState {
    CompressionState::new(RequestCompressionMode::Auto)
}

#[test]
fn handle_compression_outcome_415_retries_and_disables() {
    let mut client = make_state();
    let retry = client.handle_request_compression_outcome(Some(ContentEncoding::Gzip), 415);
    assert!(retry);
    assert_eq!(client.request_compression(), ContentEncoding::Identity);
}

#[test]
fn handle_compression_outcome_501_retries_and_disables() {
    let mut client = make_state();
    let retry = client.handle_request_compression_outcome(Some(ContentEncoding::Br), 501);
    assert!(retry);
    assert_eq!(client.request_compression(), ContentEncoding::Identity);
}

#[test]
fn handle_compression_outcome_400_retries_and_disables() {
    let mut client = make_state();
    let retry = client.handle_request_compression_outcome(Some(ContentEncoding::Zstd), 400);
    assert!(retry);
    assert_eq!(client.request_compression(), ContentEncoding::Identity);
}

#[test]
fn handle_compression_outcome_200_caches_encoding() {
    let mut client = make_state();
    let retry = client.handle_request_compression_outcome(Some(ContentEncoding::Gzip), 200);
    assert!(!retry);
    assert_eq!(client.request_compression(), ContentEncoding::Gzip);
}

#[test]
fn handle_compression_outcome_disabled_mode_no_retry() {
    let mut client = make_state();
    client.set_request_compression_mode(RequestCompressionMode::Disabled);
    let retry = client.handle_request_compression_outcome(Some(ContentEncoding::Gzip), 415);
    assert!(!retry);
}

#[test]
fn handle_compression_outcome_none_attempted_no_retry() {
    let mut client = make_state();
    let retry = client.handle_request_compression_outcome(None, 200);
    assert!(!retry);
}

#[test]
fn resolve_request_encoding_with_mode_disabled() {
    let client = make_state();
    let enc = client.resolve_request_encoding_with_mode(&RequestCompressionMode::Disabled);
    assert_eq!(enc, ContentEncoding::Identity);
}

#[test]
fn resolve_request_encoding_with_mode_force() {
    let client = make_state();
    let enc = client.resolve_request_encoding_with_mode(&RequestCompressionMode::Force(ContentEncoding::Br));
    assert_eq!(enc, ContentEncoding::Br);
}

#[test]
fn resolve_request_encoding_with_mode_auto_some() {
    let mut client = make_state();
    client.set_negotiated_encoding(Some(ContentEncoding::Zstd));
    let enc = client.resolve_request_encoding_with_mode(&RequestCompressionMode::Auto);
    assert_eq!(enc, ContentEncoding::Zstd);
}

#[test]
fn resolve_request_encoding_with_mode_auto_none_uses_default() {
    let mut client = make_state();
    client.set_negotiated_encoding(None);
    let enc = client.resolve_request_encoding_with_mode(&RequestCompressionMode::Auto);
    assert_eq!(enc, ContentEncoding::Gzip);
}

#[test]
fn auto_mode_probes_until_negotiated() {
    let mut client = make_state();
    assert_eq!(client.body_plan(false), BodyPlan::Probe);
    assert!(client.record_probe(Some(207), Some(ContentEncoding::Gzip)));
    assert_eq!(client.body_plan(false), BodyPlan::Compress(ContentEncoding::Gzip));
    assert_eq!(client.body_plan(true), BodyPlan::Verbatim);
}

#[test]
fn failed_probe_caches_nothing() {
    let mut client = make_state();
    assert!(!client.record_probe(None, None));
    assert_eq!(client.plan_after_probe(false), BodyPlan::Verbatim);
    assert_eq!(client.body_plan(false), BodyPlan::Probe);
}

#[test]
fn redirected_probe_pins_identity() {
    let mut client = make_state();
    assert!(client.record_probe(Some(301), Some(ContentEncoding::Gzip)));
    assert_eq!(client.request_compression(), ContentEncoding::Identity);
}

#[test]
fn switching_back_to_auto_probes_again() {
    let mut client = make_state();
    client.set_request_compression_mode(RequestCompressionMode::Force(ContentEncoding::Zstd));
    assert_eq!(client.request_compression(), ContentEncoding::Zstd);
    client.set_request_compression_mode(RequestCompressionMode::Auto);
    assert_eq!(client.body_plan(false), BodyPlan::Probe);
}

#[test]
fn normalize_decompressed_headers_empty_encodings_noop() {
    assert_eq!(fast_dav_rs::compression::decoded_content_length(&[], 42), None);
}

#[test]
fn normalize_decompressed_headers_removes_encoding_sets_length() {
    assert_eq!(
        fast_dav_rs::compression::decoded_content_length(&[ContentEncoding::Gzip], 42).as_deref(),
        Some("42")
    );
}

#[test]
fn normalize_decompressed_headers_large_body_len_sets_length() {
    let huge = usize::MAX;
    assert_eq!(
        fast_dav_rs::compression::decoded_content_length(&[ContentEncoding::Gzip], huge),
        Some(usize::MAX.to_string())
    );
}

#[test]
fn failed_probe_leaves_next_request_probing() {
    let mut c = CompressionState::new(RequestCompressionMode::Auto);
    assert!(!c.record_probe(Some(500), Some(ContentEncoding::Gzip)));
    assert_eq!(c.body_plan(false), BodyPlan::Probe);
    assert!(!c.record_probe(None, None));
    assert_eq!(c.body_plan(false), BodyPlan::Probe);
    assert_eq!(c.plan_after_probe(false), BodyPlan::Verbatim);
}

#[test]
fn rejected_compression_pins_identity_for_later_bodies() {
    let mut c = CompressionState::new(RequestCompressionMode::Auto);
    assert!(c.record_probe(Some(207), Some(ContentEncoding::Gzip)));
    assert_eq!(c.body_plan(false), BodyPlan::Compress(ContentEncoding::Gzip));
    assert!(c.handle_request_compression_outcome(Some(ContentEncoding::Gzip), 415));
    assert_eq!(c.body_plan(false), BodyPlan::Verbatim);
    assert_eq!(c.request_compression(), ContentEncoding::Identity);
}
