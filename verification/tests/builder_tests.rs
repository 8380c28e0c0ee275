use std::time::Duration;

use fast_dav_rs::builder::WebDavClientBuilder;
use fast_dav_rs::compression::{ContentEncoding, RequestCompressionMode};
use fast_dav_rs::error::Error;
use fast_dav_rs::uri::Uri;

const BASE: &str = "https://dav.example.com/user01/";

fn config_message(result: Result<fast_dav_rs::builder::ClientSettings, Error>) -> String {
    match result {
        Err(Error::InvalidConfig(msg)) => msg,
        Err(e) => panic!("expected InvalidConfig, got {e:?}"),
        Ok(_) => panic!("expected error"),
    }
}

fn proxied() -> WebDavClientBuilder {
    WebDavClientBuilder::new(BASE).proxy(Uri::parse("http://127.0.0.1:9090").unwrap())
}

#[test]
fn defaults_match_documented_values() {
    let builder = WebDavClientBuilder::new(BASE);
    assert_eq!(builder.timeout_secs, 20);
    assert_eq!(builder.timeout_subsec_nanos, 0);
    assert_eq!(builder.pool_max_idle_per_host, 32);
    assert_eq!(builder.request_compression, RequestCompressionMode::Auto);
    assert!(builder.basic_user.is_none());
    assert!(builder.basic_pass.is_none());
    assert!(builder.bearer_token.is_none());
    assert!(!builder.force_http1);
    assert!(!builder.danger_accept_invalid_certs);
}

#[test]
fn basic_auth_header_correct() {
    let settings = WebDavClientBuilder::new(BASE).basic_auth("user", "pass").build().unwrap();
    assert_eq!(settings.auth_header.as_deref(), Some("Basic dXNlcjpwYXNz"));
}

#[test]
fn bearer_auth_header_correct() {
    let settings = WebDavClientBuilder::new(BASE).bearer_token("ya29.token").build().unwrap();
    assert_eq!(settings.auth_header.as_deref(), Some("Bearer ya29.token"));
}

#[test]
fn auth_mutual_exclusivity_last_wins() {
    let settings = WebDavClientBuilder::new(BASE)
        .basic_auth("user", "pass")
        .bearer_token("token123")
        .build()
        .unwrap();
    assert_eq!(settings.auth_header.as_deref(), Some("Bearer token123"));
}

#[test]
fn no_auth_means_no_header() {
    let settings = WebDavClientBuilder::new(BASE).build().unwrap();
    assert!(settings.auth_header.is_none());
}

#[test]
fn invalid_url_errors() {
    let result = WebDavClientBuilder::new("not a valid url").build();
    assert!(matches!(result, Err(Error::InvalidUrl(_))));
}

#[test]
fn timeout_zero_errors() {
    let result = WebDavClientBuilder::new(BASE).timeout(Duration::ZERO).build();
    assert!(result.is_err());
}

#[test]
fn pool_zero_errors() {
    let result = WebDavClientBuilder::new(BASE).pool_max_idle_per_host(0).build();
    assert!(result.is_err());
}

#[test]
fn auth_bearer_then_basic_last_wins() {
    let settings = WebDavClientBuilder::new(BASE)
        .bearer_token("token123")
        .basic_auth("user", "pass")
        .build()
        .unwrap();
    assert_eq!(settings.auth_header.as_deref(), Some("Basic dXNlcjpwYXNz"));
}

#[test]
fn empty_basic_user_errors() {
    let msg = config_message(WebDavClientBuilder::new(BASE).basic_auth("", "pass").build());
    assert!(msg.contains("basic_auth requires both user and pass to be non-empty"));
}

#[test]
fn empty_basic_pass_errors() {
    let msg = config_message(WebDavClientBuilder::new(BASE).basic_auth("user", "").build());
    assert!(msg.contains("basic_auth requires both user and pass to be non-empty"));
}

#[test]
fn empty_bearer_token_errors() {
    let msg = config_message(WebDavClientBuilder::new(BASE).bearer_token("").build());
    assert!(msg.contains("bearer_token must not be empty"));
}

#[test]
fn invalid_bearer_chars_errors() {
    let msg = config_message(WebDavClientBuilder::new(BASE).bearer_token("has space").build());
    assert!(msg.contains("bearer_token contains invalid characters"));
}

#[test]
fn proxy_auth_without_proxy_errors() {
    let msg = config_message(WebDavClientBuilder::new(BASE).proxy_basic_auth("user", "pass").build());
    assert!(msg.contains("proxy_basic_auth requires a proxy"));
}

#[test]
fn proxy_basic_auth_with_newline_user_errors() {
    let msg = config_message(proxied().proxy_basic_auth("user\ninjected", "pass").build());
    assert!(msg.contains("proxy_basic_auth"));
}

#[test]
fn proxy_basic_auth_with_newline_pass_errors() {
    let msg = config_message(proxied().proxy_basic_auth("user", "pass\ninjected").build());
    assert!(msg.contains("proxy_basic_auth"));
}

#[test]
fn proxy_basic_auth_with_null_byte_user_errors() {
    let msg = config_message(proxied().proxy_basic_auth("user\0", "pass").build());
    assert!(msg.contains("proxy_basic_auth"));
}

#[test]
fn proxy_basic_auth_with_del_char_pass_errors() {
    let msg = config_message(proxied().proxy_basic_auth("user", "pass\x7F").build());
    assert!(msg.contains("proxy_basic_auth"));
}

#[test]
fn proxy_basic_auth_with_space_user_errors() {
    let msg = config_message(proxied().proxy_basic_auth("user with space", "pass").build());
    assert!(msg.contains("proxy_basic_auth"));
}

#[test]
fn error_message_contains_timeout_hint() {
    let msg = config_message(WebDavClientBuilder::new(BASE).timeout(Duration::ZERO).build());
    assert!(msg.contains("timeout must be > 0"));
}

#[test]
fn error_message_contains_pool_hint() {
    let msg = config_message(WebDavClientBuilder::new(BASE).pool_max_idle_per_host(0).build());
    assert!(msg.contains("pool_max_idle_per_host must be > 0"));
}

#[test]
fn proxy_credentials_become_a_basic_header() {
    let settings = proxied().proxy_basic_auth("user", "pass").build().unwrap();
    assert_eq!(settings.proxy_authorization.as_deref(), Some("Basic dXNlcjpwYXNz"));
}

#[test]
fn basic_header_encodes_utf8_credentials() {
    let settings = WebDavClientBuilder::new(BASE).basic_auth("é", "p").build().unwrap();
    assert_eq!(settings.auth_header.as_deref(), Some("Basic w6k6cA=="));
}

#[test]
fn timeout_keeps_sub_second_precision() {
    let b = WebDavClientBuilder::new(BASE).timeout(Duration::from_millis(1500));
    assert_eq!(b.timeout_secs, 1);
    assert_eq!(b.timeout_subsec_nanos, 500_000_000);
    assert!(b.build().is_ok());
}

#[test]
fn invalid_user_agent_errors() {
    let msg = config_message(WebDavClientBuilder::new(BASE).user_agent("bad\nagent").build());
    assert!(msg.contains("user_agent"));
}

#[test]
fn settings_carry_the_options() {
    let s = WebDavClientBuilder::new(BASE)
        .force_http1(true)
        .pool_max_idle_per_host(4)
        .request_compression(RequestCompressionMode::Force(ContentEncoding::Zstd))
        .user_agent("agent/1.0")
        .build()
        .unwrap();
    assert!(s.force_http1);
    assert_eq!(s.pool_max_idle_per_host, 4);
    assert_eq!(s.request_compression, RequestCompressionMode::Force(ContentEncoding::Zstd));
    assert_eq!(s.user_agent.as_deref(), Some("agent/1.0"));
    assert_eq!(s.base.path, "/user01/");
}

#[test]
fn debug_redacts_credentials() {
    let builder = WebDavClientBuilder::new(BASE).basic_auth("user", "hunter2");
    let debug = builder.redacted_summary();
    assert!(debug.contains("<redacted>"), "debug output: {debug}");
    assert!(!debug.contains("hunter2"), "debug output: {debug}");
}

#[test]
fn debug_redacts_bearer_token() {
    let builder = WebDavClientBuilder::new(BASE).bearer_token("secret-token");
    let debug = builder.redacted_summary();
    assert!(debug.contains("<redacted>"), "debug output: {debug}");
    assert!(!debug.contains("secret-token"), "debug output: {debug}");
}

#[test]
fn debug_omits_auth_fields_when_none() {
    let builder = WebDavClientBuilder::new(BASE);
    let debug = builder.redacted_summary();
    assert!(!debug.contains("basic_auth"), "debug output: {debug}");
    assert!(!debug.contains("bearer_token"), "debug output: {debug}");
    assert!(!debug.contains("proxy_basic_auth"), "debug output: {debug}");
}

#[test]
fn summary_has_exact_shape() {
    let builder = WebDavClientBuilder::new("https://x/").pool_max_idle_per_host(7);
    assert_eq!(
        builder.redacted_summary(),
        "WebDavClientBuilder { base_url: \"https://x/\", user_agent: None, force_http1: false, \
pool_max_idle_per_host: 7, request_compression: Auto, proxy: None, extra_root_certs_pem_count: 0, \
danger_accept_invalid_certs: false }"
    );
}

#[test]
fn summary_depends_on_credential_presence_only() {
    let a = WebDavClientBuilder::new(BASE).basic_auth("alice", "hunter2").proxy_basic_auth("p", "q");
    let b = WebDavClientBuilder::new(BASE).basic_auth("bob", "correct horse").proxy_basic_auth("x", "y");
    assert_eq!(a.redacted_summary(), b.redacted_summary());
    let c = WebDavClientBuilder::new(BASE).bearer_token("t1");
    let d = WebDavClientBuilder::new(BASE).bearer_token("another-token");
    assert_eq!(c.redacted_summary(), d.redacted_summary());
    assert_ne!(a.redacted_summary(), c.redacted_summary());
}

#[test]
fn new_with_basic_auth_works() {
    let settings = WebDavClientBuilder::new(BASE).basic_auth("user", "pass").build().unwrap();
    let header = settings.auth_header.expect("auth header present");
    assert_eq!(header, "Basic dXNlcjpwYXNz");
}
