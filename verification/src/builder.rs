//! Client configuration: the builder's options, their validation, and the
//! `Authorization` header values they produce.

use std::time::Duration;

use base64::Engine;
use vstd::prelude::*;
use vstd::string::*;
use vstd::utf8::encode_utf8;

use crate::compression::{ContentEncoding, RequestCompressionMode};
use crate::error::{Error, ErrorView};
use crate::text::chars_of;
use crate::types::opt_chars;
use crate::requests::{debug_str, spec_debug_str};
use crate::uri::{opt_uri_view, parse_uri, spec_parse_uri, Uri, UriView};
use crate::xml::{decimal, u64_decimal};

verus! {

/// RFC 4648 base64 digit for a 6-bit value.
pub open spec fn b64_digit(v: int) -> char {
    if v < 26 {
        ('A' as int + v) as char
    } else if v < 52 {
        ('a' as int + v - 26) as char
    } else if v < 62 {
        ('0' as int + v - 52) as char
    } else if v == 62 {
        '+'
    } else {
        '/'
    }
}

/// RFC 4648 §4 base64 with `=` padding: each 3 bytes become 4 digits.
pub open spec fn base64_spec(s: Seq<u8>) -> Seq<char>
    decreases s.len(),
{
    if s.len() == 0 {
        Seq::empty()
    } else if s.len() == 1 {
        seq![b64_digit((s[0] as int) / 4), b64_digit(((s[0] as int) % 4) * 16), '=', '=']
    } else if s.len() == 2 {
        seq![b64_digit((s[0] as int) / 4), b64_digit(((s[0] as int) % 4) * 16 + (s[1] as int) / 16), b64_digit(((s[1] as int) % 16) * 4), '=']
    } else {
        seq![
            b64_digit((s[0] as int) / 4),
            b64_digit(((s[0] as int) % 4) * 16 + (s[1] as int) / 16),
            b64_digit(((s[1] as int) % 16) * 4 + (s[2] as int) / 64),
            b64_digit((s[2] as int) % 64),
        ] + base64_spec(s.skip(3))
    }
}

/// `base64::engine::general_purpose::STANDARD.encode`: the standard
/// alphabet with padding, as RFC 4648 §4 defines it.
#[verifier::external_body]
fn base64_encode(input: &[u8]) -> (r: String)
    ensures
        r@ == base64_spec(input@),
{
    base64::engine::general_purpose::STANDARD.encode(input)
}

/// A byte `http::HeaderValue` accepts: visible ASCII, space, tab, or any
/// byte from 0x80 on.
pub open spec fn header_byte_ok(b: u8) -> bool {
    (b >= 32 && b != 127) || b == 9
}

/// Text whose UTF-8 bytes all pass [`header_byte_ok`].
pub open spec fn header_text_ok(s: Seq<char>) -> bool {
    forall|i: int| 0 <= i < encode_utf8(s).len() ==> header_byte_ok(#[trigger] encode_utf8(s)[i])
}

/// Whether `http::HeaderValue::from_str` accepts `s`: it checks each byte
/// with [`header_byte_ok`] and nothing else.
#[verifier::external_body]
pub(crate) fn header_text_valid(s: &str) -> (r: bool)
    ensures
        r == header_text_ok(s@),
{
    hyper::header::HeaderValue::from_str(s).is_ok()
}

/// What `Duration::as_secs` returns for `d`: its whole seconds.
pub uninterp spec fn spec_duration_secs(d: Duration) -> u64;

/// What `Duration::subsec_nanos` returns for `d`: its fractional part in
/// nanoseconds.
pub uninterp spec fn spec_duration_subsec_nanos(d: Duration) -> u32;

/// `Duration::as_secs`: the whole seconds of `d`.
#[verifier::external_body]
fn duration_secs(d: Duration) -> (r: u64)
    ensures
        r == spec_duration_secs(d),
{
    d.as_secs()
}

/// `Duration::subsec_nanos`: the fractional part of `d` in nanoseconds,
/// which std documents as always below one billion.
#[verifier::external_body]
fn duration_subsec_nanos(d: Duration) -> (r: u32)
    ensures
        r == spec_duration_subsec_nanos(d),
        r < 1_000_000_000,
{
    d.subsec_nanos()
}

/// `zeroize::Zeroize::zeroize` on a byte vector: the bytes are overwritten
/// with zeros and the vector is left empty.
#[verifier::external_body]
fn wipe_bytes(v: &mut Vec<u8>)
    ensures
        final(v)@.len() == 0,
{
    zeroize::Zeroize::zeroize(v)
}

/// `zeroize::Zeroize::zeroize` on an optional string: its bytes are
/// overwritten with zeros and the option is left `None`.
#[verifier::external_body]
fn wipe_opt_string(s: &mut Option<String>)
    ensures
        *final(s) is None,
{
    zeroize::Zeroize::zeroize(s)
}

/// Builder for a WebDAV client. Every option has a documented default; only
/// the base URL is required.
pub struct WebDavClientBuilder {
    pub base_url: String,
    pub basic_user: Option<String>,
    pub basic_pass: Option<String>,
    pub bearer_token: Option<String>,
    /// Per-request timeout, whole seconds. Default: 20 s.
    pub timeout_secs: u64,
    /// Per-request timeout, nanoseconds below the second.
    pub timeout_subsec_nanos: u32,
    pub connect_timeout: Option<Duration>,
    pub user_agent: Option<String>,
    pub force_http1: bool,
    /// Idle pooled connections kept per host. Default: 32.
    pub pool_max_idle_per_host: usize,
    pub pool_idle_timeout: Option<Duration>,
    pub request_compression: RequestCompressionMode,
    pub proxy: Option<Uri>,
    pub proxy_basic_user: Option<String>,
    pub proxy_basic_pass: Option<String>,
    pub extra_root_certs_pem: Vec<Vec<u8>>,
    pub danger_accept_invalid_certs: bool,
}

pub struct BuilderView {
    pub base_url: Seq<char>,
    pub basic_user: Option<Seq<char>>,
    pub basic_pass: Option<Seq<char>>,
    pub bearer_token: Option<Seq<char>>,
    pub timeout_secs: u64,
    pub timeout_subsec_nanos: u32,
    pub connect_timeout: Option<Duration>,
    pub user_agent: Option<Seq<char>>,
    pub force_http1: bool,
    pub pool_max_idle_per_host: usize,
    pub pool_idle_timeout: Option<Duration>,
    pub request_compression: RequestCompressionMode,
    pub proxy: Option<UriView>,
    pub proxy_basic_user: Option<Seq<char>>,
    pub proxy_basic_pass: Option<Seq<char>>,
    pub extra_root_certs_pem: Seq<Seq<u8>>,
    pub danger_accept_invalid_certs: bool,
}

impl View for WebDavClientBuilder {
    type V = BuilderView;

    open spec fn view(&self) -> BuilderView {
        BuilderView {
            base_url: self.base_url@,
            basic_user: opt_chars(self.basic_user),
            basic_pass: opt_chars(self.basic_pass),
            bearer_token: opt_chars(self.bearer_token),
            timeout_secs: self.timeout_secs,
            timeout_subsec_nanos: self.timeout_subsec_nanos,
            connect_timeout: self.connect_timeout,
            user_agent: opt_chars(self.user_agent),
            force_http1: self.force_http1,
            pool_max_idle_per_host: self.pool_max_idle_per_host,
            pool_idle_timeout: self.pool_idle_timeout,
            request_compression: self.request_compression,
            proxy: opt_uri_view(self.proxy),
            proxy_basic_user: opt_chars(self.proxy_basic_user),
            proxy_basic_pass: opt_chars(self.proxy_basic_pass),
            extra_root_certs_pem: self.extra_root_certs_pem.deep_view(),
            danger_accept_invalid_certs: self.danger_accept_invalid_certs,
        }
    }
}

/// The documented defaults, for the base URL `base_url`.
pub open spec fn default_builder(base_url: Seq<char>) -> BuilderView {
    BuilderView {
        base_url,
        basic_user: None,
        basic_pass: None,
        bearer_token: None,
        timeout_secs: 20,
        timeout_subsec_nanos: 0,
        connect_timeout: None,
        user_agent: None,
        force_http1: false,
        pool_max_idle_per_host: 32,
        pool_idle_timeout: None,
        request_compression: RequestCompressionMode::Auto,
        proxy: None,
        proxy_basic_user: None,
        proxy_basic_pass: None,
        extra_root_certs_pem: Seq::empty(),
        danger_accept_invalid_certs: false,
    }
}

impl Default for WebDavClientBuilder {
    fn default() -> (b: Self)
        ensures
            b@ == default_builder(Seq::empty()),
    {
        let b = WebDavClientBuilder {
            base_url: String::new(),
            basic_user: None,
            basic_pass: None,
            bearer_token: None,
            timeout_secs: 20,
            timeout_subsec_nanos: 0,
            connect_timeout: None,
            user_agent: None,
            force_http1: false,
            pool_max_idle_per_host: 32,
            pool_idle_timeout: None,
            request_compression: RequestCompressionMode::Auto,
            proxy: None,
            proxy_basic_user: None,
            proxy_basic_pass: None,
            extra_root_certs_pem: Vec::new(),
            danger_accept_invalid_certs: false,
        };
        assert(b.extra_root_certs_pem.deep_view() =~= Seq::<Seq<u8>>::empty());
        b
    }
}

/// Characters allowed in a bearer token (RFC 6750 `b64token`).
pub open spec fn bearer_char(c: char) -> bool {
    ('0' <= c && c <= '9') || ('a' <= c && c <= 'z') || ('A' <= c && c <= 'Z') || c == '-' || c == '.'
        || c == '_' || c == '~' || c == '+' || c == '/' || c == '='
}

/// A character whose UTF-8 bytes include a control or whitespace byte
/// (`<= 0x20` or `0x7F`), which a proxy credential must not contain.
pub open spec fn control_or_space(c: char) -> bool {
    (c as u32) <= 0x20 || (c as u32) == 0x7f
}

pub open spec fn all_bearer_chars_spec(t: Seq<char>) -> bool {
    forall|i: int| 0 <= i < t.len() ==> bearer_char(#[trigger] t[i])
}

pub open spec fn has_control_or_space_spec(t: Seq<char>) -> bool {
    exists|i: int| 0 <= i < t.len() && control_or_space(#[trigger] t[i])
}

/// What is wrong with a bearer token, if anything.
pub open spec fn bearer_problem(token: Option<Seq<char>>) -> Option<Seq<char>> {
    match token {
        Some(t) => if t.len() == 0 {
            Some("bearer_token must not be empty"@)
        } else if !all_bearer_chars_spec(t) {
            Some("bearer_token contains invalid characters (allowed: A-Z a-z 0-9 - . _ ~ + / =)"@)
        } else {
            None
        },
        None => None,
    }
}

/// Basic credentials with an empty user or password.
pub open spec fn basic_problem(user: Option<Seq<char>>, pass: Option<Seq<char>>) -> bool {
    match (user, pass) {
        (Some(u), Some(p)) => u.len() == 0 || p.len() == 0,
        _ => false,
    }
}

/// What is wrong with proxy credentials, if anything.
pub open spec fn proxy_credential_problem(user: Option<Seq<char>>, pass: Option<Seq<char>>) -> Option<Seq<char>> {
    match (user, pass) {
        (Some(u), Some(p)) => if u.len() == 0 || p.len() == 0 {
            Some("proxy_basic_auth requires both user and pass to be non-empty"@)
        } else if has_control_or_space_spec(u) {
            Some(
                "proxy_basic_auth user contains control or whitespace characters which are not allowed in HTTP header values"@,
            )
        } else if has_control_or_space_spec(p) {
            Some(
                "proxy_basic_auth pass contains control or whitespace characters which are not allowed in HTTP header values"@,
            )
        } else {
            None
        },
        _ => None,
    }
}

/// What [`WebDavClientBuilder::build`] rejects, in the order it checks: the
/// message of the configuration error, if any.
pub open spec fn config_error(b: BuilderView) -> Option<Seq<char>> {
    if b.timeout_secs == 0 && b.timeout_subsec_nanos == 0 {
        Some("timeout must be > 0"@)
    } else if b.pool_max_idle_per_host == 0 {
        Some("pool_max_idle_per_host must be > 0"@)
    } else if bearer_problem(b.bearer_token) is Some {
        bearer_problem(b.bearer_token)
    } else if basic_problem(b.basic_user, b.basic_pass) {
        Some("basic_auth requires both user and pass to be non-empty"@)
    } else if b.proxy is None && (b.proxy_basic_user is Some || b.proxy_basic_pass is Some) {
        Some("proxy_basic_auth requires a proxy to be set via .proxy()"@)
    } else {
        proxy_credential_problem(b.proxy_basic_user, b.proxy_basic_pass)
    }
}

/// A user agent that `http::HeaderValue` accepts (or none).
pub open spec fn user_agent_ok(ua: Option<String>) -> bool {
    match ua {
        Some(s) => header_text_ok(s@),
        None => true,
    }
}

/// `Basic` credentials as an `Authorization` value: `Basic ` and the base64
/// of `user:pass` in UTF-8.
pub open spec fn basic_header(user: Seq<char>, pass: Seq<char>) -> Seq<char> {
    "Basic "@ + base64_spec(encode_utf8(user) + seq![0x3au8] + encode_utf8(pass))
}

/// The `Authorization` value the options give: the bearer token wins over
/// Basic credentials (the setters clear each other, so at most one is set
/// by them).
pub open spec fn auth_header_spec(
    basic_user: Option<Seq<char>>,
    basic_pass: Option<Seq<char>>,
    bearer_token: Option<Seq<char>>,
) -> Option<Seq<char>> {
    match bearer_token {
        Some(t) => Some("Bearer "@ + t),
        None => match (basic_user, basic_pass) {
            (Some(u), Some(p)) => Some(basic_header(u, p)),
            _ => None,
        },
    }
}

/// The options after `basic_auth(user, pass)`.
pub open spec fn with_basic(b: BuilderView, user: Seq<char>, pass: Seq<char>) -> BuilderView {
    BuilderView { basic_user: Some(user), basic_pass: Some(pass), bearer_token: None, ..b }
}

/// The options after `bearer_token(token)`.
pub open spec fn with_bearer(b: BuilderView, token: Seq<char>) -> BuilderView {
    BuilderView { bearer_token: Some(token), basic_user: None, basic_pass: None, ..b }
}

/// Basic and bearer authentication exclude each other: whichever was set
/// last decides the `Authorization` header.
pub proof fn lemma_last_auth_method_wins(b: BuilderView, user: Seq<char>, pass: Seq<char>, token: Seq<char>)
    ensures
        ({
            let x = with_bearer(with_basic(b, user, pass), token);
            auth_header_spec(x.basic_user, x.basic_pass, x.bearer_token) == Some("Bearer "@ + token)
        }),
        ({
            let y = with_basic(with_bearer(b, token), user, pass);
            auth_header_spec(y.basic_user, y.basic_pass, y.bearer_token) == Some(basic_header(user, pass))
        }),
{
}

/// What building from `b` returns: the first configuration error, an
/// unparseable base URL, or an invalid user agent, in that order, and
/// otherwise the settings the options describe.
pub open spec fn build_result(b: WebDavClientBuilder, r: Result<ClientSettings, Error>) -> bool {
    &&& (config_error(b@) matches Some(msg) ==> (r matches Err(e) && e@ == ErrorView::InvalidConfig(msg)))
    &&& (config_error(b@) is None && spec_parse_uri(b@.base_url) is None ==> (r matches Err(e) && e@
        == ErrorView::InvalidUrl(b@.base_url)))
    &&& (config_error(b@) is None && spec_parse_uri(b@.base_url) is Some && !user_agent_ok(b.user_agent)
        ==> (r matches Err(e) && e@ == ErrorView::InvalidConfig("user_agent is not a valid HTTP header value"@)))
    &&& (config_error(b@) is None && spec_parse_uri(b@.base_url) is Some && user_agent_ok(b.user_agent)
        ==> r is Ok)
    &&& (r matches Ok(s) ==> {
        &&& config_error(b@) is None
        &&& spec_parse_uri(b@.base_url) == Some(s.base@)
        &&& opt_chars(s.auth_header) == auth_header_spec(b@.basic_user, b@.basic_pass, b@.bearer_token)
        &&& opt_chars(s.user_agent) == b@.user_agent
        &&& s.timeout_secs == b.timeout_secs
        &&& s.timeout_subsec_nanos == b.timeout_subsec_nanos
        &&& s.request_compression == b.request_compression
        &&& s.connect_timeout == b.connect_timeout
        &&& s.force_http1 == b.force_http1
        &&& s.pool_max_idle_per_host == b.pool_max_idle_per_host
        &&& s.pool_idle_timeout == b.pool_idle_timeout
        &&& opt_uri_view(s.proxy) == b@.proxy
        &&& opt_chars(s.proxy_authorization) == match (b.proxy, b.proxy_basic_user, b.proxy_basic_pass) {
            (Some(_), Some(u), Some(p)) => Some(basic_header(u@, p@)),
            _ => None,
        }
        &&& s.extra_root_certs_pem.deep_view() == b@.extra_root_certs_pem
        &&& s.danger_accept_invalid_certs == b.danger_accept_invalid_certs
    })
}

/// Everything a client is made of, validated: the parsed base URI, the
/// header values to send, the timeout, and the connection settings.
pub struct ClientSettings {
    pub base: Uri,
    pub auth_header: Option<String>,
    pub user_agent: Option<String>,
    pub timeout_secs: u64,
    pub timeout_subsec_nanos: u32,
    pub request_compression: RequestCompressionMode,
    pub connect_timeout: Option<Duration>,
    pub force_http1: bool,
    pub pool_max_idle_per_host: usize,
    pub pool_idle_timeout: Option<Duration>,
    pub proxy: Option<Uri>,
    /// `Basic` credentials for the proxy tunnel.
    pub proxy_authorization: Option<String>,
    pub extra_root_certs_pem: Vec<Vec<u8>>,
    pub danger_accept_invalid_certs: bool,
}

fn basic_value(user: &str, pass: &str) -> (r: String)
    ensures
        r@ == basic_header(user@, pass@),
{
    let mut raw: Vec<u8> = Vec::new();
    let ub = user.as_bytes();
    let pb = pass.as_bytes();
    let mut i: usize = 0;
    while i < ub.len()
        invariant
            i <= ub@.len(),
            raw@ == ub@.take(i as int),
        decreases ub.len() - i,
    {
        raw.push(ub[i]);
        i += 1;
    }
    raw.push(0x3a);
    let mut j: usize = 0;
    while j < pb.len()
        invariant
            j <= pb@.len(),
            raw@ == ub@ + seq![0x3au8] + pb@.take(j as int),
        decreases pb.len() - j,
    {
        raw.push(pb[j]);
        j += 1;
    }
    assert(ub@.take(ub@.len() as int) =~= ub@);
    assert(pb@.take(pb@.len() as int) =~= pb@);
    let encoded = base64_encode(raw.as_slice());
    wipe_bytes(&mut raw);
    let mut out = "Basic ".to_owned();
    out.append(encoded.as_str());
    out
}

fn all_bearer_chars(t: &str) -> (r: bool)
    ensures
        r == forall|i: int| 0 <= i < t@.len() ==> bearer_char(#[trigger] t@[i]),
{
    let v = chars_of(t);
    let mut i: usize = 0;
    while i < v.len()
        invariant
            i <= v@.len(),
            v@ == t@,
            forall|j: int| 0 <= j < i ==> bearer_char(#[trigger] v@[j]),
        decreases v.len() - i,
    {
        let c = v[i];
        let ok = ('0' <= c && c <= '9') || ('a' <= c && c <= 'z') || ('A' <= c && c <= 'Z') || c == '-' || c
            == '.' || c == '_' || c == '~' || c == '+' || c == '/' || c == '=';
        if !ok {
            return false;
        }
        i += 1;
    }
    true
}

fn has_control_or_space(t: &str) -> (r: bool)
    ensures
        r == exists|i: int| 0 <= i < t@.len() && control_or_space(#[trigger] t@[i]),
{
    let v = chars_of(t);
    let mut i: usize = 0;
    while i < v.len()
        invariant
            i <= v@.len(),
            v@ == t@,
            forall|j: int| 0 <= j < i ==> !control_or_space(#[trigger] v@[j]),
        decreases v.len() - i,
    {
        let u = v[i] as u32;
        if u <= 0x20 || u == 0x7f {
            assert(control_or_space(v@[i as int]));
            return true;
        }
        i += 1;
    }
    false
}

fn invalid_config(msg: &str) -> (e: Error)
    ensures
        e@ == ErrorView::InvalidConfig(msg@),
{
    Error::InvalidConfig(msg.to_owned())
}

impl WebDavClientBuilder {
    /// A builder for `base_url` with every option at its default.
    pub fn new(base_url: &str) -> (b: Self)
        ensures
            b@ == default_builder(base_url@),
    {
        let mut b = Self::default();
        b.base_url = base_url.to_owned();
        b
    }

    /// Send Basic credentials with every request; clears a bearer token
    /// (the last auth method set wins).
    pub fn basic_auth(self, user: &str, pass: &str) -> (b: Self)
        ensures
            b@ == with_basic(self@, user@, pass@),
    {
        let mut b = self;
        b.basic_user = Some(user.to_owned());
        b.basic_pass = Some(pass.to_owned());
        b.bearer_token = None;
        b
    }

    /// Send a bearer token with every request; clears Basic credentials
    /// (the last auth method set wins).
    pub fn bearer_token(self, token: &str) -> (b: Self)
        ensures
            b@ == with_bearer(self@, token@),
    {
        let mut b = self;
        b.bearer_token = Some(token.to_owned());
        b.basic_user = None;
        b.basic_pass = None;
        b
    }

    /// Set the per-request timeout, held as its whole seconds and its
    /// fractional nanoseconds.
    pub fn timeout(self, timeout: Duration) -> (b: Self)
        ensures
            b@ == (BuilderView {
                timeout_secs: spec_duration_secs(timeout),
                timeout_subsec_nanos: spec_duration_subsec_nanos(timeout),
                ..self@
            }),
            b.timeout_subsec_nanos < 1_000_000_000,
    {
        let mut b = self;
        b.timeout_secs = duration_secs(timeout);
        b.timeout_subsec_nanos = duration_subsec_nanos(timeout);
        b
    }

    /// Set the TCP connect timeout.
    pub fn connect_timeout(self, timeout: Duration) -> (b: Self)
        ensures
            b@ == (BuilderView { connect_timeout: Some(timeout), ..self@ }),
    {
        let mut b = self;
        b.connect_timeout = Some(timeout);
        b
    }

    /// Set the `User-Agent` sent with every request.
    pub fn user_agent(self, ua: &str) -> (b: Self)
        ensures
            b@ == (BuilderView { user_agent: Some(ua@), ..self@ }),
    {
        let mut b = self;
        b.user_agent = Some(ua.to_owned());
        b
    }

    /// Restrict connections to HTTP/1.1.
    pub fn force_http1(self, force: bool) -> (b: Self)
        ensures
            b@ == (BuilderView { force_http1: force, ..self@ }),
    {
        let mut b = self;
        b.force_http1 = force;
        b
    }

    /// Cap the idle pooled connections kept per host.
    pub fn pool_max_idle_per_host(self, max_idle: usize) -> (b: Self)
        ensures
            b@ == (BuilderView { pool_max_idle_per_host: max_idle, ..self@ }),
    {
        let mut b = self;
        b.pool_max_idle_per_host = max_idle;
        b
    }

    /// Set the pool's idle connection timeout.
    pub fn pool_idle_timeout(self, timeout: Duration) -> (b: Self)
        ensures
            b@ == (BuilderView { pool_idle_timeout: Some(timeout), ..self@ }),
    {
        let mut b = self;
        b.pool_idle_timeout = Some(timeout);
        b
    }

    /// Choose the request-body compression strategy.
    pub fn request_compression(self, mode: RequestCompressionMode) -> (b: Self)
        ensures
            b@ == (BuilderView { request_compression: mode, ..self@ }),
    {
        let mut b = self;
        b.request_compression = mode;
        b
    }

    /// Route every request through `proxy`.
    pub fn proxy(self, proxy: Uri) -> (b: Self)
        ensures
            b@ == (BuilderView { proxy: Some(proxy@), ..self@ }),
    {
        let mut b = self;
        b.proxy = Some(proxy);
        b
    }

    /// Set Basic credentials for the proxy.
    pub fn proxy_basic_auth(self, user: &str, pass: &str) -> (b: Self)
        ensures
            b@ == (BuilderView { proxy_basic_user: Some(user@), proxy_basic_pass: Some(pass@), ..self@ }),
    {
        let mut b = self;
        b.proxy_basic_user = Some(user.to_owned());
        b.proxy_basic_pass = Some(pass.to_owned());
        b
    }

    /// Trust these PEM-encoded roots in addition to the system's.
    pub fn extra_root_certs_pem(self, certs: Vec<Vec<u8>>) -> (b: Self)
        ensures
            b@ == (BuilderView { extra_root_certs_pem: certs.deep_view(), ..self@ }),
    {
        let mut b = self;
        b.extra_root_certs_pem = certs;
        b
    }

    /// Accept any server certificate (testing only).
    pub fn danger_accept_invalid_certs(self, accept: bool) -> (b: Self)
        ensures
            b@ == (BuilderView { danger_accept_invalid_certs: accept, ..self@ }),
    {
        let mut b = self;
        b.danger_accept_invalid_certs = accept;
        b
    }

    /// Validate the options and produce the client settings.
    ///
    /// Fails with [`Error::InvalidConfig`] on the first violated rule of
    /// [`config_error`], with [`Error::InvalidUrl`] when the base URL does not
    /// parse, and with [`Error::InvalidConfig`] when the user agent is not a
    /// valid header value.
    pub fn build(self) -> (r: Result<ClientSettings, Error>)
        ensures
            build_result(self, r),
    {
        let mut b = self;
        let r = b.settings();
        b.wipe_secrets();
        r
    }

    /// The settings the options describe (see [`build_result`]); the
    /// options that move into them are taken out of `self`.
    fn settings(&mut self) -> (r: Result<ClientSettings, Error>)
        ensures
            build_result(*old(self), r),
    {
        if self.timeout_secs == 0 && self.timeout_subsec_nanos == 0 {
            return Err(invalid_config("timeout must be > 0"));
        }
        if self.pool_max_idle_per_host == 0 {
            return Err(invalid_config("pool_max_idle_per_host must be > 0"));
        }
        if let Some(token) = &self.bearer_token {
            if token.as_str().is_empty() {
                return Err(invalid_config("bearer_token must not be empty"));
            }
            if !all_bearer_chars(token.as_str()) {
                return Err(
                    invalid_config("bearer_token contains invalid characters (allowed: A-Z a-z 0-9 - . _ ~ + / =)"),
                );
            }
        }
        if let (Some(user), Some(pass)) = (&self.basic_user, &self.basic_pass) {
            if user.as_str().is_empty() || pass.as_str().is_empty() {
                return Err(invalid_config("basic_auth requires both user and pass to be non-empty"));
            }
        }
        if self.proxy.is_none() && (self.proxy_basic_user.is_some() || self.proxy_basic_pass.is_some()) {
            return Err(invalid_config("proxy_basic_auth requires a proxy to be set via .proxy()"));
        }
        if let (Some(user), Some(pass)) = (&self.proxy_basic_user, &self.proxy_basic_pass) {
            if user.as_str().is_empty() || pass.as_str().is_empty() {
                return Err(invalid_config("proxy_basic_auth requires both user and pass to be non-empty"));
            }
            if has_control_or_space(user.as_str()) {
                return Err(
                    invalid_config(
                        "proxy_basic_auth user contains control or whitespace characters which are not allowed in HTTP header values",
                    ),
                );
            }
            if has_control_or_space(pass.as_str()) {
                return Err(
                    invalid_config(
                        "proxy_basic_auth pass contains control or whitespace characters which are not allowed in HTTP header values",
                    ),
                );
            }
        }
        let base = match parse_uri(self.base_url.as_str()) {
            Some(u) => u,
            None => {
                return Err(Error::InvalidUrl(self.base_url.clone()));
            },
        };
        let auth_header = match &self.bearer_token {
            Some(t) => {
                let mut v = "Bearer ".to_owned();
                v.append(t.as_str());
                Some(v)
            },
            None => match (&self.basic_user, &self.basic_pass) {
                (Some(u), Some(p)) => Some(basic_value(u.as_str(), p.as_str())),
                _ => None,
            },
        };
        if let Some(ua) = &self.user_agent {
            if !header_text_valid(ua.as_str()) {
                return Err(invalid_config("user_agent is not a valid HTTP header value"));
            }
        }
        let proxy_authorization = match (&self.proxy, &self.proxy_basic_user, &self.proxy_basic_pass) {
            (Some(_), Some(u), Some(p)) => Some(basic_value(u.as_str(), p.as_str())),
            _ => None,
        };
        let user_agent = self.user_agent.take();
        let proxy = self.proxy.take();
        let mut extra_root_certs_pem: Vec<Vec<u8>> = Vec::new();
        std::mem::swap(&mut extra_root_certs_pem, &mut self.extra_root_certs_pem);
        Ok(
            ClientSettings {
                base,
                auth_header,
                user_agent,
                timeout_secs: self.timeout_secs,
                timeout_subsec_nanos: self.timeout_subsec_nanos,
                request_compression: self.request_compression,
                connect_timeout: self.connect_timeout,
                force_http1: self.force_http1,
                pool_max_idle_per_host: self.pool_max_idle_per_host,
                pool_idle_timeout: self.pool_idle_timeout,
                proxy,
                proxy_authorization,
                extra_root_certs_pem,
                danger_accept_invalid_certs: self.danger_accept_invalid_certs,
            },
        )
    }

    /// Overwrite the credentials and the extra root certificates with zeros
    /// and drop them.
    fn wipe_secrets(&mut self)
        ensures
            final(self)@ == (BuilderView {
                basic_user: None,
                basic_pass: None,
                bearer_token: None,
                proxy_basic_user: None,
                proxy_basic_pass: None,
                extra_root_certs_pem: Seq::empty(),
                ..old(self)@
            }),
    {
        wipe_opt_string(&mut self.basic_user);
        wipe_opt_string(&mut self.basic_pass);
        wipe_opt_string(&mut self.bearer_token);
        wipe_opt_string(&mut self.proxy_basic_user);
        wipe_opt_string(&mut self.proxy_basic_pass);
        while self.extra_root_certs_pem.len() > 0
            invariant
                self@ == (BuilderView {
                    basic_user: None,
                    basic_pass: None,
                    bearer_token: None,
                    proxy_basic_user: None,
                    proxy_basic_pass: None,
                    extra_root_certs_pem: self@.extra_root_certs_pem,
                    ..old(self)@
                }),
            decreases self.extra_root_certs_pem.len(),
        {
            let mut pem = self.extra_root_certs_pem.pop().unwrap();
            wipe_bytes(&mut pem);
        }
        assert(self@.extra_root_certs_pem =~= Seq::<Seq<u8>>::empty());
    }
}


pub open spec fn bool_text(b: bool) -> Seq<char> {
    if b {
        "true"@
    } else {
        "false"@
    }
}

/// A description of the options for logs and debugging, with every
/// credential replaced by `<redacted>` (and omitted when unset).
pub open spec fn summary_spec(b: BuilderView) -> Seq<char> {
    summary_auth(b) + summary_options(b) + summary_transport(b) + summary_tls(b)
}

/// The summary's opening: the base URL and which credentials are held.
pub open spec fn summary_auth(b: BuilderView) -> Seq<char> {
    "WebDavClientBuilder { base_url: "@ + spec_debug_str(b.base_url) + (if b.basic_user is Some {
        ", basic_auth: \"<redacted>\""@
    } else {
        Seq::empty()
    }) + (if b.bearer_token is Some {
        ", bearer_token: \"<redacted>\""@
    } else {
        Seq::empty()
    })
}

/// The summary's request options.
pub open spec fn summary_options(b: BuilderView) -> Seq<char> {
    ", user_agent: "@ + match b.user_agent {
        Some(ua) => "Some("@ + spec_debug_str(ua) + ")"@,
        None => "None"@,
    } + ", force_http1: "@ + bool_text(b.force_http1) + ", pool_max_idle_per_host: "@ + decimal(
        b.pool_max_idle_per_host as nat,
    )
}

/// The summary's compression mode and proxy.
pub open spec fn summary_transport(b: BuilderView) -> Seq<char> {
    ", request_compression: "@ + compression_mode_text(b.request_compression) + ", proxy: "@ + match b.proxy {
        Some(u) => "Some("@ + u.text + ")"@,
        None => "None"@,
    }
}

/// The summary's closing: proxy credentials held, and the TLS options.
pub open spec fn summary_tls(b: BuilderView) -> Seq<char> {
    (if b.proxy_basic_user is Some {
        ", proxy_basic_auth: \"<redacted>\""@
    } else {
        Seq::empty()
    }) + ", extra_root_certs_pem_count: "@ + decimal(b.extra_root_certs_pem.len()) + ", danger_accept_invalid_certs: "@
        + bool_text(b.danger_accept_invalid_certs) + " }"@
}

/// How a compression mode is written in the summary.
pub open spec fn compression_mode_text(m: RequestCompressionMode) -> Seq<char> {
    match m {
        RequestCompressionMode::Auto => "Auto"@,
        RequestCompressionMode::Disabled => "Disabled"@,
        RequestCompressionMode::Force(e) => "Force("@ + encoding_debug_text(e) + ")"@,
    }
}

/// How a content coding is written in the summary.
pub open spec fn encoding_debug_text(e: ContentEncoding) -> Seq<char> {
    match e {
        ContentEncoding::Identity => "Identity"@,
        ContentEncoding::Gzip => "Gzip"@,
        ContentEncoding::Br => "Br"@,
        ContentEncoding::Zstd => "Zstd"@,
    }
}

fn encoding_debug_str(e: ContentEncoding) -> (r: &'static str)
    ensures
        r@ == encoding_debug_text(e),
{
    match e {
        ContentEncoding::Identity => "Identity",
        ContentEncoding::Gzip => "Gzip",
        ContentEncoding::Br => "Br",
        ContentEncoding::Zstd => "Zstd",
    }
}

fn bool_str(b: bool) -> (r: &'static str)
    ensures
        r@ == bool_text(b),
{
    if b {
        "true"
    } else {
        "false"
    }
}

impl WebDavClientBuilder {
    fn append_summary_auth(&self, s: &mut String)
        ensures
            final(s)@ == old(s)@ + summary_auth(self@),
    {
        s.append("WebDavClientBuilder { base_url: ");
        let u = debug_str(self.base_url.as_str());
        s.append(u.as_str());
        if self.basic_user.is_some() {
            s.append(", basic_auth: \"<redacted>\"");
        }
        if self.bearer_token.is_some() {
            s.append(", bearer_token: \"<redacted>\"");
        }
    }

    fn append_summary_options(&self, s: &mut String)
        ensures
            final(s)@ == old(s)@ + summary_options(self@),
    {
        s.append(", user_agent: ");
        match &self.user_agent {
            Some(ua) => {
                s.append("Some(");
                let d = debug_str(ua.as_str());
                s.append(d.as_str());
                s.append(")");
            },
            None => {
                s.append("None");
            },
        }
        s.append(", force_http1: ");
        s.append(bool_str(self.force_http1));
        s.append(", pool_max_idle_per_host: ");
        let p = u64_decimal(self.pool_max_idle_per_host as u64);
        s.append(p.as_str());
    }

    fn append_summary_transport(&self, s: &mut String)
        ensures
            final(s)@ == old(s)@ + summary_transport(self@),
    {
        s.append(", request_compression: ");
        match self.request_compression {
            RequestCompressionMode::Auto => {
                s.append("Auto");
            },
            RequestCompressionMode::Disabled => {
                s.append("Disabled");
            },
            RequestCompressionMode::Force(e) => {
                s.append("Force(");
                s.append(encoding_debug_str(e));
                s.append(")");
            },
        }
        s.append(", proxy: ");
        match &self.proxy {
            Some(u) => {
                s.append("Some(");
                s.append(u.text.as_str());
                s.append(")");
            },
            None => {
                s.append("None");
            },
        }
    }

    fn append_summary_tls(&self, s: &mut String)
        ensures
            final(s)@ == old(s)@ + summary_tls(self@),
    {
        if self.proxy_basic_user.is_some() {
            s.append(", proxy_basic_auth: \"<redacted>\"");
        }
        s.append(", extra_root_certs_pem_count: ");
        let c = u64_decimal(self.extra_root_certs_pem.len() as u64);
        s.append(c.as_str());
        s.append(", danger_accept_invalid_certs: ");
        s.append(bool_str(self.danger_accept_invalid_certs));
        s.append(" }");
    }

    /// Describe the options without revealing any credential (see
    /// [`summary_spec`]).
    pub fn redacted_summary(&self) -> (r: String)
        ensures
            r@ == summary_spec(self@),
    {
        let mut s = String::new();
        self.append_summary_auth(&mut s);
        self.append_summary_options(&mut s);
        self.append_summary_transport(&mut s);
        self.append_summary_tls(&mut s);
        assert(s@ =~= summary_spec(self@));
        s
    }
}

/// The summary tells whether credentials are held, never what they are:
/// builders that differ only in the values of their user names,
/// passwords and bearer token are summarized alike.
pub proof fn lemma_summary_hides_credentials(a: BuilderView, b: BuilderView)
    requires
        a.basic_user is Some <==> b.basic_user is Some,
        a.bearer_token is Some <==> b.bearer_token is Some,
        a.proxy_basic_user is Some <==> b.proxy_basic_user is Some,
        a == (BuilderView {
            basic_user: a.basic_user,
            basic_pass: a.basic_pass,
            bearer_token: a.bearer_token,
            proxy_basic_user: a.proxy_basic_user,
            proxy_basic_pass: a.proxy_basic_pass,
            ..b
        }),
    ensures
        summary_spec(a) == summary_spec(b),
{
}

/// A zero timeout is refused: building after `timeout(d)` with a `d` of
/// no seconds and no nanoseconds fails with the timeout message, whatever
/// else was set.
pub proof fn lemma_zero_timeout_refused(b: BuilderView, d: Duration)
    requires
        spec_duration_secs(d) == 0,
        spec_duration_subsec_nanos(d) == 0,
    ensures
        config_error(
            BuilderView {
                timeout_secs: spec_duration_secs(d),
                timeout_subsec_nanos: spec_duration_subsec_nanos(d),
                ..b
            },
        ) == Some("timeout must be > 0"@),
{
}

} // verus!
