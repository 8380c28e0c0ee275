//! What the client puts into requests and reads back from answers, around
//! the transport: lock bodies and headers, the `Destination` check, error
//! mapping of failed statuses, sync-support probing, stale-token detection,
//! header values read back, and `.well-known` discovery.

use vstd::prelude::*;

use crate::bodies::{error_body_spec, lock_discovery_spec, lock_timeout_spec, parse_error_body, parse_lock_discovery_bytes, parse_lock_timeout};
use crate::error::{Error, ErrorView, Operation};
use crate::etag::{normalize_etag, normalize_etag_spec};
use crate::text::{chars_of, eq_ignore_case, eq_ignore_case_exec, trim, trim_string};
use crate::types::{opt_chars, DavCapabilities, DavCapabilitiesView, dav_header_spec, parse_dav_header, LockInfo, LockInfoView, LockScope, Prefer, SyncCapability};
use crate::uri::{opt_uri_view, parse_uri, spec_parse_uri};
use crate::xml::{decimal, u32_decimal};
use crate::xmlread::{spec_utf8_lossy, utf8_lossy};

verus! {

/// What `format!("{:?}", s)` renders for a string: quoted, with std's
/// escapes.
pub uninterp spec fn spec_debug_str(s: Seq<char>) -> Seq<char>;

/// `<str as Debug>::fmt`, through `format!`.
#[verifier::external_body]
pub(crate) fn debug_str(s: &str) -> (r: String)
    ensures
        r@ == spec_debug_str(s@),
{
    format!("{s:?}")
}

/// What `hyper::StatusCode`'s `Display` renders for a status code (the
/// number and its canonical reason).
pub uninterp spec fn spec_status_display(code: u16) -> Seq<char>;

/// `<hyper::StatusCode as Display>::fmt`, through `format!`.
#[verifier::external_body]
fn status_display(code: u16) -> (r: String)
    requires
        100 <= code <= 999,
    ensures
        r@ == spec_status_display(code),
{
    match hyper::StatusCode::from_u16(code) {
        Ok(s) => format!("{s}"),
        Err(_) => String::new(),
    }
}

/// `char::is_ascii_graphic`: `!` through `~`.
pub open spec fn ascii_graphic(c: char) -> bool {
    '!' <= c && c <= '~'
}

/// A character a lock token may hold in a Coded-URL (RFC 4918 §10.5).
pub open spec fn lock_token_char(c: char) -> bool {
    ascii_graphic(c) && c != '<' && c != '>' && c != '(' && c != ')'
}

pub open spec fn lock_token_problem(token: Seq<char>) -> Option<Seq<char>> {
    if token.len() == 0 {
        Some("lock token cannot be empty"@)
    } else if !(forall|i: int| 0 <= i < token.len() ==> lock_token_char(#[trigger] token[i])) {
        Some("lock token contains characters invalid in a Coded-URL (RFC 4918 §10.5): "@ + spec_debug_str(token))
    } else {
        None
    }
}

/// Reject lock tokens that cannot appear in a Coded-URL (RFC 4918 §10.5):
/// empty, or holding `<`, `>`, `(`, `)` or anything but visible ASCII.
pub fn validate_lock_token(token: &str) -> (r: Result<(), Error>)
    ensures
        match lock_token_problem(token@) {
            Some(msg) => r matches Err(e) && e@ == ErrorView::InvalidInput(msg),
            None => r is Ok,
        },
{
    let v = chars_of(token);
    if v.len() == 0 {
        return Err(Error::InvalidInput("lock token cannot be empty".to_owned()));
    }
    let mut i: usize = 0;
    while i < v.len()
        invariant
            i <= v@.len(),
            v@ == token@,
            forall|j: int| 0 <= j < i ==> lock_token_char(#[trigger] v@[j]),
        decreases v.len() - i,
    {
        let c = v[i];
        if !('!' <= c && c <= '~' && c != '<' && c != '>' && c != '(' && c != ')') {
            assert(!lock_token_char(token@[i as int]));
            let mut msg = "lock token contains characters invalid in a Coded-URL (RFC 4918 §10.5): ".to_owned();
            let d = debug_str(token);
            msg.append(d.as_str());
            return Err(Error::InvalidInput(msg));
        }
        i += 1;
    }
    Ok(())
}

/// `Second-N`, with `N` clamped to `u32::MAX` (RFC 4918 §10.7).
pub open spec fn timeout_value_spec(secs: u64) -> Seq<char> {
    "Second-"@ + decimal(if secs > 0xffff_ffff {
        0xffff_ffffnat
    } else {
        secs as nat
    })
}

/// The `Timeout` request header value for a lock of `secs` seconds.
pub fn timeout_header_value(secs: u64) -> (r: String)
    ensures
        r@ == timeout_value_spec(secs),
{
    let n: u32 = if secs > 0xffff_ffff {
        0xffff_ffff
    } else {
        secs as u32
    };
    let mut out = "Second-".to_owned();
    let d = u32_decimal(n);
    out.append(d.as_str());
    out
}

pub open spec fn lock_scope_text(s: LockScope) -> Seq<char> {
    match s {
        LockScope::Exclusive => "exclusive"@,
        LockScope::Shared => "shared"@,
    }
}

impl LockScope {
    /// The `<D:lockscope>` child: `exclusive` or `shared`.
    pub fn as_str(&self) -> (r: &'static str)
        ensures
            r@ == lock_scope_text(*self),
    {
        match self {
            LockScope::Exclusive => "exclusive",
            LockScope::Shared => "shared",
        }
    }
}

/// The `<D:lockinfo>` body of a new lock: the scope, a write lock, and the
/// owner fragment (trimmed, inserted as is; omitted when blank).
pub open spec fn lock_body_spec(scope: LockScope, owner_xml: Seq<char>) -> Seq<char> {
    "<?xml version=\"1.0\" encoding=\"utf-8\"?>\n<D:lockinfo xmlns:D=\"DAV:\">\n  <D:lockscope><D:"@
        + lock_scope_text(scope) + "/></D:lockscope>\n  <D:locktype><D:write/></D:locktype>"@ + (if trim(
        owner_xml,
    ).len() == 0 {
        Seq::empty()
    } else {
        "\n  <D:owner>"@ + trim(owner_xml) + "</D:owner>"@
    }) + "\n</D:lockinfo>"@
}

/// Build the `LOCK` request body (see [`lock_body_spec`]).
pub fn lock_body(scope: LockScope, owner_xml: &str) -> (r: String)
    ensures
        r@ == lock_body_spec(scope, owner_xml@),
{
    let owner = trim_string(owner_xml);
    let mut body = "<?xml version=\"1.0\" encoding=\"utf-8\"?>\n<D:lockinfo xmlns:D=\"DAV:\">\n  <D:lockscope><D:".to_owned();
    body.append(scope.as_str());
    body.append("/></D:lockscope>\n  <D:locktype><D:write/></D:locktype>");
    if !owner.as_str().is_empty() {
        body.append("\n  <D:owner>");
        body.append(owner.as_str());
        body.append("</D:owner>");
    }
    body.append("\n</D:lockinfo>");
    body
}

/// The `If` header of a lock refresh, `(<token>)`, for the trimmed token,
/// once the token is valid.
pub fn refresh_if_header(token: &str) -> (r: Result<String, Error>)
    ensures
        match lock_token_problem(trim(token@)) {
            Some(msg) => r matches Err(e) && e@ == ErrorView::InvalidInput(msg),
            None => r matches Ok(h) && h@ == "(<"@ + trim(token@) + ">)"@,
        },
{
    let t = trim_string(token);
    validate_lock_token(t.as_str())?;
    let mut h = "(<".to_owned();
    h.append(t.as_str());
    h.append(">)");
    Ok(h)
}

/// The `Lock-Token` header of an `UNLOCK`, `<token>`, for the trimmed token,
/// once the token is valid.
pub fn unlock_token_header(token: &str) -> (r: Result<String, Error>)
    ensures
        match lock_token_problem(trim(token@)) {
            Some(msg) => r matches Err(e) && e@ == ErrorView::InvalidInput(msg),
            None => r matches Ok(h) && h@ == "<"@ + trim(token@) + ">"@,
        },
{
    let t = trim_string(token);
    validate_lock_token(t.as_str())?;
    let mut h = "<".to_owned();
    h.append(t.as_str());
    h.append(">");
    Ok(h)
}

/// A `LOCK` answer read: the lock discovery from the body, its timeout
/// filled from the `Timeout` header when the body has none, and its token
/// filled from `fallback_token` (a refresh) when the body has none.
pub open spec fn lock_response_spec(
    body: Seq<u8>,
    header_timeout: Option<Seq<char>>,
    fallback_token: Option<Seq<char>>,
) -> Result<LockInfoView, ErrorView> {
    match lock_discovery_spec(body) {
        Err(e) => Err(e),
        Ok(info) => {
            let timeout = match info.timeout_secs {
                Some(t) => Some(t),
                None => match header_timeout {
                    Some(h) => lock_timeout_spec(h),
                    None => None,
                },
            };
            if info.token.len() > 0 {
                Ok(LockInfoView { timeout_secs: timeout, ..info })
            } else {
                match fallback_token {
                    Some(t) => if t.len() > 0 {
                        Ok(LockInfoView { timeout_secs: timeout, token: t, ..info })
                    } else {
                        Err(ErrorView::InvalidInput("server returned no lock token for the LOCK response"@))
                    },
                    None => Err(ErrorView::InvalidInput("server returned no lock token for the LOCK response"@)),
                }
            }
        },
    }
}

/// Read a successful `LOCK` answer (see [`lock_response_spec`]).
pub fn lock_response(body: &[u8], header_timeout: Option<&str>, fallback_token: Option<&str>) -> (r: Result<LockInfo, Error>)
    ensures
        match lock_response_spec(
            body@,
            match header_timeout {
                Some(h) => Some(h@),
                None => None,
            },
            match fallback_token {
                Some(t) => Some(t@),
                None => None,
            },
        ) {
            Ok(info) => r matches Ok(x) && x@ == info,
            Err(e) => r matches Err(x) && x@ == e,
        },
{
    let header = match header_timeout {
        Some(h) => parse_lock_timeout(h),
        None => None,
    };
    let mut info = parse_lock_discovery_bytes(body)?;
    if info.timeout_secs.is_none() {
        info.timeout_secs = header;
    }
    if info.token.as_str().is_empty() {
        match fallback_token {
            Some(t) => {
                if t.is_empty() {
                    return Err(Error::InvalidInput("server returned no lock token for the LOCK response".to_owned()));
                }
                info.token = t.to_owned();
            },
            None => {
                return Err(Error::InvalidInput("server returned no lock token for the LOCK response".to_owned()));
            },
        }
    }
    Ok(info)
}

/// The error for a failed status: with the `<D:error>` precondition when
/// the body names one (RFC 4918 §16), else the bare status.
pub open spec fn status_error_spec(operation: Operation, status: u16, body: Seq<u8>) -> ErrorView {
    match error_body_spec(body) {
        Ok(v) => match v.precondition_code {
            Some(code) => ErrorView::UnexpectedStatusWithDav { operation, status, precondition: code },
            None => ErrorView::UnexpectedStatus { operation, status },
        },
        Err(_) => ErrorView::UnexpectedStatus { operation, status },
    }
}

/// Map a failed status to an error (see [`status_error_spec`]).
pub fn status_error(operation: Operation, status: u16, body: &[u8]) -> (e: Error)
    ensures
        e@ == status_error_spec(operation, status, body@),
{
    match parse_error_body(body) {
        Ok(dav) => match dav.precondition_code {
            Some(code) => Error::UnexpectedStatusWithDav { operation, status, precondition: code },
            None => Error::UnexpectedStatus { operation, status },
        },
        Err(_) => Error::UnexpectedStatus { operation, status },
    }
}

pub open spec fn is_success(status: u16) -> bool {
    200 <= status && status < 300
}

/// A stale sync token: `410 Gone` (RFC 6578 §3.11), or `403 Forbidden`
/// with the `valid-sync-token` precondition (§3.2).
pub open spec fn stale_token_spec(status: u16, body: Seq<u8>) -> bool {
    status == 410 || (status == 403 && match error_body_spec(body) {
        Ok(v) => v.precondition_code == Some("valid-sync-token"@),
        Err(_) => false,
    })
}

/// What a `sync-collection` answer means for a resilient sync: `Ok(false)`
/// to read it, `Ok(true)` to re-issue it once as an initial sync (the token
/// was stale), or the error of any other failure.
pub fn sync_answer_step(status: u16, body: &[u8]) -> (r: Result<bool, Error>)
    ensures
        is_success(status) ==> r == Ok::<bool, Error>(false),
        !is_success(status) && stale_token_spec(status, body@) ==> r == Ok::<bool, Error>(true),
        !is_success(status) && !stale_token_spec(status, body@) ==> (r matches Err(e) && e@
            == ErrorView::UnexpectedStatus { operation: Operation::ReportSyncCollection, status }),
{
    if 200 <= status && status < 300 {
        return Ok(false);
    }
    let vs = chars_of("valid-sync-token");
    proof {
        reveal_strlit("valid-sync-token");
    }
    let stale = status == 410 || (status == 403 && match parse_error_body(body) {
        Ok(v) => match &v.precondition_code {
            Some(c) => crate::uri::str_is(c.as_str(), &vs),
            None => false,
        },
        Err(_) => false,
    });
    if stale {
        Ok(true)
    } else {
        Err(Error::UnexpectedStatus { operation: Operation::ReportSyncCollection, status })
    }
}

/// `char::to_ascii_lowercase`.
pub open spec fn lower_char(c: char) -> char {
    if 'A' <= c && c <= 'Z' {
        ((c as u32) + 32) as char
    } else {
        c
    }
}

/// Whether `needle` occurs in `hay` at some position.
pub open spec fn occurs_in(hay: Seq<char>, needle: Seq<char>) -> bool {
    exists|i: int| 0 <= i && i + needle.len() <= hay.len() && #[trigger] hay.subrange(i, i + needle.len()) == needle
}

/// Whether a `supported-report-set` answer advertises the `sync-collection`
/// report: the body, read as lossy UTF-8 and lowercased, contains it.
pub open spec fn advertises_sync_spec(body: Seq<u8>) -> bool {
    occurs_in(spec_utf8_lossy(body).map_values(|c: char| lower_char(c)), "sync-collection"@)
}

/// Whether a `supported-report-set` answer advertises `sync-collection`
/// (see [`advertises_sync_spec`]).
pub fn advertises_sync_collection(body: &[u8]) -> (r: bool)
    ensures
        r == advertises_sync_spec(body@),
{
    let text = utf8_lossy(body);
    let v = chars_of(text.as_str());
    let ghost low = v@.map_values(|c: char| lower_char(c));
    let mut lower: Vec<char> = Vec::new();
    let mut k: usize = 0;
    while k < v.len()
        invariant
            k <= v@.len(),
            lower@ == v@.take(k as int).map_values(|c: char| lower_char(c)),
        decreases v.len() - k,
    {
        let c = v[k];
        let l = if 'A' <= c && c <= 'Z' {
            ((c as u32) + 32) as u8 as char
        } else {
            c
        };
        assert(l == lower_char(c)) by {
            if 'A' <= c && c <= 'Z' {
                assert((((c as u32) + 32) as u8 as char) == (((c as u32) + 32) as char));
            }
        }
        lower.push(l);
        assert(lower@ =~= v@.take(k as int + 1).map_values(|c: char| lower_char(c)));
        k += 1;
    }
    assert(v@.take(v@.len() as int) =~= v@);
    let needle = chars_of("sync-collection");
    proof {
        reveal_strlit("sync-collection");
    }
    contains_seq(&lower, &needle)
}

/// Whether `needle` occurs in `hay`.
fn contains_seq(hay: &Vec<char>, needle: &Vec<char>) -> (r: bool)
    requires
        needle@.len() > 0,
    ensures
        r == occurs_in(hay@, needle@),
{
    let n = needle.len();
    if hay.len() < n {
        assert forall|i: int| 0 <= i && i + n <= hay@.len() implies #[trigger] hay@.subrange(i, i + n) != needle@ by {}
        return false;
    }
    let last = hay.len() - n;
    let mut i: usize = 0;
    while i <= last
        invariant
            n == needle@.len(),
            n > 0,
            hay@.len() <= usize::MAX,
            last == hay@.len() - n,
            i <= last + 1,
            forall|j: int| 0 <= j < i ==> #[trigger] hay@.subrange(j, j + n) != needle@,
        decreases last + 1 - i,
    {
        let mut m: usize = 0;
        while m < n
            invariant
                m <= n,
                n == needle@.len(),
                i + n <= hay@.len(),
                hay@.len() <= usize::MAX,
                forall|q: int| 0 <= q < m ==> hay@[i + q] == needle@[q],
            ensures
                m <= n,
                forall|q: int| 0 <= q < m ==> hay@[i + q] == needle@[q],
                m < n ==> hay@[i + m as int] != needle@[m as int],
            decreases n - m,
        {
            if hay[i + m] != needle[m] {
                break;
            }
            m += 1;
        }
        if m == n {
            assert(hay@.subrange(i as int, i + n) =~= needle@);
            return true;
        }
        assert(hay@.subrange(i as int, i + n)[m as int] != needle@[m as int]);
        i += 1;
    }
    false
}

/// What the fallback probe — a minimal `sync-collection` REPORT — shows:
/// a 2xx answer proves support, another answer its absence, and a failed
/// request (no status) leaves it undetermined.
pub fn report_probe_capability(status: Option<u16>) -> (c: SyncCapability)
    ensures
        c == match status {
            Some(s) => if is_success(s) {
                SyncCapability::Supported
            } else {
                SyncCapability::Unsupported
            },
            None => SyncCapability::Unknown,
        },
{
    match status {
        Some(s) => if 200 <= s && s < 300 {
            SyncCapability::Supported
        } else {
            SyncCapability::Unsupported
        },
        None => SyncCapability::Unknown,
    }
}

/// Why a `Destination` (RFC 4918 §10.3) cannot be sent, if it cannot: it
/// must parse as an absolute URI with scheme and host, carry no userinfo
/// (RFC 9110 §3.2), and be a valid header value.
pub open spec fn destination_problem(dest: Seq<char>) -> Option<Seq<char>> {
    match spec_parse_uri(dest) {
        None => Some("Destination must be an absolute, already percent-encoded URI"@),
        Some(u) => if u.scheme is None || u.host is None {
            Some("Destination must be an absolute URI with scheme and authority"@)
        } else if u.authority matches Some(a) && a.contains('@') {
            Some(
                "Destination must not carry userinfo (RFC 9110 §3.2): pass credentials via the client's auth options, not the URI"@,
            )
        } else if !crate::builder::header_text_ok(dest) {
            Some("Destination is not a valid HTTP header value"@)
        } else {
            None
        },
    }
}

/// Check the `Destination` of a `COPY`/`MOVE` (see [`destination_problem`]).
/// The value is never echoed in the error: it may carry credentials.
pub fn check_destination(dest: &str) -> (r: Result<(), Error>)
    ensures
        match destination_problem(dest@) {
            Some(msg) => r matches Err(e) && e@ == ErrorView::InvalidInput(msg),
            None => r is Ok,
        },
{
    let u = match parse_uri(dest) {
        Some(u) => u,
        None => {
            return Err(Error::InvalidInput("Destination must be an absolute, already percent-encoded URI".to_owned()));
        },
    };
    if u.scheme.is_none() || u.host.is_none() {
        return Err(Error::InvalidInput("Destination must be an absolute URI with scheme and authority".to_owned()));
    }
    if let Some(a) = &u.authority {
        let v = chars_of(a.as_str());
        if crate::text::contains_char(&v, '@') {
            return Err(
                Error::InvalidInput(
                    "Destination must not carry userinfo (RFC 9110 §3.2): pass credentials via the client's auth options, not the URI".to_owned(),
                ),
            );
        }
    }
    if !crate::builder::header_text_valid(dest) {
        return Err(Error::InvalidInput("Destination is not a valid HTTP header value".to_owned()));
    }
    Ok(())
}

/// The `Overwrite` header value: `T` or `F`.
pub fn overwrite_value(overwrite: bool) -> (r: &'static str)
    ensures
        r@ == (if overwrite {
            "T"@
        } else {
            "F"@
        }),
{
    if overwrite {
        "T"
    } else {
        "F"
    }
}

/// The entity-tag a response carries, from the value of its `ETag` header
/// (`None` when the header is absent or not visible ASCII): normalized
/// (trimmed, outer quotes stripped); `None` when absent or empty.
pub fn etag_from_headers(value: Option<&str>) -> (r: Option<String>)
    ensures
        opt_chars(r) == match value {
            Some(v) => if normalize_etag_spec(v@).len() > 0 {
                Some(normalize_etag_spec(v@))
            } else {
                None
            },
            None => None,
        },
{
    match value {
        Some(v) => {
            let e = normalize_etag(v);
            if e.as_str().is_empty() {
                None
            } else {
                Some(e)
            }
        },
        None => None,
    }
}

/// The preference a `Preference-Applied` value reports (RFC 7240 §3),
/// read leniently: trimmed, ASCII case ignored; anything else is `None`.
pub open spec fn preference_spec(value: Option<Seq<char>>) -> Option<Prefer> {
    match value {
        Some(v) => if eq_ignore_case(trim(v), "return=minimal"@) {
            Some(Prefer::Minimal)
        } else if eq_ignore_case(trim(v), "return=representation"@) {
            Some(Prefer::Representation)
        } else {
            None
        },
        None => None,
    }
}

/// The preference a response reports applied, from the value of its
/// `Preference-Applied` header (`None` when the header is absent or not
/// visible ASCII); see [`preference_spec`].
pub fn preference_applied_from_headers(value: Option<&str>) -> (r: Option<Prefer>)
    ensures
        r == preference_spec(
            match value {
                Some(v) => Some(v@),
                None => None,
            },
        ),
{
    match value {
        Some(v) => {
            let t = trim_string(v);
            let tv = chars_of(t.as_str());
            let minimal = chars_of("return=minimal");
            let representation = chars_of("return=representation");
            if eq_ignore_case_exec(&tv, &minimal) {
                Some(Prefer::Minimal)
            } else if eq_ignore_case_exec(&tv, &representation) {
                Some(Prefer::Representation)
            } else {
                None
            }
        },
        None => None,
    }
}

/// The server's capabilities from its `DAV` header value (RFC 4918 §10.1);
/// none advertised when the header is absent.
pub fn capabilities_from_header(value: Option<&str>) -> (r: Result<DavCapabilities, Error>)
    ensures
        match value {
            Some(v) => r matches Ok(c) && c@ == dav_header_spec(v@),
            None => r matches Ok(c) && c@ == (DavCapabilitiesView {
                class1: false,
                class2: false,
                class3: false,
                extensions: Seq::empty(),
            }),
        },
{
    match value {
        Some(v) => parse_dav_header(v),
        None => {
            let c = DavCapabilities { class1: false, class2: false, class3: false, extensions: Vec::new() };
            assert(c@.extensions =~= Seq::<Seq<char>>::empty());
            Ok(c)
        },
    }
}

/// The path probed for a service (RFC 6764 §5): `/.well-known/{service}`.
pub fn well_known_path(service: &str) -> (r: String)
    ensures
        r@ == "/.well-known/"@ + service@,
{
    let mut p = "/.well-known/".to_owned();
    p.append(service);
    p
}

pub open spec fn is_redirection(status: u16) -> bool {
    300 <= status && status < 400
}

/// What a `.well-known` probe discovers (RFC 6764 §5, §6): a `404` or a
/// success served on the probed path itself gives the base URL; a success
/// after redirects gives the final URL; a redirect that was not followed
/// and any other failure are errors.
pub open spec fn discovery_spec(
    status: u16,
    probe_path: Seq<char>,
    final_path: Seq<char>,
    final_url: Seq<char>,
    base_url: Seq<char>,
    operation: Operation,
) -> Result<Seq<char>, ErrorView> {
    if status == 404 {
        Ok(base_url)
    } else if !is_success(status) {
        if is_redirection(status) {
            Err(
                ErrorView::Other(
                    "discovery probe received redirect status "@ + spec_status_display(status)
                        + " that was not followed (is follow_redirects disabled?); the "@ + probe_path
                        + " service URL cannot be resolved"@,
                ),
            )
        } else {
            Err(ErrorView::UnexpectedStatus { operation, status })
        }
    } else if final_path == probe_path {
        Ok(base_url)
    } else {
        Ok(final_url)
    }
}

/// Decide what a `.well-known` probe discovered (see [`discovery_spec`]).
pub fn discovery_result(
    status: u16,
    probe_path: &str,
    final_path: &str,
    final_url: &str,
    base_url: &str,
    operation: Operation,
) -> (r: Result<String, Error>)
    requires
        100 <= status <= 999,
    ensures
        match discovery_spec(status, probe_path@, final_path@, final_url@, base_url@, operation) {
            Ok(u) => r matches Ok(x) && x@ == u,
            Err(e) => r matches Err(x) && x@ == e,
        },
{
    if status == 404 {
        return Ok(base_url.to_owned());
    }
    if !(200 <= status && status < 300) {
        if 300 <= status && status < 400 {
            let mut msg = "discovery probe received redirect status ".to_owned();
            let s = status_display(status);
            msg.append(s.as_str());
            msg.append(" that was not followed (is follow_redirects disabled?); the ");
            msg.append(probe_path);
            msg.append(" service URL cannot be resolved");
            return Err(Error::Other(msg));
        }
        return Err(Error::UnexpectedStatus { operation, status });
    }
    let pv = chars_of(probe_path);
    if crate::uri::str_is(final_path, &pv) {
        Ok(base_url.to_owned())
    } else {
        Ok(final_url.to_owned())
    }
}

} // verus!
