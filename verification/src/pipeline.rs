//! The decisions of the request pipeline: after each response, whether to
//! return it, refresh credentials and resend, resend uncompressed, retry a
//! transient failure, or follow a redirect — and how the request changes
//! for the next attempt.

use vstd::prelude::*;
use vstd::string::*;

use crate::compression::{compression_outcome, CompressionState, ContentEncoding};
use crate::retry::{
    idempotent_method, is_idempotent_method, is_redirect_status, is_retryable_status,
    redirect_status, retryable_status,
};
use crate::uri::{
    is_downgrade_spec, is_https_to_http_downgrade, resolve_location, resolve_location_spec,
    same_origin, same_origin_spec, Uri, UriView,
};

verus! {

/// The client settings the pipeline follows.
#[derive(Clone, Copy, Debug)]
pub struct SendConfig {
    /// Whether redirects (301/302/303/307/308) are followed.
    pub follow_redirects: bool,
    /// How many redirects may be followed before failing.
    pub max_redirects: u8,
    /// How many times a transient failure (`429`/`503`/`504`) is retried.
    pub max_retries: usize,
    /// Retry every method, not only the idempotent ones.
    pub retry_all: bool,
    /// Whether a token provider supplies the credentials.
    pub has_token_provider: bool,
}

/// Where one request stands in the pipeline.
#[derive(Clone, Debug)]
pub struct SendState {
    /// The method of the next attempt.
    pub method: String,
    /// Whether the next attempt carries the body.
    pub has_body: bool,
    /// The URI of the next attempt.
    pub uri: Uri,
    /// Redirects followed so far.
    pub redirects: u8,
    /// Whether credentials and validators were dropped after crossing
    /// origins.
    pub strip_credentials: bool,
    /// Uncompressed resends so far.
    pub attempt: usize,
    /// Transient-failure retries so far (shared across the redirect chain).
    pub retries: usize,
    /// Whether credentials were refreshed after a `401`.
    pub auth_retried: bool,
}

pub struct SendStateView {
    pub method: Seq<char>,
    pub has_body: bool,
    pub uri: UriView,
    pub redirects: u8,
    pub strip_credentials: bool,
    pub attempt: usize,
    pub retries: usize,
    pub auth_retried: bool,
}

impl View for SendState {
    type V = SendStateView;

    open spec fn view(&self) -> SendStateView {
        SendStateView {
            method: self.method@,
            has_body: self.has_body,
            uri: self.uri@,
            redirects: self.redirects,
            strip_credentials: self.strip_credentials,
            attempt: self.attempt,
            retries: self.retries,
            auth_retried: self.auth_retried,
        }
    }
}

/// What the pipeline does after a response.
#[derive(Clone, Copy, PartialEq, Eq, Structural, Debug)]
pub enum SendStep {
    /// Return the response to the caller.
    Done,
    /// Fail with `TooManyRedirects`.
    TooManyRedirects,
    /// Invalidate the token and send again.
    RefreshAuth,
    /// Send again; the body now goes uncompressed.
    ResendUncompressed,
    /// Wait the delay for retry number `retry_index` (0-based), then send
    /// again.
    Retry { retry_index: usize },
    /// Send to the new URI; drop `Authorization`, `Cookie`, `If-Match` and
    /// `If-None-Match` when `strip_credential_headers`, and
    /// `Content-Type`, `Content-Length` and `Content-Encoding` when
    /// `drop_body_headers`.
    Redirect { strip_credential_headers: bool, drop_body_headers: bool },
}

/// The state of a request before its first attempt.
pub open spec fn send_initial(method: Seq<char>, has_body: bool, uri: UriView) -> SendStateView {
    SendStateView {
        method,
        has_body,
        uri,
        redirects: 0,
        strip_credentials: false,
        attempt: 0,
        retries: 0,
        auth_retried: false,
    }
}

/// `GET`.
pub open spec fn get_method() -> Seq<char> {
    seq!['G', 'E', 'T']
}

/// The decision after a response with status `status` (and `Location`
/// `loc`) to an attempt whose body was compressed with `attempted`:
/// 1. a `401` with a token provider refreshes the credentials once (not
///    after credentials were dropped cross-origin);
/// 2. a body rejected as compressed is resent uncompressed once;
/// 3. a transient failure is retried while the budget lasts (idempotent
///    methods only, unless every method is retried);
/// 4. a followed redirect goes to the resolved `Location`, failing past
///    the redirect limit, never downgrading from https to http, dropping
///    credentials once it crosses origins, and turning into a body-less
///    `GET` on `303`;
/// 5. anything else returns the response.
pub open spec fn send_step(
    s: SendStateView,
    cfg: SendConfig,
    comp: CompressionState,
    attempted: Option<ContentEncoding>,
    status: u16,
    loc: Option<Seq<char>>,
) -> (SendStateView, CompressionState, SendStep) {
    if status == 401 && cfg.has_token_provider && !s.auth_retried && !s.strip_credentials {
        (SendStateView { auth_retried: true, ..s }, comp, SendStep::RefreshAuth)
    } else {
        let (comp1, resend) = compression_outcome(comp, attempted, status);
        if resend && s.attempt == 0 && s.has_body {
            (SendStateView { attempt: 1, ..s }, comp1, SendStep::ResendUncompressed)
        } else if retryable_status(status) && (cfg.retry_all || idempotent_method(s.method))
            && s.retries < cfg.max_retries {
            (
                SendStateView { retries: (s.retries + 1) as usize, ..s },
                comp1,
                SendStep::Retry { retry_index: s.retries },
            )
        } else if !cfg.follow_redirects || !redirect_status(status) {
            (s, comp1, SendStep::Done)
        } else if s.redirects >= cfg.max_redirects {
            (s, comp1, SendStep::TooManyRedirects)
        } else {
            match loc {
                None => (s, comp1, SendStep::Done),
                Some(l) => match resolve_location_spec(s.uri, l) {
                    None => (s, comp1, SendStep::Done),
                    Some(next) => if is_downgrade_spec(s.uri, next) {
                        (s, comp1, SendStep::Done)
                    } else {
                        let strip_now = !s.strip_credentials && !same_origin_spec(s.uri, next);
                        let see_other = status == 303;
                        (
                            SendStateView {
                                uri: next,
                                redirects: (s.redirects + 1) as u8,
                                strip_credentials: s.strip_credentials || strip_now,
                                method: if see_other {
                                    get_method()
                                } else {
                                    s.method
                                },
                                has_body: if see_other {
                                    false
                                } else {
                                    s.has_body
                                },
                                ..s
                            },
                            comp1,
                            SendStep::Redirect {
                                strip_credential_headers: strip_now,
                                drop_body_headers: see_other,
                            },
                        )
                    },
                },
            }
        }
    }
}

impl SendState {
    /// A request about to be sent for the first time.
    pub fn new(method: &str, has_body: bool, uri: Uri) -> (r: SendState)
        ensures
            r@ == send_initial(method@, has_body, uri@),
    {
        SendState {
            method: method.to_owned(),
            has_body,
            uri,
            redirects: 0,
            strip_credentials: false,
            attempt: 0,
            retries: 0,
            auth_retried: false,
        }
    }

    /// Decide what follows a response (see [`send_step`]), updating the
    /// request and the shared compression state.
    pub fn on_response(
        &mut self,
        cfg: &SendConfig,
        comp: &mut CompressionState,
        attempted: Option<ContentEncoding>,
        status: u16,
        location: Option<&str>,
    ) -> (r: SendStep)
        ensures
            (final(self)@, *final(comp), r) == send_step(
                old(self)@,
                *cfg,
                *old(comp),
                attempted,
                status,
                match location {
                    Some(l) => Some(l@),
                    None => None,
                },
            ),
    {
        if status == 401 && cfg.has_token_provider && !self.auth_retried && !self.strip_credentials {
            self.auth_retried = true;
            return SendStep::RefreshAuth;
        }
        let resend = comp.handle_request_compression_outcome(attempted, status);
        if resend && self.attempt == 0 && self.has_body {
            self.attempt = 1;
            return SendStep::ResendUncompressed;
        }
        if is_retryable_status(status) && (cfg.retry_all || is_idempotent_method(self.method.as_str()))
            && self.retries < cfg.max_retries {
            let index = self.retries;
            self.retries = index + 1;
            return SendStep::Retry { retry_index: index };
        }
        if !cfg.follow_redirects || !is_redirect_status(status) {
            return SendStep::Done;
        }
        if self.redirects >= cfg.max_redirects {
            return SendStep::TooManyRedirects;
        }
        let loc = match location {
            Some(l) => l,
            None => {
                return SendStep::Done;
            },
        };
        let next = match resolve_location(&self.uri, loc) {
            Some(n) => n,
            None => {
                return SendStep::Done;
            },
        };
        if is_https_to_http_downgrade(&self.uri, &next) {
            return SendStep::Done;
        }
        let strip_now = !self.strip_credentials && !same_origin(&self.uri, &next);
        let see_other = status == 303;
        if strip_now {
            self.strip_credentials = true;
        }
        if see_other {
            let get = ['G', 'E', 'T'];
            let g: &[char] = &get;
            assert(g@ == get_method());
            self.method = crate::text::string_of(g);
            self.has_body = false;
        }
        self.uri = next;
        self.redirects = self.redirects + 1;
        SendStep::Redirect { strip_credential_headers: strip_now, drop_body_headers: see_other }
    }
}

/// The bounds a request's counters keep.
pub open spec fn send_inv(s: SendStateView, cfg: SendConfig) -> bool {
    s.redirects <= cfg.max_redirects && s.retries <= cfg.max_retries && s.attempt <= 1
}

/// The budget a request has left: redirects, retries, the one credential
/// refresh and the one uncompressed resend.
pub open spec fn send_budget(s: SendStateView, cfg: SendConfig) -> int {
    (cfg.max_redirects - s.redirects) + (cfg.max_retries - s.retries) + (if s.auth_retried {
        0int
    } else {
        1int
    }) + (if s.attempt == 0 {
        1int
    } else {
        0int
    })
}

/// A request starts within its bounds, with budget
/// `max_redirects + max_retries + 2`.
pub proof fn lemma_send_initial(method: Seq<char>, has_body: bool, uri: UriView, cfg: SendConfig)
    ensures
        send_inv(send_initial(method, has_body, uri), cfg),
        send_budget(send_initial(method, has_body, uri), cfg) == cfg.max_redirects + cfg.max_retries + 2,
{
}

/// Every resend consumes budget, and the counters stay within their
/// bounds: the pipeline ends after at most `max_redirects + max_retries +
/// 2` resends.
pub proof fn lemma_send_terminates(
    s: SendStateView,
    cfg: SendConfig,
    comp: CompressionState,
    attempted: Option<ContentEncoding>,
    status: u16,
    loc: Option<Seq<char>>,
)
    requires
        send_inv(s, cfg),
    ensures
        ({
            let (s2, c2, step) = send_step(s, cfg, comp, attempted, status, loc);
            &&& send_inv(s2, cfg)
            &&& (step != SendStep::Done && step != SendStep::TooManyRedirects) ==> 0 <= send_budget(s2, cfg) < send_budget(s, cfg)
        }),
{
}

/// Credentials are refreshed at most once per request, never after they
/// were dropped for crossing origins; once dropped they stay dropped.
pub proof fn lemma_refresh_at_most_once(
    s: SendStateView,
    cfg: SendConfig,
    comp: CompressionState,
    attempted: Option<ContentEncoding>,
    status: u16,
    loc: Option<Seq<char>>,
)
    ensures
        ({
            let (s2, c2, step) = send_step(s, cfg, comp, attempted, status, loc);
            &&& step == SendStep::RefreshAuth ==> !s.auth_retried && !s.strip_credentials && s2.auth_retried && status == 401
            &&& s.auth_retried ==> s2.auth_retried
            &&& s.strip_credentials ==> s2.strip_credentials
        }),
{
}

/// A followed redirect goes where the `Location` resolves to, never from
/// https to http; a hop to another origin leaves the request without
/// credentials; a `303` turns it into a `GET` without a body; any other
/// redirect keeps the method and the body.
pub proof fn lemma_redirect_safety(
    s: SendStateView,
    cfg: SendConfig,
    comp: CompressionState,
    attempted: Option<ContentEncoding>,
    status: u16,
    loc: Option<Seq<char>>,
)
    ensures
        ({
            let (s2, c2, step) = send_step(s, cfg, comp, attempted, status, loc);
            step matches SendStep::Redirect { strip_credential_headers, drop_body_headers } ==> {
                &&& cfg.follow_redirects && redirect_status(status)
                &&& s.redirects < cfg.max_redirects && s2.redirects == s.redirects + 1
                &&& loc matches Some(l) && resolve_location_spec(s.uri, l) == Some(s2.uri)
                &&& !is_downgrade_spec(s.uri, s2.uri)
                &&& !same_origin_spec(s.uri, s2.uri) ==> s2.strip_credentials
                &&& strip_credential_headers == (!s.strip_credentials && !same_origin_spec(s.uri, s2.uri))
                &&& drop_body_headers == (status == 303)
                &&& status == 303 ==> s2.method == get_method() && !s2.has_body
                &&& status != 303 ==> s2.method == s.method && s2.has_body == s.has_body
            }
        }),
{
}

/// Only a transient failure is retried, only within the budget, and only
/// for an idempotent method unless every method is retried; the response
/// is returned untouched when the budget is spent.
pub proof fn lemma_retry_policy(
    s: SendStateView,
    cfg: SendConfig,
    comp: CompressionState,
    attempted: Option<ContentEncoding>,
    status: u16,
    loc: Option<Seq<char>>,
)
    ensures
        ({
            let (s2, c2, step) = send_step(s, cfg, comp, attempted, status, loc);
            step matches SendStep::Retry { retry_index } ==> {
                &&& retryable_status(status)
                &&& cfg.retry_all || idempotent_method(s.method)
                &&& retry_index == s.retries && s.retries < cfg.max_retries && s2.retries == s.retries + 1
                &&& s2.uri == s.uri && s2.method == s.method
            }
        }),
{
}

/// A transient failure (`429`, `503` or `504`) of a `GET`, `HEAD`,
/// `OPTIONS`, `PROPFIND` or `REPORT` request (of any request when every
/// method is retried) is retried while retries are left: the attempt is
/// sent again to the same URI with the same method, and one retry is used.
pub proof fn lemma_transient_failure_is_retried(
    s: SendStateView,
    cfg: SendConfig,
    comp: CompressionState,
    attempted: Option<ContentEncoding>,
    status: u16,
    loc: Option<Seq<char>>,
)
    requires
        status == 429 || status == 503 || status == 504,
        cfg.retry_all || s.method == "GET"@ || s.method == "HEAD"@ || s.method == "OPTIONS"@
            || s.method == "PROPFIND"@ || s.method == "REPORT"@,
        s.retries < cfg.max_retries,
    ensures
        ({
            let (s2, c2, step) = send_step(s, cfg, comp, attempted, status, loc);
            &&& step == (SendStep::Retry { retry_index: s.retries })
            &&& s2.retries == s.retries + 1
            &&& s2.uri == s.uri && s2.method == s.method && s2.has_body == s.has_body
        }),
{
    crate::retry::lemma_idempotent_methods(s.method);
}

} // verus!
