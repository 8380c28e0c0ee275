//! OAuth2 refresh-token grant (RFC 6749 §6): the form that requests a
//! token, the reading of the token response (§5.1), and the cached token's
//! renewal rules.

use vstd::prelude::*;
use vstd::string::*;

use crate::error::{Error, ErrorView, TokenRefreshReason};
use crate::types::opt_chars;
use crate::uri::{opt_uri_view, parse_uri, pct_bytes, percent_encode, spec_parse_uri, EncodeSet, Uri, UriView};

verus! {

/// The fields of a token response that the grant reads, as `serde_json`
/// finds them: string `access_token`, unsigned `expires_in`, string
/// `refresh_token` (each `None` when absent or of another JSON type).
pub struct TokenFields {
    pub access_token: Option<String>,
    pub expires_in: Option<u64>,
    pub refresh_token: Option<String>,
}

pub struct TokenFieldsView {
    pub access_token: Option<Seq<char>>,
    pub expires_in: Option<u64>,
    pub refresh_token: Option<Seq<char>>,
}

impl View for TokenFields {
    type V = TokenFieldsView;

    open spec fn view(&self) -> TokenFieldsView {
        TokenFieldsView {
            access_token: opt_chars(self.access_token),
            expires_in: self.expires_in,
            refresh_token: opt_chars(self.refresh_token),
        }
    }
}

/// What `serde_json` reads from a token response body: `None` when the
/// body is not a JSON document, else the three fields of its top-level
/// object.
pub uninterp spec fn spec_token_fields(body: Seq<u8>) -> Option<TokenFieldsView>;

/// Parse `body` with `serde_json::from_slice` into a `serde_json::Value` and
/// read `access_token` (`Value::as_str`), `expires_in` (`Value::as_u64`) and
/// `refresh_token` (`Value::as_str`) from it; the result is named by
/// [`spec_token_fields`].
#[verifier::external_body]
fn read_token_fields(body: &[u8]) -> (r: Option<TokenFields>)
    ensures
        match r {
            Some(f) => spec_token_fields(body@) == Some(f@),
            None => spec_token_fields(body@) is None,
        },
{
    let v: serde_json::Value = serde_json::from_slice(body).ok()?;
    Some(TokenFields {
        access_token: v.get("access_token").and_then(serde_json::Value::as_str).map(str::to_owned),
        expires_in: v.get("expires_in").and_then(serde_json::Value::as_u64),
        refresh_token: v.get("refresh_token").and_then(serde_json::Value::as_str).map(str::to_owned),
    })
}

/// The error of an unusable token response; it carries no part of the body.
pub open spec fn malformed_token_response() -> ErrorView {
    ErrorView::TokenRefresh { reason: TokenRefreshReason::MalformedResponse, status: None }
}

/// What a token response yields: the access token (required, non-empty),
/// `expires_in` seconds and a rotated refresh token when present.
pub open spec fn token_response_spec(fields: Option<TokenFieldsView>) -> Option<(Seq<char>, Option<u64>, Option<Seq<char>>)> {
    match fields {
        Some(f) => match f.access_token {
            Some(t) => if t.len() > 0 {
                Some((t, f.expires_in, f.refresh_token))
            } else {
                None
            },
            None => None,
        },
        None => None,
    }
}

/// Turn the fields read from a token response into its result (see
/// [`token_response_spec`]); an unusable response is a
/// `MalformedResponse` refresh error.
pub fn token_response_from(fields: Option<TokenFields>) -> (r: Result<(String, Option<u64>, Option<String>), Error>)
    ensures
        match token_response_spec(
            match fields {
                Some(f) => Some(f@),
                None => None,
            },
        ) {
            Some((t, e, rt)) => r matches Ok(v) && v.0@ == t && v.1 == e && opt_chars(v.2) == rt,
            None => r matches Err(err) && err@ == malformed_token_response(),
        },
{
    let malformed = Error::TokenRefresh { reason: TokenRefreshReason::MalformedResponse, status: None };
    match fields {
        Some(f) => match f.access_token {
            Some(t) => {
                if t.as_str().is_empty() {
                    Err(malformed)
                } else {
                    Ok((t, f.expires_in, f.refresh_token))
                }
            },
            None => Err(malformed),
        },
        None => Err(malformed),
    }
}

/// Parse an RFC 6749 §5.1 token response body. The body never appears in
/// an error.
pub fn parse_token_response(body: &[u8]) -> (r: Result<(String, Option<u64>, Option<String>), Error>)
    ensures
        match token_response_spec(spec_token_fields(body@)) {
            Some((t, e, rt)) => r matches Ok(v) && v.0@ == t && v.1 == e && opt_chars(v.2) == rt,
            None => r matches Err(err) && err@ == malformed_token_response(),
        },
{
    token_response_from(read_token_fields(body))
}

/// The error a token endpoint's HTTP status gives: none for a success
/// (2xx), a `Rejected` refresh error carrying the status otherwise.
pub fn token_status_error(status: u16) -> (r: Option<Error>)
    ensures
        200 <= status <= 299 ==> r is None,
        !(200 <= status <= 299) ==> (r matches Some(e) && e@ == (ErrorView::TokenRefresh {
            reason: TokenRefreshReason::Rejected,
            status: Some(status),
        })),
{
    if 200 <= status && status <= 299 {
        None
    } else {
        Some(Error::TokenRefresh { reason: TokenRefreshReason::Rejected, status: Some(status) })
    }
}

/// One `key=value` pair of an `application/x-www-form-urlencoded` body,
/// both sides percent-encoded outside the RFC 3986 unreserved set.
pub open spec fn form_pair(key: Seq<u8>, value: Seq<u8>) -> Seq<char> {
    pct_bytes(key, EncodeSet::FormUnreserved) + "="@ + pct_bytes(value, EncodeSet::FormUnreserved)
}

fn append_pair(out: &mut String, key: &str, value: &str)
    ensures
        final(out)@ == old(out)@ + form_pair(key.spec_bytes(), value.spec_bytes()),
{
    let k = percent_encode(key, EncodeSet::FormUnreserved);
    let v = percent_encode(value, EncodeSet::FormUnreserved);
    out.append(k.as_str());
    out.append("=");
    out.append(v.as_str());
}

/// The refresh grant's form body (RFC 6749 §6, §4.1.3): `grant_type`,
/// `refresh_token`, `client_id` and `client_secret`, in that order.
pub fn refresh_grant_form(refresh_token: &str, client_id: &str, client_secret: &str) -> (r: String)
    ensures
        r@ == form_pair("grant_type".spec_bytes(), "refresh_token".spec_bytes()) + "&"@ + form_pair(
            "refresh_token".spec_bytes(),
            refresh_token.spec_bytes(),
        ) + "&"@ + form_pair("client_id".spec_bytes(), client_id.spec_bytes()) + "&"@ + form_pair(
            "client_secret".spec_bytes(),
            client_secret.spec_bytes(),
        ),
{
    let mut form = String::new();
    append_pair(&mut form, "grant_type", "refresh_token");
    form.append("&");
    append_pair(&mut form, "refresh_token", refresh_token);
    form.append("&");
    append_pair(&mut form, "client_id", client_id);
    form.append("&");
    append_pair(&mut form, "client_secret", client_secret);
    assert(form@ =~= Seq::<char>::empty() + form_pair("grant_type".spec_bytes(), "refresh_token".spec_bytes())
        + "&"@ + form_pair("refresh_token".spec_bytes(), refresh_token.spec_bytes()) + "&"@ + form_pair(
        "client_id".spec_bytes(),
        client_id.spec_bytes(),
    ) + "&"@ + form_pair("client_secret".spec_bytes(), client_secret.spec_bytes()));
    form
}

/// Check a refresh-grant configuration: the token endpoint must parse as a
/// URI, and every credential must be non-empty.
pub fn check_refresh_config(token_endpoint: &str, client_id: &str, client_secret: &str, refresh_token: &str) -> (r: Result<Uri, Error>)
    ensures
        spec_parse_uri(token_endpoint@) is None ==> (r matches Err(e) && e@ == ErrorView::InvalidUrl(token_endpoint@)),
        spec_parse_uri(token_endpoint@) is Some && (client_id@.len() == 0 || client_secret@.len() == 0
            || refresh_token@.len() == 0) ==> (r matches Err(e) && e@ == ErrorView::InvalidInput(
            "OAuth2RefreshProvider requires non-empty client_id, client_secret, and refresh_token"@,
        )),
        spec_parse_uri(token_endpoint@) is Some && client_id@.len() > 0 && client_secret@.len() > 0
            && refresh_token@.len() > 0 ==> (r matches Ok(u) && spec_parse_uri(token_endpoint@) == Some(u@)),
{
    let endpoint = match parse_uri(token_endpoint) {
        Some(u) => u,
        None => {
            return Err(Error::InvalidUrl(token_endpoint.to_owned()));
        },
    };
    if client_id.is_empty() || client_secret.is_empty() || refresh_token.is_empty() {
        return Err(
            Error::InvalidInput(
                "OAuth2RefreshProvider requires non-empty client_id, client_secret, and refresh_token".to_owned(),
            ),
        );
    }
    Ok(endpoint)
}

/// Milliseconds on the caller's monotonic clock after which a token that
/// the server said lives `expires_in` seconds is stale; the sum saturates.
pub open spec fn expiry_instant(now: u64, expires_in: u64) -> u64 {
    if now + expires_in * 1000 <= u64::MAX {
        (now + expires_in * 1000) as u64
    } else {
        u64::MAX
    }
}

/// Whether a cached access token can be handed out at `now`: it was not
/// invalidated by a `401`, it is set, and it has not expired.
pub open spec fn token_usable(access: Seq<char>, expires_at: Option<u64>, invalidated: bool, now: u64) -> bool {
    !invalidated && access.len() > 0 && !match expires_at {
        Some(at) => at <= now,
        None => false,
    }
}

/// The expiry instant stored for a token refreshed at `now` with the
/// lifetime `expires_in`.
pub open spec fn stored_expiry(now: u64, expires_in: Option<u64>) -> Option<u64> {
    match expires_in {
        Some(secs) => Some(expiry_instant(now, secs)),
        None => None,
    }
}

/// The cached access token, when it expires, and the (possibly rotated)
/// refresh token.  Instants are milliseconds on the caller's monotonic
/// clock.
pub struct TokenCache {
    pub access_token: String,
    pub expires_at: Option<u64>,
    pub refresh_token: String,
}

impl TokenCache {
    /// A cache holding only the configured refresh token.
    pub fn new(refresh_token: String) -> (c: TokenCache)
        ensures
            c.access_token@.len() == 0,
            c.expires_at.is_none(),
            c.refresh_token@ == refresh_token@,
    {
        TokenCache { access_token: String::new(), expires_at: None, refresh_token }
    }

    /// A token expires once its expiry instant is reached; one without an
    /// expiry never does.
    pub fn expired(&self, now: u64) -> (r: bool)
        ensures
            r == match self.expires_at {
                Some(at) => at <= now,
                None => false,
            },
    {
        match self.expires_at {
            Some(at) => at <= now,
            None => false,
        }
    }

    /// Whether the cached access token can be handed out (see
    /// [`token_usable`]).
    pub fn usable(&self, invalidated: bool, now: u64) -> (r: bool)
        ensures
            r == token_usable(self.access_token@, self.expires_at, invalidated, now),
    {
        !invalidated && !self.access_token.as_str().is_empty() && !self.expired(now)
    }

    /// Store a refreshed access token with its lifetime; the refresh token
    /// is rotated only when the server sent a non-empty one.
    pub fn store(
        &mut self,
        access_token: String,
        expires_in: Option<u64>,
        refresh_token: Option<String>,
        now: u64,
    )
        ensures
            final(self).access_token@ == access_token@,
            final(self).expires_at == stored_expiry(now, expires_in),
            final(self).refresh_token@ == match refresh_token {
                Some(r) => if r@.len() > 0 {
                    r@
                } else {
                    old(self).refresh_token@
                },
                None => old(self).refresh_token@,
            },
    {
        if let Some(rotated) = refresh_token {
            if !rotated.as_str().is_empty() {
                self.refresh_token = rotated;
            }
        }
        self.access_token = access_token;
        self.expires_at = match expires_in {
            Some(secs) => Some(
                match secs.checked_mul(1000) {
                    Some(ms) => now.saturating_add(ms),
                    None => u64::MAX,
                },
            ),
            None => None,
        };
    }
}

/// A non-empty token refreshed at `now` is handed out until it is
/// invalidated or its lifetime ends: one the server gave no lifetime is
/// handed out at any later time; one given `s` seconds is handed out
/// exactly before `now + s` seconds (in milliseconds, saturating).
pub proof fn lemma_token_lifetime(access: Seq<char>, expires_in: Option<u64>, now: u64, later: u64)
    requires
        access.len() > 0,
    ensures
        expires_in is None ==> token_usable(access, stored_expiry(now, expires_in), false, later),
        expires_in matches Some(secs) ==> (token_usable(access, stored_expiry(now, expires_in), false, later) <==> (
        later as int) < expiry_instant(now, secs)),
        !token_usable(access, stored_expiry(now, expires_in), true, later),
{
}

} // verus!
