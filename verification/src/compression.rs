//! Request-body compression negotiation: the configured strategy, the
//! encoding negotiated with the server, and how a response's status updates
//! it.

use vstd::prelude::*;

verus! {

/// A content coding for request and response bodies.
#[derive(Clone, Copy, PartialEq, Eq, Structural, Debug)]
pub enum ContentEncoding {
    Identity,
    Gzip,
    Br,
    Zstd,
}

pub open spec fn encoding_name(e: ContentEncoding) -> Seq<char> {
    match e {
        ContentEncoding::Identity => "identity"@,
        ContentEncoding::Gzip => "gzip"@,
        ContentEncoding::Br => "br"@,
        ContentEncoding::Zstd => "zstd"@,
    }
}

impl ContentEncoding {
    /// The coding's token (`identity`, `gzip`, `br`, `zstd`).
    pub fn as_str(&self) -> (r: &'static str)
        ensures
            r@ == encoding_name(*self),
    {
        match self {
            ContentEncoding::Identity => "identity",
            ContentEncoding::Gzip => "gzip",
            ContentEncoding::Br => "br",
            ContentEncoding::Zstd => "zstd",
        }
    }
}

/// Strategy for compressing outgoing request bodies.
#[derive(Clone, Copy, PartialEq, Eq, Structural, Debug)]
pub enum RequestCompressionMode {
    /// Negotiate: probe with gzip on first use and cache what the probe
    /// proved; fall back to identity when the server rejects a compressed
    /// body.
    Auto,
    /// Never compress.
    Disabled,
    /// Always use this coding.
    Force(ContentEncoding),
}

impl RequestCompressionMode {
    /// Whether this is [`RequestCompressionMode::Auto`].
    pub fn is_auto(&self) -> (r: bool)
        ensures
            r == (*self == RequestCompressionMode::Auto),
    {
        match self {
            RequestCompressionMode::Auto => true,
            _ => false,
        }
    }
}

impl Default for RequestCompressionMode {
    fn default() -> (r: RequestCompressionMode)
        ensures
            r == RequestCompressionMode::Auto,
    {
        RequestCompressionMode::Auto
    }
}

/// The coding tried when `Auto` has negotiated nothing yet.
pub open spec fn auto_default() -> ContentEncoding {
    ContentEncoding::Gzip
}

/// The encoding pinned when the mode is set: nothing for `Auto` (the next
/// body-carrying request probes), identity for `Disabled`, the coding for
/// `Force`.
pub open spec fn pinned_for(mode: RequestCompressionMode) -> Option<ContentEncoding> {
    match mode {
        RequestCompressionMode::Auto => None,
        RequestCompressionMode::Disabled => Some(ContentEncoding::Identity),
        RequestCompressionMode::Force(e) => Some(e),
    }
}

/// The encoding a body is sent with under `mode`, given what was
/// negotiated.
pub open spec fn resolve_spec(mode: RequestCompressionMode, negotiated: Option<ContentEncoding>) -> ContentEncoding {
    match mode {
        RequestCompressionMode::Disabled => ContentEncoding::Identity,
        RequestCompressionMode::Force(e) => e,
        RequestCompressionMode::Auto => match negotiated {
            Some(e) => e,
            None => auto_default(),
        },
    }
}

/// Statuses that mean the server rejected a compressed body: `400`, `415`
/// and `501`.
pub open spec fn rejects_compression(status: u16) -> bool {
    status == 400 || status == 415 || status == 501
}

/// The state and the resend request after the status `status` answered a
/// body sent with `attempted` (see
/// [`CompressionState::handle_request_compression_outcome`]).
pub open spec fn compression_outcome(c: CompressionState, attempted: Option<ContentEncoding>, status: u16) -> (
    CompressionState,
    bool,
) {
    if c.mode != RequestCompressionMode::Auto || attempted is None {
        (c, false)
    } else if rejects_compression(status) {
        (CompressionState { negotiated: Some(ContentEncoding::Identity), ..c }, true)
    } else {
        (CompressionState { negotiated: attempted, ..c }, false)
    }
}

/// The state after a compression probe answered `status` (`None` when it
/// failed), the server's `Accept-Encoding` preferring `preference`, and
/// whether an answer was cached: a success keeps gzip only when the server
/// prefers it (identity otherwise); a redirect pins identity; anything
/// else caches nothing.
pub open spec fn probe_outcome(c: CompressionState, status: Option<u16>, preference: Option<ContentEncoding>) -> (
    CompressionState,
    bool,
) {
    match status {
        Some(s) => if 200 <= s && s <= 299 {
            (
                CompressionState {
                    negotiated: Some(
                        if preference == Some(ContentEncoding::Gzip) {
                            ContentEncoding::Gzip
                        } else {
                            ContentEncoding::Identity
                        },
                    ),
                    ..c
                },
                true,
            )
        } else if s == 301 || s == 302 || s == 303 || s == 307 || s == 308 {
            (CompressionState { negotiated: Some(ContentEncoding::Identity), ..c }, true)
        } else {
            (c, false)
        },
        None => (c, false),
    }
}

/// What to do with an outgoing body.
#[derive(Clone, Copy, PartialEq, Eq, Structural, Debug)]
pub enum BodyPlan {
    /// Send it as it is, uncompressed (or already encoded by the caller).
    Verbatim,
    /// Probe the server's support first, then ask again.
    Probe,
    /// Compress it with this coding.
    Compress(ContentEncoding),
}

/// Request-compression state shared by a client and its clones: the
/// configured mode and the encoding negotiated with the server.
#[derive(Clone, Copy, PartialEq, Eq, Structural, Debug)]
pub struct CompressionState {
    pub mode: RequestCompressionMode,
    pub negotiated: Option<ContentEncoding>,
}

/// The plan for a body sent under `c`.
pub open spec fn plan_spec(c: CompressionState, caller_encoded: bool) -> BodyPlan {
    if caller_encoded {
        BodyPlan::Verbatim
    } else if c.mode == RequestCompressionMode::Auto && c.negotiated is None {
        BodyPlan::Probe
    } else {
        let e = resolve_spec(c.mode, c.negotiated);
        if e == ContentEncoding::Identity {
            BodyPlan::Verbatim
        } else {
            BodyPlan::Compress(e)
        }
    }
}

impl CompressionState {
    /// A client's initial state: `mode`, nothing negotiated.
    pub fn new(mode: RequestCompressionMode) -> (r: CompressionState)
        ensures
            r == (CompressionState { mode, negotiated: None }),
    {
        CompressionState { mode, negotiated: None }
    }

    /// Set the strategy; switching to `Auto` clears the negotiation so the
    /// next body-carrying request probes again.
    pub fn set_request_compression_mode(&mut self, mode: RequestCompressionMode)
        ensures
            *final(self) == (CompressionState { mode, negotiated: pinned_for(mode) }),
    {
        self.mode = mode;
        self.negotiated = match mode {
            RequestCompressionMode::Auto => None,
            RequestCompressionMode::Disabled => Some(ContentEncoding::Identity),
            RequestCompressionMode::Force(e) => Some(e),
        };
    }

    /// The current strategy.
    pub fn request_compression_mode(&self) -> (r: RequestCompressionMode)
        ensures
            r == self.mode,
    {
        self.mode
    }

    /// Record a negotiated encoding (or clear it).
    pub fn set_negotiated_encoding(&mut self, encoding: Option<ContentEncoding>)
        ensures
            *final(self) == (CompressionState { negotiated: encoding, ..*old(self) }),
    {
        self.negotiated = encoding;
    }

    /// The encoding a body would be sent with under `mode`.
    pub fn resolve_request_encoding_with_mode(&self, mode: &RequestCompressionMode) -> (r: ContentEncoding)
        ensures
            r == resolve_spec(*mode, self.negotiated),
    {
        match *mode {
            RequestCompressionMode::Disabled => ContentEncoding::Identity,
            RequestCompressionMode::Force(e) => e,
            RequestCompressionMode::Auto => match self.negotiated {
                Some(e) => e,
                None => ContentEncoding::Gzip,
            },
        }
    }

    /// The encoding a body would be sent with now.
    pub fn request_compression(&self) -> (r: ContentEncoding)
        ensures
            r == resolve_spec(self.mode, self.negotiated),
    {
        self.resolve_request_encoding_with_mode(&self.mode)
    }

    /// Learn from the status answered to a body sent with `attempted`: in
    /// `Auto` mode, a rejection (`400`, `415`, `501`) pins identity and asks
    /// for one resend; any other status confirms `attempted`. Outside `Auto`,
    /// or when nothing was compressed, nothing changes.
    pub fn handle_request_compression_outcome(&mut self, attempted: Option<ContentEncoding>, status: u16) -> (r: bool)
        ensures
            (*final(self), r) == compression_outcome(*old(self), attempted, status),
    {
        if !self.mode.is_auto() {
            return false;
        }
        match attempted {
            None => false,
            Some(e) => {
                if status == 400 || status == 415 || status == 501 {
                    self.negotiated = Some(ContentEncoding::Identity);
                    true
                } else {
                    self.negotiated = Some(e);
                    false
                }
            },
        }
    }

    /// Record the answer to a compression probe: `None` when it failed
    /// (transport error, timeout, credentials unavailable), else its status
    /// and the coding the server's `Accept-Encoding` prefers. A success
    /// keeps gzip only when the server prefers it (identity otherwise); a
    /// redirect pins identity; anything else caches nothing. Returns whether
    /// an answer was cached.
    pub fn record_probe(&mut self, status: Option<u16>, preference: Option<ContentEncoding>) -> (r: bool)
        ensures
            (*final(self), r) == probe_outcome(*old(self), status, preference),
    {
        match status {
            Some(s) => {
                if 200 <= s && s <= 299 {
                    let e = match preference {
                        Some(ContentEncoding::Gzip) => ContentEncoding::Gzip,
                        _ => ContentEncoding::Identity,
                    };
                    self.negotiated = Some(e);
                    true
                } else if s == 301 || s == 302 || s == 303 || s == 307 || s == 308 {
                    self.negotiated = Some(ContentEncoding::Identity);
                    true
                } else {
                    false
                }
            },
            None => false,
        }
    }

    /// What to do with an outgoing body: a body the caller already encoded
    /// (it carries `Content-Encoding`) goes verbatim; in `Auto` mode with
    /// nothing negotiated the server is probed first; otherwise the
    /// resolved coding applies (identity meaning verbatim).
    pub fn body_plan(&self, caller_encoded: bool) -> (r: BodyPlan)
        ensures
            r == plan_spec(*self, caller_encoded),
    {
        if caller_encoded {
            return BodyPlan::Verbatim;
        }
        if self.mode.is_auto() && self.negotiated.is_none() {
            return BodyPlan::Probe;
        }
        let e = self.request_compression();
        if e == ContentEncoding::Identity {
            BodyPlan::Verbatim
        } else {
            BodyPlan::Compress(e)
        }
    }

    /// The plan once a probe ran: a probe that cached nothing sends this
    /// body verbatim (the next one probes again).
    pub fn plan_after_probe(&self, cached: bool) -> (r: BodyPlan)
        ensures
            r == if !cached {
                BodyPlan::Verbatim
            } else if resolve_spec(self.mode, self.negotiated) == ContentEncoding::Identity {
                BodyPlan::Verbatim
            } else {
                BodyPlan::Compress(resolve_spec(self.mode, self.negotiated))
            },
    {
        if !cached {
            return BodyPlan::Verbatim;
        }
        let e = self.request_compression();
        if e == ContentEncoding::Identity {
            BodyPlan::Verbatim
        } else {
            BodyPlan::Compress(e)
        }
    }
}


/// After a body was decoded from `encodings`, the `Content-Length` to
/// announce (its decimal byte count) in place of `Content-Encoding`; `None`
/// when nothing was decoded and the headers stand as received.
pub fn decoded_content_length(encodings: &[ContentEncoding], body_len: usize) -> (r: Option<String>)
    ensures
        encodings@.len() == 0 ==> r is None,
        encodings@.len() > 0 ==> (r matches Some(s) && s@ == crate::xml::decimal(body_len as nat)),
{
    if encodings.len() == 0 {
        None
    } else {
        Some(crate::xml::u64_decimal(body_len as u64))
    }
}

/// In `Auto` mode a probe that fails caches nothing: the body at hand goes
/// uncompressed and the next body-carrying request probes again.
pub proof fn lemma_failed_probe_is_not_cached(
    c: CompressionState,
    status: Option<u16>,
    preference: Option<ContentEncoding>,
)
    requires
        c.mode == RequestCompressionMode::Auto,
        c.negotiated is None,
        !(status matches Some(s) && ((200 <= s && s <= 299) || s == 301 || s == 302 || s == 303 || s == 307 || s
            == 308)),
    ensures
        probe_outcome(c, status, preference) == (c, false),
        plan_spec(probe_outcome(c, status, preference).0, false) == BodyPlan::Probe,
{
}

/// In `Auto` mode, once the server rejects a compressed body (`400`, `415`
/// or `501`) the body is sent once more, and every later body goes
/// uncompressed, until the mode is set again.
pub proof fn lemma_rejected_compression_falls_back(c: CompressionState, attempted: ContentEncoding, status: u16)
    requires
        c.mode == RequestCompressionMode::Auto,
        rejects_compression(status),
    ensures
        compression_outcome(c, Some(attempted), status).1,
        plan_spec(compression_outcome(c, Some(attempted), status).0, false) == BodyPlan::Verbatim,
        resolve_spec(c.mode, compression_outcome(c, Some(attempted), status).0.negotiated) == ContentEncoding::Identity,
{
}

/// In `Auto` mode a successful probe (any `2xx`) is cached, and it caches
/// gzip exactly when the server's `Accept-Encoding` prefers gzip: later
/// bodies are then gzip-compressed; with any other preference, or none,
/// identity is cached and later bodies go as they are.
pub proof fn lemma_successful_probe_follows_preference(
    c: CompressionState,
    status: u16,
    preference: Option<ContentEncoding>,
)
    requires
        c.mode == RequestCompressionMode::Auto,
        200 <= status <= 299,
    ensures
        ({
            let (c2, cached) = probe_outcome(c, Some(status), preference);
            &&& cached
            &&& c2.mode == c.mode
            &&& preference == Some(ContentEncoding::Gzip) ==> c2.negotiated == Some(ContentEncoding::Gzip)
                && resolve_spec(c2.mode, c2.negotiated) == ContentEncoding::Gzip
                && plan_spec(c2, false) == BodyPlan::Compress(ContentEncoding::Gzip)
            &&& preference != Some(ContentEncoding::Gzip) ==> c2.negotiated == Some(ContentEncoding::Identity)
                && resolve_spec(c2.mode, c2.negotiated) == ContentEncoding::Identity
                && plan_spec(c2, false) == BodyPlan::Verbatim
        }),
{
}

} // verus!
