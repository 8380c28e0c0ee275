//! Error values reported by the library.

use vstd::prelude::*;
use std::time::Duration;

verus! {

/// Why an entity-tag was rejected for an `If-Match` header.
#[derive(Clone, Copy, PartialEq, Eq, Debug)]
pub enum EtagReason {
    /// The tag is empty (or only whitespace).
    Empty,
    /// The tag is a weak validator (`W/...`), which never matches `If-Match`.
    Weak,
    /// The opaque tag is empty or contains a double quote.
    InvalidFormat,
    /// The opaque tag contains a byte outside the entity-tag alphabet.
    InvalidCharacters,
}

/// The request whose response carried an unexpected status.
#[derive(Clone, Copy, PartialEq, Eq, Debug)]
pub enum Operation {
    PropfindCollections,
    PropfindCurrentUserPrincipal,
    ReportSyncCollection,
    ReportCalendarMultiget,
    ReportAddressbookMultiget,
    Lock,
    Unlock,
    DiscoverWellKnownCaldav,
    DiscoverWellKnownCarddav,
}

/// Kinds of failure while decoding entity and character references.
#[derive(Clone, Copy, PartialEq, Eq, Debug)]
pub enum EscapeErrorKind {
    /// A named entity the decoder does not know.
    UnrecognizedEntity,
    /// `&` without a closing `;`.
    UnterminatedEntity,
    /// A malformed numeric character reference.
    InvalidCharRef,
    /// Too many nested entity expansions.
    TooManyNestedEntities,
}

/// Kinds of failure reported by the XML tokenizer.
#[derive(Clone, Copy, PartialEq, Eq, Debug)]
pub enum XmlErrorKind {
    /// The input does not follow the XML grammar or is not well-formed
    /// (e.g. mismatched tags).
    Malformed,
    /// A malformed attribute (duplicate, unquoted or missing value).
    InvalidAttr,
    /// An attribute value holds a reference that cannot be resolved.
    AttrValue,
    /// Any other tokenizer failure (encoding, attributes, input).
    Other,
}

/// Why a token-endpoint exchange failed.
#[derive(Clone, Copy, PartialEq, Eq, Debug)]
pub enum TokenRefreshReason {
    /// The endpoint answered with a non-success status.
    Rejected,
    /// The response is not a usable RFC 6749 §5.1 token response.
    MalformedResponse,
    /// The request could not be completed.
    Transport,
}

/// `Clone::clone` on `std::time::Duration`, a `Copy` type: the clone is
/// the same duration.
pub assume_specification[<Duration as Clone>::clone](d: &Duration) -> (r: Duration)
    ensures
        r == *d,
;

/// Errors produced by the library.
#[derive(Clone, PartialEq, Eq, Debug)]
#[allow(inconsistent_fields)]
pub enum Error {
    /// An entity-tag cannot be used in an `If-Match` header.
    InvalidEtag { reason: EtagReason },
    /// An iCalendar component name failed validation.
    InvalidComponentName { context: String, name: String, bad_char: Option<char> },
    /// An iCalendar UTC date-time failed validation.
    InvalidDateTime { context: String, value: String },
    /// The XML document nests elements incorrectly.
    XmlStructure(String),
    /// The XML tokenizer failed.
    Xml(XmlErrorKind),
    /// An entity or character reference could not be decoded.
    Escape(EscapeErrorKind),
    /// Accumulated text would exceed `limit` bytes.
    BodyTooLarge { limit: usize },
    /// The server answered with a status the operation does not accept.
    UnexpectedStatus { operation: Operation, status: u16 },
    /// As `UnexpectedStatus`, with the `<D:error>` precondition code.
    UnexpectedStatusWithDav { operation: Operation, status: u16, precondition: String },
    /// A caller-supplied value is invalid.
    InvalidInput(String),
    /// The client configuration is invalid.
    InvalidConfig(String),
    /// A URL could not be parsed.
    InvalidUrl(String),
    /// More redirects than allowed.
    TooManyRedirects { limit: u8 },
    /// An operation ran past its time limit.
    Timeout { limit: Duration },
    /// A token refresh failed.
    TokenRefresh { reason: TokenRefreshReason, status: Option<u16> },
    /// Any other failure, described in words.
    Other(String),
}

/// Mathematical view of an [`Error`]: the same variants, with text as
/// character sequences.
pub enum ErrorView {
    InvalidEtag { reason: EtagReason },
    InvalidComponentName { context: Seq<char>, name: Seq<char>, bad_char: Option<char> },
    InvalidDateTime { context: Seq<char>, value: Seq<char> },
    XmlStructure(Seq<char>),
    Xml(XmlErrorKind),
    Escape(EscapeErrorKind),
    BodyTooLarge { limit: usize },
    UnexpectedStatus { operation: Operation, status: u16 },
    UnexpectedStatusWithDav { operation: Operation, status: u16, precondition: Seq<char> },
    InvalidInput(Seq<char>),
    InvalidConfig(Seq<char>),
    InvalidUrl(Seq<char>),
    TooManyRedirects { limit: u8 },
    Timeout { limit: Duration },
    TokenRefresh { reason: TokenRefreshReason, status: Option<u16> },
    Other(Seq<char>),
}

impl View for Error {
    type V = ErrorView;

    open spec fn view(&self) -> ErrorView {
        match self {
            Error::InvalidEtag { reason } => ErrorView::InvalidEtag { reason: *reason },
            Error::InvalidComponentName { context, name, bad_char } => ErrorView::InvalidComponentName {
                context: context@,
                name: name@,
                bad_char: *bad_char,
            },
            Error::InvalidDateTime { context, value } => ErrorView::InvalidDateTime {
                context: context@,
                value: value@,
            },
            Error::XmlStructure(m) => ErrorView::XmlStructure(m@),
            Error::Xml(k) => ErrorView::Xml(*k),
            Error::Escape(k) => ErrorView::Escape(*k),
            Error::BodyTooLarge { limit } => ErrorView::BodyTooLarge { limit: *limit },
            Error::UnexpectedStatus { operation, status } => ErrorView::UnexpectedStatus {
                operation: *operation,
                status: *status,
            },
            Error::UnexpectedStatusWithDav { operation, status, precondition } =>
                ErrorView::UnexpectedStatusWithDav {
                operation: *operation,
                status: *status,
                precondition: precondition@,
            },
            Error::InvalidInput(m) => ErrorView::InvalidInput(m@),
            Error::InvalidConfig(m) => ErrorView::InvalidConfig(m@),
            Error::InvalidUrl(m) => ErrorView::InvalidUrl(m@),
            Error::TooManyRedirects { limit } => ErrorView::TooManyRedirects { limit: *limit },
            Error::Timeout { limit } => ErrorView::Timeout { limit: *limit },
            Error::TokenRefresh { reason, status } => ErrorView::TokenRefresh {
                reason: *reason,
                status: *status,
            },
            Error::Other(m) => ErrorView::Other(m@),
        }
    }
}

} // verus!
