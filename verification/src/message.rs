//! Human-readable descriptions of errors.

use vstd::prelude::*;

use crate::error::{Error, ErrorView, EscapeErrorKind, EtagReason, Operation, TokenRefreshReason, XmlErrorKind};
use crate::xml::{decimal, u64_decimal};

verus! {

pub open spec fn operation_text(o: Operation) -> Seq<char> {
    match o {
        Operation::PropfindCollections => "PROPFIND of collections"@,
        Operation::PropfindCurrentUserPrincipal => "PROPFIND of current-user-principal"@,
        Operation::ReportSyncCollection => "sync-collection REPORT"@,
        Operation::ReportCalendarMultiget => "calendar-multiget REPORT"@,
        Operation::ReportAddressbookMultiget => "addressbook-multiget REPORT"@,
        Operation::Lock => "LOCK"@,
        Operation::Unlock => "UNLOCK"@,
        Operation::DiscoverWellKnownCaldav => "CalDAV .well-known discovery"@,
        Operation::DiscoverWellKnownCarddav => "CardDAV .well-known discovery"@,
    }
}

fn operation_str(o: Operation) -> (r: &'static str)
    ensures
        r@ == operation_text(o),
{
    match o {
        Operation::PropfindCollections => "PROPFIND of collections",
        Operation::PropfindCurrentUserPrincipal => "PROPFIND of current-user-principal",
        Operation::ReportSyncCollection => "sync-collection REPORT",
        Operation::ReportCalendarMultiget => "calendar-multiget REPORT",
        Operation::ReportAddressbookMultiget => "addressbook-multiget REPORT",
        Operation::Lock => "LOCK",
        Operation::Unlock => "UNLOCK",
        Operation::DiscoverWellKnownCaldav => "CalDAV .well-known discovery",
        Operation::DiscoverWellKnownCarddav => "CardDAV .well-known discovery",
    }
}

pub open spec fn etag_reason_text(r: EtagReason) -> Seq<char> {
    match r {
        EtagReason::Empty => "the tag is empty"@,
        EtagReason::Weak => "weak entity-tags never match If-Match"@,
        EtagReason::InvalidFormat => "the opaque tag is malformed"@,
        EtagReason::InvalidCharacters => "the opaque tag holds invalid characters"@,
    }
}

fn etag_reason_str(r: EtagReason) -> (s: &'static str)
    ensures
        s@ == etag_reason_text(r),
{
    match r {
        EtagReason::Empty => "the tag is empty",
        EtagReason::Weak => "weak entity-tags never match If-Match",
        EtagReason::InvalidFormat => "the opaque tag is malformed",
        EtagReason::InvalidCharacters => "the opaque tag holds invalid characters",
    }
}

pub open spec fn xml_kind_text(k: XmlErrorKind) -> Seq<char> {
    match k {
        XmlErrorKind::Malformed => "the document is not well-formed"@,
        XmlErrorKind::InvalidAttr => "malformed attribute"@,
        XmlErrorKind::AttrValue => "unresolvable reference in an attribute value"@,
        XmlErrorKind::Other => "the tokenizer failed"@,
    }
}

fn xml_kind_str(k: XmlErrorKind) -> (s: &'static str)
    ensures
        s@ == xml_kind_text(k),
{
    match k {
        XmlErrorKind::Malformed => "the document is not well-formed",
        XmlErrorKind::InvalidAttr => "malformed attribute",
        XmlErrorKind::AttrValue => "unresolvable reference in an attribute value",
        XmlErrorKind::Other => "the tokenizer failed",
    }
}

pub open spec fn escape_kind_text(k: EscapeErrorKind) -> Seq<char> {
    match k {
        EscapeErrorKind::UnrecognizedEntity => "unrecognized entity"@,
        EscapeErrorKind::UnterminatedEntity => "unterminated entity"@,
        EscapeErrorKind::InvalidCharRef => "invalid character reference"@,
        EscapeErrorKind::TooManyNestedEntities => "too many nested entities"@,
    }
}

fn escape_kind_str(k: EscapeErrorKind) -> (s: &'static str)
    ensures
        s@ == escape_kind_text(k),
{
    match k {
        EscapeErrorKind::UnrecognizedEntity => "unrecognized entity",
        EscapeErrorKind::UnterminatedEntity => "unterminated entity",
        EscapeErrorKind::InvalidCharRef => "invalid character reference",
        EscapeErrorKind::TooManyNestedEntities => "too many nested entities",
    }
}

pub open spec fn refresh_reason_text(r: TokenRefreshReason) -> Seq<char> {
    match r {
        TokenRefreshReason::Rejected => "the token endpoint rejected the request"@,
        TokenRefreshReason::MalformedResponse => "the token response is malformed"@,
        TokenRefreshReason::Transport => "the token endpoint could not be reached"@,
    }
}

fn refresh_reason_str(r: TokenRefreshReason) -> (s: &'static str)
    ensures
        s@ == refresh_reason_text(r),
{
    match r {
        TokenRefreshReason::Rejected => "the token endpoint rejected the request",
        TokenRefreshReason::MalformedResponse => "the token response is malformed",
        TokenRefreshReason::Transport => "the token endpoint could not be reached",
    }
}

/// The description of an error. Credentials and URLs that may carry them
/// are not repeated; token-endpoint bodies never reach an error.
pub open spec fn message_spec(e: ErrorView) -> Seq<char> {
    match e {
        ErrorView::InvalidEtag { reason } => "invalid entity-tag for If-Match: "@ + etag_reason_text(reason),
        ErrorView::InvalidComponentName { context, name, bad_char } => context + ": invalid component name "@
            + name + match bad_char {
            Some(c) => " (invalid character "@ + seq![c] + ")"@,
            None => " (empty)"@,
        },
        ErrorView::InvalidDateTime { context, value } => context + ": invalid UTC date-time "@ + value,
        ErrorView::XmlStructure(m) => "malformed XML structure: "@ + m,
        ErrorView::Xml(k) => "XML error: "@ + xml_kind_text(k),
        ErrorView::Escape(k) => "XML escape error: "@ + escape_kind_text(k),
        ErrorView::BodyTooLarge { limit } => "body exceeds the limit of "@ + decimal(limit as nat) + " bytes"@,
        ErrorView::UnexpectedStatus { operation, status } => operation_text(operation)
            + " failed with status "@ + decimal(status as nat),
        ErrorView::UnexpectedStatusWithDav { operation, status, precondition } => operation_text(operation)
            + " failed with status "@ + decimal(status as nat) + " (precondition "@ + precondition + ")"@,
        ErrorView::InvalidInput(m) => "invalid input: "@ + m,
        ErrorView::InvalidConfig(m) => "invalid configuration: "@ + m,
        ErrorView::InvalidUrl(_) => "invalid URL"@,
        ErrorView::TooManyRedirects { limit } => "too many redirects (limit "@ + decimal(limit as nat) + ")"@,
        ErrorView::Timeout { .. } => "the operation ran past its time limit"@,
        ErrorView::TokenRefresh { reason, status } => "token refresh failed: "@ + refresh_reason_text(reason)
            + match status {
            Some(s) => " (status "@ + decimal(s as nat) + ")"@,
            None => Seq::empty(),
        },
        ErrorView::Other(m) => m,
    }
}

impl Error {
    /// A human-readable description (see [`message_spec`]).
    pub fn message(&self) -> (r: String)
        ensures
            r@ == message_spec(self@),
    {
        match self {
            Error::InvalidEtag { reason } => {
                let mut s = "invalid entity-tag for If-Match: ".to_owned();
                s.append(etag_reason_str(*reason));
                s
            },
            Error::InvalidComponentName { context, name, bad_char } => {
                let mut s = context.clone();
                s.append(": invalid component name ");
                s.append(name.as_str());
                match bad_char {
                    Some(c) => {
                        s.append(" (invalid character ");
                        s.push(*c);
                        s.append(")");
                    },
                    None => {
                        s.append(" (empty)");
                    },
                }
                s
            },
            Error::InvalidDateTime { context, value } => {
                let mut s = context.clone();
                s.append(": invalid UTC date-time ");
                s.append(value.as_str());
                s
            },
            Error::XmlStructure(m) => {
                let mut s = "malformed XML structure: ".to_owned();
                s.append(m.as_str());
                s
            },
            Error::Xml(k) => {
                let mut s = "XML error: ".to_owned();
                s.append(xml_kind_str(*k));
                s
            },
            Error::Escape(k) => {
                let mut s = "XML escape error: ".to_owned();
                s.append(escape_kind_str(*k));
                s
            },
            Error::BodyTooLarge { limit } => {
                let mut s = "body exceeds the limit of ".to_owned();
                let d = u64_decimal(*limit as u64);
                s.append(d.as_str());
                s.append(" bytes");
                s
            },
            Error::UnexpectedStatus { operation, status } => {
                let mut s = operation_str(*operation).to_owned();
                s.append(" failed with status ");
                let d = u64_decimal(*status as u64);
                s.append(d.as_str());
                s
            },
            Error::UnexpectedStatusWithDav { operation, status, precondition } => {
                let mut s = operation_str(*operation).to_owned();
                s.append(" failed with status ");
                let d = u64_decimal(*status as u64);
                s.append(d.as_str());
                s.append(" (precondition ");
                s.append(precondition.as_str());
                s.append(")");
                s
            },
            Error::InvalidInput(m) => {
                let mut s = "invalid input: ".to_owned();
                s.append(m.as_str());
                s
            },
            Error::InvalidConfig(m) => {
                let mut s = "invalid configuration: ".to_owned();
                s.append(m.as_str());
                s
            },
            Error::InvalidUrl(_) => "invalid URL".to_owned(),
            Error::TooManyRedirects { limit } => {
                let mut s = "too many redirects (limit ".to_owned();
                let d = u64_decimal(*limit as u64);
                s.append(d.as_str());
                s.append(")");
                s
            },
            Error::Timeout { .. } => "the operation ran past its time limit".to_owned(),
            Error::TokenRefresh { reason, status } => {
                let mut s = "token refresh failed: ".to_owned();
                s.append(refresh_reason_str(*reason));
                match status {
                    Some(c) => {
                        s.append(" (status ");
                        let d = u64_decimal(*c as u64);
                        s.append(d.as_str());
                        s.append(")");
                    },
                    None => {},
                }
                s
            },
            Error::Other(m) => m.clone(),
        }
    }
}

} // verus!
