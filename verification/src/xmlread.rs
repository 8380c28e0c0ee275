//! XML tokenization with `quick_xml`, surfaced as plain values.

use vstd::prelude::*;
use quick_xml::escape::EscapeError;
use quick_xml::events::attributes::{Attribute, Attributes};
use quick_xml::events::Event::{CData, Empty, End, Eof, GeneralRef, Start, Text};
use quick_xml::Error::{IllFormed, Syntax};
use quick_xml::name::QName;
use quick_xml::{Reader, XmlVersion};
use std::borrow::Cow;
use vstd::string::*;
use vstd::utf8::*;

use crate::error::EscapeErrorKind;
use crate::xmlread::XmlEvent as X;

verus! {

/// The tokenizer of `quick_xml`, reading from a byte slice.
#[verifier::external_type_specification]
#[verifier::external_body]
#[verifier::reject_recursive_types(R)]
pub struct ExXmlReader<R>(Reader<R>);

/// One XML event, with its text held as plain strings.
#[derive(Clone, Debug)]
pub enum XmlEvent {
    /// A start tag: the text between `<` and `>`, and the length of its name.
    Start(String, usize),
    /// A self-closing tag: the text between `<` and `/>`, and the length of its name.
    Empty(String, usize),
    /// An end tag's name.
    End(String),
    /// Character data, still escaped (never containing `&`).
    Text(String),
    /// The content of a `<![CDATA[...]]>` section.
    CData(String),
    /// A general reference `&name;`, by its name.
    GeneralRef(String),
    /// End of input.
    Eof,
    /// A comment, declaration, processing instruction or doctype.
    Other,
    /// A failure: the input does not follow the XML grammar or is not
    /// well-formed (e.g. mismatched tags).
    Malformed,
    /// Any other failure of the tokenizer (e.g. text that is not UTF-8).
    Failed,
}

/// View of an [`XmlEvent`].
pub enum XmlEventView {
    Start(Seq<char>, nat),
    Empty(Seq<char>, nat),
    End(Seq<char>),
    Text(Seq<char>),
    CData(Seq<char>),
    GeneralRef(Seq<char>),
    Eof,
    Other,
    Malformed,
    Failed,
}

impl View for XmlEvent {
    type V = XmlEventView;

    open spec fn view(&self) -> XmlEventView {
        match self {
            XmlEvent::Start(s, n) => XmlEventView::Start(s@, *n as nat),
            XmlEvent::Empty(s, n) => XmlEventView::Empty(s@, *n as nat),
            XmlEvent::End(s) => XmlEventView::End(s@),
            XmlEvent::Text(s) => XmlEventView::Text(s@),
            XmlEvent::CData(s) => XmlEventView::CData(s@),
            XmlEvent::GeneralRef(s) => XmlEventView::GeneralRef(s@),
            XmlEvent::Eof => XmlEventView::Eof,
            XmlEvent::Other => XmlEventView::Other,
            XmlEvent::Malformed => XmlEventView::Malformed,
            XmlEvent::Failed => XmlEventView::Failed,
        }
    }
}

/// What one read of the tokenizer yields: an event or a failure.
pub type XmlStep = XmlEventView;

/// Whether a step ends the reading: the end of input or a failure.
pub open spec fn is_final_step(s: XmlStep) -> bool {
    match s {
        XmlEventView::Eof | XmlEventView::Malformed | XmlEventView::Failed => true,
        _ => false,
    }
}

/// The steps `quick_xml` yields for `body` (text trimmed when `trim`), up to
/// and including the first end of input or failure.
pub uninterp spec fn spec_xml_steps(body: Seq<u8>, trim: bool) -> Seq<XmlStep>;

/// The steps a reader has still to yield.
pub uninterp spec fn xml_pending(r: Reader<&[u8]>) -> Seq<XmlStep>;

/// A sequence of steps that ends with its only final step.
pub open spec fn well_formed_steps(s: Seq<XmlStep>) -> bool {
    &&& s.len() > 0
    &&& is_final_step(s.last())
    &&& forall|i: int| 0 <= i < s.len() - 1 ==> !is_final_step(#[trigger] s[i])
}

/// `quick_xml::Reader::from_reader` on `body`, with text trimming set to
/// `trim`: it yields the steps named by `spec_xml_steps`, a finite sequence
/// that ends at the end of input or the first failure.
#[verifier::external_body]
pub(crate) fn xml_reader(body: &[u8], trim: bool) -> (r: Reader<&[u8]>)
    ensures
        xml_pending(r) == spec_xml_steps(body@, trim),
        well_formed_steps(xml_pending(r)),
{
    let mut reader = Reader::from_reader(body);
    reader.config_mut().trim_text(trim);
    reader
}

/// `quick_xml::Reader::read_event`: yields the next pending step, event
/// variants and failures told apart one for one.
#[verifier::external_body]
pub(crate) fn read_xml_event(reader: &mut Reader<&[u8]>) -> (r: XmlEvent)
    requires
        xml_pending(*old(reader)).len() > 0,
    ensures
        r@ == xml_pending(*old(reader))[0],
        xml_pending(*final(reader)) == xml_pending(*old(reader)).drop_first(),
{
    let s = str::to_owned;
    match reader.read_event() {
        Ok(Start(e)) => X::Start(s(&e), e.name().0.len()),
        Ok(Empty(e)) => X::Empty(s(&e), e.name().0.len()),
        Ok(End(e)) => X::End(s(&e)),
        Ok(Text(e)) => X::Text(s(&e)),
        Ok(CData(e)) => X::CData(s(&e)),
        Ok(GeneralRef(e)) => X::GeneralRef(s(&e)),
        Ok(Eof) => X::Eof,
        Ok(_) => X::Other,
        Err(Syntax(_) | IllFormed(_)) => X::Malformed,
        Err(_) => X::Failed,
    }
}

/// An attribute as the tokenizer splits it: raw key and raw (still
/// escaped) value, or a malformed attribute.
pub type AttrItem = Result<(Seq<char>, Seq<char>), ()>;

/// The items `quick_xml`'s attribute iterator yields for a tag whose text is
/// `content` and whose name is `name_len` bytes long, duplicates checked.
pub uninterp spec fn spec_tag_attributes(content: Seq<char>, name_len: nat) -> Seq<AttrItem>;

pub open spec fn attr_item_of(r: Result<(String, String), ()>) -> AttrItem {
    match r {
        Ok((k, v)) => Ok((k@, v@)),
        Err(_) => Err(()),
    }
}

/// Where the attributes of a tag whose text is `content` may start: past
/// its end, or at a character boundary (the iterator slices `content` at
/// byte offsets found from there).
pub open spec fn attr_start_ok(content: Seq<char>, name_len: nat) -> bool {
    name_len > encode_utf8(content).len() || is_char_boundary(encode_utf8(content), name_len as int)
}

/// Item `n` of `quick_xml::events::attributes::Attributes::new(content,
/// name_len)` (the iterator `BytesStart::attributes` returns): key and raw
/// value, or a malformed attribute; `None` past the last item. Each item
/// spans at least one byte of `content`, so an item's index is below
/// `usize::MAX`. Started inside a character, the iterator would slice
/// `content` there and panic, so that is excluded.
#[verifier::external_body]
pub(crate) fn nth_attribute(content: &str, name_len: usize, n: usize) -> (r: Option<Result<(String, String), ()>>)
    requires
        attr_start_ok(content@, name_len as nat),
    ensures
        match r {
            Some(a) => n < spec_tag_attributes(content@, name_len as nat).len() && n < usize::MAX
                && attr_item_of(a) == spec_tag_attributes(content@, name_len as nat)[n as int],
            None => n >= spec_tag_attributes(content@, name_len as nat).len(),
        },
{
    match Attributes::new(content, name_len).nth(n) {
        Some(Ok(a)) => Some(Ok((String::from(a.key.as_ref()), a.value.into_owned()))),
        Some(Err(_)) => Some(Err(())),
        None => None,
    }
}

/// The XML 1.0 normalized form of a raw attribute value, if it has one.
pub uninterp spec fn spec_normalized_value(raw: Seq<char>) -> Option<Seq<char>>;

/// `quick_xml::events::attributes::Attribute::normalized_value` with XML
/// 1.0 rules: entity and character references resolved, `\t`, `\r`, `\n`
/// turned into spaces; `None` when a reference cannot be resolved.
#[verifier::external_body]
pub(crate) fn normalized_value(raw: &str) -> (r: Option<String>)
    ensures
        match r {
            Some(v) => spec_normalized_value(raw@) == Some(v@),
            None => spec_normalized_value(raw@) is None,
        },
{
    let attr = Attribute { key: QName("v"), value: Cow::Borrowed(raw) };
    attr.normalized_value(XmlVersion::default()).ok().map(Cow::into_owned)
}

/// What `quick_xml::escape::unescape` makes of `s`: the text with predefined
/// entities and character references resolved, or why it failed.
pub uninterp spec fn spec_unescape(s: Seq<char>) -> Result<Seq<char>, EscapeErrorKind>;

/// `quick_xml::escape::unescape`, its error variants told apart one for one.
#[verifier::external_body]
pub(crate) fn unescape(s: &str) -> (r: Result<String, EscapeErrorKind>)
    ensures
        match r {
            Ok(t) => spec_unescape(s@) == Ok::<Seq<char>, EscapeErrorKind>(t@),
            Err(k) => spec_unescape(s@) == Err::<Seq<char>, EscapeErrorKind>(k),
        },
{
    match quick_xml::escape::unescape(s) {
        Ok(t) => Ok(t.into_owned()),
        Err(EscapeError::UnrecognizedEntity(..)) => Err(EscapeErrorKind::UnrecognizedEntity),
        Err(EscapeError::UnterminatedEntity(..)) => Err(EscapeErrorKind::UnterminatedEntity),
        Err(EscapeError::InvalidCharRef(..)) => Err(EscapeErrorKind::InvalidCharRef),
        Err(EscapeError::TooManyNestedEntities) => Err(EscapeErrorKind::TooManyNestedEntities),
    }
}

/// What `String::from_utf8_lossy` makes of `b`.
pub uninterp spec fn spec_utf8_lossy(b: Seq<u8>) -> Seq<char>;

/// `String::from_utf8_lossy`: the text `b` encodes, with each invalid
/// sequence replaced by U+FFFD; valid UTF-8 is decoded as it is.
#[verifier::external_body]
pub(crate) fn utf8_lossy(b: &[u8]) -> (r: String)
    ensures
        r@ == spec_utf8_lossy(b@),
        valid_utf8(b@) ==> r@ == decode_utf8(b@),
{
    String::from_utf8_lossy(b).into_owned()
}

/// Whether the attributes of the tag `content` may be read from
/// `name_len` on (see [`attr_start_ok`]).
pub fn attr_start_valid(content: &str, name_len: usize) -> (r: bool)
    ensures
        r == attr_start_ok(content@, name_len as nat),
{
    proof {
        encode_utf8_valid_utf8(content@);
    }
    let n = content.as_bytes().len();
    name_len > n || content.is_char_boundary(name_len)
}

/// `std::str::from_utf8`: the text `b` encodes when it is valid UTF-8.
#[verifier::external_body]
pub(crate) fn utf8_str(b: &[u8]) -> (r: Option<String>)
    ensures
        match r {
            Some(s) => valid_utf8(b@) && s@ == decode_utf8(b@),
            None => !valid_utf8(b@),
        },
{
    match std::str::from_utf8(b) {
        Ok(s) => Some(s.to_owned()),
        Err(_) => None,
    }
}

} // verus!
