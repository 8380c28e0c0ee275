//! The parser for the fields every `<D:response>` carries (href, status,
//! propstats, displayname, etag, ...), driven by start tags, end tags and
//! text.

use vstd::prelude::*;
use vstd::string::*;

use crate::error::Error;
use crate::etag::{normalize_etag, normalize_etag_spec, normalize_sync_token, normalize_sync_token_spec};
use crate::names::{element_from_bytes, element_of, element_label, local_name, local_name_of, ElementName};
use crate::numbers::{http_status_code, status_from};
use crate::text::{trim, trim_string};
use crate::types::{empty_common, opt_chars, DavItemCommon, DavItemCommonView, PropStat, PropStatView};
use crate::xmlread::{spec_utf8_lossy, utf8_lossy};

verus! {

/// Whether `stack` ends with `needle`.
pub open spec fn ends_with(stack: Seq<ElementName>, needle: Seq<ElementName>) -> bool {
    needle.len() <= stack.len() && stack.subrange(stack.len() - needle.len(), stack.len() as int)
        == needle
}

/// Whether the element path `stack` ends with `needle`.
pub fn path_ends_with(stack: &[ElementName], needle: &[ElementName]) -> (r: bool)
    ensures
        r == ends_with(stack@, needle@),
{
    if stack.len() < needle.len() {
        return false;
    }
    let off = stack.len() - needle.len();
    let mut i: usize = 0;
    while i < needle.len()
        invariant
            i <= needle@.len(),
            off + needle@.len() == stack@.len(),
            stack@.len() <= usize::MAX,
            forall|j: int| 0 <= j < i ==> stack@[off + j] == needle@[j],
        decreases needle.len() - i,
    {
        if stack[off + i] != needle[i] {
            assert(stack@.subrange(off as int, stack@.len() as int)[i as int] != needle@[i as int]);
            return false;
        }
        i += 1;
    }
    assert(stack@.subrange(off as int, stack@.len() as int) =~= needle@);
    true
}

/// A copy of an optional string.
pub fn clone_opt(o: &Option<String>) -> (r: Option<String>)
    ensures
        opt_chars(r) == opt_chars(*o),
{
    match o {
        Some(s) => Some(s.clone()),
        None => None,
    }
}

/// Whether `names` holds a string equal to `name`.
pub fn contains_string(names: &Vec<String>, name: &String) -> (r: bool)
    ensures
        r == names.deep_view().contains(name@),
{
    let mut i: usize = 0;
    while i < names.len()
        invariant
            i <= names@.len(),
            forall|j: int| 0 <= j < i ==> names@[j]@ != name@,
        decreases names.len() - i,
    {
        if names[i].eq(name) {
            assert(names.deep_view()[i as int] == name@);
            return true;
        }
        i += 1;
    }
    assert forall|j: int| 0 <= j < names.deep_view().len() implies names.deep_view()[j] != name@ by {
        assert(names.deep_view()[j] == names@[j]@);
    }
    false
}

/// Mathematical state of a [`CommonParser`].
pub struct CommonParserView {
    pub stack: Seq<ElementName>,
    pub current: DavItemCommonView,
    pub propstat_status: Option<Seq<char>>,
    pub prop_names: Seq<Seq<char>>,
    pub first_200_applied: bool,
}

/// Tracks the element path and fills the common fields of the response
/// being read.
pub struct CommonParser {
    stack: Vec<ElementName>,
    current: DavItemCommon,
    current_propstat_status: Option<String>,
    current_prop_names: Vec<String>,
    first_200_propstat_applied: bool,
}

impl View for CommonParser {
    type V = CommonParserView;

    closed spec fn view(&self) -> CommonParserView {
        CommonParserView {
            stack: self.stack@,
            current: self.current@,
            propstat_status: opt_chars(self.current_propstat_status),
            prop_names: self.current_prop_names.deep_view(),
            first_200_applied: self.first_200_propstat_applied,
        }
    }
}

/// A parser that has read nothing.
pub open spec fn common_initial() -> CommonParserView {
    CommonParserView {
        stack: Seq::empty(),
        current: empty_common(),
        propstat_status: None,
        prop_names: Seq::empty(),
        first_200_applied: false,
    }
}

/// The path of a property element directly inside
/// `response/propstat/prop`.
pub open spec fn in_prop(stack: Seq<ElementName>) -> bool {
    stack.len() >= 4 && stack[stack.len() - 4] == ElementName::Response && stack[stack.len() - 3]
        == ElementName::Propstat && stack[stack.len() - 2] == ElementName::Prop
}

/// The state after the start tag `raw`.
pub open spec fn common_start(p: CommonParserView, raw: Seq<u8>) -> CommonParserView {
    let e = element_of(local_name(raw));
    let stack = p.stack.push(e);
    let p1 = if e == ElementName::Response {
        CommonParserView { stack, current: empty_common(), first_200_applied: false, ..p }
    } else if e == ElementName::Propstat {
        CommonParserView { stack, propstat_status: None, prop_names: Seq::empty(), ..p }
    } else if e == ElementName::Collection && ends_with(
        stack,
        seq![
            ElementName::Response,
            ElementName::Propstat,
            ElementName::Prop,
            ElementName::Resourcetype,
            ElementName::Collection,
        ],
    ) {
        CommonParserView {
            stack,
            current: DavItemCommonView { is_collection: true, ..p.current },
            ..p
        }
    } else {
        CommonParserView { stack, ..p }
    };
    let name = spec_utf8_lossy(local_name(raw));
    if in_prop(stack) && !p1.prop_names.contains(name) {
        CommonParserView { prop_names: p1.prop_names.push(name), ..p1 }
    } else {
        p1
    }
}

/// A start tag marks the item being read as a collection exactly when it
/// is a `collection` element directly inside
/// `response/propstat/prop/resourcetype`; a `response` start tag begins an
/// item that is not (yet) a collection, and every other start tag leaves
/// the mark as it was.
pub proof fn lemma_collection_mark(p: CommonParserView, raw: Seq<u8>)
    ensures
        element_of(local_name(raw)) == ElementName::Collection ==> (common_start(
            p,
            raw,
        ).current.is_collection <==> (p.current.is_collection || (p.stack.len() >= 4
            && p.stack[p.stack.len() - 4] == ElementName::Response && p.stack[p.stack.len() - 3]
            == ElementName::Propstat && p.stack[p.stack.len() - 2] == ElementName::Prop
            && p.stack[p.stack.len() - 1] == ElementName::Resourcetype))),
        element_of(local_name(raw)) == ElementName::Response ==> !common_start(
            p,
            raw,
        ).current.is_collection,
        element_of(local_name(raw)) != ElementName::Collection && element_of(local_name(raw))
            != ElementName::Response ==> common_start(p, raw).current.is_collection
            == p.current.is_collection,
{
    let e = element_of(local_name(raw));
    let stack = p.stack.push(e);
    let needle = seq![
        ElementName::Response,
        ElementName::Propstat,
        ElementName::Prop,
        ElementName::Resourcetype,
        ElementName::Collection,
    ];
    if e == ElementName::Collection {
        let n = p.stack.len();
        if ends_with(stack, needle) {
            let tail = stack.subrange(stack.len() - 5, stack.len() as int);
            assert(tail[0] == p.stack[n - 4]);
            assert(tail[1] == p.stack[n - 3]);
            assert(tail[2] == p.stack[n - 2]);
            assert(tail[3] == p.stack[n - 1]);
        }
        if n >= 4 && p.stack[n - 4] == ElementName::Response && p.stack[n - 3]
            == ElementName::Propstat && p.stack[n - 2] == ElementName::Prop && p.stack[n - 1]
            == ElementName::Resourcetype {
            assert(stack.subrange(stack.len() - 5, stack.len() as int) =~= needle);
        }
    }
}

/// Whether a propstat status line carries the code 200.
pub open spec fn is_200(status: Option<Seq<char>>) -> bool {
    match status {
        Some(s) => status_from(s, 0) == Some(200u16),
        None => false,
    }
}

/// The state after the end tag `raw` (the stack is popped, and a closing
/// `propstat` is recorded, whether or not the tag matches).
pub open spec fn common_end(p: CommonParserView, raw: Seq<u8>) -> CommonParserView {
    let e = element_of(local_name(raw));
    let p1 = if e == ElementName::Propstat {
        let status = p.propstat_status;
        let ok = is_200(status);
        let cur = if !ok && p.current.status is None {
            DavItemCommonView { status, ..p.current }
        } else {
            p.current
        };
        CommonParserView {
            propstat_status: None,
            prop_names: Seq::empty(),
            first_200_applied: if ok { true } else { p.first_200_applied },
            current: DavItemCommonView {
                propstats: cur.propstats.push(PropStatView { status, prop_names: p.prop_names }),
                ..cur
            },
            ..p
        }
    } else {
        p
    };
    CommonParserView {
        stack: if p.stack.len() > 0 {
            p.stack.drop_last()
        } else {
            p.stack
        },
        ..p1
    }
}

/// Message for an end tag that closes nothing.
pub open spec fn unopened_message(raw: Seq<u8>) -> Seq<char> {
    "closing tag </"@ + spec_utf8_lossy(raw) + "> without a matching opening tag"@
}

/// Message for an end tag that does not close the innermost open element.
pub open spec fn mismatch_message(raw: Seq<u8>, open: ElementName, found: ElementName) -> Seq<
    char,
> {
    "closing tag </"@ + spec_utf8_lossy(raw) + "> does not match the last opened element (expected "@
        + element_label(open) + ", found "@ + element_label(found) + ")"@
}

/// What the end tag `raw` reports: `None` when it closes the innermost open
/// element, else the message of the structural error.
pub open spec fn end_error(p: CommonParserView, raw: Seq<u8>) -> Option<Seq<char>> {
    let e = element_of(local_name(raw));
    if p.stack.len() == 0 {
        Some(unopened_message(raw))
    } else if p.stack.last() != e {
        Some(mismatch_message(raw, p.stack.last(), e))
    } else {
        None
    }
}

/// The state after the text `t`: trimmed, it fills the field that the
/// current element path names (empty or blank text changes nothing).
pub open spec fn common_text(p: CommonParserView, t: Seq<char>) -> CommonParserView {
    let tr = trim(t);
    let s = p.stack;
    let c = p.current;
    if t.len() == 0 || tr.len() == 0 {
        p
    } else if ends_with(s, seq![ElementName::Response, ElementName::Href]) {
        CommonParserView { current: DavItemCommonView { href: tr, ..c }, ..p }
    } else if ends_with(s, seq![ElementName::Response, ElementName::Status]) {
        CommonParserView {
            current: DavItemCommonView {
                response_status: Some(tr),
                status: if c.status is None {
                    Some(tr)
                } else {
                    c.status
                },
                ..c
            },
            ..p
        }
    } else if ends_with(s, seq![ElementName::Response, ElementName::Propstat, ElementName::Status]) {
        if !p.first_200_applied && status_from(tr, 0) == Some(200u16) {
            CommonParserView {
                propstat_status: Some(tr),
                current: DavItemCommonView { status: Some(tr), ..c },
                first_200_applied: true,
                ..p
            }
        } else {
            CommonParserView { propstat_status: Some(tr), ..p }
        }
    } else if ends_with(
        s,
        seq![ElementName::Response, ElementName::Propstat, ElementName::Prop, ElementName::Displayname],
    ) {
        CommonParserView { current: DavItemCommonView { displayname: Some(tr), ..c }, ..p }
    } else if ends_with(
        s,
        seq![ElementName::Response, ElementName::Propstat, ElementName::Prop, ElementName::Getetag],
    ) {
        CommonParserView {
            current: DavItemCommonView { etag: Some(normalize_etag_spec(tr)), ..c },
            ..p
        }
    } else if ends_with(
        s,
        seq![ElementName::Response, ElementName::Propstat, ElementName::Prop, ElementName::SyncToken],
    ) {
        CommonParserView {
            current: DavItemCommonView { sync_token: Some(normalize_sync_token_spec(tr)), ..c },
            ..p
        }
    } else if ends_with(
        s,
        seq![
            ElementName::Response,
            ElementName::Propstat,
            ElementName::Prop,
            ElementName::CurrentUserPrincipal,
            ElementName::Href,
        ],
    ) {
        CommonParserView {
            current: DavItemCommonView {
                current_user_principal: c.current_user_principal.push(tr),
                ..c
            },
            ..p
        }
    } else if ends_with(
        s,
        seq![
            ElementName::Response,
            ElementName::Propstat,
            ElementName::Prop,
            ElementName::Owner,
            ElementName::Href,
        ],
    ) {
        CommonParserView { current: DavItemCommonView { owner: Some(tr), ..c }, ..p }
    } else if ends_with(
        s,
        seq![ElementName::Response, ElementName::Propstat, ElementName::Prop, ElementName::Getcontenttype],
    ) {
        CommonParserView { current: DavItemCommonView { content_type: Some(tr), ..c }, ..p }
    } else if ends_with(
        s,
        seq![ElementName::Response, ElementName::Propstat, ElementName::Prop, ElementName::Getlastmodified],
    ) {
        CommonParserView { current: DavItemCommonView { last_modified: Some(tr), ..c }, ..p }
    } else {
        p
    }
}


/// `"closing tag </"`, the name as text, and `tail`.
fn tag_message(raw: &[u8], tail: &str) -> (r: String)
    ensures
        r@ == "closing tag </"@ + spec_utf8_lossy(raw@) + tail@,
{
    let mut m = "closing tag </".to_owned();
    let name = utf8_lossy(raw);
    m.append(name.as_str());
    m.append(tail);
    m
}

fn mismatch_text(raw: &[u8], open: ElementName, found: ElementName) -> (r: String)
    ensures
        r@ == mismatch_message(raw@, open, found),
{
    let mut m = tag_message(raw, "> does not match the last opened element (expected ");
    m.append(open.label());
    m.append(", found ");
    m.append(found.label());
    m.append(")");
    m
}

impl CommonParser {
    /// A parser that has read nothing.
    pub fn new() -> (r: CommonParser)
        ensures
            r@ == common_initial(),
    {
        let r = CommonParser {
            stack: Vec::new(),
            current: DavItemCommon::new(),
            current_propstat_status: None,
            current_prop_names: Vec::new(),
            first_200_propstat_applied: false,
        };
        assert(r.current_prop_names.deep_view() =~= Seq::<Seq<char>>::empty());
        r
    }

    /// Whether the current element path ends with `needle`.
    pub fn path_ends_with(&self, needle: &[ElementName]) -> (r: bool)
        ensures
            r == ends_with(self@.stack, needle@),
    {
        path_ends_with(self.stack.as_slice(), needle)
    }

    /// Enter the element `raw` (a raw, possibly prefixed name): a
    /// `response` starts a fresh item, a `propstat` a fresh group, a
    /// `collection` under `resourcetype` marks the item as a collection, and
    /// a property element directly inside `prop` is recorded by local name.
    pub fn on_start(&mut self, raw: &[u8])
        ensures
            final(self)@ == common_start(old(self)@, raw@),
    {
        let element = element_from_bytes(raw);
        self.stack.push(element);
        if element == ElementName::Response {
            self.current = DavItemCommon::new();
            self.first_200_propstat_applied = false;
        } else if element == ElementName::Propstat {
            self.current_propstat_status = None;
            self.current_prop_names = Vec::new();
            assert(self.current_prop_names.deep_view() =~= Seq::<Seq<char>>::empty());
        } else if element == ElementName::Collection {
            let needle = [
                ElementName::Response,
                ElementName::Propstat,
                ElementName::Prop,
                ElementName::Resourcetype,
                ElementName::Collection,
            ];
            if path_ends_with(self.stack.as_slice(), &needle) {
                self.current.is_collection = true;
            }
        }
        let n = self.stack.len();
        if n >= 4 && self.stack[n - 4] == ElementName::Response && self.stack[n - 3]
            == ElementName::Propstat && self.stack[n - 2] == ElementName::Prop {
            let local = local_name_of(raw);
            let name = utf8_lossy(local.as_slice());
            if !contains_string(&self.current_prop_names, &name) {
                let ghost before = self.current_prop_names.deep_view();
                self.current_prop_names.push(name);
                assert(self.current_prop_names.deep_view() =~= before.push(spec_utf8_lossy(local_name(raw@))));
            }
        }
    }

    /// Leave the element `raw`. A closing `propstat` is recorded as a
    /// [`PropStat`]; the first 200 group's status stands as the item's
    /// status, else the first non-200 status. Fails when `raw` closes
    /// nothing or not the innermost open element (the path is popped
    /// either way).
    pub fn on_end(&mut self, raw: &[u8]) -> (r: Result<(), Error>)
        ensures
            final(self)@ == common_end(old(self)@, raw@),
            match end_error(old(self)@, raw@) {
                None => r is Ok,
                Some(m) => r matches Err(Error::XmlStructure(x)) && x@ == m,
            },
    {
        let element = element_from_bytes(raw);
        if element == ElementName::Propstat {
            let mut status: Option<String> = None;
            std::mem::swap(&mut status, &mut self.current_propstat_status);
            let mut prop_names: Vec<String> = Vec::new();
            std::mem::swap(&mut prop_names, &mut self.current_prop_names);
            assert(self.current_prop_names.deep_view() =~= Seq::<Seq<char>>::empty());
            let ok = match &status {
                Some(s) => match http_status_code(s.as_str()) {
                    Some(c) => c == 200,
                    None => false,
                },
                None => false,
            };
            if ok && !self.first_200_propstat_applied {
                self.first_200_propstat_applied = true;
            } else if !ok && self.current.status.is_none() {
                self.current.status = clone_opt(&status);
            }
            let ghost before = self.current.propstats.deep_view();
            let ps = PropStat { status, prop_names };
            self.current.propstats.push(ps);
            assert(self.current.propstats.deep_view() =~= before.push(ps.deep_view()));
        }
        match self.stack.pop() {
            Some(popped) => {
                if popped == element {
                    Ok(())
                } else {
                    Err(Error::XmlStructure(mismatch_text(raw, popped, element)))
                }
            },
            None => Err(
                Error::XmlStructure(tag_message(raw, "> without a matching opening tag")),
            ),
        }
    }

    /// Apply the text `text` to the field the current element path names
    /// (`href`, `status`, propstat `status`, `displayname`, `getetag`,
    /// `sync-token`, `current-user-principal/href`, `owner/href`,
    /// `getcontenttype`, `getlastmodified`), trimmed; blank text is ignored.
    pub fn on_text(&mut self, text: &str)
        ensures
            final(self)@ == common_text(old(self)@, text@),
    {
        if text.is_empty() {
            return;
        }
        let trimmed = trim_string(text);
        if trimmed.as_str().is_empty() {
            return;
        }
        let r = ElementName::Response;
        let ps = ElementName::Propstat;
        let pr = ElementName::Prop;
        if path_ends_with(self.stack.as_slice(), &[r, ElementName::Href]) {
            self.current.href = trimmed;
        } else if path_ends_with(self.stack.as_slice(), &[r, ElementName::Status]) {
            self.current.response_status = Some(trimmed.clone());
            if self.current.status.is_none() {
                self.current.status = Some(trimmed);
            }
        } else if path_ends_with(self.stack.as_slice(), &[r, ps, ElementName::Status]) {
            let is_ok = match http_status_code(trimmed.as_str()) {
                Some(c) => c == 200,
                None => false,
            };
            self.current_propstat_status = Some(trimmed.clone());
            if !self.first_200_propstat_applied && is_ok {
                self.current.status = Some(trimmed);
                self.first_200_propstat_applied = true;
            }
        } else if path_ends_with(self.stack.as_slice(), &[r, ps, pr, ElementName::Displayname]) {
            self.current.displayname = Some(trimmed);
        } else if path_ends_with(self.stack.as_slice(), &[r, ps, pr, ElementName::Getetag]) {
            self.current.etag = Some(normalize_etag(trimmed.as_str()));
        } else if path_ends_with(self.stack.as_slice(), &[r, ps, pr, ElementName::SyncToken]) {
            self.current.sync_token = Some(normalize_sync_token(trimmed.as_str()));
        } else if path_ends_with(
            self.stack.as_slice(),
            &[r, ps, pr, ElementName::CurrentUserPrincipal, ElementName::Href],
        ) {
            let ghost before = self.current.current_user_principal.deep_view();
            let ghost t = trimmed@;
            self.current.current_user_principal.push(trimmed);
            assert(self.current.current_user_principal.deep_view() =~= before.push(t));
        } else if path_ends_with(
            self.stack.as_slice(),
            &[r, ps, pr, ElementName::Owner, ElementName::Href],
        ) {
            self.current.owner = Some(trimmed);
        } else if path_ends_with(self.stack.as_slice(), &[r, ps, pr, ElementName::Getcontenttype]) {
            self.current.content_type = Some(trimmed);
        } else if path_ends_with(self.stack.as_slice(), &[r, ps, pr, ElementName::Getlastmodified]) {
            self.current.last_modified = Some(trimmed);
        }
    }

    /// Hand out the fields read for the current response, leaving empty
    /// ones in their place.
    pub fn finish_response(&mut self) -> (r: DavItemCommon)
        ensures
            r@ == old(self)@.current,
            final(self)@ == (CommonParserView { current: empty_common(), ..old(self)@ }),
    {
        let mut out = DavItemCommon::new();
        std::mem::swap(&mut out, &mut self.current);
        out
    }
}

} // verus!
