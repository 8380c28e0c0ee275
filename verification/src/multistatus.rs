//! The `207 Multi-Status` parser shared by CalDAV and CardDAV: it turns XML
//! events into [`DavItem`]s and the top-level sync token.

use vstd::prelude::*;
use vstd::string::*;
use vstd::utf8::*;

use crate::common::{
    clone_opt, common_end, common_initial, common_start, common_text, end_error, ends_with,
    path_ends_with, CommonParser, CommonParserView,
};
use crate::error::{Error, ErrorView, XmlErrorKind};
use crate::etag::{normalize_sync_token, normalize_sync_token_spec};
use crate::names::{
    bytes_from, element_from_bytes, element_of, lemma_colon_index, lemma_recognized_shape, local_name,
    local_name_of, plain_name_shape, ElementName,
};
use crate::nsscope::{
    ns_allows, ns_allows_spec, pop_mark_spec, privilege_from_local_name, privilege_of,
    resolve_spec, NsScopes, NsView,
};
use crate::numbers::{parse_unsigned, parse_unsigned_range};
use crate::text::{
    chars_of, eq_ignore_case, eq_ignore_case_exec, has_prefix, string_of_range, starts_with_at,
    trim, trim_string,
};
use crate::types::{
    empty_common, empty_item, opt_chars, with_common, DavItem, DavItemView, MediaType,
    MediaTypeView, Privilege, PrivilegeView,
};
use crate::xmltext::{append_capped, byte_len, decode_entity_token, lenient_token};
use crate::names::element_label;
use crate::xmltext::{decode_text, decode_text_spec};
use crate::xmlread::{
    is_final_step, read_xml_event, spec_xml_steps, well_formed_steps, xml_pending, xml_reader,
    XmlEvent, XmlEventView, XmlStep,
    attr_item_of, attr_start_ok, attr_start_valid, normalized_value, nth_attribute,
    spec_normalized_value, spec_tag_attributes,
    spec_utf8_lossy, utf8_lossy, AttrItem,
};

verus! {

/// Maximum bytes of text accumulated for one item (a text run, or the
/// `calendar-data` / `address-data` / `calendar-timezone` payload).
pub const MAX_ITEM_TEXT_BYTES: usize = 16 * 1024 * 1024;

/// The bytes of the name of a tag whose text is `content` and whose name is
/// `name_len` bytes long.
pub open spec fn tag_name(content: Seq<char>, name_len: nat) -> Seq<u8> {
    let b = encode_utf8(content);
    if name_len <= b.len() {
        b.take(name_len as int)
    } else {
        b
    }
}

/// The namespace declaration an attribute makes, if it is `xmlns` or
/// `xmlns:prefix`.
pub open spec fn decl_of(item: AttrItem) -> Option<(Seq<u8>, Seq<u8>)> {
    match item {
        Ok((k, v)) => if k == seq!['x', 'm', 'l', 'n', 's'] {
            Some((Seq::empty(), encode_utf8(v)))
        } else if has_prefix(k, seq!['x', 'm', 'l', 'n', 's', ':']) {
            Some((encode_utf8(k.skip(6)), encode_utf8(v)))
        } else {
            None
        },
        Err(_) => None,
    }
}

/// `decls` followed by the declarations the attributes `items` make, in
/// order (malformed attributes are skipped).
pub open spec fn declare_all(decls: Seq<(Seq<u8>, Seq<u8>)>, items: Seq<AttrItem>) -> Seq<
    (Seq<u8>, Seq<u8>),
>
    decreases items.len(),
{
    if items.len() == 0 {
        decls
    } else {
        let d = declare_all(decls, items.drop_last());
        match decl_of(items.last()) {
            Some(x) => d.push(x),
            None => d,
        }
    }
}

proof fn lemma_declare_all_extends(decls: Seq<(Seq<u8>, Seq<u8>)>, items: Seq<AttrItem>)
    ensures
        declare_all(decls, items).len() >= decls.len(),
        declare_all(decls, items).take(decls.len() as int) == decls,
    decreases items.len(),
{
    if items.len() > 0 {
        lemma_declare_all_extends(decls, items.drop_last());
        let d = declare_all(decls, items.drop_last());
        match decl_of(items.last()) {
            Some(x) => {
                assert(d.push(x).take(decls.len() as int) =~= d.take(decls.len() as int));
            },
            None => {},
        }
    }
}

/// The name the parser reads for the raw name `name`: unchanged when it is
/// not a recognized element or its namespace is accepted; otherwise the
/// local name behind a marker that cannot start an XML name, so it reads as
/// `Other`.
pub open spec fn qualify(ns: NsView, name: Seq<u8>) -> Seq<u8> {
    let e = element_of(local_name(name));
    if e == ElementName::Other || ns_allows_spec(resolve_spec(ns, name), e) {
        name
    } else {
        "(foreign-ns)".spec_bytes() + local_name(name)
    }
}

/// A recognized element from a namespace that does not allow it is never
/// read as a recognized element: the name the parser reads for it begins
/// with a marker that no recognized name begins with.
#[verifier::spinoff_prover]
pub proof fn lemma_foreign_names_read_as_other(ns: NsView, name: Seq<u8>)
    ensures
        qualify(ns, name) == name || element_of(local_name(qualify(ns, name))) == ElementName::Other,
{
    let local = local_name(name);
    let q = qualify(ns, name);
    if q != name {
        lemma_recognized_shape(local);
        reveal_strlit("(foreign-ns)");
        is_ascii_spec_bytes("(foreign-ns)");
        let marker = "(foreign-ns)".spec_bytes();
        assert(q == marker + local);
        assert forall|j: int| 0 <= j < q.len() implies q[j] != 0x3au8 by {
            if j < marker.len() {
                assert(marker[j] == "(foreign-ns)"@[j] as u8);
            } else {
                assert(q[j] == local[j - marker.len()]);
            }
        }
        lemma_colon_index(q);
        assert(local_name(q) =~= q);
        assert(marker[0] == 0x28u8);
        assert(!plain_name_shape(q));
        if element_of(q) != ElementName::Other {
            lemma_recognized_shape(q);
        }
    }
}

/// Whether some string of `list` equals `v` ignoring ASCII case.
pub open spec fn any_eq_ignore_case(list: Seq<Seq<char>>, v: Seq<char>) -> bool {
    exists|j: int| 0 <= j < list.len() && eq_ignore_case(#[trigger] list[j], v)
}

/// The components named by the `name` attributes of a `comp` element,
/// added to `comps` in order (empty names and names already present, ASCII
/// case ignored, are skipped), or the failure that stops the reading.
pub open spec fn comp_fold(comps: Seq<Seq<char>>, items: Seq<AttrItem>, i: int) -> (Seq<
    Seq<char>,
>, Option<ErrorView>)
    decreases items.len() - i,
{
    if i < 0 || i >= items.len() {
        (comps, None)
    } else {
        match items[i] {
            Err(_) => (comps, Some(ErrorView::Xml(XmlErrorKind::InvalidAttr))),
            Ok((k, v)) => if eq_ignore_case(k, seq!['n', 'a', 'm', 'e']) {
                match spec_normalized_value(v) {
                    None => (comps, Some(ErrorView::Xml(XmlErrorKind::AttrValue))),
                    Some(val) => comp_fold(
                        if val.len() > 0 && !any_eq_ignore_case(comps, val) {
                            comps.push(val)
                        } else {
                            comps
                        },
                        items,
                        i + 1,
                    ),
                }
            } else {
                comp_fold(comps, items, i + 1)
            },
        }
    }
}

/// The `content-type` and `version` attributes of a `*-data-type` element,
/// trimmed (blank values count as absent; a later attribute overrides an
/// earlier one), or the failure that stops the reading.
pub open spec fn type_fold(
    ct: Option<Seq<char>>,
    ver: Option<Seq<char>>,
    items: Seq<AttrItem>,
    i: int,
) -> Result<(Option<Seq<char>>, Option<Seq<char>>), ErrorView>
    decreases items.len() - i,
{
    if i < 0 || i >= items.len() {
        Ok((ct, ver))
    } else {
        match items[i] {
            Err(_) => Err(ErrorView::Xml(XmlErrorKind::InvalidAttr)),
            Ok((k, v)) => if eq_ignore_case(
                k,
                seq!['c', 'o', 'n', 't', 'e', 'n', 't', '-', 't', 'y', 'p', 'e'],
            ) {
                match spec_normalized_value(v) {
                    None => Err(ErrorView::Xml(XmlErrorKind::AttrValue)),
                    Some(val) => type_fold(
                        if trim(val).len() > 0 {
                            Some(trim(val))
                        } else {
                            ct
                        },
                        ver,
                        items,
                        i + 1,
                    ),
                }
            } else if eq_ignore_case(k, seq!['v', 'e', 'r', 's', 'i', 'o', 'n']) {
                match spec_normalized_value(v) {
                    None => Err(ErrorView::Xml(XmlErrorKind::AttrValue)),
                    Some(val) => type_fold(
                        ct,
                        if trim(val).len() > 0 {
                            Some(trim(val))
                        } else {
                            ver
                        },
                        items,
                        i + 1,
                    ),
                }
            } else {
                type_fold(ct, ver, items, i + 1)
            },
        }
    }
}

/// `content-type;version=v`, or the content type alone.
pub open spec fn address_data_value(ct: Seq<char>, ver: Option<Seq<char>>) -> Seq<char> {
    match ver {
        Some(v) => ct + ";version="@ + v,
        None => ct,
    }
}

/// Mathematical state of a [`MultistatusParser`].
pub struct MultistatusView {
    pub stack: Seq<ElementName>,
    pub current: DavItemView,
    pub sync_token: Option<Seq<char>>,
    pub text_buf: Seq<char>,
    pub common: CommonParserView,
    pub ns: NsView,
    pub items: Seq<DavItemView>,
}

/// Streaming parser of a `207 Multi-Status` body: it tracks the element
/// path, accumulates text between element boundaries, and hands each
/// finished `<D:response>` to its item list.
pub struct MultistatusParser {
    pub stack: Vec<ElementName>,
    pub current: DavItem,
    pub sync_token: Option<String>,
    text_buf: String,
    common: CommonParser,
    ns: NsScopes,
    sink: Vec<DavItem>,
}

pub open spec fn item_views(v: Seq<DavItem>) -> Seq<DavItemView> {
    v.map_values(|x: DavItem| x@)
}

impl View for MultistatusParser {
    type V = MultistatusView;

    closed spec fn view(&self) -> MultistatusView {
        MultistatusView {
            stack: self.stack@,
            current: self.current@,
            sync_token: opt_chars(self.sync_token),
            text_buf: self.text_buf@,
            common: self.common@,
            ns: self.ns@,
            items: item_views(self.sink@),
        }
    }
}

pub open spec fn cal_path(e: ElementName) -> Seq<ElementName> {
    seq![ElementName::Response, ElementName::Propstat, ElementName::Prop, ElementName::Resourcetype, e]
}

pub open spec fn prop_path(p: ElementName, e: ElementName) -> Seq<ElementName> {
    seq![ElementName::Response, ElementName::Propstat, ElementName::Prop, p, e]
}

/// The item after the type-specific part of the start tag of `e` (the
/// stack already holds `e`), or the failure that stops the reading.
pub open spec fn start_current(
    cur: DavItemView,
    e: ElementName,
    stack: Seq<ElementName>,
    items: Seq<AttrItem>,
) -> (DavItemView, Option<ErrorView>) {
    if e == ElementName::Response {
        (empty_item(), None)
    } else if e == ElementName::Calendar && ends_with(stack, cal_path(ElementName::Calendar)) {
        (DavItemView { is_calendar: true, ..cur }, None)
    } else if e == ElementName::Addressbook && ends_with(stack, cal_path(ElementName::Addressbook)) {
        (DavItemView { is_addressbook: true, ..cur }, None)
    } else if e == ElementName::Comp && ends_with(
        stack,
        prop_path(ElementName::SupportedCalendarComponentSet, ElementName::Comp),
    ) {
        let (c, err) = comp_fold(cur.supported_components, items, 0);
        (DavItemView { supported_components: c, ..cur }, err)
    } else if e == ElementName::AddressDataType && ends_with(
        stack,
        prop_path(ElementName::SupportedAddressData, ElementName::AddressDataType),
    ) {
        match type_fold(None, None, items, 0) {
            Err(er) => (cur, Some(er)),
            Ok((Some(ct), ver)) => {
                let v = address_data_value(ct, ver);
                if any_eq_ignore_case(cur.supported_address_data, v) {
                    (cur, None)
                } else {
                    (DavItemView { supported_address_data: cur.supported_address_data.push(v), ..cur }, None)
                }
            },
            Ok((None, _)) => (cur, None),
        }
    } else if e == ElementName::CalendarDataType && ends_with(
        stack,
        prop_path(ElementName::SupportedCalendarData, ElementName::CalendarDataType),
    ) {
        match type_fold(None, None, items, 0) {
            Err(er) => (cur, Some(er)),
            Ok((Some(ct), ver)) => {
                let m = MediaTypeView { content_type: ct, version: ver };
                if cur.supported_calendar_data.contains(m) {
                    (cur, None)
                } else {
                    (DavItemView { supported_calendar_data: cur.supported_calendar_data.push(m), ..cur }, None)
                }
            },
            Ok((None, _)) => (cur, None),
        }
    } else {
        (cur, None)
    }
}

/// The privilege a direct child of a `current-user-privilege-set/privilege`
/// container names, if `stack` (holding the child) is such a path.
pub open spec fn privilege_child(stack: Seq<ElementName>) -> bool {
    stack.len() > 5 && ends_with(
        stack.drop_last(),
        prop_path(ElementName::CurrentUserPrivilegeSet, ElementName::Privilege),
    )
}

/// The parser state after the start tag `content` (name `name_len` bytes
/// long), and the failure that stops the reading, if any. A name length
/// that ends inside a character makes the tag malformed.
pub open spec fn ms_start(p: MultistatusView, content: Seq<char>, name_len: nat) -> (
    MultistatusView,
    Option<ErrorView>,
) {
    if !attr_start_ok(content, name_len) {
        (p, Some(ErrorView::Xml(XmlErrorKind::Malformed)))
    } else {
    let items = spec_tag_attributes(content, name_len);
    let ns2 = NsView {
        decls: declare_all(p.ns.decls, items),
        marks: p.ns.marks.push(p.ns.decls.len() as usize),
    };
    let name = tag_name(content, name_len);
    let raw = qualify(ns2, name);
    let e = element_of(local_name(raw));
    let stack = p.stack.push(e);
    let (cur1, err) = start_current(p.current, e, stack, items);
    let cur2 = if err is None && privilege_child(stack) {
        let pv = if ns_allows_spec(resolve_spec(ns2, name), ElementName::Other) {
            privilege_of(name)
        } else {
            PrivilegeView::Other(spec_utf8_lossy(local_name(name)))
        };
        DavItemView { current_user_privileges: cur1.current_user_privileges.push(pv), ..cur1 }
    } else {
        cur1
    };
    (
        MultistatusView {
            stack,
            current: cur2,
            common: common_start(p.common, raw),
            ns: ns2,
            ..p
        },
        err,
    )
    }
}


/// The first `n` bytes of `raw`.
fn bytes_prefix(raw: &[u8], n: usize) -> (r: Vec<u8>)
    requires
        n <= raw@.len(),
    ensures
        r@ == raw@.take(n as int),
{
    let mut r: Vec<u8> = Vec::new();
    let mut i: usize = 0;
    while i < n
        invariant
            i <= n <= raw@.len(),
            r@ == raw@.take(i as int),
        decreases n - i,
    {
        r.push(raw[i]);
        assert(raw@.take(i as int + 1) =~= raw@.take(i as int).push(raw@[i as int]));
        i += 1;
    }
    r
}

/// The bytes of the name of the tag `content`.
pub fn tag_name_of(content: &str, name_len: usize) -> (r: Vec<u8>)
    ensures
        r@ == tag_name(content@, name_len as nat),
{
    let b = content.as_bytes();
    if name_len <= b.len() {
        bytes_prefix(b, name_len)
    } else {
        let r = bytes_from(b, 0);
        assert(b@.skip(0) =~= b@);
        r
    }
}

/// Whether two character sequences are equal.
fn chars_eq(a: &[char], b: &[char]) -> (r: bool)
    ensures
        r == (a@ == b@),
{
    if a.len() != b.len() {
        return false;
    }
    let mut i: usize = 0;
    while i < a.len()
        invariant
            i <= a@.len(),
            a@.len() == b@.len(),
            forall|j: int| 0 <= j < i ==> a@[j] == b@[j],
        decreases a.len() - i,
    {
        if a[i] != b[i] {
            return false;
        }
        i += 1;
    }
    assert(a@ =~= b@);
    true
}

/// Declare the namespaces the attributes of the tag `content` carry
/// (`xmlns` and `xmlns:prefix`), in order.
fn declare_namespaces(ns: &mut NsScopes, content: &str, name_len: usize)
    requires
        attr_start_ok(content@, name_len as nat),
    ensures
        final(ns)@ == (NsView {
            decls: declare_all(old(ns)@.decls, spec_tag_attributes(content@, name_len as nat)),
            ..old(ns)@
        }),
{
    let ghost items = spec_tag_attributes(content@, name_len as nat);
    let xmlns = ['x', 'm', 'l', 'n', 's'];
    let xmlns_colon = ['x', 'm', 'l', 'n', 's', ':'];
    let xs: &[char] = &xmlns;
    let xc: &[char] = &xmlns_colon;
    assert(xs@ == seq!['x', 'm', 'l', 'n', 's']);
    assert(xc@ == seq!['x', 'm', 'l', 'n', 's', ':']);
    let mut n: usize = 0;
    assert(items.take(0) =~= Seq::<AttrItem>::empty());
    loop
        invariant
            n <= items.len(),
            items == spec_tag_attributes(content@, name_len as nat),
            attr_start_ok(content@, name_len as nat),
            xs@ == seq!['x', 'm', 'l', 'n', 's'],
            xc@ == seq!['x', 'm', 'l', 'n', 's', ':'],
            ns@ == (NsView { decls: declare_all(old(ns)@.decls, items.take(n as int)), ..old(ns)@ }),
        decreases items.len() - n,
    {
        let a = nth_attribute(content, name_len, n);
        match a {
            None => {
                assert(items.take(n as int) =~= items);
                return;
            },
            Some(item) => {
                assert(items.take(n as int + 1).drop_last() =~= items.take(n as int));
                assert(items.take(n as int + 1).last() == items[n as int]);
                match item {
                    Ok((k, v)) => {
                        let kc = chars_of(k.as_str());
                        if chars_eq(&kc, xs) {
                            let empty: Vec<u8> = Vec::new();
                            assert(empty@ =~= Seq::<u8>::empty());
                            let vb = v.as_str().as_bytes();
                            let uri = bytes_from(vb, 0);
                            assert(vb@.skip(0) =~= encode_utf8(v@));
                            ns.declare(empty.as_slice(), uri);
                        } else {
                            assert(kc@.skip(0) == kc@);
                            if starts_with_at(&kc, 0, xc) {
                                let pre = string_of_range(&kc, 6, kc.len());
                                assert(pre@ =~= k@.skip(6));
                                let vb = v.as_str().as_bytes();
                                let uri = bytes_from(vb, 0);
                                assert(vb@.skip(0) =~= encode_utf8(v@));
                                ns.declare(pre.as_str().as_bytes(), uri);
                            }
                        }
                    },
                    Err(_) => {},
                }
            },
        }
        n += 1;
    }
}

/// Whether some string of `list` equals `v` ignoring ASCII case.
fn any_eq_ignore_case_exec(list: &Vec<String>, v: &String) -> (r: bool)
    ensures
        r == any_eq_ignore_case(list.deep_view(), v@),
{
    let vc = chars_of(v.as_str());
    let mut i: usize = 0;
    while i < list.len()
        invariant
            i <= list@.len(),
            vc@ == v@,
            forall|j: int| 0 <= j < i ==> !eq_ignore_case(#[trigger] list.deep_view()[j], v@),
        decreases list.len() - i,
    {
        let c = chars_of(list[i].as_str());
        if eq_ignore_case_exec(&c, &vc) {
            assert(eq_ignore_case(list.deep_view()[i as int], v@));
            return true;
        }
        i += 1;
    }
    false
}

/// Whether `list` holds a media type equal to `m`.
fn contains_media(list: &Vec<MediaType>, m: &MediaType) -> (r: bool)
    ensures
        r == list.deep_view().contains(m.deep_view()),
{
    let mut i: usize = 0;
    while i < list.len()
        invariant
            i <= list@.len(),
            forall|j: int| 0 <= j < i ==> list.deep_view()[j] != m.deep_view(),
        decreases list.len() - i,
    {
        let x = &list[i];
        let same_version = match (&x.version, &m.version) {
            (Some(a), Some(b)) => a.eq(b),
            (None, None) => true,
            _ => false,
        };
        if x.content_type.eq(&m.content_type) && same_version {
            assert(list.deep_view()[i as int] == m.deep_view());
            return true;
        }
        i += 1;
    }
    false
}

/// Add the components named by the `comp` tag `content` (see [`comp_fold`]).
fn comp_names(comps: &mut Vec<String>, content: &str, name_len: usize) -> (r: Result<(), Error>)
    requires
        attr_start_ok(content@, name_len as nat),
    ensures
        ({
            let (c, err) = comp_fold(old(comps).deep_view(), spec_tag_attributes(content@, name_len as nat), 0);
            &&& final(comps).deep_view() == c
            &&& match err {
                None => r is Ok,
                Some(e) => r matches Err(x) && x@ == e,
            }
        }),
{
    let ghost items = spec_tag_attributes(content@, name_len as nat);
    let name_lit = ['n', 'a', 'm', 'e'];
    let nl: &[char] = &name_lit;
    assert(nl@ == seq!['n', 'a', 'm', 'e']);
    let mut n: usize = 0;
    loop
        invariant
            n <= items.len(),
            items == spec_tag_attributes(content@, name_len as nat),
            attr_start_ok(content@, name_len as nat),
            nl@ == seq!['n', 'a', 'm', 'e'],
            comp_fold(old(comps).deep_view(), items, 0) == comp_fold(comps.deep_view(), items, n as int),
        decreases items.len() - n,
    {
        match nth_attribute(content, name_len, n) {
            None => {
                return Ok(());
            },
            Some(Err(_)) => {
                return Err(Error::Xml(XmlErrorKind::InvalidAttr));
            },
            Some(Ok((k, v))) => {
                let kc = chars_of(k.as_str());
                if eq_ignore_case_exec(&kc, nl) {
                    match normalized_value(v.as_str()) {
                        None => {
                            return Err(Error::Xml(XmlErrorKind::AttrValue));
                        },
                        Some(val) => {
                            if !val.as_str().is_empty() && !any_eq_ignore_case_exec(comps, &val) {
                                let ghost before = comps.deep_view();
                                let ghost vv = val@;
                                comps.push(val);
                                assert(comps.deep_view() =~= before.push(vv));
                            }
                        },
                    }
                }
            },
        }
        n += 1;
    }
}

/// The `content-type` and `version` attributes of a `*-data-type` tag
/// (see [`type_fold`]).
pub fn parse_type_attributes(content: &str, name_len: usize) -> (r: Result<(Option<String>, Option<String>), Error>)
    ensures
        !attr_start_ok(content@, name_len as nat) ==> (r matches Err(x) && x@ == ErrorView::Xml(
            XmlErrorKind::Malformed,
        )),
        attr_start_ok(content@, name_len as nat) ==> match type_fold(
            None,
            None,
            spec_tag_attributes(content@, name_len as nat),
            0,
        ) {
            Ok((ct, ver)) => r matches Ok((a, b)) && opt_chars(a) == ct && opt_chars(b) == ver,
            Err(e) => r matches Err(x) && x@ == e,
        },
{
    if !attr_start_valid(content, name_len) {
        return Err(Error::Xml(XmlErrorKind::Malformed));
    }
    let ghost items = spec_tag_attributes(content@, name_len as nat);
    let ct_lit = ['c', 'o', 'n', 't', 'e', 'n', 't', '-', 't', 'y', 'p', 'e'];
    let ver_lit = ['v', 'e', 'r', 's', 'i', 'o', 'n'];
    let cl: &[char] = &ct_lit;
    let vl: &[char] = &ver_lit;
    assert(cl@ == seq!['c', 'o', 'n', 't', 'e', 'n', 't', '-', 't', 'y', 'p', 'e']);
    assert(vl@ == seq!['v', 'e', 'r', 's', 'i', 'o', 'n']);
    let mut content_type: Option<String> = None;
    let mut version: Option<String> = None;
    let mut n: usize = 0;
    loop
        invariant
            n <= items.len(),
            items == spec_tag_attributes(content@, name_len as nat),
            attr_start_ok(content@, name_len as nat),
            cl@ == seq!['c', 'o', 'n', 't', 'e', 'n', 't', '-', 't', 'y', 'p', 'e'],
            vl@ == seq!['v', 'e', 'r', 's', 'i', 'o', 'n'],
            type_fold(None, None, items, 0) == type_fold(opt_chars(content_type), opt_chars(version), items, n as int),
        decreases items.len() - n,
    {
        match nth_attribute(content, name_len, n) {
            None => {
                return Ok((content_type, version));
            },
            Some(Err(_)) => {
                return Err(Error::Xml(XmlErrorKind::InvalidAttr));
            },
            Some(Ok((k, v))) => {
                let kc = chars_of(k.as_str());
                let is_ct = eq_ignore_case_exec(&kc, cl);
                if is_ct || eq_ignore_case_exec(&kc, vl) {
                    match normalized_value(v.as_str()) {
                        None => {
                            return Err(Error::Xml(XmlErrorKind::AttrValue));
                        },
                        Some(val) => {
                            let t = trim_string(val.as_str());
                            if !t.as_str().is_empty() {
                                if is_ct {
                                    content_type = Some(t);
                                } else {
                                    version = Some(t);
                                }
                            }
                        },
                    }
                }
            },
        }
        n += 1;
    }
}



/// The parser state after the end tag `name`, and the failure that stops
/// the reading, if any. Closing a `response` hands the finished item (its
/// common fields filled in) to the item list.
pub open spec fn ms_end(p: MultistatusView, name: Seq<u8>) -> (MultistatusView, Option<ErrorView>) {
    let raw = qualify(p.ns, name);
    let common1 = common_end(p.common, raw);
    match end_error(p.common, raw) {
        Some(m) => (MultistatusView { common: common1, ..p }, Some(ErrorView::XmlStructure(m))),
        None => {
            let ns1 = pop_mark_spec(p.ns);
            if p.stack.len() > 0 && p.stack.last() == ElementName::Response {
                (
                    MultistatusView {
                        stack: p.stack.drop_last(),
                        ns: ns1,
                        common: CommonParserView { current: empty_common(), ..common1 },
                        current: empty_item(),
                        items: p.items.push(with_common(p.current, common1.current)),
                        ..p
                    },
                    None,
                )
            } else {
                (
                    MultistatusView {
                        stack: if p.stack.len() > 0 {
                            p.stack.drop_last()
                        } else {
                            p.stack
                        },
                        ns: ns1,
                        common: common1,
                        ..p
                    },
                    None,
                )
            }
        },
    }
}

/// `t` appended to `s` unless the result would exceed
/// [`MAX_ITEM_TEXT_BYTES`]; then `s` unchanged and the failure.
pub open spec fn capped_append(s: Seq<char>, t: Seq<char>) -> (Seq<char>, Option<ErrorView>) {
    if byte_len(s) + byte_len(t) > MAX_ITEM_TEXT_BYTES {
        (s, Some(ErrorView::BodyTooLarge { limit: MAX_ITEM_TEXT_BYTES }))
    } else {
        (s + t, None)
    }
}

/// [`capped_append`] on an optional payload, which exists afterwards.
pub open spec fn capped_field(o: Option<Seq<char>>, t: Seq<char>) -> (Option<Seq<char>>, Option<ErrorView>) {
    let s = match o {
        Some(x) => x,
        None => Seq::empty(),
    };
    let (r, e) = capped_append(s, t);
    (Some(r), e)
}

pub open spec fn data_path(e: ElementName) -> Seq<ElementName> {
    seq![ElementName::Response, ElementName::Propstat, ElementName::Prop, e]
}

/// The item after the trimmed text `tr` of a simple property.
pub open spec fn text_current(c: DavItemView, s: Seq<ElementName>, tr: Seq<char>) -> DavItemView {
    if ends_with(s, data_path(ElementName::CalendarDescription)) {
        DavItemView { calendar_description: Some(tr), ..c }
    } else if ends_with(s, data_path(ElementName::CalendarColor)) {
        DavItemView { calendar_color: Some(tr), ..c }
    } else if ends_with(s, data_path(ElementName::AddressbookDescription)) {
        DavItemView { addressbook_description: Some(tr), ..c }
    } else if ends_with(s, data_path(ElementName::AddressbookColor)) {
        DavItemView { addressbook_color: Some(tr), ..c }
    } else if ends_with(s, data_path(ElementName::MaxResourceSize)) {
        DavItemView {
            max_resource_size: match parse_unsigned(tr, u64::MAX as nat) {
                Some(n) => Some(n as u64),
                None => None,
            },
            ..c
        }
    } else if ends_with(s, data_path(ElementName::MaxAttendeesPerInstance)) {
        DavItemView {
            max_attendees_per_instance: match parse_unsigned(tr, u32::MAX as nat) {
                Some(n) => Some(n as u32),
                None => None,
            },
            ..c
        }
    } else if ends_with(s, seq![ElementName::Multistatus, ElementName::SyncToken]) {
        c
    } else if ends_with(s, prop_path(ElementName::CalendarHomeSet, ElementName::Href)) {
        DavItemView { calendar_home_set: c.calendar_home_set.push(tr), ..c }
    } else if ends_with(s, prop_path(ElementName::AddressbookHomeSet, ElementName::Href)) {
        DavItemView { addressbook_home_set: c.addressbook_home_set.push(tr), ..c }
    } else if ends_with(s, prop_path(ElementName::ScheduleInboxUrl, ElementName::Href)) {
        DavItemView { schedule_inbox: Some(tr), ..c }
    } else if ends_with(s, prop_path(ElementName::ScheduleOutboxUrl, ElementName::Href)) {
        DavItemView { schedule_outbox: Some(tr), ..c }
    } else if ends_with(s, prop_path(ElementName::CalendarUserAddressSet, ElementName::Href)) {
        DavItemView { calendar_user_addresses: c.calendar_user_addresses.push(tr), ..c }
    } else if ends_with(s, seq![ElementName::ManagedId]) {
        DavItemView { managed_ids: c.managed_ids.push(tr), ..c }
    } else {
        c
    }
}

/// Whether the path is one of the simple properties [`text_current`] fills
/// before the multistatus sync token.
pub open spec fn before_sync_token(s: Seq<ElementName>) -> bool {
    ends_with(s, data_path(ElementName::CalendarDescription)) || ends_with(s, data_path(ElementName::CalendarColor))
        || ends_with(s, data_path(ElementName::AddressbookDescription)) || ends_with(s, data_path(ElementName::AddressbookColor))
        || ends_with(s, data_path(ElementName::MaxResourceSize)) || ends_with(s, data_path(ElementName::MaxAttendeesPerInstance))
}

/// The parser state after the text `t` (a flushed text run), and the
/// failure that stops the reading, if any. The common fields see the text
/// first; `calendar-data`, `address-data` and `calendar-timezone` keep the
/// exact text, appended (bounded by [`MAX_ITEM_TEXT_BYTES`]); other
/// properties take the trimmed text.
pub open spec fn ms_text(p: MultistatusView, t: Seq<char>) -> (MultistatusView, Option<ErrorView>) {
    if t.len() == 0 {
        (p, None)
    } else {
        let p1 = MultistatusView { common: common_text(p.common, t), ..p };
        let c = p1.current;
        let s = p1.stack;
        if ends_with(s, data_path(ElementName::CalendarData)) {
            let (f, e) = capped_field(c.calendar_data, t);
            (MultistatusView { current: DavItemView { calendar_data: f, ..c }, ..p1 }, e)
        } else if ends_with(s, data_path(ElementName::AddressData)) {
            let (f, e) = capped_field(c.address_data, t);
            (MultistatusView { current: DavItemView { address_data: f, ..c }, ..p1 }, e)
        } else if ends_with(s, data_path(ElementName::CalendarTimezone)) {
            let (f, e) = capped_field(c.calendar_timezone, t);
            (MultistatusView { current: DavItemView { calendar_timezone: f, ..c }, ..p1 }, e)
        } else {
            let tr = trim(t);
            if tr.len() == 0 {
                (p1, None)
            } else if !before_sync_token(s) && ends_with(s, seq![ElementName::Multistatus, ElementName::SyncToken]) {
                (MultistatusView { sync_token: Some(normalize_sync_token_spec(tr)), ..p1 }, None)
            } else {
                (MultistatusView { current: text_current(c, s, tr), ..p1 }, None)
            }
        }
    }
}

/// The parser state after `t` joins the pending text run.
pub open spec fn ms_push(p: MultistatusView, t: Seq<char>) -> (MultistatusView, Option<ErrorView>) {
    let (b, e) = capped_append(p.text_buf, t);
    (MultistatusView { text_buf: b, ..p }, e)
}

/// The parser state after the pending text run is handed on.
pub open spec fn ms_flush(p: MultistatusView) -> (MultistatusView, Option<ErrorView>) {
    if p.text_buf.len() == 0 {
        (p, None)
    } else {
        ms_text(MultistatusView { text_buf: Seq::empty(), ..p }, p.text_buf)
    }
}

/// The reference `&name;` as a token.
pub open spec fn ref_token(name: Seq<u8>) -> Seq<char> {
    seq!['&'] + spec_utf8_lossy(name) + seq![';']
}


/// The parser state after one step of the tokenizer, and its outcome:
/// `Ok(true)` at the end of input, `Ok(false)` to go on, or the failure.
/// Element boundaries first hand the pending text run on.
#[verifier::opaque]
pub open spec fn ms_event(p: MultistatusView, step: XmlStep) -> (MultistatusView, Result<bool, ErrorView>) {
    match step {
            XmlEventView::Malformed => (p, Err(ErrorView::Xml(XmlErrorKind::Malformed))),
            XmlEventView::Failed => (p, Err(ErrorView::Xml(XmlErrorKind::Other))),
            XmlEventView::Start(c, n) => {
                let (p1, e1) = ms_flush(p);
                match e1 {
                    Some(e) => (p1, Err(e)),
                    None => {
                        let (p2, e2) = ms_start(p1, c, n);
                        match e2 {
                            Some(e) => (p2, Err(e)),
                            None => (p2, Ok(false)),
                        }
                    },
                }
            },
            XmlEventView::Empty(c, n) => {
                let (p1, e1) = ms_flush(p);
                match e1 {
                    Some(e) => (p1, Err(e)),
                    None => {
                        let (p2, e2) = ms_start(p1, c, n);
                        match e2 {
                            Some(e) => (p2, Err(e)),
                            None => {
                                let (p3, e3) = ms_end(p2, tag_name(c, n));
                                match e3 {
                                    Some(e) => (p3, Err(e)),
                                    None => (p3, Ok(false)),
                                }
                            },
                        }
                    },
                }
            },
            XmlEventView::Text(t) => match decode_text_spec(encode_utf8(t)) {
                Err(k) => (p, Err(ErrorView::Escape(k))),
                Ok(d) => {
                    let (p1, e1) = ms_push(p, d);
                    match e1 {
                        Some(e) => (p1, Err(e)),
                        None => (p1, Ok(false)),
                    }
                },
            },
            XmlEventView::GeneralRef(name) => match lenient_token(ref_token(encode_utf8(name))) {
                Err(k) => (p, Err(ErrorView::Escape(k))),
                Ok(d) => {
                    let (p1, e1) = ms_push(p, d);
                    match e1 {
                        Some(e) => (p1, Err(e)),
                        None => (p1, Ok(false)),
                    }
                },
            },
            XmlEventView::CData(t) => {
                let (p1, e1) = ms_push(p, t);
                match e1 {
                    Some(e) => (p1, Err(e)),
                    None => (p1, Ok(false)),
                }
            },
            XmlEventView::End(name) => {
                let (p1, e1) = ms_flush(p);
                match e1 {
                    Some(e) => (p1, Err(e)),
                    None => {
                        let (p2, e2) = ms_end(p1, encode_utf8(name));
                        match e2 {
                            Some(e) => (p2, Err(e)),
                            None => (p2, Ok(false)),
                        }
                    },
                }
            },
            XmlEventView::Eof => {
                let (p1, e1) = ms_flush(p);
                match e1 {
                    Some(e) => (p1, Err(e)),
                    None => (p1, Ok(true)),
                }
            },
            XmlEventView::Other => (p, Ok(false)),
    }
}

/// The parser state after the steps `steps`, read until the end of input
/// or the first failure.
pub open spec fn ms_run(p: MultistatusView, steps: Seq<XmlStep>) -> (MultistatusView, Result<(), ErrorView>)
    decreases steps.len(),
{
    if steps.len() == 0 {
        (p, Ok(()))
    } else {
        let (p1, r) = ms_event(p, steps[0]);
        match r {
            Err(e) => (p1, Err(e)),
            Ok(true) => (p1, Ok(())),
            Ok(false) => ms_run(p1, steps.drop_first()),
        }
    }
}

/// `p` with its finished items and its sync token handed out.
pub open spec fn drained(p: MultistatusView) -> MultistatusView {
    MultistatusView { items: Seq::empty(), sync_token: None, ..p }
}

/// `q` is where a parser at `p` gets to when one at `drained(p)` gets to
/// `q0`: the same state but for the output, with `q0`'s items after `p`'s
/// and `q0`'s sync token, if it read one, in place of `p`'s.
pub open spec fn output_follows(p: MultistatusView, q: MultistatusView, q0: MultistatusView) -> bool {
    &&& q.items == p.items + q0.items
    &&& q.sync_token == (if q0.sync_token is Some {
        q0.sync_token
    } else {
        p.sync_token
    })
    &&& drained(q) == drained(q0)
}

proof fn lemma_output_compose(
    p: MultistatusView,
    p1: MultistatusView,
    p10: MultistatusView,
    p2: MultistatusView,
    p20: MultistatusView,
    x: MultistatusView,
)
    requires
        output_follows(p, p1, p10),
        output_follows(p1, p2, x),
        output_follows(p10, p20, x),
    ensures
        output_follows(p, p2, p20),
{
    assert(p2.items =~= p.items + p20.items);
}

proof fn lemma_output_same(p: MultistatusView, p0: MultistatusView)
    requires
        drained(p) == drained(p0),
        p0.items == Seq::<DavItemView>::empty(),
        p0.sync_token is None,
    ensures
        output_follows(p, p, p0),
{
    assert(p.items =~= p.items + p0.items);
}

#[verifier::spinoff_prover]
proof fn lemma_text_output(p: MultistatusView, t: Seq<char>)
    ensures
        ms_text(p, t).1 == ms_text(drained(p), t).1,
        output_follows(p, ms_text(p, t).0, ms_text(drained(p), t).0),
{
    assert(p.items + Seq::<DavItemView>::empty() =~= p.items);
}

#[verifier::spinoff_prover]
proof fn lemma_flush_output(p: MultistatusView)
    ensures
        ms_flush(p).1 == ms_flush(drained(p)).1,
        output_follows(p, ms_flush(p).0, ms_flush(drained(p)).0),
{
    assert(p.items + Seq::<DavItemView>::empty() =~= p.items);
    let b = p.text_buf;
    lemma_text_output(MultistatusView { text_buf: Seq::empty(), ..p }, b);
    assert(drained(MultistatusView { text_buf: Seq::empty(), ..p }) == MultistatusView {
        text_buf: Seq::empty(),
        ..drained(p)
    });
}

#[verifier::spinoff_prover]
proof fn lemma_push_output(p: MultistatusView, t: Seq<char>)
    ensures
        ms_push(p, t).1 == ms_push(drained(p), t).1,
        output_follows(p, ms_push(p, t).0, ms_push(drained(p), t).0),
{
    assert(p.items + Seq::<DavItemView>::empty() =~= p.items);
}

#[verifier::spinoff_prover]
proof fn lemma_start_output(p: MultistatusView, c: Seq<char>, n: nat)
    ensures
        ms_start(p, c, n).1 == ms_start(drained(p), c, n).1,
        output_follows(p, ms_start(p, c, n).0, ms_start(drained(p), c, n).0),
{
    assert(p.items + Seq::<DavItemView>::empty() =~= p.items);
}

#[verifier::spinoff_prover]
proof fn lemma_end_output(p: MultistatusView, name: Seq<u8>)
    ensures
        ms_end(p, name).1 == ms_end(drained(p), name).1,
        output_follows(p, ms_end(p, name).0, ms_end(drained(p), name).0),
{
    assert(p.items + Seq::<DavItemView>::empty() =~= p.items);
    let raw = qualify(p.ns, name);
    let common1 = common_end(p.common, raw);
    let x = with_common(p.current, common1.current);
    assert(p.items.push(x) =~= p.items + Seq::<DavItemView>::empty().push(x));
}

/// Two parsers that differ only in their output react to a step alike.
#[verifier::spinoff_prover]
proof fn lemma_event_output(p: MultistatusView, s: XmlStep)
    ensures
        ms_event(p, s).1 == ms_event(drained(p), s).1,
        output_follows(p, ms_event(p, s).0, ms_event(drained(p), s).0),
{
    reveal(ms_event);
    let d = drained(p);
    lemma_output_same(p, d);
    match s {
        XmlEventView::Start(c, n) => {
            lemma_flush_output(p);
            let (p1, e1) = ms_flush(p);
            let (p10, e10) = ms_flush(d);
            if e1 is None {
                lemma_start_output(p1, c, n);
                lemma_start_output(p10, c, n);
                lemma_output_compose(p, p1, p10, ms_start(p1, c, n).0, ms_start(p10, c, n).0, ms_start(drained(p1), c, n).0);
            }
        },
        XmlEventView::Empty(c, n) => {
            lemma_flush_output(p);
            let (p1, e1) = ms_flush(p);
            let (p10, e10) = ms_flush(d);
            if e1 is None {
                lemma_start_output(p1, c, n);
                lemma_start_output(p10, c, n);
                let (p2, e2) = ms_start(p1, c, n);
                let (p20, e20) = ms_start(p10, c, n);
                lemma_output_compose(p, p1, p10, p2, p20, ms_start(drained(p1), c, n).0);
                if e2 is None {
                    let nm = tag_name(c, n);
                    lemma_end_output(p2, nm);
                    lemma_end_output(p20, nm);
                    lemma_output_compose(p, p2, p20, ms_end(p2, nm).0, ms_end(p20, nm).0, ms_end(drained(p2), nm).0);
                }
            }
        },
        XmlEventView::Text(t) => {
            match decode_text_spec(encode_utf8(t)) {
                Ok(dt) => {
                    lemma_push_output(p, dt);
                },
                Err(_) => {},
            }
        },
        XmlEventView::GeneralRef(name) => {
            match lenient_token(ref_token(encode_utf8(name))) {
                Ok(dt) => {
                    lemma_push_output(p, dt);
                },
                Err(_) => {},
            }
        },
        XmlEventView::CData(t) => {
            lemma_push_output(p, t);
        },
        XmlEventView::End(name) => {
            lemma_flush_output(p);
            let (p1, e1) = ms_flush(p);
            let (p10, e10) = ms_flush(d);
            if e1 is None {
                let nm = encode_utf8(name);
                lemma_end_output(p1, nm);
                lemma_end_output(p10, nm);
                lemma_output_compose(p, p1, p10, ms_end(p1, nm).0, ms_end(p10, nm).0, ms_end(drained(p1), nm).0);
            }
        },
        XmlEventView::Eof => {
            lemma_flush_output(p);
        },
        _ => {},
    }
}

/// Handing out a parser's finished items and sync token between steps
/// changes nothing else: from a parser whose output was handed out, the
/// same steps lead to the same outcome and the same state, and the items
/// it finishes are exactly those a parser that kept its output appends (a
/// sync token it reads replaces the one held). So a reader that hands out
/// what is finished after every step yields the same items, in the same
/// order, as one that collects them all.
pub proof fn lemma_run_ignores_output(p: MultistatusView, steps: Seq<XmlStep>)
    ensures
        ms_run(p, steps).1 == ms_run(drained(p), steps).1,
        output_follows(p, ms_run(p, steps).0, ms_run(drained(p), steps).0),
    decreases steps.len(),
{
    let d = drained(p);
    if steps.len() == 0 {
        lemma_output_same(p, d);
    } else {
        lemma_event_output(p, steps[0]);
        let (p1, r1) = ms_event(p, steps[0]);
        let (p10, r10) = ms_event(d, steps[0]);
        if r1 == Ok::<bool, ErrorView>(false) {
            let rest = steps.drop_first();
            lemma_run_ignores_output(p1, rest);
            lemma_run_ignores_output(p10, rest);
            lemma_output_compose(p, p1, p10, ms_run(p1, rest).0, ms_run(p10, rest).0, ms_run(drained(p1), rest).0);
        }
    }
}

/// Closing an element restores exactly the namespace declarations in
/// force when it opened: those its own start tag made end with it. (A
/// start tag whose name length ends inside a character is malformed and
/// opens nothing.)
pub proof fn lemma_end_restores_scope(p: MultistatusView, content: Seq<char>, name_len: nat, name: Seq<u8>)
    requires
        p.ns.decls.len() <= usize::MAX,
    ensures
        ({
            let q = ms_start(p, content, name_len).0;
            attr_start_ok(content, name_len) && ms_end(q, name).1 is None ==> ms_end(q, name).0.ns == p.ns
        }),
{
    let items = spec_tag_attributes(content, name_len);
    lemma_declare_all_extends(p.ns.decls, items);
    let q = ms_start(p, content, name_len).0;
    if attr_start_ok(content, name_len) {
        assert(q.ns.marks.last() == p.ns.decls.len() as usize);
        assert(q.ns.marks.drop_last() =~= p.ns.marks);
        assert(pop_mark_spec(q.ns) == p.ns);
    }
}

/// Message for input that ends inside the element `e`.
pub open spec fn unclosed_message(e: ElementName) -> Seq<char> {
    "unexpected end of input with unclosed element "@ + element_label(e)
}

/// What a parser that has read all its input yields: the items and the
/// sync token, or the failure when an element is still open.
pub open spec fn ms_finish(p: MultistatusView) -> Result<(Seq<DavItemView>, Option<Seq<char>>), ErrorView> {
    if p.stack.len() > 0 {
        Err(ErrorView::XmlStructure(unclosed_message(p.stack.last())))
    } else {
        Ok((p.items, p.sync_token))
    }
}

/// A parser with no input read and no items.
pub open spec fn ms_initial() -> MultistatusView {
    MultistatusView {
        stack: Seq::empty(),
        current: empty_item(),
        sync_token: None,
        text_buf: Seq::empty(),
        common: common_initial(),
        ns: NsView { decls: Seq::empty(), marks: Seq::empty() },
        items: Seq::empty(),
    }
}

/// What parsing the multistatus body `body` yields.
pub open spec fn multistatus_spec(body: Seq<u8>) -> Result<(Seq<DavItemView>, Option<Seq<char>>), ErrorView> {
    let (p, r) = ms_run(ms_initial(), spec_xml_steps(body, false));
    match r {
        Err(e) => Err(e),
        Ok(()) => ms_finish(p),
    }
}

/// The result of parsing a multistatus body: the items and the top-level
/// sync token, if any.
#[derive(Debug)]
pub struct ParseResult<C> {
    pub items: C,
    pub sync_token: Option<String>,
}

/// One parsed piece of a multistatus response.
#[derive(Debug)]
#[non_exhaustive]
pub enum DavStreamEvent {
    /// A complete `<D:response>` entry.
    Item(DavItem),
    /// The multistatus `<D:sync-token>` content (RFC 6578).
    SyncToken(String),
}

/// Only a step that is not final lets the reading go on.
pub proof fn lemma_event_goes_on(p: MultistatusView, s: XmlStep)
    requires
        ms_event(p, s).1 == Ok::<bool, ErrorView>(false),
    ensures
        !is_final_step(s),
{
    reveal(ms_event);
}

pub proof fn lemma_steps_go_on(s: Seq<XmlStep>)
    requires
        well_formed_steps(s),
        !is_final_step(s[0]),
    ensures
        s.len() >= 2,
        well_formed_steps(s.drop_first()),
{
    if s.len() == 1 {
        assert(s[0] == s.last());
    }
    assert forall|i: int| 0 <= i < s.drop_first().len() - 1 implies !is_final_step(
        #[trigger] s.drop_first()[i],
    ) by {
        assert(s.drop_first()[i] == s[i + 1]);
    }
}

impl MultistatusParser {
    /// The name the parser reads for the raw name `name` under the namespace
    /// scopes in force (see [`qualify`]).
    fn ns_qualified_name(&self, name: &[u8]) -> (r: Vec<u8>)
        ensures
            r@ == qualify(self.ns@, name@),
    {
        let e = element_from_bytes(name);
        if e == ElementName::Other || ns_allows(self.ns.resolve(name), e) {
            let r = bytes_from(name, 0);
            assert(name@.skip(0) =~= name@);
            r
        } else {
            let marker = "(foreign-ns)".as_bytes();
            let mut r = bytes_from(marker, 0);
            assert(marker@.skip(0) =~= "(foreign-ns)".spec_bytes());
            let l = local_name_of(name);
            let mut i: usize = 0;
            let ghost r0 = r@;
            while i < l.len()
                invariant
                    i <= l@.len(),
                    r@ == r0 + l@.take(i as int),
                decreases l.len() - i,
            {
                r.push(l[i]);
                assert(l@.take(i as int + 1) =~= l@.take(i as int).push(l@[i as int]));
                i += 1;
            }
            assert(l@.take(l@.len() as int) =~= l@);
            r
        }
    }

    /// A parser that has read nothing; finished items are appended to
    /// `sink`.
    pub fn new(sink: Vec<DavItem>) -> (r: MultistatusParser)
        ensures
            r@ == (MultistatusView {
                stack: Seq::empty(),
                current: empty_item(),
                sync_token: None,
                text_buf: Seq::empty(),
                common: common_initial(),
                ns: NsView { decls: Seq::empty(), marks: Seq::empty() },
                items: item_views(sink@),
            }),
    {
        MultistatusParser {
            stack: Vec::new(),
            current: DavItem::new(),
            sync_token: None,
            text_buf: String::new(),
            common: CommonParser::new(),
            ns: NsScopes::new(),
            sink,
        }
    }

    /// Whether the element path ends with `needle`.
    pub fn path_ends_with(&self, needle: &[ElementName]) -> (r: bool)
        ensures
            r == ends_with(self@.stack, needle@),
    {
        path_ends_with(self.stack.as_slice(), needle)
    }

    /// Read the start tag `content` (its name `name_len` bytes long): its
    /// namespace declarations come into scope first; the name is read in
    /// its namespace (see [`qualify`]); resource types, supported
    /// components, address and calendar data types and granted privileges
    /// are recorded on the current item.
    pub fn on_start(&mut self, content: &str, name_len: usize) -> (r: Result<(), Error>)
        ensures
            ({
                let (q, err) = ms_start(old(self)@, content@, name_len as nat);
                &&& final(self)@ == q
                &&& match err {
                    None => r is Ok,
                    Some(e) => r matches Err(x) && x@ == e,
                }
            }),
    {
        if !attr_start_valid(content, name_len) {
            return Err(Error::Xml(XmlErrorKind::Malformed));
        }
        self.ns.mark();
        declare_namespaces(&mut self.ns, content, name_len);
        let name = tag_name_of(content, name_len);
        let raw = self.ns_qualified_name(name.as_slice());
        self.common.on_start(raw.as_slice());
        let element = element_from_bytes(raw.as_slice());
        self.stack.push(element);
        let r = ElementName::Response;
        let ps = ElementName::Propstat;
        let pr = ElementName::Prop;
        let rt = ElementName::Resourcetype;
        if element == ElementName::Response {
            self.current = DavItem::new();
        } else if element == ElementName::Calendar {
            if path_ends_with(self.stack.as_slice(), &[r, ps, pr, rt, ElementName::Calendar]) {
                self.current.is_calendar = true;
            }
        } else if element == ElementName::Addressbook {
            if path_ends_with(self.stack.as_slice(), &[r, ps, pr, rt, ElementName::Addressbook]) {
                self.current.is_addressbook = true;
            }
        } else if element == ElementName::Comp {
            if path_ends_with(
                self.stack.as_slice(),
                &[r, ps, pr, ElementName::SupportedCalendarComponentSet, ElementName::Comp],
            ) {
                match comp_names(&mut self.current.supported_components, content, name_len) {
                    Ok(()) => {},
                    Err(e) => {
                        return Err(e);
                    },
                }
            }
        } else if element == ElementName::AddressDataType {
            if path_ends_with(
                self.stack.as_slice(),
                &[r, ps, pr, ElementName::SupportedAddressData, ElementName::AddressDataType],
            ) {
                match parse_type_attributes(content, name_len) {
                    Err(e) => {
                        return Err(e);
                    },
                    Ok((Some(ct), ver)) => {
                        let value = match ver {
                            Some(v) => {
                                let mut s = ct;
                                s.append(";version=");
                                s.append(v.as_str());
                                s
                            },
                            None => ct,
                        };
                        if !any_eq_ignore_case_exec(&self.current.supported_address_data, &value) {
                            let ghost before = self.current.supported_address_data.deep_view();
                            let ghost vv = value@;
                            self.current.supported_address_data.push(value);
                            assert(self.current.supported_address_data.deep_view() =~= before.push(vv));
                        }
                    },
                    Ok((None, _)) => {},
                }
            }
        } else if element == ElementName::CalendarDataType {
            if path_ends_with(
                self.stack.as_slice(),
                &[r, ps, pr, ElementName::SupportedCalendarData, ElementName::CalendarDataType],
            ) {
                match parse_type_attributes(content, name_len) {
                    Err(e) => {
                        return Err(e);
                    },
                    Ok((Some(ct), ver)) => {
                        let media = MediaType { content_type: ct, version: ver };
                        if !contains_media(&self.current.supported_calendar_data, &media) {
                            let ghost before = self.current.supported_calendar_data.deep_view();
                            let ghost mv = media.deep_view();
                            self.current.supported_calendar_data.push(media);
                            assert(self.current.supported_calendar_data.deep_view() =~= before.push(mv));
                        }
                    },
                    Ok((None, _)) => {},
                }
            }
        }
        let n = self.stack.len();
        if n > 5 {
            let parent = vstd::slice::slice_subrange(self.stack.as_slice(), 0, n - 1);
            assert(parent@ =~= self.stack@.drop_last());
            if path_ends_with(
                parent,
                &[r, ps, pr, ElementName::CurrentUserPrivilegeSet, ElementName::Privilege],
            ) {
                let privilege = if ns_allows(self.ns.resolve(name.as_slice()), ElementName::Other) {
                    privilege_from_local_name(name.as_slice())
                } else {
                    let l = local_name_of(name.as_slice());
                    Privilege::Other(utf8_lossy(l.as_slice()))
                };
                let ghost before = self.current.current_user_privileges.deep_view();
                let ghost pv = privilege.deep_view();
                self.current.current_user_privileges.push(privilege);
                assert(self.current.current_user_privileges.deep_view() =~= before.push(pv));
            }
        }
        Ok(())
    }

    /// Read the end tag `name`: the common fields and the namespace scopes
    /// follow it, and closing a `response` hands the finished item on.
    pub fn on_end(&mut self, name: &[u8]) -> (r: Result<(), Error>)
        ensures
            ({
                let (q, err) = ms_end(old(self)@, name@);
                &&& final(self)@ == q
                &&& match err {
                    None => r is Ok,
                    Some(e) => r matches Err(x) && x@ == e,
                }
            }),
    {
        let raw = self.ns_qualified_name(name);
        match self.common.on_end(raw.as_slice()) {
            Ok(()) => {},
            Err(e) => {
                return Err(e);
            },
        }
        self.ns.pop_mark();
        match self.stack.pop() {
            Some(popped) => {
                if popped == ElementName::Response {
                    let common = self.common.finish_response();
                    self.current.apply_common(common);
                    let mut finished = DavItem::new();
                    std::mem::swap(&mut finished, &mut self.current);
                    let ghost before = item_views(self.sink@);
                    let ghost fv = finished@;
                    self.sink.push(finished);
                    assert(item_views(self.sink@) =~= before.push(fv));
                }
            },
            None => {},
        }
        Ok(())
    }

    /// Add `text` to the pending text run.
    pub fn push_text(&mut self, text: &str) -> (r: Result<(), Error>)
        ensures
            ({
                let (q, err) = ms_push(old(self)@, text@);
                &&& final(self)@ == q
                &&& match err {
                    None => r is Ok,
                    Some(e) => r matches Err(x) && x@ == e,
                }
            }),
    {
        append_capped(&mut self.text_buf, text, MAX_ITEM_TEXT_BYTES)
    }

    /// Add the decoded reference `&name;` to the pending text run (an
    /// unknown named entity stays as written).
    pub fn push_ref(&mut self, name: &[u8]) -> (r: Result<(), Error>)
        ensures
            match lenient_token(ref_token(name@)) {
                Err(k) => final(self)@ == old(self)@ && (r matches Err(x) && x@ == ErrorView::Escape(k)),
                Ok(d) => {
                    let (q, err) = ms_push(old(self)@, d);
                    &&& final(self)@ == q
                    &&& match err {
                        None => r is Ok,
                        Some(e) => r matches Err(x) && x@ == e,
                    }
                },
            },
    {
        let n = utf8_lossy(name);
        proof {
            reveal_strlit("&");
            reveal_strlit(";");
        }
        let mut token = "&".to_owned();
        token.append(n.as_str());
        token.append(";");
        assert(token@ =~= ref_token(name@));
        match decode_entity_token(token.as_str()) {
            Ok(d) => append_capped(&mut self.text_buf, d.as_str(), MAX_ITEM_TEXT_BYTES),
            Err(e) => Err(e),
        }
    }

    /// Add the content of a CDATA section to the pending text run.
    pub fn push_cdata(&mut self, text: String) -> (r: Result<(), Error>)
        ensures
            ({
                let (q, err) = ms_push(old(self)@, text@);
                &&& final(self)@ == q
                &&& match err {
                    None => r is Ok,
                    Some(e) => r matches Err(x) && x@ == e,
                }
            }),
    {
        append_capped(&mut self.text_buf, text.as_str(), MAX_ITEM_TEXT_BYTES)
    }

    /// Hand the pending text run, if any, to [`Self::handle_text`].
    pub fn flush_text(&mut self) -> (r: Result<(), Error>)
        ensures
            ({
                let (q, err) = ms_flush(old(self)@);
                &&& final(self)@ == q
                &&& match err {
                    None => r is Ok,
                    Some(e) => r matches Err(x) && x@ == e,
                }
            }),
    {
        if self.text_buf.as_str().is_empty() {
            return Ok(());
        }
        let mut text = String::new();
        std::mem::swap(&mut text, &mut self.text_buf);
        self.handle_text(text)
    }

    /// Apply a complete text run (see [`ms_text`]).
    pub fn handle_text(&mut self, text: String) -> (r: Result<(), Error>)
        ensures
            ({
                let (q, err) = ms_text(old(self)@, text@);
                &&& final(self)@ == q
                &&& match err {
                    None => r is Ok,
                    Some(e) => r matches Err(x) && x@ == e,
                }
            }),
    {
        if text.as_str().is_empty() {
            return Ok(());
        }
        self.common.on_text(text.as_str());
        let r = ElementName::Response;
        let ps = ElementName::Propstat;
        let pr = ElementName::Prop;
        if path_ends_with(self.stack.as_slice(), &[r, ps, pr, ElementName::CalendarData]) {
            return append_field(&mut self.current.calendar_data, text.as_str());
        }
        if path_ends_with(self.stack.as_slice(), &[r, ps, pr, ElementName::AddressData]) {
            return append_field(&mut self.current.address_data, text.as_str());
        }
        if path_ends_with(self.stack.as_slice(), &[r, ps, pr, ElementName::CalendarTimezone]) {
            return append_field(&mut self.current.calendar_timezone, text.as_str());
        }
        let tv = chars_of(text.as_str());
        let tt = crate::text::trim_chars(&tv);
        if tt.len() == 0 {
            return Ok(());
        }
        if !before_sync_token_exec(self.stack.as_slice()) && path_ends_with(
            self.stack.as_slice(),
            &[ElementName::Multistatus, ElementName::SyncToken],
        ) {
            let trimmed = crate::text::string_of(&tt);
            self.sync_token = Some(normalize_sync_token(trimmed.as_str()));
        } else {
            apply_trimmed(&mut self.current, self.stack.as_slice(), &tt);
        }
        Ok(())
    }
}

/// [`capped_field`] on an optional payload held by the item.
fn append_field(slot: &mut Option<String>, text: &str) -> (r: Result<(), Error>)
    ensures
        ({
            let (f, err) = capped_field(opt_chars(*old(slot)), text@);
            &&& opt_chars(*final(slot)) == f
            &&& match err {
                None => r is Ok,
                Some(e) => r matches Err(x) && x@ == e,
            }
        }),
{
    let mut taken: Option<String> = None;
    std::mem::swap(&mut taken, slot);
    let mut existing = match taken {
        Some(x) => x,
        None => String::new(),
    };
    let res = append_capped(&mut existing, text, MAX_ITEM_TEXT_BYTES);
    *slot = Some(existing);
    res
}

fn before_sync_token_exec(st: &[ElementName]) -> (b: bool)
    ensures
        b == before_sync_token(st@),
{
    let r = ElementName::Response;
    let ps = ElementName::Propstat;
    let pr = ElementName::Prop;
    path_ends_with(st, &[r, ps, pr, ElementName::CalendarDescription]) || path_ends_with(
        st,
        &[r, ps, pr, ElementName::CalendarColor],
    ) || path_ends_with(st, &[r, ps, pr, ElementName::AddressbookDescription]) || path_ends_with(
        st,
        &[r, ps, pr, ElementName::AddressbookColor],
    ) || path_ends_with(st, &[r, ps, pr, ElementName::MaxResourceSize]) || path_ends_with(
        st,
        &[r, ps, pr, ElementName::MaxAttendeesPerInstance],
    )
}

fn managed_id_path() -> (r: Vec<ElementName>)
    ensures
        r@ == seq![ElementName::ManagedId],
{
    let mut v: Vec<ElementName> = Vec::new();
    v.push(ElementName::ManagedId);
    assert(v@ =~= seq![ElementName::ManagedId]);
    v
}

/// Apply trimmed text to the simple property the path `st` names (see
/// [`text_current`]).
fn apply_trimmed(cur: &mut DavItem, st: &[ElementName], tt: &Vec<char>)
    ensures
        final(cur)@ == text_current(old(cur)@, st@, tt@),
{
    let r = ElementName::Response;
    let ps = ElementName::Propstat;
    let pr = ElementName::Prop;
    let trimmed = crate::text::string_of(tt);
    if path_ends_with(st, &[r, ps, pr, ElementName::CalendarDescription]) {
        cur.calendar_description = Some(trimmed);
    } else if path_ends_with(st, &[r, ps, pr, ElementName::CalendarColor]) {
        cur.calendar_color = Some(trimmed);
    } else if path_ends_with(st, &[r, ps, pr, ElementName::AddressbookDescription]) {
        cur.addressbook_description = Some(trimmed);
    } else if path_ends_with(st, &[r, ps, pr, ElementName::AddressbookColor]) {
        cur.addressbook_color = Some(trimmed);
    } else if path_ends_with(st, &[r, ps, pr, ElementName::MaxResourceSize]) {
        cur.max_resource_size = parse_unsigned_range(tt.as_slice(), 0, tt.len(), u64::MAX);
        assert(tt@.subrange(0, tt@.len() as int) =~= tt@);
    } else if path_ends_with(st, &[r, ps, pr, ElementName::MaxAttendeesPerInstance]) {
        let v = parse_unsigned_range(tt.as_slice(), 0, tt.len(), 0xffff_ffff);
        assert(tt@.subrange(0, tt@.len() as int) =~= tt@);
        cur.max_attendees_per_instance = match v {
            Some(n) => Some(n as u32),
            None => None,
        };
    } else if path_ends_with(st, &[ElementName::Multistatus, ElementName::SyncToken]) {
    } else if path_ends_with(st, &[r, ps, pr, ElementName::CalendarHomeSet, ElementName::Href]) {
        let ghost before = cur.calendar_home_set.deep_view();
        let ghost t = trimmed@;
        cur.calendar_home_set.push(trimmed);
        assert(cur.calendar_home_set.deep_view() =~= before.push(t));
    } else if path_ends_with(st, &[r, ps, pr, ElementName::AddressbookHomeSet, ElementName::Href]) {
        let ghost before = cur.addressbook_home_set.deep_view();
        let ghost t = trimmed@;
        cur.addressbook_home_set.push(trimmed);
        assert(cur.addressbook_home_set.deep_view() =~= before.push(t));
    } else if path_ends_with(st, &[r, ps, pr, ElementName::ScheduleInboxUrl, ElementName::Href]) {
        cur.schedule_inbox = Some(trimmed);
    } else if path_ends_with(st, &[r, ps, pr, ElementName::ScheduleOutboxUrl, ElementName::Href]) {
        cur.schedule_outbox = Some(trimmed);
    } else if path_ends_with(st, &[r, ps, pr, ElementName::CalendarUserAddressSet, ElementName::Href]) {
        let ghost before = cur.calendar_user_addresses.deep_view();
        let ghost t = trimmed@;
        cur.calendar_user_addresses.push(trimmed);
        assert(cur.calendar_user_addresses.deep_view() =~= before.push(t));
    } else if path_ends_with(st, managed_id_path().as_slice()) {
        let ghost before = cur.managed_ids.deep_view();
        let ghost t = trimmed@;
        cur.managed_ids.push(trimmed);
        assert(cur.managed_ids.deep_view() =~= before.push(t));
    }
}

impl MultistatusParser {
    /// Feed one step of the tokenizer (see [`ms_event`]); `Ok(true)` at the
    /// end of input.
    pub fn dispatch_event(&mut self, step: XmlEvent) -> (r: Result<bool, Error>)
        ensures
            ({
                let (q, res) = ms_event(old(self)@, step@);
                &&& final(self)@ == q
                &&& match res {
                    Ok(b) => r == Ok::<bool, Error>(b),
                    Err(e) => r matches Err(x) && x@ == e,
                }
            }),
    {
        reveal(ms_event);
        match step {
                XmlEvent::Malformed => Err(Error::Xml(XmlErrorKind::Malformed)),
                XmlEvent::Failed => Err(Error::Xml(XmlErrorKind::Other)),
                XmlEvent::Start(c, n) => {
                    match self.flush_text() {
                        Ok(()) => {},
                        Err(e) => {
                            return Err(e);
                        },
                    }
                    match self.on_start(c.as_str(), n) {
                        Ok(()) => Ok(false),
                        Err(e) => Err(e),
                    }
                },
                XmlEvent::Empty(c, n) => {
                    match self.flush_text() {
                        Ok(()) => {},
                        Err(e) => {
                            return Err(e);
                        },
                    }
                    match self.on_start(c.as_str(), n) {
                        Ok(()) => {},
                        Err(e) => {
                            return Err(e);
                        },
                    }
                    let name = tag_name_of(c.as_str(), n);
                    match self.on_end(name.as_slice()) {
                        Ok(()) => Ok(false),
                        Err(e) => Err(e),
                    }
                },
                XmlEvent::Text(t) => match decode_text(t.as_str().as_bytes()) {
                    Err(e) => Err(e),
                    Ok(d) => match self.push_text(d.as_str()) {
                        Ok(()) => Ok(false),
                        Err(e) => Err(e),
                    },
                },
                XmlEvent::GeneralRef(name) => match self.push_ref(name.as_str().as_bytes()) {
                    Ok(()) => Ok(false),
                    Err(e) => Err(e),
                },
                XmlEvent::CData(t) => match self.push_cdata(t) {
                    Ok(()) => Ok(false),
                    Err(e) => Err(e),
                },
                XmlEvent::End(name) => {
                    match self.flush_text() {
                        Ok(()) => {},
                        Err(e) => {
                            return Err(e);
                        },
                    }
                    match self.on_end(name.as_str().as_bytes()) {
                        Ok(()) => Ok(false),
                        Err(e) => Err(e),
                    }
                },
                XmlEvent::Eof => match self.flush_text() {
                    Ok(()) => Ok(true),
                    Err(e) => Err(e),
                },
                XmlEvent::Other => Ok(false),
        }
    }

    /// The items and sync token read, or a failure when input ended inside
    /// an element.
    pub fn finish(self) -> (r: Result<ParseResult<Vec<DavItem>>, Error>)
        ensures
            match ms_finish(self@) {
                Ok((items, token)) => r matches Ok(x) && item_views(x.items@) == items && opt_chars(x.sync_token) == token,
                Err(e) => r matches Err(x) && x@ == e,
            },
    {
        let n = self.stack.len();
        if n > 0 {
            let mut m = "unexpected end of input with unclosed element ".to_owned();
            m.append(self.stack[n - 1].label());
            return Err(Error::XmlStructure(m));
        }
        Ok(ParseResult { items: self.sink, sync_token: self.sync_token })
    }

    /// Hand out what has been parsed since the last call: the finished
    /// items in document order, then the top-level sync token if it was
    /// just read.
    pub fn drain_events(&mut self) -> (r: Vec<DavStreamEvent>)
        ensures
            r@.len() == old(self)@.items.len() + if old(self)@.sync_token is Some { 1int } else { 0int },
            forall|i: int| 0 <= i < old(self)@.items.len() ==> (#[trigger] r@[i] matches DavStreamEvent::Item(x) && x@ == old(self)@.items[i]),
            match old(self)@.sync_token {
                Some(t) => r@.last() matches DavStreamEvent::SyncToken(x) && x@ == t,
                None => true,
            },
            final(self)@ == drained(old(self)@),
    {
        let mut items: Vec<DavItem> = Vec::new();
        std::mem::swap(&mut items, &mut self.sink);
        let ghost all = items@;
        let ghost iv = item_views(all);
        let mut out: Vec<DavStreamEvent> = Vec::new();
        let mut i: usize = 0;
        let count = items.len();
        while items.len() > 0
            invariant
                count == all.len(),
                i + items@.len() == all.len(),
                iv == item_views(all),
                items@ == all.skip(i as int),
                out@.len() == i,
                forall|j: int| 0 <= j < i ==> (#[trigger] out@[j] matches DavStreamEvent::Item(x) && x@ == iv[j]),
            decreases items@.len(),
        {
            let it = items.remove(0);
            assert(it == all[i as int]);
            assert(items@ =~= all.skip(i + 1));
            out.push(DavStreamEvent::Item(it));
            i += 1;
        }
        let mut token: Option<String> = None;
        std::mem::swap(&mut token, &mut self.sync_token);
        match token {
            Some(t) => out.push(DavStreamEvent::SyncToken(t)),
            None => {},
        }
        assert(item_views(self.sink@) =~= Seq::<DavItemView>::empty());
        out
    }
}

/// Parse a WebDAV `207 Multi-Status` XML body held in memory: its items and
/// top-level sync token (see [`multistatus_spec`]).
pub fn parse_multistatus_bytes(body: &[u8]) -> (r: Result<ParseResult<Vec<DavItem>>, Error>)
    ensures
        match multistatus_spec(body@) {
            Ok((items, token)) => r matches Ok(x) && item_views(x.items@) == items && opt_chars(x.sync_token) == token,
            Err(e) => r matches Err(x) && x@ == e,
        },
{
    let mut reader = xml_reader(body, false);
    let empty: Vec<DavItem> = Vec::new();
    let mut parser = MultistatusParser::new(empty);
    assert(item_views(empty@) =~= Seq::<DavItemView>::empty());
    assert(parser@ == ms_initial());
    loop
        invariant_except_break
            well_formed_steps(xml_pending(reader)),
            ms_run(ms_initial(), spec_xml_steps(body@, false)) == ms_run(parser@, xml_pending(reader)),
        ensures
            ms_run(ms_initial(), spec_xml_steps(body@, false)) == (parser@, Ok::<(), ErrorView>(())),
        decreases xml_pending(reader).len(),
    {
        let ghost pending = xml_pending(reader);
        let step = read_xml_event(&mut reader);
        let ghost s0 = step@;
        let ghost before = parser@;
        let res = parser.dispatch_event(step);
        match res {
            Err(e) => {
                return Err(e);
            },
            Ok(true) => {
                break;
            },
            Ok(false) => {
                proof {
                    lemma_event_goes_on(before, s0);
                    lemma_steps_go_on(pending);
                }
            },
        }
    }
    parser.finish()
}

} // verus!
