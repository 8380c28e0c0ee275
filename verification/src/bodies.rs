//! Parsers of small WebDAV response bodies: lock discovery (RFC 4918
//! §14.1), `<D:error>` (§14.12) and the current user principal (RFC 5397).

use vstd::prelude::*;
use vstd::string::*;
use vstd::utf8::*;

use crate::common::{
    common_end, common_initial, common_start, common_text, end_error, CommonParser,
    CommonParserView,
};
use crate::error::{Error, ErrorView, XmlErrorKind};
use crate::names::{is_named, local_name, local_name_of, eq_ignore_ascii_case_exec};
use crate::numbers::{parse_unsigned, parse_unsigned_range};
use crate::text::{
    chars_of, copy_range, has_prefix, split_chars, split_on, starts_with_at, string_of,
    trim, trim_chars, views,
};
use crate::types::{
    empty_common, empty_lock, opt_chars, Depth, LockInfo, LockInfoView, LockScope, WebDavError,
    WebDavErrorView,
};
use crate::xmlread::{
    read_xml_event, spec_xml_steps, spec_utf8_lossy, utf8_lossy,
    well_formed_steps, xml_pending, xml_reader, is_final_step, XmlEvent,
    XmlEventView, XmlStep,
};
use crate::xmltext::{decode_text, decode_text_spec};

verus! {

/// A `Timeout` list item read as `Second-N` (or `second-N`), trimmed.
pub open spec fn timeout_item(part: Seq<char>) -> Option<u64> {
    let t = trim(part);
    if has_prefix(t, seq!['S', 'e', 'c', 'o', 'n', 'd', '-']) || has_prefix(
        t,
        seq!['s', 'e', 'c', 'o', 'n', 'd', '-'],
    ) {
        match parse_unsigned(t.skip(7), u64::MAX as nat) {
            Some(n) => Some(n as u64),
            None => None,
        }
    } else {
        None
    }
}

/// The first item of `parts` from `i` on that reads as a timeout.
pub open spec fn first_timeout(parts: Seq<Seq<char>>, i: int) -> Option<u64>
    decreases parts.len() - i,
{
    if i < 0 || i >= parts.len() {
        None
    } else {
        match timeout_item(parts[i]) {
            Some(n) => Some(n),
            None => first_timeout(parts, i + 1),
        }
    }
}

/// A `Timeout` value (RFC 4918 §10.7): the first comma-separated
/// `Second-N` item; `Infinite` or anything unparseable gives `None`.
pub open spec fn lock_timeout_spec(value: Seq<char>) -> Option<u64> {
    first_timeout(split_on(value, ','), 0)
}

/// Parse a `Timeout` value: the first `Second-N` of a comma-separated list
/// (see [`lock_timeout_spec`]).
pub fn parse_lock_timeout(value: &str) -> (r: Option<u64>)
    ensures
        r == lock_timeout_spec(value@),
{
    let v = chars_of(value);
    let parts = split_chars(&v, ',');
    let up = ['S', 'e', 'c', 'o', 'n', 'd', '-'];
    let low = ['s', 'e', 'c', 'o', 'n', 'd', '-'];
    let u: &[char] = &up;
    let l: &[char] = &low;
    assert(u@ == seq!['S', 'e', 'c', 'o', 'n', 'd', '-']);
    assert(l@ == seq!['s', 'e', 'c', 'o', 'n', 'd', '-']);
    let mut i: usize = 0;
    while i < parts.len()
        invariant
            i <= parts@.len(),
            views(parts@) == split_on(value@, ','),
            u@ == seq!['S', 'e', 'c', 'o', 'n', 'd', '-'],
            l@ == seq!['s', 'e', 'c', 'o', 'n', 'd', '-'],
            first_timeout(views(parts@), 0) == first_timeout(views(parts@), i as int),
        decreases parts.len() - i,
    {
        let t = trim_chars(&parts[i]);
        assert(views(parts@)[i as int] == parts@[i as int]@);
        assert(t@.skip(0) == t@);
        if starts_with_at(&t, 0, u) || starts_with_at(&t, 0, l) {
            let n = parse_unsigned_range(&t, 7, t.len(), u64::MAX);
            assert(t@.subrange(7, t@.len() as int) =~= t@.skip(7));
            if n.is_some() {
                return n;
            }
        }
        i += 1;
    }
    None
}

/// A `<D:depth>` value (RFC 4918 §14.3): `0`, `1` or `infinity`.
pub open spec fn lock_depth_spec(value: Seq<char>) -> Option<Depth> {
    if value == seq!['0'] {
        Some(Depth::Zero)
    } else if value == seq!['1'] {
        Some(Depth::One)
    } else if value == seq!['i', 'n', 'f', 'i', 'n', 'i', 't', 'y'] {
        Some(Depth::Infinity)
    } else {
        None
    }
}

fn chars_eq(a: &[char], b: &[char]) -> (r: bool)
    ensures
        r == (a@ == b@),
{
    if a.len() != b.len() {
        return false;
    }
    let mut i: usize = 0;
    while i < a.len()
        invariant
            i <= a@.len(),
            a@.len() == b@.len(),
            forall|j: int| 0 <= j < i ==> a@[j] == b@[j],
        decreases a.len() - i,
    {
        if a[i] != b[i] {
            return false;
        }
        i += 1;
    }
    assert(a@ =~= b@);
    true
}

/// Parse a `<D:depth>` value: `0`, `1` or `infinity`; anything else is
/// `None`.
pub fn parse_lock_depth(value: &str) -> (r: Option<Depth>)
    ensures
        r == lock_depth_spec(value@),
{
    let v = chars_of(value);
    let zero = ['0'];
    let one = ['1'];
    let inf = ['i', 'n', 'f', 'i', 'n', 'i', 't', 'y'];
    let z: &[char] = &zero;
    let o: &[char] = &one;
    let f: &[char] = &inf;
    assert(z@ == seq!['0']);
    assert(o@ == seq!['1']);
    assert(f@ == seq!['i', 'n', 'f', 'i', 'n', 'i', 't', 'y']);
    if chars_eq(&v, z) {
        Some(Depth::Zero)
    } else if chars_eq(&v, o) {
        Some(Depth::One)
    } else if chars_eq(&v, f) {
        Some(Depth::Infinity)
    } else {
        None
    }
}

/// ASCII whitespace as `u8::is_ascii_whitespace` defines it.
pub open spec fn is_ascii_ws_byte(b: u8) -> bool {
    b == 0x20 || b == 0x09 || b == 0x0a || b == 0x0c || b == 0x0d
}

/// First index at or after `i` that is not ASCII whitespace.
pub open spec fn skip_ws_bytes(b: Seq<u8>, i: int) -> int
    decreases b.len() - i,
{
    if 0 <= i < b.len() && is_ascii_ws_byte(b[i]) {
        skip_ws_bytes(b, i + 1)
    } else {
        i
    }
}

/// End of `b[lo..j]` once trailing ASCII whitespace is dropped.
pub open spec fn back_ws_bytes(b: Seq<u8>, lo: int, j: int) -> int
    decreases j - lo,
{
    if lo < j && j <= b.len() && is_ascii_ws_byte(b[j - 1]) {
        back_ws_bytes(b, lo, j - 1)
    } else {
        j
    }
}

proof fn lemma_ws_bytes(b: Seq<u8>, i: int)
    requires
        0 <= i <= b.len(),
    ensures
        i <= skip_ws_bytes(b, i) <= b.len(),
    decreases b.len() - i,
{
    if i < b.len() && is_ascii_ws_byte(b[i]) {
        lemma_ws_bytes(b, i + 1);
    }
}

proof fn lemma_back_ws_bytes(b: Seq<u8>, lo: int, j: int)
    requires
        0 <= lo <= j <= b.len(),
    ensures
        lo <= back_ws_bytes(b, lo, j) <= j,
    decreases j - lo,
{
    if lo < j && is_ascii_ws_byte(b[j - 1]) {
        lemma_back_ws_bytes(b, lo, j - 1);
    }
}

/// `<[u8]>::trim_ascii`: `b` without leading and trailing ASCII whitespace.
pub open spec fn trim_ascii_bytes(b: Seq<u8>) -> Seq<u8> {
    let a = skip_ws_bytes(b, 0);
    b.subrange(a, back_ws_bytes(b, a, b.len() as int))
}

fn is_ascii_ws_byte_exec(b: u8) -> (r: bool)
    ensures
        r == is_ascii_ws_byte(b),
{
    b == 0x20 || b == 0x09 || b == 0x0a || b == 0x0c || b == 0x0d
}

/// `body` without leading and trailing ASCII whitespace.
pub fn trim_ascii(body: &[u8]) -> (r: &[u8])
    ensures
        r@ == trim_ascii_bytes(body@),
{
    let mut a: usize = 0;
    proof {
        lemma_ws_bytes(body@, 0);
    }
    while a < body.len() && is_ascii_ws_byte_exec(body[a])
        invariant
            a <= body@.len(),
            skip_ws_bytes(body@, 0) == skip_ws_bytes(body@, a as int),
        decreases body.len() - a,
    {
        a += 1;
    }
    let mut e: usize = body.len();
    proof {
        lemma_back_ws_bytes(body@, a as int, body@.len() as int);
    }
    while a < e && is_ascii_ws_byte_exec(body[e - 1])
        invariant
            a <= e <= body@.len(),
            back_ws_bytes(body@, a as int, body@.len() as int) == back_ws_bytes(body@, a as int, e as int),
        decreases e - a,
    {
        e -= 1;
    }
    vstd::slice::slice_subrange(body, a, e)
}

/// Whether some name on `stack` is `name` (ASCII case ignored).
pub open spec fn any_named(stack: Seq<Seq<u8>>, name: &str) -> bool {
    exists|i: int| 0 <= i < stack.len() && is_named(#[trigger] stack[i], name)
}

/// State of the lock discovery reader: what was found, the local names of
/// the open elements, and the text read since the last start tag.
pub struct LockState {
    pub info: LockInfoView,
    pub stack: Seq<Seq<u8>>,
    pub text: Seq<char>,
}

/// Inside an `activelock`, an `exclusive` or `shared` element sets the
/// scope.
pub open spec fn lock_scope_update(info: LockInfoView, stack: Seq<Seq<u8>>, local: Seq<u8>) -> LockInfoView {
    if any_named(stack, "activelock") {
        if is_named(local, "exclusive") {
            LockInfoView { scope: Some(LockScope::Exclusive), ..info }
        } else if is_named(local, "shared") {
            LockInfoView { scope: Some(LockScope::Shared), ..info }
        } else {
            info
        }
    } else {
        info
    }
}

/// `Some(t)` for non-empty `t`.
pub open spec fn non_empty(t: Seq<char>) -> Option<Seq<char>> {
    if t.len() == 0 {
        None
    } else {
        Some(t)
    }
}

/// What the end of the element `local` inside an `activelock` records,
/// from the trimmed text read in it.
pub open spec fn lock_end_update(info: LockInfoView, stack: Seq<Seq<u8>>, local: Seq<u8>, text: Seq<char>) -> LockInfoView {
    let t = trim(text);
    if !any_named(stack, "activelock") {
        info
    } else if is_named(local, "timeout") {
        LockInfoView { timeout_secs: lock_timeout_spec(t), ..info }
    } else if is_named(local, "depth") {
        LockInfoView { depth: lock_depth_spec(t), ..info }
    } else if is_named(local, "href") {
        if any_named(stack, "locktoken") {
            LockInfoView { token: t, ..info }
        } else if any_named(stack, "owner") {
            LockInfoView { owner: non_empty(t), ..info }
        } else if any_named(stack, "lockroot") {
            LockInfoView { lockroot: non_empty(t), ..info }
        } else {
            info
        }
    } else if is_named(local, "locktoken") && info.token.len() == 0 {
        LockInfoView { token: t, ..info }
    } else if is_named(local, "owner") && info.owner is None && t.len() > 0 {
        LockInfoView { owner: Some(t), ..info }
    } else {
        info
    }
}

/// The lock reader after one step, and its outcome: `Ok(true)` when the
/// first `activelock` closes or input ends, `Ok(false)` to go on.
pub open spec fn lock_event(st: LockState, ev: XmlStep) -> (LockState, Result<bool, ErrorView>) {
    match ev {
        XmlEventView::Start(c, n) => {
            let local = local_name(crate::multistatus::tag_name(c, n));
            (
                LockState {
                    info: lock_scope_update(st.info, st.stack, local),
                    stack: st.stack.push(local),
                    text: Seq::empty(),
                },
                Ok(false),
            )
        },
        XmlEventView::Empty(c, n) => {
            let local = local_name(crate::multistatus::tag_name(c, n));
            (LockState { info: lock_scope_update(st.info, st.stack, local), ..st }, Ok(false))
        },
        XmlEventView::Text(t) => match decode_text_spec(encode_utf8(t)) {
            Err(k) => (st, Err(ErrorView::Escape(k))),
            Ok(d) => (LockState { text: st.text + d, ..st }, Ok(false)),
        },
        XmlEventView::End(name) => {
            let local = local_name(encode_utf8(name));
            if is_named(local, "activelock") {
                (st, Ok(true))
            } else {
                (
                    LockState {
                        info: lock_end_update(st.info, st.stack, local, st.text),
                        stack: if st.stack.len() > 0 {
                            st.stack.drop_last()
                        } else {
                            st.stack
                        },
                        ..st
                    },
                    Ok(false),
                )
            }
        },
        XmlEventView::Eof => (st, Ok(true)),
        XmlEventView::Malformed => (st, Err(ErrorView::Xml(XmlErrorKind::Malformed))),
        XmlEventView::Failed => (st, Err(ErrorView::Xml(XmlErrorKind::Other))),
        _ => (st, Ok(false)),
    }
}

/// The lock reader after the steps `steps`.
pub open spec fn lock_run(st: LockState, steps: Seq<XmlStep>) -> (LockState, Result<(), ErrorView>)
    decreases steps.len(),
{
    if steps.len() == 0 {
        (st, Ok(()))
    } else {
        let (s1, r) = lock_event(st, steps[0]);
        match r {
            Err(e) => (s1, Err(e)),
            Ok(true) => (s1, Ok(())),
            Ok(false) => lock_run(s1, steps.drop_first()),
        }
    }
}

/// What parsing a lock discovery body yields.
pub open spec fn lock_discovery_spec(body: Seq<u8>) -> Result<LockInfoView, ErrorView> {
    let t = trim_ascii_bytes(body);
    if t.len() == 0 {
        Ok(empty_lock())
    } else {
        let (st, r) = lock_run(lock_initial(), spec_xml_steps(t, false));
        match r {
            Ok(()) => Ok(st.info),
            Err(e) => Err(e),
        }
    }
}

pub open spec fn byte_views(v: Seq<Vec<u8>>) -> Seq<Seq<u8>> {
    v.map_values(|x: Vec<u8>| x@)
}

/// Whether some name on `stack` is `name`, ignoring ASCII case.
fn any_named_exec(stack: &Vec<Vec<u8>>, name: &str) -> (r: bool)
    ensures
        r == any_named(byte_views(stack@), name),
{
    let lit = name.as_bytes();
    let mut i: usize = 0;
    while i < stack.len()
        invariant
            i <= stack@.len(),
            lit@ == name.spec_bytes(),
            forall|j: int| 0 <= j < i ==> !is_named(#[trigger] byte_views(stack@)[j], name),
        decreases stack.len() - i,
    {
        if eq_ignore_ascii_case_exec(stack[i].as_slice(), lit) {
            assert(is_named(byte_views(stack@)[i as int], name));
            return true;
        }
        i += 1;
    }
    false
}

fn named(local: &Vec<u8>, name: &str) -> (r: bool)
    ensures
        r == is_named(local@, name),
{
    eq_ignore_ascii_case_exec(local.as_slice(), name.as_bytes())
}

/// `Some(t)` for non-empty `t`.
fn non_empty_exec(t: String) -> (r: Option<String>)
    ensures
        opt_chars(r) == non_empty(t@),
{
    if t.as_str().is_empty() {
        None
    } else {
        Some(t)
    }
}

fn lock_scope_exec(info: &mut LockInfo, stack: &Vec<Vec<u8>>, local: &Vec<u8>)
    ensures
        final(info)@ == lock_scope_update(old(info)@, byte_views(stack@), local@),
{
    if any_named_exec(stack, "activelock") {
        if named(local, "exclusive") {
            info.scope = Some(LockScope::Exclusive);
        } else if named(local, "shared") {
            info.scope = Some(LockScope::Shared);
        }
    }
}

fn lock_end_exec(info: &mut LockInfo, stack: &Vec<Vec<u8>>, local: &Vec<u8>, text: &String)
    ensures
        final(info)@ == lock_end_update(old(info)@, byte_views(stack@), local@, text@),
{
    if !any_named_exec(stack, "activelock") {
        return;
    }
    let t = crate::text::trim_string(text.as_str());
    if named(local, "timeout") {
        info.timeout_secs = parse_lock_timeout(t.as_str());
    } else if named(local, "depth") {
        info.depth = parse_lock_depth(t.as_str());
    } else if named(local, "href") {
        if any_named_exec(stack, "locktoken") {
            info.token = t;
        } else if any_named_exec(stack, "owner") {
            info.owner = non_empty_exec(t);
        } else if any_named_exec(stack, "lockroot") {
            info.lockroot = non_empty_exec(t);
        }
    } else if named(local, "locktoken") && info.token.as_str().is_empty() {
        info.token = t;
    } else if named(local, "owner") && info.owner.is_none() && !t.as_str().is_empty() {
        info.owner = Some(t);
    }
}

/// The lock reader before any step.
pub open spec fn lock_initial() -> LockState {
    LockState { info: empty_lock(), stack: Seq::empty(), text: Seq::empty() }
}

/// The reader of a `<D:lockdiscovery>` body, fed one tokenizer step at a
/// time (see [`lock_event`]).
pub struct LockReader {
    info: LockInfo,
    stack: Vec<Vec<u8>>,
    text: String,
}

impl View for LockReader {
    type V = LockState;

    closed spec fn view(&self) -> LockState {
        LockState { info: self.info@, stack: byte_views(self.stack@), text: self.text@ }
    }
}

impl LockReader {
    /// A reader that has read nothing.
    pub fn new() -> (r: LockReader)
        ensures
            r@ == lock_initial(),
    {
        let r = LockReader { info: LockInfo::new(), stack: Vec::new(), text: String::new() };
        assert(byte_views(r.stack@) =~= Seq::<Seq<u8>>::empty());
        r
    }

    /// Feed one step (see [`lock_event`]); `Ok(true)` once the first
    /// `activelock` closed or input ended.
    pub fn step(&mut self, ev: XmlEvent) -> (r: Result<bool, Error>)
        ensures
            ({
                let (q, res) = lock_event(old(self)@, ev@);
                &&& final(self)@ == q
                &&& match res {
                    Ok(b) => r == Ok::<bool, Error>(b),
                    Err(e) => r matches Err(x) && x@ == e,
                }
            }),
    {
        match ev {
            XmlEvent::Start(c, n) => {
                let name = crate::multistatus::tag_name_of(c.as_str(), n);
                let local = local_name_of(name.as_slice());
                lock_scope_exec(&mut self.info, &self.stack, &local);
                let ghost before = byte_views(self.stack@);
                let ghost lv = local@;
                self.stack.push(local);
                assert(byte_views(self.stack@) =~= before.push(lv));
                self.text = String::new();
                Ok(false)
            },
            XmlEvent::Empty(c, n) => {
                let name = crate::multistatus::tag_name_of(c.as_str(), n);
                let local = local_name_of(name.as_slice());
                lock_scope_exec(&mut self.info, &self.stack, &local);
                Ok(false)
            },
            XmlEvent::Text(t) => {
                match decode_text(t.as_str().as_bytes()) {
                    Ok(d) => {
                        self.text.append(d.as_str());
                        Ok(false)
                    },
                    Err(e) => Err(e),
                }
            },
            XmlEvent::End(nm) => {
                let local = local_name_of(nm.as_str().as_bytes());
                if named(&local, "activelock") {
                    return Ok(true);
                }
                lock_end_exec(&mut self.info, &self.stack, &local, &self.text);
                let ghost before = byte_views(self.stack@);
                let popped = self.stack.pop();
                proof {
                    if before.len() > 0 {
                        assert(byte_views(self.stack@) =~= before.drop_last());
                    }
                }
                Ok(false)
            },
            XmlEvent::Eof => Ok(true),
            XmlEvent::Malformed => Err(Error::Xml(XmlErrorKind::Malformed)),
            XmlEvent::Failed => Err(Error::Xml(XmlErrorKind::Other)),
            _ => Ok(false),
        }
    }

    /// What the reader found.
    pub fn into_info(self) -> (r: LockInfo)
        ensures
            r@ == self@.info,
    {
        self.info
    }
}

/// Parse the first `<D:activelock>` of a `<D:lockdiscovery>` body into a
/// [`LockInfo`] (see [`lock_discovery_spec`]). Lenient: missing
/// `locktoken`, `timeout`, `lockscope`, `owner`, `lockroot` and `depth`
/// leave their fields empty; a body without an `activelock` (or an empty
/// body) gives an empty [`LockInfo`].
pub fn parse_lock_discovery_bytes(body: &[u8]) -> (r: Result<LockInfo, Error>)
    ensures
        match lock_discovery_spec(body@) {
            Ok(info) => r matches Ok(x) && x@ == info,
            Err(e) => r matches Err(x) && x@ == e,
        },
{
    let trimmed = trim_ascii(body);
    if trimmed.len() == 0 {
        return Ok(LockInfo::new());
    }
    let mut reader = xml_reader(trimmed, false);
    let mut lock = LockReader::new();
    loop
        invariant_except_break
            trimmed@ == trim_ascii_bytes(body@),
            trimmed@.len() > 0,
            well_formed_steps(xml_pending(reader)),
            lock_run(lock_initial(), spec_xml_steps(trimmed@, false)) == lock_run(lock@, xml_pending(reader)),
        ensures
            trimmed@ == trim_ascii_bytes(body@),
            trimmed@.len() > 0,
            lock_run(lock_initial(), spec_xml_steps(trimmed@, false)) == (lock@, Ok::<(), ErrorView>(())),
        decreases xml_pending(reader).len(),
    {
        let ghost pending = xml_pending(reader);
        let ev = read_xml_event(&mut reader);
        let ghost s0 = ev@;
        match lock.step(ev) {
            Ok(true) => {
                break;
            },
            Ok(false) => {},
            Err(e) => {
                return Err(e);
            },
        }
        proof {
            assert(!is_final_step(s0));
            crate::multistatus::lemma_steps_go_on(pending);
        }
    }
    Ok(lock.into_info())
}

/// State of the `<D:error>` reader.
pub struct ErrBodyState {
    pub in_error: bool,
    /// The local name of the first child of `<D:error>`, once read.
    pub first_child: Option<Seq<u8>>,
}

/// How reading an error body ends.
pub enum ErrBodyEnd {
    /// The input ended normally.
    Done,
    /// The input is not well-formed XML.
    ParseFailed,
    /// Any other failure.
    Fail(ErrorView),
}

/// The error reader after a start (or empty) tag: `error` opens the
/// element; inside it, the first child's local name is remembered.
pub open spec fn err_start(st: ErrBodyState, c: Seq<char>, n: nat) -> ErrBodyState {
    let local = local_name(crate::multistatus::tag_name(c, n));
    if is_named(local, "error") {
        ErrBodyState { in_error: true, ..st }
    } else if st.in_error && st.first_child is None {
        ErrBodyState { first_child: Some(local), ..st }
    } else {
        st
    }
}

/// The error reader after one step, and how reading ends there, if it
/// does.
pub open spec fn err_event(st: ErrBodyState, ev: XmlStep) -> (ErrBodyState, Option<ErrBodyEnd>) {
    match ev {
        XmlEventView::Start(c, n) => (err_start(st, c, n), None),
        XmlEventView::Empty(c, n) => (err_start(st, c, n), None),
        XmlEventView::End(name) => (
            if is_named(local_name(encode_utf8(name)), "error") {
                ErrBodyState { in_error: false, ..st }
            } else {
                st
            },
            None,
        ),
        XmlEventView::Eof => (st, Some(ErrBodyEnd::Done)),
        XmlEventView::Malformed => (st, Some(ErrBodyEnd::ParseFailed)),
        XmlEventView::Failed => (st, Some(ErrBodyEnd::Fail(ErrorView::Xml(XmlErrorKind::Other)))),
        _ => (st, None),
    }
}

/// The error reader after the steps `steps`.
pub open spec fn err_run(st: ErrBodyState, steps: Seq<XmlStep>) -> (ErrBodyState, ErrBodyEnd)
    decreases steps.len(),
{
    if steps.len() == 0 {
        (st, ErrBodyEnd::Done)
    } else {
        let (s1, end) = err_event(st, steps[0]);
        match end {
            Some(e) => (s1, e),
            None => err_run(s1, steps.drop_first()),
        }
    }
}

pub open spec fn err_initial() -> ErrBodyState {
    ErrBodyState { in_error: false, first_child: None }
}

/// What parsing an error body yields: the local name of the first child of
/// `<D:error>`; a body that is not well-formed XML is reported as such.
pub open spec fn error_body_spec(body: Seq<u8>) -> Result<WebDavErrorView, ErrorView> {
    let t = trim_ascii_bytes(body);
    if t.len() == 0 {
        Ok(WebDavErrorView { precondition_code: None, parse_failed: false })
    } else {
        let (st, end) = err_run(err_initial(), spec_xml_steps(t, true));
        match end {
            ErrBodyEnd::Done => Ok(
                WebDavErrorView {
                    precondition_code: match st.first_child {
                        Some(l) => Some(spec_utf8_lossy(l)),
                        None => None,
                    },
                    parse_failed: false,
                },
            ),
            ErrBodyEnd::ParseFailed => Ok(WebDavErrorView { precondition_code: None, parse_failed: true }),
            ErrBodyEnd::Fail(e) => Err(e),
        }
    }
}

/// How reading an error body ended, as [`ErrorBodyReader::step`] reports it.
pub enum ErrorBodyEnd {
    /// The input ended normally.
    Done,
    /// The input is not well-formed XML.
    ParseFailed,
    /// Any other failure.
    Fail(Error),
}

impl View for ErrorBodyEnd {
    type V = ErrBodyEnd;

    open spec fn view(&self) -> ErrBodyEnd {
        match self {
            ErrorBodyEnd::Done => ErrBodyEnd::Done,
            ErrorBodyEnd::ParseFailed => ErrBodyEnd::ParseFailed,
            ErrorBodyEnd::Fail(e) => ErrBodyEnd::Fail(e@),
        }
    }
}

/// The reader of a `<D:error>` body, fed one tokenizer step at a time (see
/// [`err_event`]).
pub struct ErrorBodyReader {
    in_error: bool,
    first_child: Option<Vec<u8>>,
}

impl View for ErrorBodyReader {
    type V = ErrBodyState;

    closed spec fn view(&self) -> ErrBodyState {
        ErrBodyState {
            in_error: self.in_error,
            first_child: match self.first_child {
                Some(v) => Some(v@),
                None => None,
            },
        }
    }
}

impl ErrorBodyReader {
    /// A reader that has read nothing.
    pub fn new() -> (r: ErrorBodyReader)
        ensures
            r@ == err_initial(),
    {
        ErrorBodyReader { in_error: false, first_child: None }
    }

    fn start(&mut self, content: &str, name_len: usize)
        ensures
            final(self)@ == err_start(old(self)@, content@, name_len as nat),
    {
        let name = crate::multistatus::tag_name_of(content, name_len);
        let local = local_name_of(name.as_slice());
        if eq_ignore_ascii_case_exec(local.as_slice(), "error".as_bytes()) {
            self.in_error = true;
        } else if self.in_error && self.first_child.is_none() {
            self.first_child = Some(local);
        }
    }

    /// Feed one step (see [`err_event`]); `Some` once reading ends.
    pub fn step(&mut self, ev: XmlEvent) -> (r: Option<ErrorBodyEnd>)
        ensures
            ({
                let (q, end) = err_event(old(self)@, ev@);
                &&& final(self)@ == q
                &&& match end {
                    Some(e) => r matches Some(x) && x@ == e,
                    None => r is None,
                }
            }),
    {
        match ev {
            XmlEvent::Start(c, n) => {
                self.start(c.as_str(), n);
                None
            },
            XmlEvent::Empty(c, n) => {
                self.start(c.as_str(), n);
                None
            },
            XmlEvent::End(nm) => {
                let local = local_name_of(nm.as_str().as_bytes());
                if eq_ignore_ascii_case_exec(local.as_slice(), "error".as_bytes()) {
                    self.in_error = false;
                }
                None
            },
            XmlEvent::Eof => Some(ErrorBodyEnd::Done),
            XmlEvent::Malformed => Some(ErrorBodyEnd::ParseFailed),
            XmlEvent::Failed => Some(ErrorBodyEnd::Fail(Error::Xml(XmlErrorKind::Other))),
            _ => None,
        }
    }

    /// The local name of the first child of `<D:error>` read, as text.
    pub fn first_child(&self) -> (r: Option<String>)
        ensures
            opt_chars(r) == match self@.first_child {
                Some(l) => Some(spec_utf8_lossy(l)),
                None => None,
            },
    {
        match &self.first_child {
            Some(l) => Some(utf8_lossy(l.as_slice())),
            None => None,
        }
    }
}

/// Parse a `<D:error>` body (RFC 4918 §14.12) into a [`WebDavError`]: the
/// local name of the first child element of `<D:error>` is the
/// precondition code. An empty body, or one without such a child, gives no
/// code; a body that is not well-formed XML is reported through
/// `parse_failed`.
pub fn parse_error_body(body: &[u8]) -> (r: Result<WebDavError, Error>)
    ensures
        match error_body_spec(body@) {
            Ok(v) => r matches Ok(x) && x@ == v,
            Err(e) => r matches Err(x) && x@ == e,
        },
{
    let trimmed = trim_ascii(body);
    if trimmed.len() == 0 {
        return Ok(WebDavError { precondition_code: None, parse_failed: false });
    }
    let mut reader = xml_reader(trimmed, true);
    let mut st = ErrorBodyReader::new();
    loop
        invariant_except_break
            trimmed@ == trim_ascii_bytes(body@),
            trimmed@.len() > 0,
            well_formed_steps(xml_pending(reader)),
            err_run(err_initial(), spec_xml_steps(trimmed@, true)) == err_run(st@, xml_pending(reader)),
        ensures
            trimmed@ == trim_ascii_bytes(body@),
            trimmed@.len() > 0,
            err_run(err_initial(), spec_xml_steps(trimmed@, true)) == (st@, ErrBodyEnd::Done),
        decreases xml_pending(reader).len(),
    {
        let ghost pending = xml_pending(reader);
        let ev = read_xml_event(&mut reader);
        let ghost s0 = ev@;
        match st.step(ev) {
            Some(ErrorBodyEnd::Done) => {
                break;
            },
            Some(ErrorBodyEnd::ParseFailed) => {
                return Ok(WebDavError { precondition_code: None, parse_failed: true });
            },
            Some(ErrorBodyEnd::Fail(e)) => {
                return Err(e);
            },
            None => {},
        }
        proof {
            assert(!is_final_step(s0));
            crate::multistatus::lemma_steps_go_on(pending);
        }
    }
    let code = st.first_child();
    Ok(WebDavError { precondition_code: code, parse_failed: false })
}

/// The first non-empty string of `list` from `i` on.
pub open spec fn first_nonempty(list: Seq<Seq<char>>, i: int) -> Option<Seq<char>>
    decreases list.len() - i,
{
    if i < 0 || i >= list.len() {
        None
    } else if list[i].len() > 0 {
        Some(list[i])
    } else {
        first_nonempty(list, i + 1)
    }
}

/// State of the current-user-principal reader.
pub struct CupState {
    pub parser: CommonParserView,
    pub principal: Option<Seq<char>>,
}

/// The reader after one step, and its outcome: `Ok(true)` once a response
/// named a principal or input ended, `Ok(false)` to go on.
pub open spec fn cup_event(st: CupState, ev: XmlStep) -> (CupState, Result<bool, ErrorView>) {
    match ev {
        XmlEventView::Start(c, n) => (
            CupState { parser: common_start(st.parser, crate::multistatus::tag_name(c, n)), ..st },
            Ok(false),
        ),
        XmlEventView::Empty(c, n) => {
            let name = crate::multistatus::tag_name(c, n);
            let p1 = common_start(st.parser, name);
            let p2 = common_end(p1, name);
            match end_error(p1, name) {
                Some(m) => (CupState { parser: p2, ..st }, Err(ErrorView::XmlStructure(m))),
                None => (CupState { parser: p2, ..st }, Ok(false)),
            }
        },
        XmlEventView::Text(t) => match decode_text_spec(encode_utf8(t)) {
            Err(k) => (st, Err(ErrorView::Escape(k))),
            Ok(d) => (CupState { parser: common_text(st.parser, d), ..st }, Ok(false)),
        },
        XmlEventView::End(name) => {
            let b = encode_utf8(name);
            let p1 = common_end(st.parser, b);
            match end_error(st.parser, b) {
                Some(m) => (CupState { parser: p1, ..st }, Err(ErrorView::XmlStructure(m))),
                None => if is_named(local_name(b), "response") {
                    let p2 = CommonParserView { current: empty_common(), ..p1 };
                    match first_nonempty(p1.current.current_user_principal, 0) {
                        Some(f) => if st.principal is None {
                            (CupState { parser: p2, principal: Some(f) }, Ok(true))
                        } else {
                            (CupState { parser: p2, ..st }, Ok(false))
                        },
                        None => (CupState { parser: p2, ..st }, Ok(false)),
                    }
                } else {
                    (CupState { parser: p1, ..st }, Ok(false))
                },
            }
        },
        XmlEventView::Eof => (st, Ok(true)),
        XmlEventView::Malformed => (st, Err(ErrorView::Xml(XmlErrorKind::Malformed))),
        XmlEventView::Failed => (st, Err(ErrorView::Xml(XmlErrorKind::Other))),
        _ => (st, Ok(false)),
    }
}

/// The reader after the steps `steps`.
pub open spec fn cup_run(st: CupState, steps: Seq<XmlStep>) -> (CupState, Result<(), ErrorView>)
    decreases steps.len(),
{
    if steps.len() == 0 {
        (st, Ok(()))
    } else {
        let (s1, r) = cup_event(st, steps[0]);
        match r {
            Err(e) => (s1, Err(e)),
            Ok(true) => (s1, Ok(())),
            Ok(false) => cup_run(s1, steps.drop_first()),
        }
    }
}

/// The principal a PROPFIND body names: the first non-empty
/// `current-user-principal` href of the first response that has one.
pub open spec fn current_user_principal_spec(body: Seq<u8>) -> Result<Option<Seq<char>>, ErrorView> {
    let (st, r) = cup_run(CupState { parser: common_initial(), principal: None }, spec_xml_steps(body, false));
    match r {
        Ok(()) => Ok(st.principal),
        Err(e) => Err(e),
    }
}

/// The first non-empty string of `list`.
fn first_nonempty_exec(list: &Vec<String>) -> (r: Option<String>)
    ensures
        opt_chars(r) == first_nonempty(list.deep_view(), 0),
{
    let mut i: usize = 0;
    while i < list.len()
        invariant
            i <= list@.len(),
            first_nonempty(list.deep_view(), 0) == first_nonempty(list.deep_view(), i as int),
        decreases list.len() - i,
    {
        assert(list.deep_view()[i as int] == list@[i as int]@);
        if !list[i].as_str().is_empty() {
            return Some(list[i].clone());
        }
        i += 1;
    }
    None
}

/// The reader of a PROPFIND body for its `current-user-principal`, fed
/// one tokenizer step at a time (see [`cup_event`]).
pub struct PrincipalReader {
    parser: CommonParser,
    principal: Option<String>,
}

impl View for PrincipalReader {
    type V = CupState;

    closed spec fn view(&self) -> CupState {
        CupState { parser: self.parser@, principal: opt_chars(self.principal) }
    }
}

impl PrincipalReader {
    /// A reader that has read nothing.
    pub fn new() -> (r: PrincipalReader)
        ensures
            r@ == (CupState { parser: common_initial(), principal: None }),
    {
        PrincipalReader { parser: CommonParser::new(), principal: None }
    }

    /// Feed one step (see [`cup_event`]); `Ok(true)` once a response named
    /// a principal or input ended.
    pub fn step(&mut self, ev: XmlEvent) -> (r: Result<bool, Error>)
        ensures
            ({
                let (q, res) = cup_event(old(self)@, ev@);
                &&& final(self)@ == q
                &&& match res {
                    Ok(b) => r == Ok::<bool, Error>(b),
                    Err(e) => r matches Err(x) && x@ == e,
                }
            }),
    {
        match ev {
            XmlEvent::Start(c, n) => {
                let name = crate::multistatus::tag_name_of(c.as_str(), n);
                self.parser.on_start(name.as_slice());
                Ok(false)
            },
            XmlEvent::Empty(c, n) => {
                let name = crate::multistatus::tag_name_of(c.as_str(), n);
                self.parser.on_start(name.as_slice());
                match self.parser.on_end(name.as_slice()) {
                    Ok(()) => Ok(false),
                    Err(e) => Err(e),
                }
            },
            XmlEvent::Text(t) => {
                match decode_text(t.as_str().as_bytes()) {
                    Ok(d) => {
                        self.parser.on_text(d.as_str());
                        Ok(false)
                    },
                    Err(e) => Err(e),
                }
            },
            XmlEvent::End(nm) => {
                let b = nm.as_str().as_bytes();
                match self.parser.on_end(b) {
                    Ok(()) => {},
                    Err(e) => {
                        return Err(e);
                    },
                }
                let local = local_name_of(b);
                if eq_ignore_ascii_case_exec(local.as_slice(), "response".as_bytes()) {
                    let common = self.parser.finish_response();
                    match first_nonempty_exec(&common.current_user_principal) {
                        Some(f) => {
                            if self.principal.is_none() {
                                self.principal = Some(f);
                                return Ok(true);
                            }
                            Ok(false)
                        },
                        None => Ok(false),
                    }
                } else {
                    Ok(false)
                }
            },
            XmlEvent::Eof => Ok(true),
            XmlEvent::Malformed => Err(Error::Xml(XmlErrorKind::Malformed)),
            XmlEvent::Failed => Err(Error::Xml(XmlErrorKind::Other)),
            _ => Ok(false),
        }
    }

    /// The principal found so far.
    pub fn principal(&self) -> (r: Option<String>)
        ensures
            opt_chars(r) == self@.principal,
    {
        self.principal.clone()
    }
}

/// Read the `current-user-principal` (RFC 5397) from a PROPFIND body: the
/// first non-empty href of the first response that has one (see
/// [`current_user_principal_spec`]).
pub fn parse_current_user_principal_bytes(body: &[u8]) -> (r: Result<Option<String>, Error>)
    ensures
        match current_user_principal_spec(body@) {
            Ok(p) => r matches Ok(x) && opt_chars(x) == p,
            Err(e) => r matches Err(x) && x@ == e,
        },
{
    let mut reader = xml_reader(body, false);
    let mut cup = PrincipalReader::new();
    loop
        invariant_except_break
            well_formed_steps(xml_pending(reader)),
            cup_run(CupState { parser: common_initial(), principal: None }, spec_xml_steps(body@, false))
                == cup_run(cup@, xml_pending(reader)),
        ensures
            cup_run(CupState { parser: common_initial(), principal: None }, spec_xml_steps(body@, false))
                == (cup@, Ok::<(), ErrorView>(())),
        decreases xml_pending(reader).len(),
    {
        let ghost pending = xml_pending(reader);
        let ev = read_xml_event(&mut reader);
        let ghost s0 = ev@;
        match cup.step(ev) {
            Ok(true) => {
                break;
            },
            Ok(false) => {},
            Err(e) => {
                return Err(e);
            },
        }
        proof {
            assert(!is_final_step(s0));
            crate::multistatus::lemma_steps_go_on(pending);
        }
    }
    Ok(cup.principal())
}

} // verus!
