//! XML namespace declarations in scope while a multistatus body is read,
//! and the namespaces in which multistatus element names are recognized.

use vstd::prelude::*;
use vstd::string::*;

use crate::names::{
    element_of, eq_ignore_ascii_case_from, is_named, local_name, local_name_of, local_start_exec,
    namespace_prefix, namespace_prefix_of, ElementName,
};
use crate::types::{Privilege, PrivilegeView};
use crate::xmlread::{spec_utf8_lossy, utf8_lossy};

verus! {

/// Whether two byte strings are equal.
pub fn bytes_eq(a: &[u8], b: &[u8]) -> (r: bool)
    ensures
        r == (a@ == b@),
{
    if a.len() != b.len() {
        return false;
    }
    let mut i: usize = 0;
    while i < a.len()
        invariant
            i <= a@.len(),
            a@.len() == b@.len(),
            forall|j: int| 0 <= j < i ==> a@[j] == b@[j],
        decreases a.len() - i,
    {
        if a[i] != b[i] {
            return false;
        }
        i += 1;
    }
    assert(a@ =~= b@);
    true
}

/// The namespace declared last for `prefix` among `decls`.
pub open spec fn lookup(decls: Seq<(Seq<u8>, Seq<u8>)>, prefix: Seq<u8>) -> Option<Seq<u8>>
    decreases decls.len(),
{
    if decls.len() == 0 {
        None
    } else if decls.last().0 == prefix {
        Some(decls.last().1)
    } else {
        lookup(decls.drop_last(), prefix)
    }
}

/// Mathematical state of [`NsScopes`]: the declarations in the order they
/// were made, and, for each open element, how many there were when it
/// opened.
pub struct NsView {
    pub decls: Seq<(Seq<u8>, Seq<u8>)>,
    pub marks: Seq<usize>,
}

/// In-scope XML namespace declarations (`xmlns` / `xmlns:prefix`), with one
/// mark per open element so that closing it restores the declarations in
/// force when it opened. The namespace of a prefix is its latest
/// declaration still in scope.
pub struct NsScopes {
    decls: Vec<(Vec<u8>, Vec<u8>)>,
    marks: Vec<usize>,
}

pub open spec fn decl_views(d: Seq<(Vec<u8>, Vec<u8>)>) -> Seq<(Seq<u8>, Seq<u8>)> {
    d.map_values(|x: (Vec<u8>, Vec<u8>)| (x.0@, x.1@))
}

impl View for NsScopes {
    type V = NsView;

    closed spec fn view(&self) -> NsView {
        NsView { decls: decl_views(self.decls@), marks: self.marks@ }
    }
}

/// The namespace `raw`'s prefix resolves to (the default namespace for an
/// unprefixed name), `None` when undeclared.
pub open spec fn resolve_spec(ns: NsView, raw: Seq<u8>) -> Option<Seq<u8>> {
    lookup(ns.decls, namespace_prefix(raw))
}

/// The scopes after the element that owns the latest mark closes.
pub open spec fn pop_mark_spec(ns: NsView) -> NsView {
    if ns.marks.len() == 0 {
        ns
    } else {
        let m = ns.marks.last();
        NsView {
            decls: if m <= ns.decls.len() {
                ns.decls.take(m as int)
            } else {
                ns.decls
            },
            marks: ns.marks.drop_last(),
        }
    }
}

impl NsScopes {
    /// No declaration in scope.
    pub fn new() -> (r: NsScopes)
        ensures
            r@ == (NsView { decls: Seq::empty(), marks: Seq::empty() }),
    {
        let r = NsScopes { decls: Vec::new(), marks: Vec::new() };
        assert(decl_views(r.decls@) =~= Seq::<(Seq<u8>, Seq<u8>)>::empty());
        r
    }

    /// Declare `uri` for `prefix` (the empty prefix is the default
    /// namespace).
    pub fn declare(&mut self, prefix: &[u8], uri: Vec<u8>)
        ensures
            final(self)@ == (NsView { decls: old(self)@.decls.push((prefix@, uri@)), ..old(self)@ }),
    {
        let p = crate::names::bytes_from(prefix, 0);
        assert(prefix@.skip(0) =~= prefix@);
        let ghost u = uri@;
        self.decls.push((p, uri));
        assert(decl_views(self.decls@) =~= decl_views(old(self).decls@).push((prefix@, u)));
    }

    /// The namespace declared for `raw`'s prefix, if any.
    pub fn resolve(&self, raw: &[u8]) -> (r: Option<&[u8]>)
        ensures
            match r {
                Some(u) => resolve_spec(self@, raw@) == Some(u@),
                None => resolve_spec(self@, raw@) is None,
            },
    {
        let prefix = namespace_prefix_of(raw);
        let mut i = self.decls.len();
        assert(self.decls@.take(i as int) =~= self.decls@);
        while i > 0
            invariant
                i <= self.decls@.len(),
                prefix@ == namespace_prefix(raw@),
                lookup(decl_views(self.decls@), prefix@) == lookup(
                    decl_views(self.decls@.take(i as int)),
                    prefix@,
                ),
            decreases i,
        {
            let ghost d = decl_views(self.decls@.take(i as int));
            assert(d.drop_last() =~= decl_views(self.decls@.take(i - 1)));
            if bytes_eq(self.decls[i - 1].0.as_slice(), prefix.as_slice()) {
                return Some(self.decls[i - 1].1.as_slice());
            }
            i -= 1;
        }
        assert(decl_views(self.decls@.take(0)) =~= Seq::<(Seq<u8>, Seq<u8>)>::empty());
        assert(decl_views(self.decls@.take(self.decls@.len() as int)) =~= decl_views(self.decls@));
        None
    }

    /// Record that an element opened with the declarations now in scope.
    pub fn mark(&mut self)
        ensures
            final(self)@ == (NsView {
                marks: old(self)@.marks.push(old(self)@.decls.len() as usize),
                ..old(self)@
            }),
    {
        let n = self.decls.len();
        self.marks.push(n);
    }

    /// The latest open element closed: restore the declarations in scope
    /// when it opened.
    pub fn pop_mark(&mut self)
        ensures
            final(self)@ == pop_mark_spec(old(self)@),
    {
        match self.marks.pop() {
            Some(m) => {
                self.decls.truncate(m);
                proof {
                    if m <= old(self).decls@.len() {
                        assert(decl_views(self.decls@) =~= decl_views(old(self).decls@).take(m as int));
                    }
                }
            },
            None => {},
        }
    }
}

/// Whether a recognized element may keep its name in namespace `ns`
/// (`None`: no declaration in scope, which is tolerated). DAV:, CalDAV and
/// CardDAV are accepted; Apple's iCal namespace only for the two color
/// elements.
pub open spec fn ns_allows_spec(ns: Option<Seq<u8>>, element: ElementName) -> bool {
    match ns {
        None => true,
        Some(u) => u == "DAV:".spec_bytes() || u == "urn:ietf:params:xml:ns:caldav".spec_bytes() || u
            == "urn:ietf:params:xml:ns:carddav".spec_bytes() || (u
            == "http://apple.com/ns/ical/".spec_bytes() && (element == ElementName::CalendarColor
            || element == ElementName::AddressbookColor)),
    }
}

/// Whether a recognized element may keep its typed name under namespace
/// `ns` (see [`ns_allows_spec`]).
pub fn ns_allows(ns: Option<&[u8]>, element: ElementName) -> (r: bool)
    ensures
        r == ns_allows_spec(
            match ns {
                Some(u) => Some(u@),
                None => None,
            },
            element,
        ),
{
    match ns {
        None => true,
        Some(u) => bytes_eq(u, "DAV:".as_bytes()) || bytes_eq(
            u,
            "urn:ietf:params:xml:ns:caldav".as_bytes(),
        ) || bytes_eq(u, "urn:ietf:params:xml:ns:carddav".as_bytes()) || (bytes_eq(
            u,
            "http://apple.com/ns/ical/".as_bytes(),
        ) && (element == ElementName::CalendarColor || element == ElementName::AddressbookColor)),
    }
}

/// The privilege a privilege element's raw name denotes (ASCII case
/// ignored); unknown local names become `Other`.
pub open spec fn privilege_of(raw: Seq<u8>) -> PrivilegeView {
    let l = local_name(raw);
    if is_named(l, "read") {
        PrivilegeView::Read
    } else if is_named(l, "write") {
        PrivilegeView::Write
    } else if is_named(l, "write-properties") {
        PrivilegeView::WriteProperties
    } else if is_named(l, "write-content") {
        PrivilegeView::WriteContent
    } else if is_named(l, "bind") {
        PrivilegeView::Bind
    } else if is_named(l, "unbind") {
        PrivilegeView::Unbind
    } else if is_named(l, "unlock") {
        PrivilegeView::Unlock
    } else if is_named(l, "read-free-busy") {
        PrivilegeView::ReadFreeBusy
    } else {
        PrivilegeView::Other(spec_utf8_lossy(l))
    }
}

/// Map a privilege element's raw name to a [`Privilege`] (RFC 3744 §3,
/// plus CalDAV's `read-free-busy`).
pub fn privilege_from_local_name(raw: &[u8]) -> (r: Privilege)
    ensures
        r.deep_view() == privilege_of(raw@),
{
    let s = local_start_exec(raw);
    let named = |lit: &str| -> (b: bool)
        ensures
            b == is_named(raw@.skip(s as int), lit),
        { eq_ignore_ascii_case_from(raw, s, lit.as_bytes()) };
    if named("read") {
        Privilege::Read
    } else if named("write") {
        Privilege::Write
    } else if named("write-properties") {
        Privilege::WriteProperties
    } else if named("write-content") {
        Privilege::WriteContent
    } else if named("bind") {
        Privilege::Bind
    } else if named("unbind") {
        Privilege::Unbind
    } else if named("unlock") {
        Privilege::Unlock
    } else if named("read-free-busy") {
        Privilege::ReadFreeBusy
    } else {
        let l = local_name_of(raw);
        Privilege::Other(utf8_lossy(l.as_slice()))
    }
}

} // verus!
