//! XML element names inside multistatus bodies: prefix handling,
//! ASCII-case-insensitive matching, and the recognized element set.

use vstd::prelude::*;
use vstd::string::*;

verus! {

/// Index of the first `:` in `raw`, if any.
pub open spec fn colon_index(raw: Seq<u8>) -> Option<int>
    decreases raw.len(),
{
    if raw.len() == 0 {
        None
    } else {
        match colon_index(raw.drop_last()) {
            Some(i) => Some(i),
            None => if raw.last() == 0x3a {
                Some(raw.len() - 1)
            } else {
                None
            },
        }
    }
}

pub proof fn lemma_colon_index(raw: Seq<u8>)
    ensures
        match colon_index(raw) {
            Some(i) => 0 <= i < raw.len() && raw[i] == 0x3a && forall|j: int|
                0 <= j < i ==> raw[j] != 0x3a,
            None => forall|j: int| 0 <= j < raw.len() ==> raw[j] != 0x3a,
        },
    decreases raw.len(),
{
    if raw.len() > 0 {
        let d = raw.drop_last();
        lemma_colon_index(d);
        assert(forall|j: int| 0 <= j < d.len() ==> d[j] == raw[j]);
    }
}

/// Where the local name of `raw` starts: after the first `:`, or at 0.
pub open spec fn local_start(raw: Seq<u8>) -> int {
    match colon_index(raw) {
        Some(i) => i + 1,
        None => 0,
    }
}

/// The local name of a raw (possibly prefixed) XML name.
pub open spec fn local_name(raw: Seq<u8>) -> Seq<u8> {
    raw.skip(local_start(raw))
}

/// The prefix of a raw XML name (empty when it has none).
pub open spec fn namespace_prefix(raw: Seq<u8>) -> Seq<u8> {
    match colon_index(raw) {
        Some(i) => raw.take(i),
        None => Seq::empty(),
    }
}

/// Index of the first `:` in `raw`, if any.
pub fn colon_index_exec(raw: &[u8]) -> (r: Option<usize>)
    ensures
        match r {
            Some(i) => colon_index(raw@) == Some(i as int),
            None => colon_index(raw@) is None,
        },
{
    proof {
        lemma_colon_index(raw@);
    }
    let mut i: usize = 0;
    while i < raw.len()
        invariant
            i <= raw@.len(),
            forall|j: int| 0 <= j < i ==> raw@[j] != 0x3a,
            match colon_index(raw@) {
                Some(k) => 0 <= k < raw@.len() && raw@[k] == 0x3a && forall|j: int|
                    0 <= j < k ==> raw@[j] != 0x3a,
                None => forall|j: int| 0 <= j < raw@.len() ==> raw@[j] != 0x3a,
            },
        decreases raw.len() - i,
    {
        if raw[i] == 0x3a {
            return Some(i);
        }
        i += 1;
    }
    None
}

/// Where the local name of `raw` starts.
pub fn local_start_exec(raw: &[u8]) -> (r: usize)
    ensures
        r == local_start(raw@),
        r <= raw@.len(),
{
    proof {
        lemma_colon_index(raw@);
    }
    let n = raw.len();
    match colon_index_exec(raw) {
        Some(i) => i + 1,
        None => 0,
    }
}

/// The bytes of `raw` from `from` to its end.
pub fn bytes_from(raw: &[u8], from: usize) -> (r: Vec<u8>)
    requires
        from <= raw@.len(),
    ensures
        r@ == raw@.skip(from as int),
{
    let mut r: Vec<u8> = Vec::new();
    let mut i = from;
    while i < raw.len()
        invariant
            from <= i <= raw@.len(),
            r@ == raw@.subrange(from as int, i as int),
        decreases raw.len() - i,
    {
        r.push(raw[i]);
        assert(raw@.subrange(from as int, i as int + 1) =~= raw@.subrange(from as int, i as int).push(raw@[i as int]));
        i += 1;
    }
    assert(raw@.subrange(from as int, raw@.len() as int) =~= raw@.skip(from as int));
    r
}

/// The local name of a raw XML name: what follows the first `:`, or the
/// whole name.
pub fn local_name_of(raw: &[u8]) -> (r: Vec<u8>)
    ensures
        r@ == local_name(raw@),
{
    let s = local_start_exec(raw);
    bytes_from(raw, s)
}

/// The prefix of a raw XML name: what precedes the first `:`, or nothing.
pub fn namespace_prefix_of(raw: &[u8]) -> (r: Vec<u8>)
    ensures
        r@ == namespace_prefix(raw@),
{
    proof {
        lemma_colon_index(raw@);
    }
    let mut r: Vec<u8> = Vec::new();
    match colon_index_exec(raw) {
        Some(k) => {
            let mut i: usize = 0;
            while i < k
                invariant
                    i <= k <= raw@.len(),
                    r@ == raw@.take(i as int),
                decreases k - i,
            {
                r.push(raw[i]);
                assert(raw@.take(i as int + 1) =~= raw@.take(i as int).push(raw@[i as int]));
                i += 1;
            }
        },
        None => {
            assert(r@ =~= Seq::<u8>::empty());
        },
    }
    r
}

/// ASCII lowercase of a byte.
pub open spec fn ascii_lower(b: u8) -> u8 {
    if 0x41 <= b && b <= 0x5a {
        (b + 32) as u8
    } else {
        b
    }
}

/// ASCII-case-insensitive equality of byte strings
/// (`<[u8]>::eq_ignore_ascii_case`).
pub open spec fn eq_ignore_ascii_case(a: Seq<u8>, b: Seq<u8>) -> bool {
    a.len() == b.len() && forall|i: int| 0 <= i < a.len() ==> ascii_lower(#[trigger] a[i]) == ascii_lower(b[i])
}

fn ascii_lower_exec(b: u8) -> (r: u8)
    ensures
        r == ascii_lower(b),
{
    if 0x41 <= b && b <= 0x5a {
        b + 32
    } else {
        b
    }
}

/// Whether `raw[from..]` equals `lit` ignoring ASCII case.
pub fn eq_ignore_ascii_case_from(raw: &[u8], from: usize, lit: &[u8]) -> (r: bool)
    requires
        from <= raw@.len(),
    ensures
        r == eq_ignore_ascii_case(raw@.skip(from as int), lit@),
{
    if raw.len() - from != lit.len() {
        return false;
    }
    let mut i: usize = 0;
    while i < lit.len()
        invariant
            i <= lit@.len(),
            from + lit@.len() == raw@.len(),
            raw@.len() <= usize::MAX,
            forall|j: int| 0 <= j < i ==> ascii_lower(raw@[from + j]) == ascii_lower(lit@[j]),
        decreases lit.len() - i,
    {
        if ascii_lower_exec(raw[from + i]) != ascii_lower_exec(lit[i]) {
            assert(ascii_lower(raw@.skip(from as int)[i as int]) != ascii_lower(lit@[i as int]));
            return false;
        }
        i += 1;
    }
    assert forall|j: int| 0 <= j < lit@.len() implies ascii_lower(#[trigger] raw@.skip(from as int)[j])
        == ascii_lower(lit@[j]) by {
        assert(raw@.skip(from as int)[j] == raw@[from + j]);
    }
    true
}

/// Whether two byte strings are equal ignoring ASCII case.
pub fn eq_ignore_ascii_case_exec(a: &[u8], b: &[u8]) -> (r: bool)
    ensures
        r == eq_ignore_ascii_case(a@, b@),
{
    assert(a@.skip(0) =~= a@);
    eq_ignore_ascii_case_from(a, 0, b)
}

/// Whether the local name `local` is `name`, ignoring ASCII case.
pub open spec fn is_named(local: Seq<u8>, name: &str) -> bool {
    eq_ignore_ascii_case(local, name.spec_bytes())
}

/// Whether the local name of `raw` (from `from` on) is `name`.
fn named_from(raw: &[u8], from: usize, name: &str) -> (r: bool)
    requires
        from <= raw@.len(),
    ensures
        r == is_named(raw@.skip(from as int), name),
{
    eq_ignore_ascii_case_from(raw, from, name.as_bytes())
}


/// Element names inside a `207 Multi-Status` body: the union of the DAV core,
/// CalDAV and CardDAV element sets, plus `Other` for anything else.
#[derive(Clone, Copy, PartialEq, Eq, Structural, Debug)]
#[non_exhaustive]
pub enum ElementName {
    Multistatus,
    Response,
    Propstat,
    Prop,
    Href,
    Status,
    Displayname,
    Getetag,
    Resourcetype,
    Collection,
    Calendar,
    SupportedCalendarComponentSet,
    Comp,
    CalendarData,
    CalendarDescription,
    CalendarTimezone,
    CalendarColor,
    SyncToken,
    CalendarHomeSet,
    CurrentUserPrincipal,
    Owner,
    Getcontenttype,
    Getlastmodified,
    Other,
    Addressbook,
    SupportedAddressData,
    AddressDataType,
    AddressData,
    AddressbookDescription,
    AddressbookColor,
    AddressbookHomeSet,
    MaxResourceSize,
    SupportedCalendarData,
    CalendarDataType,
    MaxAttendeesPerInstance,
    ScheduleInboxUrl,
    ScheduleOutboxUrl,
    CalendarUserAddressSet,
    ManagedId,
    CurrentUserPrivilegeSet,
    Privilege,
}

/// The element a local name denotes (ASCII-case-insensitive).
pub open spec fn element_of(local: Seq<u8>) -> ElementName {
    if is_named(local, "multistatus") {
        ElementName::Multistatus
    } else if is_named(local, "response") {
        ElementName::Response
    } else if is_named(local, "propstat") {
        ElementName::Propstat
    } else if is_named(local, "prop") {
        ElementName::Prop
    } else if is_named(local, "href") {
        ElementName::Href
    } else if is_named(local, "status") {
        ElementName::Status
    } else if is_named(local, "displayname") {
        ElementName::Displayname
    } else if is_named(local, "getetag") {
        ElementName::Getetag
    } else if is_named(local, "resourcetype") {
        ElementName::Resourcetype
    } else if is_named(local, "collection") {
        ElementName::Collection
    } else if is_named(local, "calendar") {
        ElementName::Calendar
    } else if is_named(local, "supported-calendar-component-set") {
        ElementName::SupportedCalendarComponentSet
    } else if is_named(local, "comp") {
        ElementName::Comp
    } else if is_named(local, "calendar-data") {
        ElementName::CalendarData
    } else if is_named(local, "calendar-description") {
        ElementName::CalendarDescription
    } else if is_named(local, "calendar-timezone") {
        ElementName::CalendarTimezone
    } else if is_named(local, "calendar-color") {
        ElementName::CalendarColor
    } else if is_named(local, "sync-token") {
        ElementName::SyncToken
    } else if is_named(local, "calendar-home-set") {
        ElementName::CalendarHomeSet
    } else if is_named(local, "addressbook") {
        ElementName::Addressbook
    } else if is_named(local, "supported-address-data") {
        ElementName::SupportedAddressData
    } else if is_named(local, "address-data-type") {
        ElementName::AddressDataType
    } else if is_named(local, "address-data") {
        ElementName::AddressData
    } else if is_named(local, "addressbook-description") {
        ElementName::AddressbookDescription
    } else if is_named(local, "addressbook-color") {
        ElementName::AddressbookColor
    } else if is_named(local, "addressbook-home-set") {
        ElementName::AddressbookHomeSet
    } else if is_named(local, "max-resource-size") {
        ElementName::MaxResourceSize
    } else if is_named(local, "supported-calendar-data") {
        ElementName::SupportedCalendarData
    } else if is_named(local, "calendar-data-type") {
        ElementName::CalendarDataType
    } else if is_named(local, "max-attendees-per-instance") {
        ElementName::MaxAttendeesPerInstance
    } else if is_named(local, "current-user-principal") {
        ElementName::CurrentUserPrincipal
    } else if is_named(local, "schedule-inbox-url") {
        ElementName::ScheduleInboxUrl
    } else if is_named(local, "schedule-outbox-url") {
        ElementName::ScheduleOutboxUrl
    } else if is_named(local, "calendar-user-address-set") {
        ElementName::CalendarUserAddressSet
    } else if is_named(local, "managed-id") {
        ElementName::ManagedId
    } else if is_named(local, "current-user-privilege-set") {
        ElementName::CurrentUserPrivilegeSet
    } else if is_named(local, "privilege") {
        ElementName::Privilege
    } else if is_named(local, "owner") {
        ElementName::Owner
    } else if is_named(local, "getcontenttype") {
        ElementName::Getcontenttype
    } else if is_named(local, "getlastmodified") {
        ElementName::Getlastmodified
    } else {
        ElementName::Other
    }
}

/// Map a raw XML element name (`prefix:local` or `local`) to an
/// [`ElementName`]: the prefix is stripped and the local name is matched
/// ignoring ASCII case, so `<D:HREF>`, `<d:Href>` and `<href>` all denote
/// [`ElementName::Href`].
pub fn element_from_bytes(raw: &[u8]) -> (r: ElementName)
    ensures
        r == element_of(local_name(raw@)),
{
    let s = local_start_exec(raw);
    if named_from(raw, s, "multistatus") {
        ElementName::Multistatus
    } else if named_from(raw, s, "response") {
        ElementName::Response
    } else if named_from(raw, s, "propstat") {
        ElementName::Propstat
    } else if named_from(raw, s, "prop") {
        ElementName::Prop
    } else if named_from(raw, s, "href") {
        ElementName::Href
    } else if named_from(raw, s, "status") {
        ElementName::Status
    } else if named_from(raw, s, "displayname") {
        ElementName::Displayname
    } else if named_from(raw, s, "getetag") {
        ElementName::Getetag
    } else if named_from(raw, s, "resourcetype") {
        ElementName::Resourcetype
    } else if named_from(raw, s, "collection") {
        ElementName::Collection
    } else if named_from(raw, s, "calendar") {
        ElementName::Calendar
    } else if named_from(raw, s, "supported-calendar-component-set") {
        ElementName::SupportedCalendarComponentSet
    } else if named_from(raw, s, "comp") {
        ElementName::Comp
    } else if named_from(raw, s, "calendar-data") {
        ElementName::CalendarData
    } else if named_from(raw, s, "calendar-description") {
        ElementName::CalendarDescription
    } else if named_from(raw, s, "calendar-timezone") {
        ElementName::CalendarTimezone
    } else if named_from(raw, s, "calendar-color") {
        ElementName::CalendarColor
    } else if named_from(raw, s, "sync-token") {
        ElementName::SyncToken
    } else if named_from(raw, s, "calendar-home-set") {
        ElementName::CalendarHomeSet
    } else if named_from(raw, s, "addressbook") {
        ElementName::Addressbook
    } else if named_from(raw, s, "supported-address-data") {
        ElementName::SupportedAddressData
    } else if named_from(raw, s, "address-data-type") {
        ElementName::AddressDataType
    } else if named_from(raw, s, "address-data") {
        ElementName::AddressData
    } else if named_from(raw, s, "addressbook-description") {
        ElementName::AddressbookDescription
    } else if named_from(raw, s, "addressbook-color") {
        ElementName::AddressbookColor
    } else if named_from(raw, s, "addressbook-home-set") {
        ElementName::AddressbookHomeSet
    } else if named_from(raw, s, "max-resource-size") {
        ElementName::MaxResourceSize
    } else if named_from(raw, s, "supported-calendar-data") {
        ElementName::SupportedCalendarData
    } else if named_from(raw, s, "calendar-data-type") {
        ElementName::CalendarDataType
    } else if named_from(raw, s, "max-attendees-per-instance") {
        ElementName::MaxAttendeesPerInstance
    } else if named_from(raw, s, "current-user-principal") {
        ElementName::CurrentUserPrincipal
    } else if named_from(raw, s, "schedule-inbox-url") {
        ElementName::ScheduleInboxUrl
    } else if named_from(raw, s, "schedule-outbox-url") {
        ElementName::ScheduleOutboxUrl
    } else if named_from(raw, s, "calendar-user-address-set") {
        ElementName::CalendarUserAddressSet
    } else if named_from(raw, s, "managed-id") {
        ElementName::ManagedId
    } else if named_from(raw, s, "current-user-privilege-set") {
        ElementName::CurrentUserPrivilegeSet
    } else if named_from(raw, s, "privilege") {
        ElementName::Privilege
    } else if named_from(raw, s, "owner") {
        ElementName::Owner
    } else if named_from(raw, s, "getcontenttype") {
        ElementName::Getcontenttype
    } else if named_from(raw, s, "getlastmodified") {
        ElementName::Getlastmodified
    } else {
        ElementName::Other
    }
}

/// The variant's name, as `Debug` prints it.
pub open spec fn element_label(e: ElementName) -> Seq<char> {
    match e {
        ElementName::Multistatus => "Multistatus"@,
        ElementName::Response => "Response"@,
        ElementName::Propstat => "Propstat"@,
        ElementName::Prop => "Prop"@,
        ElementName::Href => "Href"@,
        ElementName::Status => "Status"@,
        ElementName::Displayname => "Displayname"@,
        ElementName::Getetag => "Getetag"@,
        ElementName::Resourcetype => "Resourcetype"@,
        ElementName::Collection => "Collection"@,
        ElementName::Calendar => "Calendar"@,
        ElementName::SupportedCalendarComponentSet => "SupportedCalendarComponentSet"@,
        ElementName::Comp => "Comp"@,
        ElementName::CalendarData => "CalendarData"@,
        ElementName::CalendarDescription => "CalendarDescription"@,
        ElementName::CalendarTimezone => "CalendarTimezone"@,
        ElementName::CalendarColor => "CalendarColor"@,
        ElementName::SyncToken => "SyncToken"@,
        ElementName::CalendarHomeSet => "CalendarHomeSet"@,
        ElementName::CurrentUserPrincipal => "CurrentUserPrincipal"@,
        ElementName::Owner => "Owner"@,
        ElementName::Getcontenttype => "Getcontenttype"@,
        ElementName::Getlastmodified => "Getlastmodified"@,
        ElementName::Other => "Other"@,
        ElementName::Addressbook => "Addressbook"@,
        ElementName::SupportedAddressData => "SupportedAddressData"@,
        ElementName::AddressDataType => "AddressDataType"@,
        ElementName::AddressData => "AddressData"@,
        ElementName::AddressbookDescription => "AddressbookDescription"@,
        ElementName::AddressbookColor => "AddressbookColor"@,
        ElementName::AddressbookHomeSet => "AddressbookHomeSet"@,
        ElementName::MaxResourceSize => "MaxResourceSize"@,
        ElementName::SupportedCalendarData => "SupportedCalendarData"@,
        ElementName::CalendarDataType => "CalendarDataType"@,
        ElementName::MaxAttendeesPerInstance => "MaxAttendeesPerInstance"@,
        ElementName::ScheduleInboxUrl => "ScheduleInboxUrl"@,
        ElementName::ScheduleOutboxUrl => "ScheduleOutboxUrl"@,
        ElementName::CalendarUserAddressSet => "CalendarUserAddressSet"@,
        ElementName::ManagedId => "ManagedId"@,
        ElementName::CurrentUserPrivilegeSet => "CurrentUserPrivilegeSet"@,
        ElementName::Privilege => "Privilege"@,
    }
}

impl ElementName {
    /// The variant's name, as `Debug` prints it.
    pub fn label(&self) -> (r: &'static str)
        ensures
            r@ == element_label(*self),
    {
        match self {
            ElementName::Multistatus => "Multistatus",
            ElementName::Response => "Response",
            ElementName::Propstat => "Propstat",
            ElementName::Prop => "Prop",
            ElementName::Href => "Href",
            ElementName::Status => "Status",
            ElementName::Displayname => "Displayname",
            ElementName::Getetag => "Getetag",
            ElementName::Resourcetype => "Resourcetype",
            ElementName::Collection => "Collection",
            ElementName::Calendar => "Calendar",
            ElementName::SupportedCalendarComponentSet => "SupportedCalendarComponentSet",
            ElementName::Comp => "Comp",
            ElementName::CalendarData => "CalendarData",
            ElementName::CalendarDescription => "CalendarDescription",
            ElementName::CalendarTimezone => "CalendarTimezone",
            ElementName::CalendarColor => "CalendarColor",
            ElementName::SyncToken => "SyncToken",
            ElementName::CalendarHomeSet => "CalendarHomeSet",
            ElementName::CurrentUserPrincipal => "CurrentUserPrincipal",
            ElementName::Owner => "Owner",
            ElementName::Getcontenttype => "Getcontenttype",
            ElementName::Getlastmodified => "Getlastmodified",
            ElementName::Other => "Other",
            ElementName::Addressbook => "Addressbook",
            ElementName::SupportedAddressData => "SupportedAddressData",
            ElementName::AddressDataType => "AddressDataType",
            ElementName::AddressData => "AddressData",
            ElementName::AddressbookDescription => "AddressbookDescription",
            ElementName::AddressbookColor => "AddressbookColor",
            ElementName::AddressbookHomeSet => "AddressbookHomeSet",
            ElementName::MaxResourceSize => "MaxResourceSize",
            ElementName::SupportedCalendarData => "SupportedCalendarData",
            ElementName::CalendarDataType => "CalendarDataType",
            ElementName::MaxAttendeesPerInstance => "MaxAttendeesPerInstance",
            ElementName::ScheduleInboxUrl => "ScheduleInboxUrl",
            ElementName::ScheduleOutboxUrl => "ScheduleOutboxUrl",
            ElementName::CalendarUserAddressSet => "CalendarUserAddressSet",
            ElementName::ManagedId => "ManagedId",
            ElementName::CurrentUserPrivilegeSet => "CurrentUserPrivilegeSet",
            ElementName::Privilege => "Privilege",
        }
    }
}

/// The shape every recognized element name has: it begins with a byte
/// other than `(` and holds no `:`.
pub open spec fn plain_name_shape(x: Seq<u8>) -> bool {
    x.len() > 0 && x[0] != 0x28u8 && forall|j: int| 0 <= j < x.len() ==> #[trigger] x[j] != 0x3au8
}

proof fn lemma_literal_shape(lit: &str)
    requires
        is_ascii(lit),
        lit@.len() > 0,
        lit@[0] != '(',
        forall|j: int| 0 <= j < lit@.len() ==> #[trigger] lit@[j] != ':',
    ensures
        plain_name_shape(lit.spec_bytes()),
{
    is_ascii_spec_bytes(lit);
    let b = lit.spec_bytes();
    assert forall|j: int| 0 <= j < b.len() implies #[trigger] b[j] != 0x3au8 by {
        assert(b[j] == lit@[j] as u8);
        assert(lit@[j] != ':');
    }
    assert(b[0] == lit@[0] as u8);
}

proof fn lemma_named_shape(local: Seq<u8>, lit: &str)
    requires
        is_named(local, lit),
        plain_name_shape(lit.spec_bytes()),
    ensures
        plain_name_shape(local),
{
    let b = lit.spec_bytes();
    assert(ascii_lower(local[0]) == ascii_lower(b[0]));
    assert forall|j: int| 0 <= j < local.len() implies #[trigger] local[j] != 0x3au8 by {
        assert(ascii_lower(local[j]) == ascii_lower(b[j]));
        assert(b[j] != 0x3au8);
    }
}

/// Every recognized element name has the plain shape.
#[verifier::spinoff_prover]
pub proof fn lemma_recognized_shape(local: Seq<u8>)
    requires
        element_of(local) != ElementName::Other,
    ensures
        plain_name_shape(local),
{
    reveal_strlit("multistatus");
    lemma_literal_shape("multistatus");
    if is_named(local, "multistatus") {
        lemma_named_shape(local, "multistatus");
    }
    reveal_strlit("response");
    lemma_literal_shape("response");
    if is_named(local, "response") {
        lemma_named_shape(local, "response");
    }
    reveal_strlit("propstat");
    lemma_literal_shape("propstat");
    if is_named(local, "propstat") {
        lemma_named_shape(local, "propstat");
    }
    reveal_strlit("prop");
    lemma_literal_shape("prop");
    if is_named(local, "prop") {
        lemma_named_shape(local, "prop");
    }
    reveal_strlit("href");
    lemma_literal_shape("href");
    if is_named(local, "href") {
        lemma_named_shape(local, "href");
    }
    reveal_strlit("status");
    lemma_literal_shape("status");
    if is_named(local, "status") {
        lemma_named_shape(local, "status");
    }
    reveal_strlit("displayname");
    lemma_literal_shape("displayname");
    if is_named(local, "displayname") {
        lemma_named_shape(local, "displayname");
    }
    reveal_strlit("getetag");
    lemma_literal_shape("getetag");
    if is_named(local, "getetag") {
        lemma_named_shape(local, "getetag");
    }
    reveal_strlit("resourcetype");
    lemma_literal_shape("resourcetype");
    if is_named(local, "resourcetype") {
        lemma_named_shape(local, "resourcetype");
    }
    reveal_strlit("collection");
    lemma_literal_shape("collection");
    if is_named(local, "collection") {
        lemma_named_shape(local, "collection");
    }
    reveal_strlit("calendar");
    lemma_literal_shape("calendar");
    if is_named(local, "calendar") {
        lemma_named_shape(local, "calendar");
    }
    reveal_strlit("supported-calendar-component-set");
    lemma_literal_shape("supported-calendar-component-set");
    if is_named(local, "supported-calendar-component-set") {
        lemma_named_shape(local, "supported-calendar-component-set");
    }
    reveal_strlit("comp");
    lemma_literal_shape("comp");
    if is_named(local, "comp") {
        lemma_named_shape(local, "comp");
    }
    reveal_strlit("calendar-data");
    lemma_literal_shape("calendar-data");
    if is_named(local, "calendar-data") {
        lemma_named_shape(local, "calendar-data");
    }
    reveal_strlit("calendar-description");
    lemma_literal_shape("calendar-description");
    if is_named(local, "calendar-description") {
        lemma_named_shape(local, "calendar-description");
    }
    reveal_strlit("calendar-timezone");
    lemma_literal_shape("calendar-timezone");
    if is_named(local, "calendar-timezone") {
        lemma_named_shape(local, "calendar-timezone");
    }
    reveal_strlit("calendar-color");
    lemma_literal_shape("calendar-color");
    if is_named(local, "calendar-color") {
        lemma_named_shape(local, "calendar-color");
    }
    reveal_strlit("sync-token");
    lemma_literal_shape("sync-token");
    if is_named(local, "sync-token") {
        lemma_named_shape(local, "sync-token");
    }
    reveal_strlit("calendar-home-set");
    lemma_literal_shape("calendar-home-set");
    if is_named(local, "calendar-home-set") {
        lemma_named_shape(local, "calendar-home-set");
    }
    reveal_strlit("addressbook");
    lemma_literal_shape("addressbook");
    if is_named(local, "addressbook") {
        lemma_named_shape(local, "addressbook");
    }
    reveal_strlit("supported-address-data");
    lemma_literal_shape("supported-address-data");
    if is_named(local, "supported-address-data") {
        lemma_named_shape(local, "supported-address-data");
    }
    reveal_strlit("address-data-type");
    lemma_literal_shape("address-data-type");
    if is_named(local, "address-data-type") {
        lemma_named_shape(local, "address-data-type");
    }
    reveal_strlit("address-data");
    lemma_literal_shape("address-data");
    if is_named(local, "address-data") {
        lemma_named_shape(local, "address-data");
    }
    reveal_strlit("addressbook-description");
    lemma_literal_shape("addressbook-description");
    if is_named(local, "addressbook-description") {
        lemma_named_shape(local, "addressbook-description");
    }
    reveal_strlit("addressbook-color");
    lemma_literal_shape("addressbook-color");
    if is_named(local, "addressbook-color") {
        lemma_named_shape(local, "addressbook-color");
    }
    reveal_strlit("addressbook-home-set");
    lemma_literal_shape("addressbook-home-set");
    if is_named(local, "addressbook-home-set") {
        lemma_named_shape(local, "addressbook-home-set");
    }
    reveal_strlit("max-resource-size");
    lemma_literal_shape("max-resource-size");
    if is_named(local, "max-resource-size") {
        lemma_named_shape(local, "max-resource-size");
    }
    reveal_strlit("supported-calendar-data");
    lemma_literal_shape("supported-calendar-data");
    if is_named(local, "supported-calendar-data") {
        lemma_named_shape(local, "supported-calendar-data");
    }
    reveal_strlit("calendar-data-type");
    lemma_literal_shape("calendar-data-type");
    if is_named(local, "calendar-data-type") {
        lemma_named_shape(local, "calendar-data-type");
    }
    reveal_strlit("max-attendees-per-instance");
    lemma_literal_shape("max-attendees-per-instance");
    if is_named(local, "max-attendees-per-instance") {
        lemma_named_shape(local, "max-attendees-per-instance");
    }
    reveal_strlit("current-user-principal");
    lemma_literal_shape("current-user-principal");
    if is_named(local, "current-user-principal") {
        lemma_named_shape(local, "current-user-principal");
    }
    reveal_strlit("schedule-inbox-url");
    lemma_literal_shape("schedule-inbox-url");
    if is_named(local, "schedule-inbox-url") {
        lemma_named_shape(local, "schedule-inbox-url");
    }
    reveal_strlit("schedule-outbox-url");
    lemma_literal_shape("schedule-outbox-url");
    if is_named(local, "schedule-outbox-url") {
        lemma_named_shape(local, "schedule-outbox-url");
    }
    reveal_strlit("calendar-user-address-set");
    lemma_literal_shape("calendar-user-address-set");
    if is_named(local, "calendar-user-address-set") {
        lemma_named_shape(local, "calendar-user-address-set");
    }
    reveal_strlit("managed-id");
    lemma_literal_shape("managed-id");
    if is_named(local, "managed-id") {
        lemma_named_shape(local, "managed-id");
    }
    reveal_strlit("current-user-privilege-set");
    lemma_literal_shape("current-user-privilege-set");
    if is_named(local, "current-user-privilege-set") {
        lemma_named_shape(local, "current-user-privilege-set");
    }
    reveal_strlit("privilege");
    lemma_literal_shape("privilege");
    if is_named(local, "privilege") {
        lemma_named_shape(local, "privilege");
    }
    reveal_strlit("owner");
    lemma_literal_shape("owner");
    if is_named(local, "owner") {
        lemma_named_shape(local, "owner");
    }
    reveal_strlit("getcontenttype");
    lemma_literal_shape("getcontenttype");
    if is_named(local, "getcontenttype") {
        lemma_named_shape(local, "getcontenttype");
    }
    reveal_strlit("getlastmodified");
    lemma_literal_shape("getlastmodified");
    if is_named(local, "getlastmodified") {
        lemma_named_shape(local, "getlastmodified");
    }
}

/// Names that agree but for ASCII case are named alike.
proof fn lemma_named_case(u: Seq<u8>, l: Seq<u8>, lit: &str)
    requires
        u.len() == l.len(),
        forall|i: int| 0 <= i < u.len() ==> #[trigger] ascii_lower(u[i]) == ascii_lower(l[i]),
    ensures
        is_named(u, lit) == is_named(l, lit),
{
    let b = lit.spec_bytes();
    if is_named(l, lit) {
        assert forall|i: int| 0 <= i < u.len() implies ascii_lower(#[trigger] u[i]) == ascii_lower(b[i]) by {
            assert(ascii_lower(u[i]) == ascii_lower(l[i]));
            assert(ascii_lower(l[i]) == ascii_lower(b[i]));
        }
    }
    if is_named(u, lit) {
        assert forall|i: int| 0 <= i < l.len() implies ascii_lower(#[trigger] l[i]) == ascii_lower(b[i]) by {
            assert(ascii_lower(u[i]) == ascii_lower(l[i]));
            assert(ascii_lower(u[i]) == ascii_lower(b[i]));
        }
    }
}

/// Which element a local name names ignores ASCII case.
#[verifier::spinoff_prover]
pub proof fn lemma_element_ignores_case(u: Seq<u8>, l: Seq<u8>)
    requires
        u.len() == l.len(),
        forall|i: int| 0 <= i < u.len() ==> #[trigger] ascii_lower(u[i]) == ascii_lower(l[i]),
    ensures
        element_of(u) == element_of(l),
{
    lemma_named_case(u, l, "multistatus");
    lemma_named_case(u, l, "response");
    lemma_named_case(u, l, "propstat");
    lemma_named_case(u, l, "prop");
    lemma_named_case(u, l, "href");
    lemma_named_case(u, l, "status");
    lemma_named_case(u, l, "displayname");
    lemma_named_case(u, l, "getetag");
    lemma_named_case(u, l, "resourcetype");
    lemma_named_case(u, l, "collection");
    lemma_named_case(u, l, "calendar");
    lemma_named_case(u, l, "supported-calendar-component-set");
    lemma_named_case(u, l, "comp");
    lemma_named_case(u, l, "calendar-data");
    lemma_named_case(u, l, "calendar-description");
    lemma_named_case(u, l, "calendar-timezone");
    lemma_named_case(u, l, "calendar-color");
    lemma_named_case(u, l, "sync-token");
    lemma_named_case(u, l, "calendar-home-set");
    lemma_named_case(u, l, "addressbook");
    lemma_named_case(u, l, "supported-address-data");
    lemma_named_case(u, l, "address-data-type");
    lemma_named_case(u, l, "address-data");
    lemma_named_case(u, l, "addressbook-description");
    lemma_named_case(u, l, "addressbook-color");
    lemma_named_case(u, l, "addressbook-home-set");
    lemma_named_case(u, l, "max-resource-size");
    lemma_named_case(u, l, "supported-calendar-data");
    lemma_named_case(u, l, "calendar-data-type");
    lemma_named_case(u, l, "max-attendees-per-instance");
    lemma_named_case(u, l, "current-user-principal");
    lemma_named_case(u, l, "schedule-inbox-url");
    lemma_named_case(u, l, "schedule-outbox-url");
    lemma_named_case(u, l, "calendar-user-address-set");
    lemma_named_case(u, l, "managed-id");
    lemma_named_case(u, l, "current-user-privilege-set");
    lemma_named_case(u, l, "privilege");
    lemma_named_case(u, l, "owner");
    lemma_named_case(u, l, "getcontenttype");
    lemma_named_case(u, l, "getlastmodified");
}

/// A raw name's prefix does not decide which element it names: `p:l`
/// (with no `:` in `p` or `l`) is read as the local name `l`, as `l` alone
/// is.
pub proof fn lemma_element_ignores_prefix(p: Seq<u8>, l: Seq<u8>)
    requires
        !p.contains(0x3au8),
        !l.contains(0x3au8),
    ensures
        local_name(p + seq![0x3au8] + l) == l,
        local_name(l) == l,
        element_of(local_name(p + seq![0x3au8] + l)) == element_of(local_name(l)),
{
    let raw = p + seq![0x3au8] + l;
    lemma_colon_index(raw);
    lemma_colon_index(l);
    assert(raw[p.len() as int] == 0x3au8);
    assert forall|j: int| 0 <= j < p.len() implies raw[j] != 0x3au8 by {
        assert(raw[j] == p[j]);
    }
    if let Some(i) = colon_index(l) {
        assert(l.contains(l[i]));
    }
    assert(colon_index(raw) == Some(p.len() as int));
    assert(raw.skip(p.len() as int + 1) =~= l);
    assert(l.skip(0) =~= l);
}

} // verus!
