//! Values extracted from WebDAV responses, with their mathematical views.

use vstd::prelude::*;

verus! {

pub open spec fn opt_chars(o: Option<String>) -> Option<Seq<char>> {
    match o {
        Some(s) => Some(s@),
        None => None,
    }
}

/// A single `<D:propstat>` group within a `<D:response>` (RFC 4918 §13.1).
#[derive(Clone, Debug)]
#[non_exhaustive]
pub struct PropStat {
    /// The status line for this group (e.g. `"HTTP/1.1 200 OK"`).
    pub status: Option<String>,
    /// Local names of the properties in this group.
    pub prop_names: Vec<String>,
}

pub struct PropStatView {
    pub status: Option<Seq<char>>,
    pub prop_names: Seq<Seq<char>>,
}

impl DeepView for PropStat {
    type V = PropStatView;

    open spec fn deep_view(&self) -> PropStatView {
        PropStatView { status: opt_chars(self.status), prop_names: self.prop_names.deep_view() }
    }
}

/// Common fields extracted from a WebDAV `<D:response>`.
#[derive(Clone, Debug)]
#[non_exhaustive]
pub struct DavItemCommon {
    pub href: String,
    pub status: Option<String>,
    pub displayname: Option<String>,
    pub etag: Option<String>,
    pub is_collection: bool,
    pub sync_token: Option<String>,
    pub current_user_principal: Vec<String>,
    pub owner: Option<String>,
    pub content_type: Option<String>,
    pub last_modified: Option<String>,
    /// The `<D:propstat>` groups of this response (RFC 4918 §13.1).
    pub propstats: Vec<PropStat>,
    /// Response-level `<D:status>`, if present.
    pub response_status: Option<String>,
}

pub struct DavItemCommonView {
    pub href: Seq<char>,
    pub status: Option<Seq<char>>,
    pub displayname: Option<Seq<char>>,
    pub etag: Option<Seq<char>>,
    pub is_collection: bool,
    pub sync_token: Option<Seq<char>>,
    pub current_user_principal: Seq<Seq<char>>,
    pub owner: Option<Seq<char>>,
    pub content_type: Option<Seq<char>>,
    pub last_modified: Option<Seq<char>>,
    pub propstats: Seq<PropStatView>,
    pub response_status: Option<Seq<char>>,
}

impl View for DavItemCommon {
    type V = DavItemCommonView;

    open spec fn view(&self) -> DavItemCommonView {
        DavItemCommonView {
            href: self.href@,
            status: opt_chars(self.status),
            displayname: opt_chars(self.displayname),
            etag: opt_chars(self.etag),
            is_collection: self.is_collection,
            sync_token: opt_chars(self.sync_token),
            current_user_principal: self.current_user_principal.deep_view(),
            owner: opt_chars(self.owner),
            content_type: opt_chars(self.content_type),
            last_modified: opt_chars(self.last_modified),
            propstats: self.propstats.deep_view(),
            response_status: opt_chars(self.response_status),
        }
    }
}

/// The common fields of a response before anything was read.
pub open spec fn empty_common() -> DavItemCommonView {
    DavItemCommonView {
        href: Seq::empty(),
        status: None,
        displayname: None,
        etag: None,
        is_collection: false,
        sync_token: None,
        current_user_principal: Seq::empty(),
        owner: None,
        content_type: None,
        last_modified: None,
        propstats: Seq::empty(),
        response_status: None,
    }
}

impl DavItemCommon {
    /// Empty common fields.
    pub fn new() -> (r: DavItemCommon)
        ensures
            r@ == empty_common(),
    {
        let r = DavItemCommon {
            href: String::new(),
            status: None,
            displayname: None,
            etag: None,
            is_collection: false,
            sync_token: None,
            current_user_principal: Vec::new(),
            owner: None,
            content_type: None,
            last_modified: None,
            propstats: Vec::new(),
            response_status: None,
        };
        assert(r.current_user_principal.deep_view() =~= Seq::<Seq<char>>::empty());
        assert(r.propstats.deep_view() =~= Seq::<PropStatView>::empty());
        r
    }
}

impl Default for DavItemCommon {
    fn default() -> (r: DavItemCommon)
        ensures
            r@ == empty_common(),
    {
        DavItemCommon::new()
    }
}


/// A media type advertised through `supported-calendar-data` (RFC 4791 §5.2.6).
#[derive(Clone, Debug)]
#[non_exhaustive]
pub struct MediaType {
    /// The MIME content type (e.g. `text/calendar`).
    pub content_type: String,
    /// The optional version parameter (e.g. `2.0`).
    pub version: Option<String>,
}

pub struct MediaTypeView {
    pub content_type: Seq<char>,
    pub version: Option<Seq<char>>,
}

impl DeepView for MediaType {
    type V = MediaTypeView;

    open spec fn deep_view(&self) -> MediaTypeView {
        MediaTypeView { content_type: self.content_type@, version: opt_chars(self.version) }
    }
}

impl MediaType {
    /// A media type with the given content type and optional version.
    pub fn new(content_type: &str, version: Option<&str>) -> (r: MediaType)
        ensures
            r.deep_view() == (MediaTypeView {
                content_type: content_type@,
                version: match version {
                    Some(v) => Some(v@),
                    None => None,
                },
            }),
    {
        MediaType {
            content_type: content_type.to_owned(),
            version: match version {
                Some(v) => Some(v.to_owned()),
                None => None,
            },
        }
    }
}

/// A privilege granted to the current user (RFC 3744 §3, plus CalDAV's
/// `read-free-busy`, RFC 4791 §6.1.1).
#[derive(Clone, Debug)]
#[non_exhaustive]
pub enum Privilege {
    Read,
    Write,
    WriteProperties,
    WriteContent,
    Bind,
    Unbind,
    Unlock,
    ReadFreeBusy,
    /// Any other privilege, by local name.
    Other(String),
}

pub enum PrivilegeView {
    Read,
    Write,
    WriteProperties,
    WriteContent,
    Bind,
    Unbind,
    Unlock,
    ReadFreeBusy,
    Other(Seq<char>),
}

impl DeepView for Privilege {
    type V = PrivilegeView;

    open spec fn deep_view(&self) -> PrivilegeView {
        match self {
            Privilege::Read => PrivilegeView::Read,
            Privilege::Write => PrivilegeView::Write,
            Privilege::WriteProperties => PrivilegeView::WriteProperties,
            Privilege::WriteContent => PrivilegeView::WriteContent,
            Privilege::Bind => PrivilegeView::Bind,
            Privilege::Unbind => PrivilegeView::Unbind,
            Privilege::Unlock => PrivilegeView::Unlock,
            Privilege::ReadFreeBusy => PrivilegeView::ReadFreeBusy,
            Privilege::Other(s) => PrivilegeView::Other(s@),
        }
    }
}

/// An item extracted from a WebDAV `207 Multi-Status` response: the union
/// of the CalDAV and CardDAV item fields, of which only what the server
/// returned is filled.
#[derive(Clone, Debug)]
#[non_exhaustive]
pub struct DavItem {
    pub href: String,
    pub status: Option<String>,
    pub displayname: Option<String>,
    pub etag: Option<String>,
    pub is_collection: bool,
    /// `<C:calendar/>` under `resourcetype` (CalDAV).
    pub is_calendar: bool,
    /// `<CR:addressbook/>` under `resourcetype` (CardDAV).
    pub is_addressbook: bool,
    pub supported_components: Vec<String>,
    pub supported_address_data: Vec<String>,
    /// `max-resource-size` in octets; `None` when absent or unparseable.
    pub max_resource_size: Option<u64>,
    /// Media types from `supported-calendar-data`.
    pub supported_calendar_data: Vec<MediaType>,
    /// `max-attendees-per-instance`; `None` when absent or unparseable.
    pub max_attendees_per_instance: Option<u32>,
    pub calendar_data: Option<String>,
    pub address_data: Option<String>,
    pub calendar_home_set: Vec<String>,
    pub addressbook_home_set: Vec<String>,
    pub current_user_principal: Vec<String>,
    /// Privileges listed in `current-user-privilege-set`.
    pub current_user_privileges: Vec<Privilege>,
    pub owner: Option<String>,
    pub calendar_description: Option<String>,
    pub calendar_timezone: Option<String>,
    pub calendar_color: Option<String>,
    pub addressbook_description: Option<String>,
    pub addressbook_color: Option<String>,
    pub schedule_inbox: Option<String>,
    pub schedule_outbox: Option<String>,
    pub calendar_user_addresses: Vec<String>,
    /// Text of `managed-id` elements.
    pub managed_ids: Vec<String>,
    pub sync_token: Option<String>,
    pub content_type: Option<String>,
    pub last_modified: Option<String>,
    pub propstats: Vec<PropStat>,
    /// Response-level `<D:status>`, if present.
    pub response_status: Option<String>,
}

pub struct DavItemView {
    pub href: Seq<char>,
    pub status: Option<Seq<char>>,
    pub displayname: Option<Seq<char>>,
    pub etag: Option<Seq<char>>,
    pub is_collection: bool,
    pub is_calendar: bool,
    pub is_addressbook: bool,
    pub supported_components: Seq<Seq<char>>,
    pub supported_address_data: Seq<Seq<char>>,
    pub max_resource_size: Option<u64>,
    pub supported_calendar_data: Seq<MediaTypeView>,
    pub max_attendees_per_instance: Option<u32>,
    pub calendar_data: Option<Seq<char>>,
    pub address_data: Option<Seq<char>>,
    pub calendar_home_set: Seq<Seq<char>>,
    pub addressbook_home_set: Seq<Seq<char>>,
    pub current_user_principal: Seq<Seq<char>>,
    pub current_user_privileges: Seq<PrivilegeView>,
    pub owner: Option<Seq<char>>,
    pub calendar_description: Option<Seq<char>>,
    pub calendar_timezone: Option<Seq<char>>,
    pub calendar_color: Option<Seq<char>>,
    pub addressbook_description: Option<Seq<char>>,
    pub addressbook_color: Option<Seq<char>>,
    pub schedule_inbox: Option<Seq<char>>,
    pub schedule_outbox: Option<Seq<char>>,
    pub calendar_user_addresses: Seq<Seq<char>>,
    pub managed_ids: Seq<Seq<char>>,
    pub sync_token: Option<Seq<char>>,
    pub content_type: Option<Seq<char>>,
    pub last_modified: Option<Seq<char>>,
    pub propstats: Seq<PropStatView>,
    pub response_status: Option<Seq<char>>,
}

impl View for DavItem {
    type V = DavItemView;

    open spec fn view(&self) -> DavItemView {
        DavItemView {
            href: self.href@,
            status: opt_chars(self.status),
            displayname: opt_chars(self.displayname),
            etag: opt_chars(self.etag),
            is_collection: self.is_collection,
            is_calendar: self.is_calendar,
            is_addressbook: self.is_addressbook,
            supported_components: self.supported_components.deep_view(),
            supported_address_data: self.supported_address_data.deep_view(),
            max_resource_size: self.max_resource_size,
            supported_calendar_data: self.supported_calendar_data.deep_view(),
            max_attendees_per_instance: self.max_attendees_per_instance,
            calendar_data: opt_chars(self.calendar_data),
            address_data: opt_chars(self.address_data),
            calendar_home_set: self.calendar_home_set.deep_view(),
            addressbook_home_set: self.addressbook_home_set.deep_view(),
            current_user_principal: self.current_user_principal.deep_view(),
            current_user_privileges: self.current_user_privileges.deep_view(),
            owner: opt_chars(self.owner),
            calendar_description: opt_chars(self.calendar_description),
            calendar_timezone: opt_chars(self.calendar_timezone),
            calendar_color: opt_chars(self.calendar_color),
            addressbook_description: opt_chars(self.addressbook_description),
            addressbook_color: opt_chars(self.addressbook_color),
            schedule_inbox: opt_chars(self.schedule_inbox),
            schedule_outbox: opt_chars(self.schedule_outbox),
            calendar_user_addresses: self.calendar_user_addresses.deep_view(),
            managed_ids: self.managed_ids.deep_view(),
            sync_token: opt_chars(self.sync_token),
            content_type: opt_chars(self.content_type),
            last_modified: opt_chars(self.last_modified),
            propstats: self.propstats.deep_view(),
            response_status: opt_chars(self.response_status),
        }
    }
}

/// An item before anything was read.
pub open spec fn empty_item() -> DavItemView {
    DavItemView {
        href: Seq::empty(),
        status: None,
        displayname: None,
        etag: None,
        is_collection: false,
        is_calendar: false,
        is_addressbook: false,
        supported_components: Seq::empty(),
        supported_address_data: Seq::empty(),
        max_resource_size: None,
        supported_calendar_data: Seq::empty(),
        max_attendees_per_instance: None,
        calendar_data: None,
        address_data: None,
        calendar_home_set: Seq::empty(),
        addressbook_home_set: Seq::empty(),
        current_user_principal: Seq::empty(),
        current_user_privileges: Seq::empty(),
        owner: None,
        calendar_description: None,
        calendar_timezone: None,
        calendar_color: None,
        addressbook_description: None,
        addressbook_color: None,
        schedule_inbox: None,
        schedule_outbox: None,
        calendar_user_addresses: Seq::empty(),
        managed_ids: Seq::empty(),
        sync_token: None,
        content_type: None,
        last_modified: None,
        propstats: Seq::empty(),
        response_status: None,
    }
}

/// `item` with the common fields of `c` in place of its own.
pub open spec fn with_common(item: DavItemView, c: DavItemCommonView) -> DavItemView {
    DavItemView {
        href: c.href,
        status: c.status,
        displayname: c.displayname,
        etag: c.etag,
        is_collection: c.is_collection,
        sync_token: c.sync_token,
        current_user_principal: c.current_user_principal,
        owner: c.owner,
        content_type: c.content_type,
        last_modified: c.last_modified,
        propstats: c.propstats,
        response_status: c.response_status,
        ..item
    }
}

impl DavItem {
    /// An empty item.
    pub fn new() -> (r: DavItem)
        ensures
            r@ == empty_item(),
    {
        let r = DavItem {
            href: String::new(),
            status: None,
            displayname: None,
            etag: None,
            is_collection: false,
            is_calendar: false,
            is_addressbook: false,
            supported_components: Vec::new(),
            supported_address_data: Vec::new(),
            max_resource_size: None,
            supported_calendar_data: Vec::new(),
            max_attendees_per_instance: None,
            calendar_data: None,
            address_data: None,
            calendar_home_set: Vec::new(),
            addressbook_home_set: Vec::new(),
            current_user_principal: Vec::new(),
            current_user_privileges: Vec::new(),
            owner: None,
            calendar_description: None,
            calendar_timezone: None,
            calendar_color: None,
            addressbook_description: None,
            addressbook_color: None,
            schedule_inbox: None,
            schedule_outbox: None,
            calendar_user_addresses: Vec::new(),
            managed_ids: Vec::new(),
            sync_token: None,
            content_type: None,
            last_modified: None,
            propstats: Vec::new(),
            response_status: None,
        };
        assert(r.supported_components.deep_view() =~= Seq::<Seq<char>>::empty());
        assert(r.supported_address_data.deep_view() =~= Seq::<Seq<char>>::empty());
        assert(r.supported_calendar_data.deep_view() =~= Seq::<MediaTypeView>::empty());
        assert(r.calendar_home_set.deep_view() =~= Seq::<Seq<char>>::empty());
        assert(r.addressbook_home_set.deep_view() =~= Seq::<Seq<char>>::empty());
        assert(r.current_user_principal.deep_view() =~= Seq::<Seq<char>>::empty());
        assert(r.current_user_privileges.deep_view() =~= Seq::<PrivilegeView>::empty());
        assert(r.calendar_user_addresses.deep_view() =~= Seq::<Seq<char>>::empty());
        assert(r.managed_ids.deep_view() =~= Seq::<Seq<char>>::empty());
        assert(r.propstats.deep_view() =~= Seq::<PropStatView>::empty());
        r
    }

    /// Take over the common fields read for this response.
    pub fn apply_common(&mut self, common: DavItemCommon)
        ensures
            final(self)@ == with_common(old(self)@, common@),
    {
        self.href = common.href;
        self.status = common.status;
        self.displayname = common.displayname;
        self.etag = common.etag;
        self.is_collection = common.is_collection;
        self.sync_token = common.sync_token;
        self.current_user_principal = common.current_user_principal;
        self.owner = common.owner;
        self.content_type = common.content_type;
        self.last_modified = common.last_modified;
        self.propstats = common.propstats;
        self.response_status = common.response_status;
    }
}

impl Default for DavItem {
    fn default() -> (r: DavItem)
        ensures
            r@ == empty_item(),
    {
        DavItem::new()
    }
}

/// WebDAV `Depth` (RFC 4918 §10.2).
#[derive(Clone, Copy, PartialEq, Eq, Structural, Debug)]
#[non_exhaustive]
pub enum Depth {
    Zero,
    One,
    Infinity,
}

pub open spec fn depth_text(d: Depth) -> Seq<char> {
    match d {
        Depth::Zero => "0"@,
        Depth::One => "1"@,
        Depth::Infinity => "infinity"@,
    }
}

impl Depth {
    /// The header value: `0`, `1` or `infinity`.
    pub fn as_str(self) -> (r: &'static str)
        ensures
            r@ == depth_text(self),
    {
        match self {
            Depth::Zero => "0",
            Depth::One => "1",
            Depth::Infinity => "infinity",
        }
    }
}

/// Scope of a lock (RFC 4918 §14.13).
#[derive(Clone, Copy, PartialEq, Eq, Structural, Debug)]
#[non_exhaustive]
pub enum LockScope {
    Exclusive,
    Shared,
}

/// The first `<D:activelock>` of a lock discovery (RFC 4918 §14.1).
#[derive(Clone, Debug)]
#[non_exhaustive]
pub struct LockInfo {
    /// The lock token (`opaquelocktoken:...`); empty when absent.
    pub token: String,
    /// The `Timeout` in seconds; `None` when absent, `Infinite` or unparseable.
    pub timeout_secs: Option<u64>,
    pub scope: Option<LockScope>,
    /// The owner's `href` (or text).
    pub owner: Option<String>,
    /// The `lockroot` href.
    pub lockroot: Option<String>,
    pub depth: Option<Depth>,
}

pub struct LockInfoView {
    pub token: Seq<char>,
    pub timeout_secs: Option<u64>,
    pub scope: Option<LockScope>,
    pub owner: Option<Seq<char>>,
    pub lockroot: Option<Seq<char>>,
    pub depth: Option<Depth>,
}

impl View for LockInfo {
    type V = LockInfoView;

    open spec fn view(&self) -> LockInfoView {
        LockInfoView {
            token: self.token@,
            timeout_secs: self.timeout_secs,
            scope: self.scope,
            owner: opt_chars(self.owner),
            lockroot: opt_chars(self.lockroot),
            depth: self.depth,
        }
    }
}

/// A lock discovery with nothing found.
pub open spec fn empty_lock() -> LockInfoView {
    LockInfoView {
        token: Seq::empty(),
        timeout_secs: None,
        scope: None,
        owner: None,
        lockroot: None,
        depth: None,
    }
}

impl LockInfo {
    /// An empty lock description.
    pub fn new() -> (r: LockInfo)
        ensures
            r@ == empty_lock(),
    {
        LockInfo {
            token: String::new(),
            timeout_secs: None,
            scope: None,
            owner: None,
            lockroot: None,
            depth: None,
        }
    }
}

impl Default for LockInfo {
    fn default() -> (r: LockInfo)
        ensures
            r@ == empty_lock(),
    {
        LockInfo::new()
    }
}

/// The precondition or postcondition named by a `<D:error>` body
/// (RFC 4918 §14.12).
#[derive(Clone, Debug)]
#[non_exhaustive]
pub struct WebDavError {
    /// The local name of the `<D:error>` child that names the failed
    /// condition (e.g. `no-uid-conflict`); `None` when there is none.
    pub precondition_code: Option<String>,
    /// Whether the body was not well-formed XML.
    pub parse_failed: bool,
}

pub struct WebDavErrorView {
    pub precondition_code: Option<Seq<char>>,
    pub parse_failed: bool,
}

impl View for WebDavError {
    type V = WebDavErrorView;

    open spec fn view(&self) -> WebDavErrorView {
        WebDavErrorView { precondition_code: opt_chars(self.precondition_code), parse_failed: self.parse_failed }
    }
}

/// Outcome of the WebDAV-Sync (RFC 6578) support probe.
#[derive(Clone, Copy, PartialEq, Eq, Structural, Debug)]
#[non_exhaustive]
pub enum SyncCapability {
    /// The server advertised or accepted the `sync-collection` report.
    Supported,
    /// The server answered and does not support the report.
    Unsupported,
    /// The probe could not determine support (network error).
    Unknown,
}

/// Scope of a `sync-collection` REPORT (RFC 6578 §3.3).
#[derive(Clone, Copy, PartialEq, Eq, Structural, Debug)]
#[non_exhaustive]
pub enum SyncLevel {
    /// The collection's members only.
    One,
    /// The collection and all its descendants.
    Infinite,
}

pub open spec fn sync_level_text(l: SyncLevel) -> Seq<char> {
    match l {
        SyncLevel::One => "1"@,
        SyncLevel::Infinite => "infinite"@,
    }
}

impl SyncLevel {
    /// The `<D:sync-level>` value: `1` or `infinite`.
    pub fn as_str(&self) -> (r: &'static str)
        ensures
            r@ == sync_level_text(*self),
    {
        match self {
            SyncLevel::One => "1",
            SyncLevel::Infinite => "infinite",
        }
    }
}

/// `Prefer` header preference (RFC 7240) supported by this client.
#[derive(Clone, Copy, PartialEq, Eq, Structural, Debug)]
#[non_exhaustive]
pub enum Prefer {
    /// `return=minimal`.
    Minimal,
    /// `return=representation`.
    Representation,
}

pub open spec fn prefer_text(p: Prefer) -> Seq<char> {
    match p {
        Prefer::Minimal => "return=minimal"@,
        Prefer::Representation => "return=representation"@,
    }
}

impl Prefer {
    /// The `Prefer` header value.
    pub fn as_str(&self) -> (r: &'static str)
        ensures
            r@ == prefer_text(*self),
    {
        match self {
            Prefer::Minimal => "return=minimal",
            Prefer::Representation => "return=representation",
        }
    }
}

/// Collation for `text-match` comparisons (RFC 4791 §8.4, RFC 6352 §7.3).
#[derive(Clone, Copy, PartialEq, Eq, Structural, Debug)]
#[non_exhaustive]
pub enum Collation {
    /// `i;unicode-casemap` (the default).
    UnicodeCasemap,
    /// `i;ascii-casemap`.
    AsciiCasemap,
}

pub open spec fn collation_text(c: Collation) -> Seq<char> {
    match c {
        Collation::UnicodeCasemap => "i;unicode-casemap"@,
        Collation::AsciiCasemap => "i;ascii-casemap"@,
    }
}

impl Collation {
    /// The collation identifier.
    pub fn as_str(&self) -> (r: &'static str)
        ensures
            r@ == collation_text(*self),
    {
        match self {
            Collation::UnicodeCasemap => "i;unicode-casemap",
            Collation::AsciiCasemap => "i;ascii-casemap",
        }
    }
}

impl Default for Collation {
    fn default() -> (r: Collation)
        ensures
            r == Collation::UnicodeCasemap,
    {
        Collation::UnicodeCasemap
    }
}

/// Match type for `text-match` comparisons.
#[derive(Clone, Copy, PartialEq, Eq, Structural, Debug)]
#[non_exhaustive]
pub enum MatchType {
    /// Exact match (the default).
    Equals,
    Contains,
    StartsWith,
    EndsWith,
}

pub open spec fn match_type_text(m: MatchType) -> Seq<char> {
    match m {
        MatchType::Equals => "equals"@,
        MatchType::Contains => "contains"@,
        MatchType::StartsWith => "starts-with"@,
        MatchType::EndsWith => "ends-with"@,
    }
}

impl MatchType {
    /// The match-type identifier.
    pub fn as_str(&self) -> (r: &'static str)
        ensures
            r@ == match_type_text(*self),
    {
        match self {
            MatchType::Equals => "equals",
            MatchType::Contains => "contains",
            MatchType::StartsWith => "starts-with",
            MatchType::EndsWith => "ends-with",
        }
    }
}

impl Default for MatchType {
    fn default() -> (r: MatchType)
        ensures
            r == MatchType::Equals,
    {
        MatchType::Equals
    }
}

/// A `text-match` condition (RFC 4791 §8.4, RFC 6352 §7.3).
#[derive(Clone, Debug)]
#[non_exhaustive]
pub struct TextMatch {
    /// The value to match against.
    pub value: String,
    pub collation: Collation,
    pub match_type: MatchType,
    /// Negate the condition (`negate-condition="yes"`).
    pub negate: bool,
}

impl TextMatch {
    /// A condition on `value` with the default collation and match type.
    pub fn new(value: &str) -> (r: TextMatch)
        ensures
            r.value@ == value@,
            r.collation == Collation::UnicodeCasemap,
            r.match_type == MatchType::Equals,
            !r.negate,
    {
        TextMatch { value: value.to_owned(), collation: Collation::UnicodeCasemap, match_type: MatchType::Equals, negate: false }
    }

    /// Set the collation.
    pub fn with_collation(self, collation: Collation) -> (r: TextMatch)
        ensures
            r.value@ == self.value@,
            r.collation == collation,
            r.match_type == self.match_type,
            r.negate == self.negate,
    {
        TextMatch { collation, ..self }
    }

    /// Set the match type.
    pub fn with_match_type(self, match_type: MatchType) -> (r: TextMatch)
        ensures
            r.value@ == self.value@,
            r.collation == self.collation,
            r.match_type == match_type,
            r.negate == self.negate,
    {
        TextMatch { match_type, ..self }
    }

    /// Negate the condition (or not).
    pub fn with_negate(self, negate: bool) -> (r: TextMatch)
        ensures
            r.value@ == self.value@,
            r.collation == self.collation,
            r.match_type == self.match_type,
            r.negate == negate,
    {
        TextMatch { negate, ..self }
    }

    /// The `<C:text-match>` element.
    pub fn to_xml(&self) -> (r: String)
        ensures
            r@ == crate::xml::text_match_spec(
                self.value@,
                collation_text(self.collation),
                match_type_text(self.match_type),
                self.negate,
            ),
    {
        crate::xml::text_match_xml(self.value.as_str(), self.collation.as_str(), self.match_type.as_str(), self.negate)
    }
}

/// A parameter filter inside a `prop-filter` (RFC 4791 §8.3).
#[derive(Clone, Debug)]
#[non_exhaustive]
pub struct ParamFilter {
    /// The parameter name (e.g. `PARTSTAT`).
    pub name: String,
    /// The condition on the parameter's value, if any.
    pub text_match: Option<TextMatch>,
    /// Match resources where the parameter is absent.
    pub is_not_defined: bool,
}

/// The inner element of a parameter filter.
pub open spec fn param_filter_inner(f: ParamFilter) -> Seq<char> {
    if f.is_not_defined {
        "<C:is-not-defined/>"@
    } else {
        match f.text_match {
            Some(tm) => crate::xml::text_match_spec(
                tm.value@,
                collation_text(tm.collation),
                match_type_text(tm.match_type),
                tm.negate,
            ),
            None => Seq::empty(),
        }
    }
}

impl ParamFilter {
    /// A filter matching the parameter `name` with `text_match`.
    pub fn new(name: &str, text_match: TextMatch) -> (r: ParamFilter)
        ensures
            r.name@ == name@,
            r.text_match == Some(text_match),
            !r.is_not_defined,
    {
        ParamFilter { name: name.to_owned(), text_match: Some(text_match), is_not_defined: false }
    }

    /// A filter matching resources where the parameter `name` is absent.
    pub fn not_defined(name: &str) -> (r: ParamFilter)
        ensures
            r.name@ == name@,
            r.text_match is None,
            r.is_not_defined,
    {
        ParamFilter { name: name.to_owned(), text_match: None, is_not_defined: true }
    }

    /// The `<C:param-filter>` element.
    pub fn to_xml(&self) -> (r: String)
        ensures
            r@ == crate::xml::named_filter_spec("param-filter"@, self.name@, param_filter_inner(*self)),
    {
        let inner: String = if self.is_not_defined {
            crate::xml::is_not_defined_xml().to_owned()
        } else {
            match &self.text_match {
                Some(tm) => tm.to_xml(),
                None => String::new(),
            }
        };
        crate::xml::param_filter_xml(self.name.as_str(), inner.as_str())
    }
}

/// Compliance classes and extensions advertised in a `DAV` header
/// (RFC 4918 §10.1).
#[derive(Clone, Debug)]
#[non_exhaustive]
pub struct DavCapabilities {
    pub class1: bool,
    pub class2: bool,
    pub class3: bool,
    /// Other tokens (e.g. `calendar-access`, `addressbook`), in order.
    pub extensions: Vec<String>,
}

pub struct DavCapabilitiesView {
    pub class1: bool,
    pub class2: bool,
    pub class3: bool,
    pub extensions: Seq<Seq<char>>,
}

impl View for DavCapabilities {
    type V = DavCapabilitiesView;

    open spec fn view(&self) -> DavCapabilitiesView {
        DavCapabilitiesView {
            class1: self.class1,
            class2: self.class2,
            class3: self.class3,
            extensions: self.extensions.deep_view(),
        }
    }
}

/// The capabilities the comma-separated tokens `parts` advertise, on top of
/// `c`: `1`, `2` and `3` set the classes; other non-empty tokens (trimmed)
/// are extensions.
pub open spec fn dav_tokens(c: DavCapabilitiesView, parts: Seq<Seq<char>>) -> DavCapabilitiesView
    decreases parts.len(),
{
    if parts.len() == 0 {
        c
    } else {
        let c1 = dav_tokens(c, parts.drop_last());
        let t = crate::text::trim(parts.last());
        if t.len() == 0 {
            c1
        } else if t == seq!['1'] {
            DavCapabilitiesView { class1: true, ..c1 }
        } else if t == seq!['2'] {
            DavCapabilitiesView { class2: true, ..c1 }
        } else if t == seq!['3'] {
            DavCapabilitiesView { class3: true, ..c1 }
        } else {
            DavCapabilitiesView { extensions: c1.extensions.push(t), ..c1 }
        }
    }
}

/// What a `DAV` header value advertises.
pub open spec fn dav_header_spec(value: Seq<char>) -> DavCapabilitiesView {
    dav_tokens(
        DavCapabilitiesView { class1: false, class2: false, class3: false, extensions: Seq::empty() },
        crate::text::split_on(value, ','),
    )
}

/// Parse a `DAV` response header value (RFC 4918 §10.1) into
/// [`DavCapabilities`] (see [`dav_header_spec`]); every value parses.
pub fn parse_dav_header(value: &str) -> (r: Result<DavCapabilities, crate::error::Error>)
    ensures
        r matches Ok(c) && c@ == dav_header_spec(value@),
{
    let v = crate::text::chars_of(value);
    let parts = crate::text::split_chars(&v, ',');
    let mut caps = DavCapabilities { class1: false, class2: false, class3: false, extensions: Vec::new() };
    assert(caps.extensions.deep_view() =~= Seq::<Seq<char>>::empty());
    let one = ['1'];
    let two = ['2'];
    let three = ['3'];
    let o: &[char] = &one;
    let tw: &[char] = &two;
    let th: &[char] = &three;
    assert(o@ == seq!['1']);
    assert(tw@ == seq!['2']);
    assert(th@ == seq!['3']);
    let mut i: usize = 0;
    while i < parts.len()
        invariant
            i <= parts@.len(),
            o@ == seq!['1'],
            tw@ == seq!['2'],
            th@ == seq!['3'],
            crate::text::views(parts@) == crate::text::split_on(value@, ','),
            caps@ == dav_tokens(
                DavCapabilitiesView { class1: false, class2: false, class3: false, extensions: Seq::empty() },
                crate::text::views(parts@).take(i as int),
            ),
        decreases parts.len() - i,
    {
        let ghost pv = crate::text::views(parts@);
        assert(pv.take(i as int + 1).drop_last() =~= pv.take(i as int));
        assert(pv.take(i as int + 1).last() == parts@[i as int]@);
        let t = crate::text::trim_chars(&parts[i]);
        if t.len() == 0 {
        } else if crate::uri::str_is(crate::text::string_of(&t).as_str(), o) {
            caps.class1 = true;
        } else if crate::uri::str_is(crate::text::string_of(&t).as_str(), tw) {
            caps.class2 = true;
        } else if crate::uri::str_is(crate::text::string_of(&t).as_str(), th) {
            caps.class3 = true;
        } else {
            let ghost before = caps.extensions.deep_view();
            let ts = crate::text::string_of(&t);
            caps.extensions.push(ts);
            assert(caps.extensions.deep_view() =~= before.push(t@));
        }
        i += 1;
    }
    assert(crate::text::views(parts@).take(parts@.len() as int) =~= crate::text::views(parts@));
    Ok(caps)
}

/// The result of one operation of a batch, with the path it concerned.
#[non_exhaustive]
pub struct BatchItem<T> {
    pub pub_path: String,
    /// The hrefs the operation requested (for a multiget chunk: what to
    /// fetch again after an error).
    pub hrefs: Vec<String>,
    /// Requested hrefs the server did not answer for.
    pub missing_hrefs: Vec<String>,
    pub result: Result<T, crate::error::Error>,
}

} // verus!
