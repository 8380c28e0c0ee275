//! Synchronization state (RFC 6578): the rows of a `sync-collection`
//! answer, their classification against the previous state, and the
//! full-list fallback that diffs two etag lists.

use vstd::prelude::*;

use crate::etag::{normalize_sync_token, normalize_sync_token_spec};
use crate::hrefmap::{chars_lt, HrefMap};
use crate::multistatus::item_views;
use crate::numbers::{http_status_code, status_from};
use crate::types::{opt_chars, DavItem, DavItemView, SyncCapability};
use crate::error::{Error, ErrorView, Operation};
use crate::xml::{build_multiget_body, has_nonempty, multiget_spec, strings_view};

verus! {

/// One entry of a sync snapshot or delta: the member href, its entity-tag,
/// and the resource body when the session fetches data.
#[non_exhaustive]
pub struct SyncEntry {
    /// Member href as returned by the server (path or absolute URL).
    pub href: String,
    /// Normalized entity-tag; `None` when the server did not return one.
    pub etag: Option<String>,
    /// `calendar-data` / `address-data` payload when requested and returned.
    pub data: Option<String>,
}

pub struct SyncEntryView {
    pub href: Seq<char>,
    pub etag: Option<Seq<char>>,
    pub data: Option<Seq<char>>,
}

impl View for SyncEntry {
    type V = SyncEntryView;

    open spec fn view(&self) -> SyncEntryView {
        SyncEntryView { href: self.href@, etag: opt_chars(self.etag), data: opt_chars(self.data) }
    }
}

pub open spec fn entries_view(v: Seq<SyncEntry>) -> Seq<SyncEntryView> {
    Seq::new(v.len(), |i: int| v[i]@)
}

/// Full state snapshot: every live member, and the sync token to persist
/// (`None` on the full-list fallback, which has no server-side token).
#[non_exhaustive]
pub struct SyncSnapshot {
    pub items: Vec<SyncEntry>,
    pub sync_token: Option<String>,
}

/// Typed delta since the last sync. With `resynced` the delta is a full
/// rebuild (the stored token was stale): `deleted` is empty and `added`
/// holds the complete current state.
#[non_exhaustive]
pub struct SyncDelta {
    /// Members the previous state did not hold.
    pub added: Vec<SyncEntry>,
    /// Members whose entity-tag changed.
    pub modified: Vec<SyncEntry>,
    /// Hrefs removed since the last sync (empty when `resynced`).
    pub deleted: Vec<String>,
    /// The sync token to persist after applying this delta.
    pub sync_token: Option<String>,
    /// A stale token forced a full resync.
    pub resynced: bool,
}

/// One flattened `sync-collection` response.
pub struct SyncRow {
    pub href: String,
    pub etag: Option<String>,
    pub data: Option<String>,
    pub status: Option<String>,
    pub is_deleted: bool,
}

pub struct SyncRowView {
    pub href: Seq<char>,
    pub etag: Option<Seq<char>>,
    pub data: Option<Seq<char>>,
    pub status: Option<Seq<char>>,
    pub is_deleted: bool,
}

impl View for SyncRow {
    type V = SyncRowView;

    open spec fn view(&self) -> SyncRowView {
        SyncRowView {
            href: self.href@,
            etag: opt_chars(self.etag),
            data: opt_chars(self.data),
            status: opt_chars(self.status),
            is_deleted: self.is_deleted,
        }
    }
}

pub open spec fn rows_view(v: Seq<SyncRow>) -> Seq<SyncRowView> {
    Seq::new(v.len(), |i: int| v[i]@)
}

/// The entry a row stands for.
pub open spec fn row_entry(r: SyncRowView) -> SyncEntryView {
    SyncEntryView { href: r.href, etag: r.etag, data: r.data }
}

/// Flatten a row into a public entry.
pub fn entry_from_row(row: SyncRow) -> (e: SyncEntry)
    ensures
        e@ == row_entry(row@),
{
    SyncEntry { href: row.href, etag: row.etag, data: row.data }
}

/// Taking the data payload out of an item: `calendar-data` when present,
/// else `address-data`; the property taken is left empty.
pub open spec fn extract_spec(v: DavItemView) -> (Option<Seq<char>>, DavItemView) {
    match v.calendar_data {
        Some(d) => (Some(d), DavItemView { calendar_data: None, ..v }),
        None => (v.address_data, DavItemView { address_data: None, ..v }),
    }
}

/// Take the data payload out of a `sync-collection` item (see
/// [`extract_spec`]); only one of the two properties is ever requested.
pub fn extract_data(item: &mut DavItem) -> (r: Option<String>)
    ensures
        (opt_chars(r), final(item)@) == extract_spec(old(item)@),
{
    let c = item.calendar_data.take();
    if c.is_some() {
        c
    } else {
        item.address_data.take()
    }
}

/// A status line carrying an HTTP error status (4xx/5xx).
pub open spec fn error_status(status: Option<Seq<char>>) -> bool {
    match status {
        Some(s) => match status_from(s, 0) {
            Some(code) => code >= 400,
            None => false,
        },
        None => false,
    }
}

/// Whether the status line carries an HTTP error status (4xx/5xx).
pub fn has_error_status(status: Option<&str>) -> (r: bool)
    ensures
        r == error_status(
            match status {
                Some(s) => Some(s@),
                None => None,
            },
        ),
{
    match status {
        Some(s) => match http_status_code(s) {
            Some(code) => code >= 400,
            None => false,
        },
        None => false,
    }
}

/// Whether a status line carries the given code.
pub open spec fn status_is(status: Option<Seq<char>>, code: u16) -> bool {
    match status {
        Some(s) => status_from(s, 0) == Some(code),
        None => false,
    }
}

/// The row an item contributes, if any. A collection entry (or a bare
/// token carrier: a per-item sync token, no etag, no data) contributes none;
/// a 404/410 status marks the member deleted. The data payload is taken
/// twice when the item carries a token and no etag, once otherwise.
pub open spec fn item_row(v: DavItemView) -> Option<SyncRowView> {
    let probe = !v.is_collection && v.sync_token is Some && v.etag is None;
    let first = if probe {
        extract_spec(v)
    } else {
        (None, v)
    };
    let is_collection = v.is_collection || (probe && first.0 is None);
    if is_collection {
        None
    } else {
        Some(
            SyncRowView {
                href: v.href,
                etag: v.etag,
                data: extract_spec(first.1).0,
                status: v.status,
                is_deleted: status_is(v.status, 404) || status_is(v.status, 410),
            },
        )
    }
}

pub open spec fn rows_spec(items: Seq<DavItemView>) -> Seq<SyncRowView>
    decreases items.len(),
{
    if items.len() == 0 {
        Seq::empty()
    } else {
        rows_spec(items.drop_last()) + match item_row(items.last()) {
            Some(r) => seq![r],
            None => Seq::empty(),
        }
    }
}

/// An item is left out of the rows exactly when it is a collection, or a
/// bare token entry (a sync token, no etag) that carries no data. A row
/// keeps the item's href and etag; for an item with an etag (or without a
/// sync token) its data is the item's calendar-data when it has one, else
/// its address-data, and `None` only when it has neither.
pub proof fn lemma_item_row_data(v: DavItemView)
    ensures
        item_row(v) is None <==> (v.is_collection || (v.sync_token is Some && v.etag is None
            && v.calendar_data is None && v.address_data is None)),
        item_row(v) matches Some(r) ==> r.href == v.href && r.etag == v.etag,
        item_row(v) matches Some(r) ==> (!(v.sync_token is Some && v.etag is None) ==> r.data == (
        if v.calendar_data is Some {
            v.calendar_data
        } else {
            v.address_data
        })),
{
}

/// With no collection and no bare token entry among the items, every item
/// gives one row, in order, whose data is the item's calendar-data when it
/// has one, else its address-data.
pub proof fn lemma_rows_carry_data(items: Seq<DavItemView>)
    requires
        forall|i: int|
            0 <= i < items.len() ==> !(#[trigger] items[i]).is_collection && !(items[i].sync_token is Some
                && items[i].etag is None),
    ensures
        rows_spec(items).len() == items.len(),
        forall|i: int|
            0 <= i < items.len() ==> {
                let r = #[trigger] rows_spec(items)[i];
                &&& r.href == items[i].href
                &&& r.etag == items[i].etag
                &&& r.data == if items[i].calendar_data is Some {
                    items[i].calendar_data
                } else {
                    items[i].address_data
                }
            },
    decreases items.len(),
{
    if items.len() > 0 {
        let f = items.drop_last();
        assert forall|i: int| 0 <= i < f.len() implies !(#[trigger] f[i]).is_collection && !(f[i].sync_token is Some
            && f[i].etag is None) by {
            assert(f[i] == items[i]);
        }
        lemma_rows_carry_data(f);
        lemma_item_row_data(items.last());
        let last = items.last();
        assert(!last.is_collection && !(last.sync_token is Some && last.etag is None));
        let r = item_row(last)->Some_0;
        assert(rows_spec(items) == rows_spec(f) + seq![r]);
        assert forall|i: int| 0 <= i < items.len() implies {
            let x = #[trigger] rows_spec(items)[i];
            &&& x.href == items[i].href
            &&& x.etag == items[i].etag
            &&& x.data == if items[i].calendar_data is Some {
                items[i].calendar_data
            } else {
                items[i].address_data
            }
        } by {
            if i < f.len() {
                assert(rows_spec(items)[i] == rows_spec(f)[i]);
                assert(items[i] == f[i]);
            } else {
                assert(rows_spec(items)[i] == r);
            }
        }
    }
}

/// The first per-item sync token.
pub open spec fn first_item_token(items: Seq<DavItemView>) -> Option<Seq<char>>
    decreases items.len(),
{
    if items.len() == 0 {
        None
    } else {
        match items[0].sync_token {
            Some(t) => Some(t),
            None => first_item_token(items.drop_first()),
        }
    }
}

/// The sync token of a page: the top-level one, else the `Sync-Token`
/// header (normalized), else the first per-item token.
pub open spec fn page_token_spec(
    header: Option<Seq<char>>,
    items: Seq<DavItemView>,
    top: Option<Seq<char>>,
) -> Option<Seq<char>> {
    match top {
        Some(t) => Some(t),
        None => match header {
            Some(h) => Some(normalize_sync_token_spec(h)),
            None => first_item_token(items),
        },
    }
}

/// Map one `sync-collection` page (RFC 6578) into rows: resolve the page's
/// sync token (top-level, then the `Sync-Token` header value, then the first
/// per-item token), skip collection entries, flag 404/410 members as
/// deleted, and report whether the result set was truncated (some response
/// carries a `507` status, RFC 6578 §3.6).
pub fn map_sync_rows(
    header_sync_token: Option<&str>,
    items: Vec<DavItem>,
    top_level_sync_token: Option<String>,
) -> (r: (Option<String>, Vec<SyncRow>, bool))
    ensures
        opt_chars(r.0) == page_token_spec(
            match header_sync_token {
                Some(h) => Some(h@),
                None => None,
            },
            item_views(items@),
            opt_chars(top_level_sync_token),
        ),
        rows_view(r.1@) == rows_spec(item_views(items@)),
        r.2 == exists|i: int| 0 <= i < items@.len() && status_is((#[trigger] items@[i])@.status, 507),
{
    let ghost orig = items@;
    let ghost iv = item_views(items@);
    let mut sync_token = match top_level_sync_token {
        Some(t) => Some(t),
        None => match header_sync_token {
            Some(h) => Some(normalize_sync_token(h)),
            None => None,
        },
    };
    let ghost base = opt_chars(sync_token);
    let mut out: Vec<SyncRow> = Vec::new();
    let mut truncated = false;
    let n = items.len();
    let mut k: usize = 0;
    for item in it: items
        invariant
            iv == item_views(it.seq()),
            n == it.seq().len(),
            k == it.index(),
            k <= n,
            base is None ==> opt_chars(sync_token) == first_item_token(iv.take(k as int)),
            base is Some ==> opt_chars(sync_token) == base,
            rows_view(out@) == rows_spec(iv.take(k as int)),
            truncated == exists|i: int| 0 <= i < k && status_is(#[trigger] iv[i].status, 507),
    {
        let mut item = item;
        let ghost v = item@;
        assert(v == iv[k as int]);
        proof {
            lemma_first_token_push(iv, k as int);
            assert(iv.take(k as int + 1).drop_last() =~= iv.take(k as int));
        }
        if item.sync_token.is_some() && sync_token.is_none() {
            sync_token = clone_opt_string(&item.sync_token);
        }
        let code = match &item.status {
            Some(s) => http_status_code(s.as_str()),
            None => None,
        };
        if code == Some(507u16) {
            truncated = true;
        }
        let probe = !item.is_collection && item.sync_token.is_some() && item.etag.is_none();
        let is_collection = item.is_collection || (probe && extract_data(&mut item).is_none());
        if !is_collection {
            let is_deleted = code == Some(404u16) || code == Some(410u16);
            let data = extract_data(&mut item);
            let row = SyncRow { href: item.href, etag: item.etag, data, status: item.status, is_deleted };
            proof {
                assert(item_row(v) == Some(row@));
            }
            out.push(row);
            assert(rows_view(out@) =~= rows_spec(iv.take(k as int)) + seq![row@]);
        } else {
            assert(item_row(v) is None);
            assert(rows_view(out@) =~= rows_spec(iv.take(k as int)) + Seq::<SyncRowView>::empty());
        }
        k += 1;
    }
    assert(iv.take(n as int) =~= iv);
    proof {
        if truncated {
            let i = choose|i: int| 0 <= i < k && status_is(#[trigger] iv[i].status, 507);
            assert(orig[i]@ == iv[i]);
        } else {
            assert forall|i: int| 0 <= i < orig.len() implies !status_is((#[trigger] orig[i])@.status, 507) by {
                assert(orig[i]@ == iv[i]);
            }
        }
    }
    (sync_token, out, truncated)
}

/// After `k` items without a per-item token, the first token is the next one's.
proof fn lemma_first_token_push(items: Seq<DavItemView>, k: int)
    requires
        0 <= k < items.len(),
    ensures
        first_item_token(items.take(k + 1)) == match first_item_token(items.take(k)) {
            Some(t) => Some(t),
            None => items[k].sync_token,
        },
    decreases k,
{
    reveal_with_fuel(first_item_token, 2);
    assert(items.take(k + 1)[0] == items[0]);
    if k > 0 {
        assert(items.take(k)[0] == items[0]);
        assert(items.drop_first()[k - 1] == items[k]);
        lemma_first_token_push(items.drop_first(), k - 1);
        assert(items.take(k + 1).drop_first() =~= items.drop_first().take(k));
        assert(items.take(k).drop_first() =~= items.drop_first().take(k - 1));
    } else {
        assert(items.take(1).drop_first() =~= Seq::<DavItemView>::empty());
    }
}

fn clone_opt_string(o: &Option<String>) -> (r: Option<String>)
    ensures
        opt_chars(r) == opt_chars(*o),
{
    match o {
        Some(s) => Some(s.clone()),
        None => None,
    }
}

fn opt_eq(a: &Option<String>, b: &Option<String>) -> (r: bool)
    ensures
        r == (opt_chars(*a) == opt_chars(*b)),
{
    match (a, b) {
        (Some(x), Some(y)) => *x == *y,
        (None, None) => true,
        _ => false,
    }
}

/// The first position of a row with href `h`.
pub open spec fn find_href(s: Seq<SyncRowView>, h: Seq<char>) -> Option<int> {
    if exists|i: int| 0 <= i < s.len() && (#[trigger] s[i]).href == h {
        Some(choose|i: int| 0 <= i < s.len() && (#[trigger] s[i]).href == h)
    } else {
        None
    }
}

/// Rows with repeated hrefs collapsed: a later row replaces an earlier one
/// in its place.
pub open spec fn dedup_spec(rows: Seq<SyncRowView>) -> Seq<SyncRowView>
    decreases rows.len(),
{
    if rows.len() == 0 {
        Seq::empty()
    } else {
        let d = dedup_spec(rows.drop_last());
        match find_href(d, rows.last().href) {
            Some(p) => d.update(p, rows.last()),
            None => d.push(rows.last()),
        }
    }
}

pub open spec fn distinct_hrefs(s: Seq<SyncRowView>) -> bool {
    forall|i: int, j: int| 0 <= i < j < s.len() ==> (#[trigger] s[i]).href != (#[trigger] s[j]).href
}

/// Collapse repeated hrefs across truncation pages: the last row for an
/// href wins, in the place of its first occurrence.
pub fn dedup_rows(rows: Vec<SyncRow>) -> (r: Vec<SyncRow>)
    ensures
        rows_view(r@) == dedup_spec(rows_view(rows@)),
        distinct_hrefs(rows_view(r@)),
{
    let ghost rv = rows_view(rows@);
    let mut out: Vec<SyncRow> = Vec::new();
    let n = rows.len();
    let mut k: usize = 0;
    for row in it: rows
        invariant
            n == it.seq().len(),
            rv == rows_view(it.seq()),
            k == it.index(),
            k <= rv.len(),
            rows_view(out@) == dedup_spec(rv.take(k as int)),
            distinct_hrefs(rows_view(out@)),
    {
        let ghost d = rows_view(out@);
        proof {
            assert(rv.take(k as int + 1).drop_last() =~= rv.take(k as int));
            assert(rv.take(k as int + 1).last() == row@);
        }
        let mut p: usize = 0;
        while p < out.len()
            invariant
                p <= out@.len(),
                d == rows_view(out@),
                forall|j: int| 0 <= j < p ==> (#[trigger] d[j]).href != row@.href,
            ensures
                p <= out@.len(),
                forall|j: int| 0 <= j < p ==> (#[trigger] d[j]).href != row@.href,
                p < out@.len() ==> d[p as int].href == row@.href,
            decreases out.len() - p,
        {
            if out[p].href == row.href {
                break;
            }
            p += 1;
        }
        if p < out.len() {
            proof {
                assert(d[p as int].href == row@.href);
                let c = choose|i: int| 0 <= i < d.len() && (#[trigger] d[i]).href == row@.href;
                assert(c == p);
            }
            out.set(p, row);
            assert(rows_view(out@) =~= d.update(p as int, rv.take(k as int + 1).last()));
        } else {
            out.push(row);
            assert(rows_view(out@) =~= d.push(rv.take(k as int + 1).last()));
        }
        k += 1;
    }
    assert(rv.take(rv.len() as int) =~= rv);
    out
}

/// A previous state, absent when the session holds none.
pub open spec fn state_map(prev: Option<HrefMap>) -> Map<Seq<char>, Option<Seq<char>>> {
    match prev {
        Some(m) => m@,
        None => Map::empty(),
    }
}

pub open spec fn state_wf(prev: Option<HrefMap>) -> bool {
    match prev {
        Some(m) => m.wf(),
        None => true,
    }
}

/// `sync-collection` rows classified against the previous state.
pub struct RowDiff {
    pub added: Vec<SyncEntry>,
    pub modified: Vec<SyncEntry>,
    pub deleted: Vec<String>,
    /// The state after the rows.
    pub next: HrefMap,
}

pub struct RowDiffView {
    pub added: Seq<SyncEntryView>,
    pub modified: Seq<SyncEntryView>,
    pub deleted: Seq<Seq<char>>,
    pub next: Map<Seq<char>, Option<Seq<char>>>,
}

/// Rows applied in turn, starting from `prev` (from an empty state when
/// `replace` marks a full-state answer): a deleted row is dropped from the
/// state (and listed unless the answer is a full state), a row with an
/// error status is bookkeeping and skipped, any other row is set in the
/// state and reported against `prev`: as added when `prev` lacks its href,
/// as modified when its etag changed.
pub open spec fn diff_rows_spec(
    prev: Map<Seq<char>, Option<Seq<char>>>,
    rows: Seq<SyncRowView>,
    replace: bool,
) -> RowDiffView
    decreases rows.len(),
{
    if rows.len() == 0 {
        RowDiffView {
            added: Seq::empty(),
            modified: Seq::empty(),
            deleted: Seq::empty(),
            next: if replace {
                Map::empty()
            } else {
                prev
            },
        }
    } else {
        let d = diff_rows_spec(prev, rows.drop_last(), replace);
        let row = rows.last();
        if row.is_deleted {
            RowDiffView {
                deleted: if replace {
                    d.deleted
                } else {
                    d.deleted.push(row.href)
                },
                next: d.next.remove(row.href),
                ..d
            }
        } else if error_status(row.status) {
            d
        } else if !prev.dom().contains(row.href) {
            RowDiffView { added: d.added.push(row_entry(row)), next: d.next.insert(row.href, row.etag), ..d }
        } else if prev[row.href] != row.etag {
            RowDiffView {
                modified: d.modified.push(row_entry(row)),
                next: d.next.insert(row.href, row.etag),
                ..d
            }
        } else {
            RowDiffView { next: d.next.insert(row.href, row.etag), ..d }
        }
    }
}

impl HrefMap {
    /// A copy of the map.
    pub fn duplicate(&self) -> (r: HrefMap)
        requires
            self.wf(),
        ensures
            r.wf(),
            r@ == self@,
    {
        let mut r = HrefMap::new();
        let mut i: usize = 0;
        while i < self.len()
            invariant
                self.wf(),
                r.wf(),
                i <= self.pairs().len(),
                forall|h: Seq<char>| #[trigger] r@.dom().contains(h) ==> self@.dom().contains(h) && r@[h] == self@[h],
                forall|j: int| 0 <= j < i ==> r@.dom().contains(#[trigger] self.pairs()[j].0),
            decreases self.pairs().len() - i,
        {
            proof {
                crate::hrefmap::lemma_assoc_at(self.pairs(), i as int);
            }
            r.insert(self.href_at(i).clone(), clone_opt_string(self.value_at(i)));
            i += 1;
        }
        proof {
            assert forall|h: Seq<char>| #[trigger] self@.dom().contains(h) implies r@.dom().contains(h) by {
                let j = choose|j: int| 0 <= j < self.pairs().len() && (#[trigger] self.pairs()[j]).0 == h;
                assert(r@.dom().contains(self.pairs()[j].0));
            }
            assert(r@ =~= self@);
        }
        r
    }
}

/// Classify `sync-collection` rows against the previous state (see
/// [`diff_rows_spec`]). `replace` marks a full-state answer: the new state
/// starts empty instead of from `prev` and no deletion is listed (RFC 6578
/// §3.4); the rows are still classified against `prev`.
pub fn diff_rows(prev: &Option<HrefMap>, rows: Vec<SyncRow>, replace: bool) -> (r: RowDiff)
    requires
        state_wf(*prev),
    ensures
        r.next.wf(),
        entries_view(r.added@) == diff_rows_spec(state_map(*prev), rows_view(rows@), replace).added,
        entries_view(r.modified@) == diff_rows_spec(state_map(*prev), rows_view(rows@), replace).modified,
        strings_view(r.deleted@) == diff_rows_spec(state_map(*prev), rows_view(rows@), replace).deleted,
        r.next@ == diff_rows_spec(state_map(*prev), rows_view(rows@), replace).next,
        replace ==> r.deleted@.len() == 0,
{
    let ghost pm = state_map(*prev);
    let ghost rv = rows_view(rows@);
    let mut added: Vec<SyncEntry> = Vec::new();
    let mut modified: Vec<SyncEntry> = Vec::new();
    let mut deleted: Vec<String> = Vec::new();
    let mut next = if replace {
        HrefMap::new()
    } else {
        match prev {
            Some(m) => m.duplicate(),
            None => HrefMap::new(),
        }
    };
    proof {
        assert(next@ =~= diff_rows_spec(pm, rv.take(0), replace).next);
    }
    let n = rows.len();
    let mut k: usize = 0;
    for row in it: rows
        invariant
            n == it.seq().len(),
            rv == rows_view(it.seq()),
            k == it.index(),
            k <= rv.len(),
            pm == state_map(*prev),
            state_wf(*prev),
            next.wf(),
            entries_view(added@) == diff_rows_spec(pm, rv.take(k as int), replace).added,
            entries_view(modified@) == diff_rows_spec(pm, rv.take(k as int), replace).modified,
            strings_view(deleted@) == diff_rows_spec(pm, rv.take(k as int), replace).deleted,
            next@ == diff_rows_spec(pm, rv.take(k as int), replace).next,
            replace ==> deleted@.len() == 0,
    {
        proof {
            assert(rv.take(k as int + 1).drop_last() =~= rv.take(k as int));
            assert(rv.take(k as int + 1).last() == row@);
        }
        if row.is_deleted {
            next.remove(row.href.as_str());
            if !replace {
                deleted.push(row.href);
                assert(strings_view(deleted@) =~= diff_rows_spec(pm, rv.take(k as int), replace).deleted.push(
                    row@.href,
                ));
            }
        } else if !has_error_status(
            match &row.status {
                Some(s) => Some(s.as_str()),
                None => None,
            },
        ) {
            let seen: Option<&Option<String>> = match prev {
                Some(m) => m.get(row.href.as_str()),
                None => None,
            };
            let entry = SyncEntry { href: row.href.clone(), etag: clone_opt_string(&row.etag), data: row.data };
            match seen {
                None => {
                    added.push(entry);
                    assert(entries_view(added@) =~= diff_rows_spec(pm, rv.take(k as int), replace).added.push(
                        row_entry(row@),
                    ));
                },
                Some(old) => {
                    if !opt_eq(old, &row.etag) {
                        modified.push(entry);
                        assert(entries_view(modified@) =~= diff_rows_spec(
                            pm,
                            rv.take(k as int),
                            replace,
                        ).modified.push(row_entry(row@)));
                    }
                },
            }
            next.insert(row.href, row.etag);
        }
        k += 1;
    }
    assert(rv.take(rv.len() as int) =~= rv);
    RowDiff { added, modified, deleted, next }
}

pub open spec fn hrefs_sorted(s: Seq<SyncEntryView>) -> bool {
    forall|i: int, j: int| 0 <= i < j < s.len() ==> chars_lt(#[trigger] s[i].href, #[trigger] s[j].href)
}

pub open spec fn strings_sorted(s: Seq<Seq<char>>) -> bool {
    forall|i: int, j: int| 0 <= i < j < s.len() ==> chars_lt(#[trigger] s[i], #[trigger] s[j])
}

/// `added`, `modified` and `deleted` are the full-list delta from `prev` to
/// `cur`, each sorted by href: added = hrefs `prev` lacks, modified = hrefs
/// whose etag changed, deleted = hrefs `cur` lacks; entries carry the
/// current etag and no data.
pub open spec fn fallback_delta(
    prev: Map<Seq<char>, Option<Seq<char>>>,
    cur: Map<Seq<char>, Option<Seq<char>>>,
    added: Seq<SyncEntryView>,
    modified: Seq<SyncEntryView>,
    deleted: Seq<Seq<char>>,
) -> bool {
    &&& hrefs_sorted(added)
    &&& hrefs_sorted(modified)
    &&& strings_sorted(deleted)
    &&& forall|i: int|
        0 <= i < added.len() ==> {
            let e = #[trigger] added[i];
            cur.dom().contains(e.href) && !prev.dom().contains(e.href) && e.etag == cur[e.href] && e.data is None
        }
    &&& forall|h: Seq<char>|
        #[trigger] cur.dom().contains(h) && !prev.dom().contains(h) ==> exists|i: int|
            0 <= i < added.len() && (#[trigger] added[i]).href == h
    &&& forall|i: int|
        0 <= i < modified.len() ==> {
            let e = #[trigger] modified[i];
            cur.dom().contains(e.href) && prev.dom().contains(e.href) && prev[e.href] != cur[e.href]
                && e.etag == cur[e.href] && e.data is None
        }
    &&& forall|h: Seq<char>|
        #[trigger] cur.dom().contains(h) && prev.dom().contains(h) && prev[h] != cur[h] ==> exists|i: int|
            0 <= i < modified.len() && (#[trigger] modified[i]).href == h
    &&& forall|i: int|
        0 <= i < deleted.len() ==> prev.dom().contains(#[trigger] deleted[i]) && !cur.dom().contains(deleted[i])
    &&& forall|h: Seq<char>|
        #[trigger] prev.dom().contains(h) && !cur.dom().contains(h) ==> exists|i: int|
            0 <= i < deleted.len() && #[trigger] deleted[i] == h
}

proof fn lemma_push_sorted(old: Seq<SyncEntry>, new: Seq<SyncEntry>, bound: Seq<char>)
    requires
        hrefs_sorted(entries_view(old)),
        new.len() == old.len() + 1,
        forall|k: int| 0 <= k < old.len() ==> new[k] == old[k],
        new[old.len() as int]@.href == bound,
        forall|j: int| 0 <= j < old.len() ==> chars_lt((#[trigger] old[j])@.href, bound),
    ensures
        hrefs_sorted(entries_view(new)),
{
    assert forall|a: int, b: int| 0 <= a < b < new.len() implies chars_lt(
        #[trigger] entries_view(new)[a].href,
        #[trigger] entries_view(new)[b].href,
    ) by {
        assert(new[a] == old[a]);
        if b < old.len() {
            assert(new[b] == old[b]);
            assert(entries_view(old)[a] == old[a]@ && entries_view(old)[b] == old[b]@);
        }
    }
}

/// Classify a full etag list against the previous state (the fallback
/// path); each list comes out sorted by href (see [`fallback_delta`]).
pub fn diff_maps(prev: &Option<HrefMap>, current: &HrefMap) -> (r: (Vec<SyncEntry>, Vec<SyncEntry>, Vec<String>))
    requires
        state_wf(*prev),
        current.wf(),
    ensures
        fallback_delta(state_map(*prev), current@, entries_view(r.0@), entries_view(r.1@), strings_view(r.2@)),
{
    let ghost pm = state_map(*prev);
    let ghost cs = current.pairs();
    let ghost cm = current@;
    let mut added: Vec<SyncEntry> = Vec::new();
    let mut modified: Vec<SyncEntry> = Vec::new();
    let mut i: usize = 0;
    while i < current.len()
        invariant
            current.wf(),
            state_wf(*prev),
            pm == state_map(*prev),
            cs == current.pairs(),
            cm == current@,
            i <= cs.len(),
            hrefs_sorted(entries_view(added@)),
            hrefs_sorted(entries_view(modified@)),
            forall|j: int, m: int|
                0 <= j < added@.len() && i <= m < cs.len() ==> chars_lt(
                    (#[trigger] added@[j])@.href,
                    #[trigger] cs[m].0,
                ),
            forall|j: int, m: int|
                0 <= j < modified@.len() && i <= m < cs.len() ==> chars_lt(
                    (#[trigger] modified@[j])@.href,
                    #[trigger] cs[m].0,
                ),
            forall|j: int|
                0 <= j < added@.len() ==> {
                    let e = (#[trigger] added@[j])@;
                    cm.dom().contains(e.href) && !pm.dom().contains(e.href) && e.etag == cm[e.href] && e.data is None
                },
            forall|j: int|
                0 <= j < modified@.len() ==> {
                    let e = (#[trigger] modified@[j])@;
                    cm.dom().contains(e.href) && pm.dom().contains(e.href) && pm[e.href] != cm[e.href] && e.etag
                        == cm[e.href] && e.data is None
                },
            forall|m: int|
                0 <= m < i && !pm.dom().contains(#[trigger] cs[m].0) ==> exists|j: int|
                    0 <= j < added@.len() && (#[trigger] added@[j])@.href == cs[m].0,
            forall|m: int|
                0 <= m < i && pm.dom().contains(#[trigger] cs[m].0) && pm[cs[m].0] != cs[m].1 ==> exists|j: int|
                    0 <= j < modified@.len() && (#[trigger] modified@[j])@.href == cs[m].0,
        decreases cs.len() - i,
    {
        proof {
            crate::hrefmap::lemma_assoc_at(cs, i as int);
        }
        let href = current.href_at(i);
        let etag = current.value_at(i);
        let seen: Option<&Option<String>> = match prev {
            Some(m) => m.get(href.as_str()),
            None => None,
        };
        let entry = SyncEntry { href: href.clone(), etag: clone_opt_string(etag), data: None };
        let ghost ev = entry@;
        let ghost a0 = added@;
        let ghost m0 = modified@;
        assert(ev.href == cs[i as int].0);
        proof {
            assert forall|j: int| 0 <= j < a0.len() implies chars_lt((#[trigger] a0[j])@.href, cs[i as int].0) by {}
            assert forall|j: int| 0 <= j < m0.len() implies chars_lt((#[trigger] m0[j])@.href, cs[i as int].0) by {}
        }
        match seen {
            None => {
                added.push(entry);
                proof {
                    lemma_push_sorted(a0, added@, cs[i as int].0);
                }
            },
            Some(old) => {
                if !opt_eq(old, etag) {
                    modified.push(entry);
                    proof {
                        lemma_push_sorted(m0, modified@, cs[i as int].0);
                    }
                }
            },
        }
        proof {
            assert forall|j: int| 0 <= j < a0.len() implies #[trigger] added@[j] == a0[j] by {}
            assert forall|j: int| 0 <= j < m0.len() implies #[trigger] modified@[j] == m0[j] by {}
            assert forall|j: int, m: int|
                0 <= j < added@.len() && i + 1 <= m < cs.len() implies chars_lt(
                (#[trigger] added@[j])@.href,
                #[trigger] cs[m].0,
            ) by {
                if j < a0.len() {
                    assert(chars_lt(a0[j]@.href, cs[m].0));
                } else {
                    assert(chars_lt(cs[i as int].0, cs[m].0));
                }
            }
            assert forall|j: int, m: int|
                0 <= j < modified@.len() && i + 1 <= m < cs.len() implies chars_lt(
                (#[trigger] modified@[j])@.href,
                #[trigger] cs[m].0,
            ) by {
                if j < m0.len() {
                    assert(chars_lt(m0[j]@.href, cs[m].0));
                } else {
                    assert(chars_lt(cs[i as int].0, cs[m].0));
                }
            }
            assert forall|m: int|
                0 <= m < i + 1 && !pm.dom().contains(#[trigger] cs[m].0) implies exists|j: int|
                    0 <= j < added@.len() && (#[trigger] added@[j])@.href == cs[m].0 by {
                if m < i {
                    let j = choose|j: int| 0 <= j < a0.len() && (#[trigger] a0[j])@.href == cs[m].0;
                    assert(added@[j] == a0[j]);
                } else {
                    assert(added@[a0.len() as int]@.href == cs[m].0);
                }
            }
            assert forall|m: int|
                0 <= m < i + 1 && pm.dom().contains(#[trigger] cs[m].0) && pm[cs[m].0] != cs[m].1 implies exists|j: int|
                    0 <= j < modified@.len() && (#[trigger] modified@[j])@.href == cs[m].0 by {
                if m < i {
                    let j = choose|j: int| 0 <= j < m0.len() && (#[trigger] m0[j])@.href == cs[m].0;
                    assert(modified@[j] == m0[j]);
                } else {
                    assert(modified@[m0.len() as int]@.href == cs[m].0);
                }
            }
        }
        i += 1;
    }
    let mut deleted: Vec<String> = Vec::new();
    match prev {
        Some(pmap) => {
            let ghost ps = pmap.pairs();
            let mut j: usize = 0;
            while j < pmap.len()
                invariant
                    pmap.wf(),
                    current.wf(),
                    ps == pmap.pairs(),
                    pm == pmap@,
                    cm == current@,
                    j <= ps.len(),
                    strings_sorted(strings_view(deleted@)),
                    forall|a: int, m: int|
                        0 <= a < deleted@.len() && j <= m < ps.len() ==> chars_lt(
                            (#[trigger] deleted@[a])@,
                            #[trigger] ps[m].0,
                        ),
                    forall|a: int|
                        0 <= a < deleted@.len() ==> pm.dom().contains((#[trigger] deleted@[a])@) && !cm.dom().contains(
                            deleted@[a]@,
                        ),
                    forall|m: int|
                        0 <= m < j && !cm.dom().contains(#[trigger] ps[m].0) ==> exists|a: int|
                            0 <= a < deleted@.len() && (#[trigger] deleted@[a])@ == ps[m].0,
                decreases ps.len() - j,
            {
                proof {
                    crate::hrefmap::lemma_assoc_at(ps, j as int);
                }
                let href = pmap.href_at(j);
                let ghost d0 = deleted@;
                proof {
                    assert forall|a: int| 0 <= a < d0.len() implies chars_lt((#[trigger] d0[a])@, ps[j as int].0) by {}
                }
                if !current.contains(href.as_str()) {
                    deleted.push(href.clone());
                    proof {
                        assert forall|a: int, b: int| 0 <= a < b < deleted@.len() implies chars_lt(
                            #[trigger] strings_view(deleted@)[a],
                            #[trigger] strings_view(deleted@)[b],
                        ) by {
                            assert(deleted@[a] == d0[a]);
                            if b < d0.len() {
                                assert(deleted@[b] == d0[b]);
                                assert(strings_view(d0)[a] == d0[a]@ && strings_view(d0)[b] == d0[b]@);
                            }
                        }
                    }
                }
                proof {
                    assert forall|a: int| 0 <= a < d0.len() implies #[trigger] deleted@[a] == d0[a] by {}
                    assert forall|a: int, m: int|
                        0 <= a < deleted@.len() && j + 1 <= m < ps.len() implies chars_lt(
                        (#[trigger] deleted@[a])@,
                        #[trigger] ps[m].0,
                    ) by {
                        if a < d0.len() {
                            assert(chars_lt(d0[a]@, ps[m].0));
                        } else {
                            assert(chars_lt(ps[j as int].0, ps[m].0));
                        }
                    }
                    assert forall|m: int|
                        0 <= m < j + 1 && !cm.dom().contains(#[trigger] ps[m].0) implies exists|a: int|
                            0 <= a < deleted@.len() && (#[trigger] deleted@[a])@ == ps[m].0 by {
                        if m < j {
                            let a = choose|a: int| 0 <= a < d0.len() && (#[trigger] d0[a])@ == ps[m].0;
                            assert(deleted@[a] == d0[a]);
                        } else {
                            assert(deleted@[d0.len() as int]@ == ps[m].0);
                        }
                    }
                }
                j += 1;
            }
            proof {
                assert forall|h: Seq<char>| #[trigger] pm.dom().contains(h) && !cm.dom().contains(h) implies exists|a: int|
                    0 <= a < strings_view(deleted@).len() && #[trigger] strings_view(deleted@)[a] == h by {
                    let m = choose|m: int| 0 <= m < ps.len() && (#[trigger] ps[m]).0 == h;
                    let a = choose|a: int| 0 <= a < deleted@.len() && (#[trigger] deleted@[a])@ == ps[m].0;
                    assert(strings_view(deleted@)[a] == h);
                }
            }
        },
        None => {},
    }
    proof {
        let av = entries_view(added@);
        let mv = entries_view(modified@);
        assert forall|h: Seq<char>| #[trigger] cm.dom().contains(h) && !pm.dom().contains(h) implies exists|a: int|
            0 <= a < av.len() && (#[trigger] av[a]).href == h by {
            let m = choose|m: int| 0 <= m < cs.len() && (#[trigger] cs[m]).0 == h;
            let a = choose|a: int| 0 <= a < added@.len() && (#[trigger] added@[a])@.href == cs[m].0;
            assert(av[a].href == h);
        }
        assert forall|h: Seq<char>| #[trigger] cm.dom().contains(h) && pm.dom().contains(h) && pm[h] != cm[h] implies exists|a: int|
            0 <= a < mv.len() && (#[trigger] mv[a]).href == h by {
            let m = choose|m: int| 0 <= m < cs.len() && (#[trigger] cs[m]).0 == h;
            crate::hrefmap::lemma_assoc_at(cs, m);
            let a = choose|a: int| 0 <= a < modified@.len() && (#[trigger] modified@[a])@.href == cs[m].0;
            assert(mv[a].href == h);
        }
        assert forall|a: int| 0 <= a < av.len() implies {
            let e = #[trigger] av[a];
            cm.dom().contains(e.href) && !pm.dom().contains(e.href) && e.etag == cm[e.href] && e.data is None
        } by {
            assert(av[a] == added@[a]@);
        }
        assert forall|a: int| 0 <= a < mv.len() implies {
            let e = #[trigger] mv[a];
            cm.dom().contains(e.href) && pm.dom().contains(e.href) && pm[e.href] != cm[e.href] && e.etag == cm[e.href]
                && e.data is None
        } by {
            assert(mv[a] == modified@[a]@);
        }
        assert forall|a: int| 0 <= a < strings_view(deleted@).len() implies pm.dom().contains(
            #[trigger] strings_view(deleted@)[a],
        ) && !cm.dom().contains(strings_view(deleted@)[a]) by {
            assert(strings_view(deleted@)[a] == deleted@[a]@);
        }
    }
    (added, modified, deleted)
}

pub open spec fn has_href(s: Seq<SyncEntryView>, h: Seq<char>) -> bool {
    exists|i: int| 0 <= i < s.len() && (#[trigger] s[i]).href == h
}

/// A state with `changed` entries set and `deleted` hrefs dropped.
pub open spec fn apply_delta(
    prev: Map<Seq<char>, Option<Seq<char>>>,
    changed: Seq<SyncEntryView>,
    deleted: Seq<Seq<char>>,
) -> Map<Seq<char>, Option<Seq<char>>> {
    Map::new(
        |h: Seq<char>| has_href(changed, h) || (prev.dom().contains(h) && !deleted.contains(h)),
        |h: Seq<char>|
            if has_href(changed, h) {
                changed[choose|i: int| 0 <= i < changed.len() && (#[trigger] changed[i]).href == h].etag
            } else {
                prev[h]
            },
    )
}

/// Applying a full-list delta to the previous state gives back the current
/// state: what the fallback reports is exactly what changed.
pub proof fn lemma_fallback_delta_rebuilds(
    prev: Map<Seq<char>, Option<Seq<char>>>,
    cur: Map<Seq<char>, Option<Seq<char>>>,
    added: Seq<SyncEntryView>,
    modified: Seq<SyncEntryView>,
    deleted: Seq<Seq<char>>,
)
    requires
        fallback_delta(prev, cur, added, modified, deleted),
    ensures
        apply_delta(prev, added + modified, deleted) == cur,
{
    let ch = added + modified;
    let r = apply_delta(prev, ch, deleted);
    assert forall|h: Seq<char>| #[trigger] r.dom().contains(h) <==> cur.dom().contains(h) by {
        if has_href(ch, h) {
            let i = choose|i: int| 0 <= i < ch.len() && (#[trigger] ch[i]).href == h;
            if i < added.len() {
                assert(ch[i] == added[i]);
            } else {
                assert(ch[i] == modified[i - added.len()]);
            }
        }
        if prev.dom().contains(h) && !deleted.contains(h) && !cur.dom().contains(h) {
            let a = choose|a: int| 0 <= a < deleted.len() && #[trigger] deleted[a] == h;
            assert(deleted.contains(h));
        }
        if cur.dom().contains(h) {
            if !prev.dom().contains(h) {
                let i = choose|i: int| 0 <= i < added.len() && (#[trigger] added[i]).href == h;
                assert(ch[i] == added[i]);
            } else if deleted.contains(h) {
                let a = choose|a: int| 0 <= a < deleted.len() && deleted[a] == h;
                assert(!cur.dom().contains(deleted[a]));
            }
        }
    }
    assert forall|h: Seq<char>| #[trigger] r.dom().contains(h) implies r[h] == cur[h] by {
        if has_href(ch, h) {
            let i = choose|i: int| 0 <= i < ch.len() && (#[trigger] ch[i]).href == h;
            if i < added.len() {
                assert(ch[i] == added[i]);
            } else {
                assert(ch[i] == modified[i - added.len()]);
            }
        } else if prev[h] != cur[h] {
            assert(cur.dom().contains(h));
            let i = choose|i: int| 0 <= i < modified.len() && (#[trigger] modified[i]).href == h;
            assert(ch[added.len() + i] == modified[i]);
        }
    }
    assert(r =~= cur);
}

/// Every href of `rows` occurs in `d`.
pub open spec fn covers(rows: Seq<SyncRowView>, d: Seq<SyncRowView>) -> bool {
    forall|j: int| 0 <= j < rows.len() ==> exists|i: int| 0 <= i < d.len() && (#[trigger] d[i]).href == (#[trigger] rows[j]).href
}

/// Whether row `j` is the last of `rows` with its href.
pub open spec fn last_for_href(rows: Seq<SyncRowView>, j: int) -> bool {
    forall|k: int| j < k < rows.len() ==> (#[trigger] rows[k]).href != rows[j].href
}

/// Every row of `d` is the last row of `rows` with its href.
pub open spec fn last_wins(rows: Seq<SyncRowView>, d: Seq<SyncRowView>) -> bool {
    forall|i: int| 0 <= i < d.len() ==> exists|j: int| 0 <= j < rows.len() && #[trigger] rows[j] == #[trigger] d[i] && last_for_href(rows, j)
}

proof fn lemma_dedup_distinct(pre: Seq<SyncRowView>, r: SyncRowView)
    requires
        distinct_hrefs(dedup_spec(pre)),
    ensures
        distinct_hrefs(dedup_spec(pre.push(r))),
{
    let d0 = dedup_spec(pre);
    assert(pre.push(r).drop_last() =~= pre);
    let d = dedup_spec(pre.push(r));
    match find_href(d0, r.href) {
        Some(p) => {
            assert(d0[p].href == r.href);
            assert forall|i: int, i2: int| 0 <= i < i2 < d.len() implies (#[trigger] d[i]).href != (#[trigger] d[i2]).href by {
                assert(d0[i].href == d[i].href && d0[i2].href == d[i2].href);
            }
        },
        None => {
            assert forall|i: int| 0 <= i < d0.len() implies (#[trigger] d0[i]).href != r.href by {}
            assert forall|i: int, i2: int| 0 <= i < i2 < d.len() implies (#[trigger] d[i]).href != (#[trigger] d[i2]).href by {
                assert(d[i] == d0[i]);
                if i2 < d0.len() {
                    assert(d[i2] == d0[i2]);
                }
            }
        },
    }
}

proof fn lemma_dedup_covers(pre: Seq<SyncRowView>, r: SyncRowView)
    requires
        covers(pre, dedup_spec(pre)),
    ensures
        covers(pre.push(r), dedup_spec(pre.push(r))),
{
    let rows = pre.push(r);
    let d0 = dedup_spec(pre);
    let n = pre.len();
    assert(rows.drop_last() =~= pre);
    let d = dedup_spec(rows);
    match find_href(d0, r.href) {
        Some(p) => {
            assert(d0[p].href == r.href);
            assert forall|j: int| 0 <= j < rows.len() implies exists|i: int|
                0 <= i < d.len() && (#[trigger] d[i]).href == (#[trigger] rows[j]).href by {
                if j < n {
                    assert(rows[j] == pre[j]);
                    let i = choose|i: int| 0 <= i < d0.len() && (#[trigger] d0[i]).href == (#[trigger] pre[j]).href;
                    assert(d[i].href == d0[i].href);
                } else {
                    assert(d[p].href == rows[j].href);
                }
            }
        },
        None => {
            assert forall|j: int| 0 <= j < rows.len() implies exists|i: int|
                0 <= i < d.len() && (#[trigger] d[i]).href == (#[trigger] rows[j]).href by {
                if j < n {
                    assert(rows[j] == pre[j]);
                    let i = choose|i: int| 0 <= i < d0.len() && (#[trigger] d0[i]).href == (#[trigger] pre[j]).href;
                    assert(d[i] == d0[i]);
                } else {
                    assert(d[d0.len() as int] == rows[j]);
                }
            }
        },
    }
}

proof fn lemma_dedup_last(pre: Seq<SyncRowView>, r: SyncRowView)
    requires
        distinct_hrefs(dedup_spec(pre)),
        last_wins(pre, dedup_spec(pre)),
    ensures
        last_wins(pre.push(r), dedup_spec(pre.push(r))),
{
    let rows = pre.push(r);
    let d0 = dedup_spec(pre);
    let n = pre.len();
    assert(rows.drop_last() =~= pre);
    let d = dedup_spec(rows);
    let fh = find_href(d0, r.href);
    assert forall|i: int| 0 <= i < d.len() implies exists|j: int|
        0 <= j < rows.len() && #[trigger] rows[j] == #[trigger] d[i] && last_for_href(rows, j) by {
        if (fh is Some && i == fh->0) || (fh is None && i == d0.len()) {
            assert(rows[n as int] == d[i]);
        } else {
            assert(d[i] == d0[i]);
            let j = choose|j: int| 0 <= j < pre.len() && #[trigger] pre[j] == #[trigger] d0[i] && last_for_href(pre, j);
            assert(rows[j] == d[i]);
            if fh is Some {
                assert(d0[fh->0].href == r.href);
            }
            assert forall|k: int| j < k < rows.len() implies (#[trigger] rows[k]).href != rows[j].href by {
                if k < n {
                    assert(rows[k] == pre[k]);
                }
            }
        }
    }
}

/// Collapsing repeated hrefs keeps every href exactly once, each with the
/// last row that carried it.
pub proof fn lemma_dedup_keeps_last(rows: Seq<SyncRowView>)
    ensures
        distinct_hrefs(dedup_spec(rows)),
        covers(rows, dedup_spec(rows)),
        last_wins(rows, dedup_spec(rows)),
    decreases rows.len(),
{
    if rows.len() > 0 {
        lemma_dedup_keeps_last(rows.drop_last());
        lemma_dedup_distinct(rows.drop_last(), rows.last());
        lemma_dedup_covers(rows.drop_last(), rows.last());
        lemma_dedup_last(rows.drop_last(), rows.last());
        assert(rows.drop_last().push(rows.last()) =~= rows);
    }
}

/// Whether a `sync-collection` failure means the server does not honor the
/// report: an unexpected `403` or `405`.
pub fn is_rejected_report(err: &Error) -> (r: bool)
    ensures
        r == (err@ matches ErrorView::UnexpectedStatus { status, .. } && (status == 403 || status == 405)),
{
    match err {
        Error::UnexpectedStatus { status, .. } => *status == 403 || *status == 405,
        _ => false,
    }
}

/// Progress through the pages of one `sync-collection` run: the token to
/// send next, the rows so far, whether a stale-token resync happened, and
/// the last token a page handed out.
pub struct SyncPager {
    pub token: Option<String>,
    pub rows: Vec<SyncRow>,
    pub resynced: bool,
    pub final_token: Option<String>,
}

impl SyncPager {
    /// A run that starts from `start` (no token: an initial sync).
    pub fn new(start: Option<String>) -> (p: SyncPager)
        ensures
            opt_chars(p.token) == opt_chars(start),
            p.rows@.len() == 0,
            !p.resynced,
            p.final_token is None,
    {
        SyncPager { token: start, rows: Vec::new(), resynced: false, final_token: None }
    }

    /// Take in one page. Returns whether another page must be fetched (with
    /// `self.token`): only when the page was truncated and handed out a token
    /// other than the one just sent, so a server that repeats its token (or
    /// gives none) cannot keep the run going.
    pub fn on_page(&mut self, page_token: Option<String>, page_rows: Vec<SyncRow>, truncated: bool, was_resync: bool) -> (more: bool)
        ensures
            final(self).resynced == (old(self).resynced || was_resync),
            rows_view(final(self).rows@) == rows_view(old(self).rows@) + rows_view(page_rows@),
            opt_chars(final(self).final_token) == match opt_chars(page_token) {
                Some(t) => Some(t),
                None => opt_chars(old(self).final_token),
            },
            more == (truncated && opt_chars(page_token) is Some && opt_chars(page_token) != opt_chars(old(self).token)),
            more ==> opt_chars(final(self).token) == opt_chars(page_token),
            !more ==> opt_chars(final(self).token) == opt_chars(old(self).token),
    {
        self.resynced = self.resynced || was_resync;
        let mut page_rows = page_rows;
        let ghost r0 = rows_view(self.rows@);
        let ghost pr = rows_view(page_rows@);
        self.rows.append(&mut page_rows);
        assert(rows_view(self.rows@) =~= r0 + pr);
        if page_token.is_some() {
            self.final_token = clone_opt_string(&page_token);
        }
        let more = truncated && page_token.is_some() && !opt_eq(&page_token, &self.token);
        if more {
            self.token = page_token;
        }
        more
    }

    /// The rows of the run with repeated hrefs collapsed, the last token,
    /// and whether a resync happened.
    pub fn finish(self) -> (r: (Vec<SyncRow>, Option<String>, bool))
        ensures
            rows_view(r.0@) == dedup_spec(rows_view(self.rows@)),
            opt_chars(r.1) == opt_chars(self.final_token),
            r.2 == self.resynced,
    {
        (dedup_rows(self.rows), self.final_token, self.resynced)
    }
}

/// The state a list of entries leaves: each href with its etag, a later
/// entry for an href replacing an earlier one.
pub open spec fn entries_state(items: Seq<SyncEntryView>) -> Map<Seq<char>, Option<Seq<char>>>
    decreases items.len(),
{
    if items.len() == 0 {
        Map::empty()
    } else {
        entries_state(items.drop_last()).insert(items.last().href, items.last().etag)
    }
}

/// The etag list of a `PROPFIND Depth: 1` answer: every member that is
/// neither a collection nor answered with an error status, a later response
/// for an href replacing an earlier one.
pub open spec fn listing_state(items: Seq<DavItemView>) -> Map<Seq<char>, Option<Seq<char>>>
    decreases items.len(),
{
    if items.len() == 0 {
        Map::empty()
    } else {
        let m = listing_state(items.drop_last());
        let v = items.last();
        if !v.is_collection && !error_status(v.status) {
            m.insert(v.href, v.etag)
        } else {
            m
        }
    }
}

/// The etag list of a `PROPFIND Depth: 1` answer (see [`listing_state`]).
pub fn listing_etags(items: Vec<DavItem>) -> (m: HrefMap)
    ensures
        m.wf(),
        m@ == listing_state(item_views(items@)),
{
    let ghost iv = item_views(items@);
    let mut m = HrefMap::new();
    let n = items.len();
    let mut k: usize = 0;
    for item in it: items
        invariant
            n == it.seq().len(),
            iv == item_views(it.seq()),
            k == it.index(),
            k <= iv.len(),
            m.wf(),
            m@ == listing_state(iv.take(k as int)),
    {
        proof {
            assert(iv.take(k as int + 1).drop_last() =~= iv.take(k as int));
            assert(iv.take(k as int + 1).last() == item@);
        }
        let bad = has_error_status(
            match &item.status {
                Some(s) => Some(s.as_str()),
                None => None,
            },
        );
        if !item.is_collection && !bad {
            m.insert(item.href, item.etag);
        }
        k += 1;
    }
    assert(iv.take(n as int) =~= iv);
    m
}

/// The bodies a multiget answer carries: for each response with a non-empty
/// href and `calendar-data` (else `address-data`), that payload, a later
/// response for an href replacing an earlier one.
pub open spec fn payloads_state(
    start: Map<Seq<char>, Option<Seq<char>>>,
    items: Seq<DavItemView>,
) -> Map<Seq<char>, Option<Seq<char>>>
    decreases items.len(),
{
    if items.len() == 0 {
        start
    } else {
        let m = payloads_state(start, items.drop_last());
        let v = items.last();
        let d = match v.calendar_data {
            Some(c) => Some(c),
            None => v.address_data,
        };
        if d is Some && v.href.len() > 0 {
            m.insert(v.href, d)
        } else {
            m
        }
    }
}

/// Record the bodies of one multiget answer in `out` (see [`payloads_state`]).
pub fn collect_payloads(items: Vec<DavItem>, out: &mut HrefMap)
    requires
        old(out).wf(),
    ensures
        final(out).wf(),
        final(out)@ == payloads_state(old(out)@, item_views(items@)),
{
    let ghost iv = item_views(items@);
    let ghost start = out@;
    let n = items.len();
    let mut k: usize = 0;
    for item in it: items
        invariant
            n == it.seq().len(),
            iv == item_views(it.seq()),
            k == it.index(),
            k <= iv.len(),
            out.wf(),
            out@ == payloads_state(start, iv.take(k as int)),
    {
        proof {
            assert(iv.take(k as int + 1).drop_last() =~= iv.take(k as int));
            assert(iv.take(k as int + 1).last() == item@);
        }
        let data = if item.calendar_data.is_some() {
            item.calendar_data
        } else {
            item.address_data
        };
        if data.is_some() && !item.href.as_str().is_empty() {
            out.insert(item.href, data);
        }
        k += 1;
    }
    assert(iv.take(n as int) =~= iv);
}

/// Hrefs per multiget REPORT in the fallback content fetch.
pub const MULTIGET_BATCH_SIZE: usize = 100;

/// The multiget bodies for `hrefs`, one per batch of
/// [`MULTIGET_BATCH_SIZE`], skipping batches without a non-empty href.
pub open spec fn multiget_batches_spec(
    hrefs: Seq<Seq<char>>,
    namespace: Seq<char>,
    root: Seq<char>,
    data_element: Seq<char>,
) -> Seq<Seq<char>>
    decreases hrefs.len(),
{
    if hrefs.len() == 0 {
        Seq::empty()
    } else {
        let k = if hrefs.len() < 100 {
            hrefs.len() as int
        } else {
            100
        };
        let chunk = hrefs.take(k);
        (if has_nonempty(chunk) {
            seq![multiget_spec(chunk, true, namespace, root, data_element, None)]
        } else {
            Seq::empty()
        }) + multiget_batches_spec(hrefs.skip(k), namespace, root, data_element)
    }
}

/// Build the multiget REPORT bodies that fetch `hrefs` in batches.
pub fn multiget_batches(hrefs: &[String], namespace: &str, root: &str, data_element: &str) -> (r: Vec<String>)
    ensures
        strings_view(r@) == multiget_batches_spec(strings_view(hrefs@), namespace@, root@, data_element@),
{
    let ghost all = strings_view(hrefs@);
    let mut out: Vec<String> = Vec::new();
    let mut pos: usize = 0;
    assert(all.skip(0) =~= all);
    while pos < hrefs.len()
        invariant
            pos <= hrefs@.len(),
            all == strings_view(hrefs@),
            strings_view(out@) + multiget_batches_spec(all.skip(pos as int), namespace@, root@, data_element@)
                == multiget_batches_spec(all, namespace@, root@, data_element@),
        decreases hrefs.len() - pos,
    {
        let end = if hrefs.len() - pos < MULTIGET_BATCH_SIZE {
            hrefs.len()
        } else {
            pos + MULTIGET_BATCH_SIZE
        };
        let chunk = vstd::slice::slice_subrange(hrefs, pos, end);
        let ghost rest = all.skip(pos as int);
        let ghost k = end - pos;
        proof {
            assert(strings_view(chunk@) =~= rest.take(k));
            assert(rest.skip(k) =~= all.skip(end as int));
        }
        let body = build_multiget_body(chunk, true, namespace, root, data_element, None);
        let ghost o0 = strings_view(out@);
        match body {
            Some(b) => {
                out.push(b);
                assert(strings_view(out@) =~= o0 + seq![multiget_spec(rest.take(k), true, namespace@, root@, data_element@, None)]);
            },
            None => {},
        }
        pos = end;
    }
    assert(strings_view(out@) + multiget_batches_spec(all.skip(pos as int), namespace@, root@, data_element@)
        == strings_view(out@));
    out
}

/// The hrefs of `added`, then those of `modified`.
pub fn changed_hrefs(added: &[SyncEntry], modified: &[SyncEntry]) -> (r: Vec<String>)
    ensures
        r@.len() == added@.len() + modified@.len(),
        forall|i: int| 0 <= i < added@.len() ==> (#[trigger] r@[i])@ == added@[i]@.href,
        forall|i: int| 0 <= i < modified@.len() ==> (#[trigger] r@[added@.len() + i])@ == modified@[i]@.href,
{
    let mut out: Vec<String> = Vec::new();
    let mut i: usize = 0;
    while i < added.len()
        invariant
            i <= added@.len(),
            out@.len() == i,
            forall|j: int| 0 <= j < i ==> (#[trigger] out@[j])@ == added@[j]@.href,
        decreases added.len() - i,
    {
        out.push(added[i].href.clone());
        i += 1;
    }
    let mut j: usize = 0;
    while j < modified.len()
        invariant
            j <= modified@.len(),
            out@.len() == added@.len() + j,
            forall|a: int| 0 <= a < added@.len() ==> (#[trigger] out@[a])@ == added@[a]@.href,
            forall|a: int| 0 <= a < j ==> (#[trigger] out@[added@.len() + a])@ == modified@[a]@.href,
        decreases modified.len() - j,
    {
        out.push(modified[j].href.clone());
        j += 1;
    }
    out
}

/// The payload `bodies` holds for `href`, if any.
pub open spec fn payload_for(bodies: Map<Seq<char>, Option<Seq<char>>>, href: Seq<char>) -> Option<Seq<char>> {
    if bodies.dom().contains(href) {
        bodies[href]
    } else {
        None
    }
}

/// Attach to each entry the payload `bodies` holds for its href.
pub fn with_payloads(entries: Vec<SyncEntry>, bodies: &HrefMap) -> (r: Vec<SyncEntry>)
    requires
        bodies.wf(),
    ensures
        r@.len() == entries@.len(),
        forall|i: int| 0 <= i < r@.len() ==> (#[trigger] r@[i])@ == (SyncEntryView {
            data: payload_for(bodies@, entries@[i]@.href),
            ..entries@[i]@
        }),
{
    let ghost ev = entries@;
    let mut out: Vec<SyncEntry> = Vec::new();
    let n = entries.len();
    let mut k: usize = 0;
    for e in it: entries
        invariant
            n == it.seq().len(),
            ev == it.seq(),
            k == it.index(),
            k <= n,
            bodies.wf(),
            out@.len() == k,
            forall|i: int| 0 <= i < k ==> (#[trigger] out@[i])@ == (SyncEntryView {
                data: payload_for(bodies@, ev[i]@.href),
                ..ev[i]@
            }),
    {
        let data = match bodies.get(e.href.as_str()) {
            Some(v) => clone_opt_string(v),
            None => None,
        };
        out.push(SyncEntry { href: e.href, etag: e.etag, data });
        k += 1;
    }
    out
}

/// Per-protocol constants of a data-fetching session.
#[derive(Clone, Copy)]
pub struct SyncDataSpec {
    /// XML namespace of the data property.
    pub namespace: &'static str,
    /// Data property requested alongside `getetag`.
    pub data_element: &'static str,
    /// Multiget REPORT root element.
    pub multiget_root: &'static str,
    /// Operation reported in multiget errors.
    pub multiget_operation: Operation,
}

impl SyncDataSpec {
    /// CalDAV: `calendar-data`, fetched with `calendar-multiget`.
    pub fn calendar() -> (s: SyncDataSpec)
        ensures
            s.namespace@ == "urn:ietf:params:xml:ns:caldav"@,
            s.data_element@ == "calendar-data"@,
            s.multiget_root@ == "calendar-multiget"@,
            s.multiget_operation == Operation::ReportCalendarMultiget,
    {
        SyncDataSpec {
            namespace: "urn:ietf:params:xml:ns:caldav",
            data_element: "calendar-data",
            multiget_root: "calendar-multiget",
            multiget_operation: Operation::ReportCalendarMultiget,
        }
    }

    /// CardDAV: `address-data`, fetched with `addressbook-multiget`.
    pub fn address() -> (s: SyncDataSpec)
        ensures
            s.namespace@ == "urn:ietf:params:xml:ns:carddav"@,
            s.data_element@ == "address-data"@,
            s.multiget_root@ == "addressbook-multiget"@,
            s.multiget_operation == Operation::ReportAddressbookMultiget,
    {
        SyncDataSpec {
            namespace: "urn:ietf:params:xml:ns:carddav",
            data_element: "address-data",
            multiget_root: "addressbook-multiget",
            multiget_operation: Operation::ReportAddressbookMultiget,
        }
    }
}

/// What a sync session remembers between calls: the capability probe
/// outcome, the last sync token, and the previous href → etag state (the
/// diff reference of the fallback and the added/modified classifier).
pub struct SessionState {
    pub capability: Option<SyncCapability>,
    pub token: Option<String>,
    pub prev: Option<HrefMap>,
}

impl SessionState {
    pub open spec fn wf(&self) -> bool {
        state_wf(self.prev)
    }

    /// A session that has probed nothing and holds no state.
    pub fn new() -> (s: SessionState)
        ensures
            s.wf(),
            s.capability is None,
            s.token is None,
            s.prev is None,
    {
        SessionState { capability: None, token: None, prev: None }
    }

    /// Restore a token persisted by the caller; the cached state is cleared
    /// so the next delta resumes from the server-side token.
    pub fn restore_token(&mut self, token: Option<&str>)
        ensures
            final(self).wf(),
            final(self).capability == old(self).capability,
            opt_chars(final(self).token) == match token {
                Some(t) => Some(t@),
                None => None,
            },
            final(self).prev is None,
    {
        self.token = match token {
            Some(t) => Some(t.to_owned()),
            None => None,
        };
        self.prev = None;
    }

    /// A rejected `sync-collection` report (see [`is_rejected_report`]) pins
    /// the capability to unsupported, so the session takes the full-list
    /// path from then on. Returns whether it was rejected.
    pub fn note_report_error(&mut self, err: &Error) -> (rejected: bool)
        requires
            old(self).wf(),
        ensures
            final(self).wf(),
            rejected == (err@ matches ErrorView::UnexpectedStatus { status, .. } && (status == 403 || status
                == 405)),
            final(self).capability == if rejected {
                Some(SyncCapability::Unsupported)
            } else {
                old(self).capability
            },
            opt_chars(final(self).token) == opt_chars(old(self).token),
            state_map(final(self).prev) == state_map(old(self).prev),
    {
        let rejected = is_rejected_report(err);
        if rejected {
            self.capability = Some(SyncCapability::Unsupported);
        }
        rejected
    }

    /// Take in the rows of an initial `sync-collection` run: they become the
    /// snapshot and the session's state, and `token` is stored.
    pub fn record_snapshot(&mut self, rows: Vec<SyncRow>, token: Option<String>) -> (snap: SyncSnapshot)
        requires
            old(self).wf(),
        ensures
            final(self).wf(),
            final(self).capability == old(self).capability,
            entries_view(snap.items@) == rows_view(rows@).map_values(|r: SyncRowView| row_entry(r)),
            opt_chars(snap.sync_token) == opt_chars(token),
            opt_chars(final(self).token) == opt_chars(token),
            final(self).prev is Some,
            state_map(final(self).prev) == entries_state(entries_view(snap.items@)),
    {
        let ghost rv = rows_view(rows@);
        let mut items: Vec<SyncEntry> = Vec::new();
        let mut state = HrefMap::new();
        let n = rows.len();
        let mut k: usize = 0;
        for row in it: rows
            invariant
                n == it.seq().len(),
                rv == rows_view(it.seq()),
                k == it.index(),
                k <= n,
                state.wf(),
                entries_view(items@) == rv.take(k as int).map_values(|r: SyncRowView| row_entry(r)),
                state@ == entries_state(entries_view(items@)),
        {
            let e = entry_from_row(row);
            let ghost ev = entries_view(items@);
            state.insert(e.href.clone(), clone_opt_string(&e.etag));
            items.push(e);
            proof {
                assert(entries_view(items@) =~= ev.push(e@));
                assert(entries_view(items@).drop_last() =~= ev);
                assert(rv.take(k as int + 1).map_values(|r: SyncRowView| row_entry(r)) =~= rv.take(k as int).map_values(
                    |r: SyncRowView| row_entry(r),
                ).push(row_entry(rv[k as int])));
            }
            k += 1;
        }
        assert(rv.take(n as int) =~= rv);
        self.token = clone_opt_string(&token);
        self.prev = Some(state);
        SyncSnapshot { items, sync_token: token }
    }

    /// Take in the rows of an incremental `sync-collection` run, store the
    /// new state and `token`, and return the delta. A run that started
    /// without a token gets the full state: it replaces the state and lists
    /// no deletions, its rows classified against the cached state. After a
    /// resync (stale token) the delta is a full rebuild: every live row is
    /// added, nothing is modified or deleted.
    pub fn record_delta(&mut self, started_without_token: bool, rows: Vec<SyncRow>, token: Option<String>, resynced: bool) -> (delta: SyncDelta)
        requires
            old(self).wf(),
        ensures
            final(self).wf(),
            final(self).capability == old(self).capability,
            ({
                let d = diff_rows_spec(
                    if resynced {
                        Map::empty()
                    } else {
                        state_map(old(self).prev)
                    },
                    rows_view(rows@),
                    resynced || started_without_token,
                );
                &&& entries_view(delta.added@) == d.added
                &&& entries_view(delta.modified@) == d.modified
                &&& strings_view(delta.deleted@) == d.deleted
                &&& state_map(final(self).prev) == d.next
            }),
            final(self).prev is Some,
            (resynced || started_without_token) ==> delta.deleted@.len() == 0,
            resynced ==> delta.modified@.len() == 0,
            opt_chars(delta.sync_token) == opt_chars(token),
            opt_chars(final(self).token) == opt_chars(token),
            delta.resynced == resynced,
    {
        let replace = resynced || started_without_token;
        let none: Option<HrefMap> = None;
        proof {
            lemma_nothing_modified_without_prev(rows_view(rows@), replace);
            assert(state_map(none) =~= Map::<Seq<char>, Option<Seq<char>>>::empty());
        }
        let diff = if resynced {
            diff_rows(&none, rows, replace)
        } else {
            diff_rows(&self.prev, rows, replace)
        };
        self.token = clone_opt_string(&token);
        self.prev = Some(diff.next);
        SyncDelta {
            added: diff.added,
            modified: diff.modified,
            deleted: diff.deleted,
            sync_token: token,
            resynced,
        }
    }

    /// Take in a full etag list (the fallback's snapshot): every member, in
    /// href order, with the payload `bodies` holds for it; the list becomes
    /// the session's state, and the stored token is reported.
    pub fn record_listing_snapshot(&mut self, current: HrefMap, bodies: &HrefMap) -> (snap: SyncSnapshot)
        requires
            old(self).wf(),
            current.wf(),
            bodies.wf(),
        ensures
            final(self).wf(),
            final(self).capability == old(self).capability,
            snap.items@.len() == current.pairs().len(),
            forall|i: int| 0 <= i < snap.items@.len() ==> (#[trigger] snap.items@[i])@ == (SyncEntryView {
                href: current.pairs()[i].0,
                etag: current.pairs()[i].1,
                data: payload_for(bodies@, current.pairs()[i].0),
            }),
            hrefs_sorted(entries_view(snap.items@)),
            state_map(final(self).prev) == current@,
            opt_chars(snap.sync_token) == opt_chars(old(self).token),
            opt_chars(final(self).token) == opt_chars(old(self).token),
    {
        let mut items: Vec<SyncEntry> = Vec::new();
        let mut i: usize = 0;
        while i < current.len()
            invariant
                current.wf(),
                bodies.wf(),
                i <= current.pairs().len(),
                items@.len() == i,
                forall|j: int| 0 <= j < i ==> (#[trigger] items@[j])@ == (SyncEntryView {
                    href: current.pairs()[j].0,
                    etag: current.pairs()[j].1,
                    data: payload_for(bodies@, current.pairs()[j].0),
                }),
            decreases current.pairs().len() - i,
        {
            let href = current.href_at(i);
            let data = match bodies.get(href.as_str()) {
                Some(v) => clone_opt_string(v),
                None => None,
            };
            items.push(SyncEntry { href: href.clone(), etag: clone_opt_string(current.value_at(i)), data });
            i += 1;
        }
        proof {
            assert forall|a: int, b: int| 0 <= a < b < items@.len() implies chars_lt(
                #[trigger] entries_view(items@)[a].href,
                #[trigger] entries_view(items@)[b].href,
            ) by {
                assert(entries_view(items@)[a] == items@[a]@);
                assert(entries_view(items@)[b] == items@[b]@);
            }
        }
        let token = clone_opt_string(&self.token);
        self.prev = Some(current);
        SyncSnapshot { items, sync_token: token }
    }

    /// The fallback's delta from the session's state to `current` (see
    /// [`diff_maps`]); the state is not changed.
    pub fn listing_delta(&self, current: &HrefMap) -> (r: (Vec<SyncEntry>, Vec<SyncEntry>, Vec<String>))
        requires
            self.wf(),
            current.wf(),
        ensures
            fallback_delta(state_map(self.prev), current@, entries_view(r.0@), entries_view(r.1@), strings_view(r.2@)),
    {
        diff_maps(&self.prev, current)
    }

    /// Commit a fallback delta: `current` becomes the session's state, and the
    /// delta carries the stored token.
    pub fn commit_listing(&mut self, current: HrefMap, added: Vec<SyncEntry>, modified: Vec<SyncEntry>, deleted: Vec<String>) -> (delta: SyncDelta)
        requires
            old(self).wf(),
            current.wf(),
        ensures
            final(self).wf(),
            final(self).capability == old(self).capability,
            state_map(final(self).prev) == current@,
            entries_view(delta.added@) == entries_view(added@),
            entries_view(delta.modified@) == entries_view(modified@),
            strings_view(delta.deleted@) == strings_view(deleted@),
            opt_chars(delta.sync_token) == opt_chars(old(self).token),
            opt_chars(final(self).token) == opt_chars(old(self).token),
            !delta.resynced,
    {
        let token = clone_opt_string(&self.token);
        self.prev = Some(current);
        SyncDelta { added, modified, deleted, sync_token: token, resynced: false }
    }
}


/// Against an empty previous state nothing is reported modified.
proof fn lemma_nothing_modified_without_prev(rows: Seq<SyncRowView>, replace: bool)
    ensures
        diff_rows_spec(Map::empty(), rows, replace).modified.len() == 0,
    decreases rows.len(),
{
    if rows.len() > 0 {
        lemma_nothing_modified_without_prev(rows.drop_last(), replace);
    }
}

/// Whether some entry of `s` carries the href `h` with etag `e`.
pub open spec fn has_entry(s: Seq<SyncEntryView>, h: Seq<char>, e: Option<Seq<char>>) -> bool {
    exists|i: int| 0 <= i < s.len() && (#[trigger] s[i]).href == h && s[i].etag == e
}

/// A stale-token resync, whose answer is the full state with one row per
/// href and is classified against no previous state, reports exactly the
/// new state as added: an href is in the state after the answer exactly
/// when an added entry carries it, with that entry's etag.
pub proof fn lemma_full_state_delta(rows: Seq<SyncRowView>)
    requires
        distinct_hrefs(rows),
    ensures
        ({
            let d = diff_rows_spec(Map::empty(), rows, true);
            forall|h: Seq<char>, e: Option<Seq<char>>|
                (d.next.dom().contains(h) && d.next[h] == e) <==> #[trigger] has_entry(d.added, h, e)
        }),
    decreases rows.len(),
{
    let prev = Map::<Seq<char>, Option<Seq<char>>>::empty();
    let d = diff_rows_spec(prev, rows, true);
    if rows.len() == 0 {
        assert forall|h: Seq<char>, e: Option<Seq<char>>|
            (d.next.dom().contains(h) && d.next[h] == e) <==> #[trigger] has_entry(d.added, h, e) by {}
    } else {
        let pre = rows.drop_last();
        let r = rows.last();
        assert forall|i: int, j: int| 0 <= i < j < pre.len() implies (#[trigger] pre[i]).href != (#[trigger] pre[j]).href by {
            assert(pre[i] == rows[i] && pre[j] == rows[j]);
        }
        lemma_full_state_delta(pre);
        lemma_rows_state_hrefs(prev, pre);
        let d0 = diff_rows_spec(prev, pre, true);
        assert forall|i: int| 0 <= i < pre.len() implies (#[trigger] pre[i]).href != r.href by {
            assert(pre[i] == rows[i]);
        }
        assert forall|h: Seq<char>, e: Option<Seq<char>>|
            (d.next.dom().contains(h) && d.next[h] == e) <==> #[trigger] has_entry(d.added, h, e) by {
            if has_entry(d0.added, h, e) {
                let i = choose|i: int| 0 <= i < d0.added.len() && (#[trigger] d0.added[i]).href == h && d0.added[i].etag == e;
                assert(d.added[i] == d0.added[i]);
            }
            if has_entry(d.added, h, e) && !(r.is_deleted) && !error_status(r.status) {
                let i = choose|i: int| 0 <= i < d.added.len() && (#[trigger] d.added[i]).href == h && d.added[i].etag == e;
                if i < d0.added.len() {
                    assert(d.added[i] == d0.added[i]);
                    assert(has_entry(d0.added, h, e));
                }
            }
            if !r.is_deleted && !error_status(r.status) && h == r.href {
                assert(d.added[d0.added.len() as int] == row_entry(r));
                if has_entry(d0.added, h, e) {
                    assert(d0.next.dom().contains(h));
                }
            }
        }
    }
}

/// In a full-state answer, every href of the state came from some row.
proof fn lemma_rows_state_hrefs(prev: Map<Seq<char>, Option<Seq<char>>>, rows: Seq<SyncRowView>)
    ensures
        forall|h: Seq<char>|
            #[trigger] diff_rows_spec(prev, rows, true).next.dom().contains(h) ==> exists|i: int|
                0 <= i < rows.len() && (#[trigger] rows[i]).href == h,
    decreases rows.len(),
{
    if rows.len() > 0 {
        let pre = rows.drop_last();
        lemma_rows_state_hrefs(prev, pre);
        assert forall|h: Seq<char>|
            #[trigger] diff_rows_spec(prev, rows, true).next.dom().contains(h) implies exists|i: int|
                0 <= i < rows.len() && (#[trigger] rows[i]).href == h by {
            if diff_rows_spec(prev, pre, true).next.dom().contains(h) {
                let i = choose|i: int| 0 <= i < pre.len() && (#[trigger] pre[i]).href == h;
                assert(rows[i] == pre[i]);
            } else {
                assert(rows[rows.len() - 1].href == h);
            }
        }
    }
}

} // verus!
