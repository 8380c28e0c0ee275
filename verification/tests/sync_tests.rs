use fast_dav_rs::error::{Error, Operation};
use fast_dav_rs::hrefmap::{str_lt, HrefMap};
use fast_dav_rs::sync::{
    dedup_rows, diff_maps, diff_rows, extract_data, has_error_status, is_rejected_report, listing_etags,
    map_sync_rows, multiget_batches, SessionState, SyncDataSpec, SyncEntry, SyncPager, SyncRow,
};
use fast_dav_rs::types::{DavItem, SyncCapability};

fn row(href: &str, etag: Option<&str>, status: Option<&str>, deleted: bool) -> SyncRow {
    SyncRow {
        href: href.to_owned(),
        etag: etag.map(str::to_owned),
        data: None,
        status: status.map(str::to_owned),
        is_deleted: deleted,
    }
}

fn map_of(pairs: &[(&str, Option<&str>)]) -> HrefMap {
    let mut m = HrefMap::new();
    for (h, e) in pairs {
        m.insert((*h).to_owned(), e.map(str::to_owned));
    }
    m
}

fn hrefs(entries: &[SyncEntry]) -> Vec<&str> {
    entries.iter().map(|e| e.href.as_str()).collect()
}

fn item(href: &str) -> DavItem {
    let mut i = DavItem::new();
    i.href = href.to_owned();
    i
}

#[test]
fn href_order_is_lexicographic() {
    assert!(str_lt("a", "b"));
    assert!(str_lt("a", "ab"));
    assert!(!str_lt("ab", "ab"));
    assert!(!str_lt("b", "a"));
}

#[test]
fn href_map_keeps_last_value_and_sorted_order() {
    let mut m = map_of(&[("/c", Some("1")), ("/a", Some("2")), ("/b", None)]);
    m.insert("/a".to_owned(), Some("3".to_owned()));
    assert_eq!(m.len(), 3);
    let order: Vec<&str> = (0..m.len()).map(|i| m.href_at(i).as_str()).collect();
    assert_eq!(order, vec!["/a", "/b", "/c"]);
    assert_eq!(m.get("/a"), Some(&Some("3".to_owned())));
    m.remove("/b");
    assert!(!m.contains("/b"));
    assert_eq!(m.len(), 2);
}

#[test]
fn dedup_keeps_last_row_in_first_position() {
    let rows = vec![
        row("/a", Some("1"), None, false),
        row("/b", Some("1"), None, false),
        row("/a", Some("2"), None, false),
    ];
    let out = dedup_rows(rows);
    assert_eq!(out.len(), 2);
    assert_eq!(out[0].href, "/a");
    assert_eq!(out[0].etag.as_deref(), Some("2"));
    assert_eq!(out[1].href, "/b");
}

#[test]
fn diff_rows_classifies_against_previous_state() {
    let prev = Some(map_of(&[("/a", Some("1")), ("/b", Some("1")), ("/c", Some("1"))]));
    let rows = vec![
        row("/a", Some("1"), None, false),
        row("/b", Some("2"), None, false),
        row("/c", None, Some("HTTP/1.1 404 Not Found"), true),
        row("/d", Some("1"), None, false),
        row("/", None, Some("HTTP/1.1 507 Insufficient Storage"), false),
    ];
    let d = diff_rows(&prev, rows, false);
    assert_eq!(hrefs(&d.added), vec!["/d"]);
    assert_eq!(hrefs(&d.modified), vec!["/b"]);
    assert_eq!(d.deleted, vec!["/c".to_owned()]);
    assert!(d.next.contains("/a") && d.next.contains("/b") && d.next.contains("/d"));
    assert!(!d.next.contains("/c") && !d.next.contains("/"));
}

#[test]
fn full_state_answer_lists_no_deletions() {
    let prev = Some(map_of(&[("/a", Some("1")), ("/gone", Some("1"))]));
    let rows = vec![row("/a", Some("1"), None, false), row("/x", None, Some("HTTP/1.1 410 Gone"), true)];
    let d = diff_rows(&prev, rows, true);
    assert!(d.deleted.is_empty());
    assert!(d.modified.is_empty());
    assert!(d.added.is_empty());
    assert_eq!(d.next.len(), 1);
    assert!(!d.next.contains("/gone"));
}

#[test]
fn full_state_answer_is_classified_against_cached_state() {
    let prev = Some(map_of(&[("/a", Some("1")), ("/b", Some("1"))]));
    let rows = vec![row("/a", Some("2"), None, false), row("/c", Some("1"), None, false)];
    let d = diff_rows(&prev, rows, true);
    assert_eq!(hrefs(&d.modified), vec!["/a"]);
    assert_eq!(hrefs(&d.added), vec!["/c"]);
    assert!(d.deleted.is_empty());
    assert_eq!(d.next.len(), 2);
    assert!(!d.next.contains("/b"));
}

#[test]
fn run_without_token_classifies_but_resync_rebuilds() {
    let mut s = SessionState::new();
    s.record_snapshot(vec![row("/a", Some("1"), None, false)], None);
    let delta = s.record_delta(true, vec![row("/a", Some("1"), None, false), row("/b", Some("1"), None, false)], Some("t1".to_owned()), false);
    assert_eq!(hrefs(&delta.added), vec!["/b"]);
    assert!(delta.modified.is_empty() && delta.deleted.is_empty());
    let delta = s.record_delta(false, vec![row("/a", Some("2"), None, false)], Some("t2".to_owned()), true);
    assert_eq!(hrefs(&delta.added), vec!["/a"]);
    assert!(delta.modified.is_empty() && delta.deleted.is_empty());
    assert!(delta.resynced);
}

#[test]
fn diff_maps_is_sorted_and_complete() {
    let prev = Some(map_of(&[("/b", Some("1")), ("/a", Some("1")), ("/z", Some("1"))]));
    let cur = map_of(&[("/c", Some("1")), ("/a", Some("2")), ("/b", Some("1")), ("/0", None)]);
    let (added, modified, deleted) = diff_maps(&prev, &cur);
    assert_eq!(hrefs(&added), vec!["/0", "/c"]);
    assert_eq!(hrefs(&modified), vec!["/a"]);
    assert_eq!(deleted, vec!["/z".to_owned()]);
    assert!(added.iter().chain(&modified).all(|e| e.data.is_none()));
}

#[test]
fn diff_maps_without_previous_state_adds_everything() {
    let cur = map_of(&[("/b", Some("1")), ("/a", None)]);
    let (added, modified, deleted) = diff_maps(&None, &cur);
    assert_eq!(hrefs(&added), vec!["/a", "/b"]);
    assert!(modified.is_empty() && deleted.is_empty());
}

#[test]
fn applying_a_fallback_delta_rebuilds_the_current_state() {
    let prev = map_of(&[("/a", Some("1")), ("/b", Some("1")), ("/z", Some("1"))]);
    let cur = map_of(&[("/a", Some("2")), ("/b", Some("1")), ("/c", None)]);
    let (added, modified, deleted) = diff_maps(&Some(prev.duplicate()), &cur);
    let mut rebuilt = prev;
    for h in &deleted {
        rebuilt.remove(h);
    }
    for e in added.iter().chain(&modified) {
        rebuilt.insert(e.href.clone(), e.etag.clone());
    }
    assert_eq!(rebuilt.len(), cur.len());
    for i in 0..cur.len() {
        assert_eq!(rebuilt.href_at(i), cur.href_at(i));
        assert_eq!(rebuilt.value_at(i), cur.value_at(i));
    }
}

#[test]
fn map_sync_rows_token_precedence_and_deletions() {
    let mut a = item("/cal/a.ics");
    a.etag = Some("e1".to_owned());
    a.sync_token = Some("item-token".to_owned());
    let mut coll = item("/cal/");
    coll.is_collection = true;
    let mut gone = item("/cal/b.ics");
    gone.status = Some("HTTP/1.1 404 Not Found".to_owned());
    let (token, rows, truncated) = map_sync_rows(Some(" \"hdr\" "), vec![a, coll, gone], None);
    assert_eq!(token.as_deref(), Some("hdr"));
    assert_eq!(rows.len(), 2);
    assert!(!rows[0].is_deleted && rows[1].is_deleted);
    assert!(!truncated);

    let (token, _, _) = map_sync_rows(Some("hdr"), vec![], Some("top".to_owned()));
    assert_eq!(token.as_deref(), Some("top"));
    let mut b = item("/x");
    b.sync_token = Some("first".to_owned());
    b.etag = Some("e".to_owned());
    let (token, _, _) = map_sync_rows(None, vec![b], None);
    assert_eq!(token.as_deref(), Some("first"));
}

#[test]
fn map_sync_rows_reports_truncation_and_skips_token_carriers() {
    let mut marker = item("/cal/");
    marker.status = Some("HTTP/1.1 507 Insufficient Storage".to_owned());
    let mut carrier = item("/cal/t");
    carrier.sync_token = Some("tok".to_owned());
    let (token, rows, truncated) = map_sync_rows(None, vec![marker, carrier], None);
    assert!(truncated);
    assert_eq!(token.as_deref(), Some("tok"));
    assert_eq!(rows.len(), 1);
    assert_eq!(rows[0].href, "/cal/");
}

#[test]
fn extract_data_prefers_calendar_data() {
    let mut i = item("/x");
    i.calendar_data = Some("BEGIN:VCALENDAR".to_owned());
    i.address_data = Some("BEGIN:VCARD".to_owned());
    assert_eq!(extract_data(&mut i).as_deref(), Some("BEGIN:VCALENDAR"));
    assert_eq!(extract_data(&mut i).as_deref(), Some("BEGIN:VCARD"));
    assert_eq!(extract_data(&mut i), None);
}

#[test]
fn error_status_detection() {
    assert!(has_error_status(Some("HTTP/1.1 404 Not Found")));
    assert!(has_error_status(Some("507")));
    assert!(!has_error_status(Some("HTTP/1.1 200 OK")));
    assert!(!has_error_status(Some("HTTP/1.1 4040 Custom")));
    assert!(!has_error_status(None));
}

#[test]
fn pager_stops_on_repeated_or_missing_token() {
    let mut p = SyncPager::new(None);
    assert!(p.on_page(Some("t1".to_owned()), vec![row("/a", Some("1"), None, false)], true, false));
    assert_eq!(p.token.as_deref(), Some("t1"));
    assert!(!p.on_page(Some("t1".to_owned()), vec![row("/a", Some("2"), None, false)], true, true));
    let (rows, token, resynced) = p.finish();
    assert_eq!(rows.len(), 1);
    assert_eq!(rows[0].etag.as_deref(), Some("2"));
    assert_eq!(token.as_deref(), Some("t1"));
    assert!(resynced);
}

#[test]
fn listing_skips_collections_and_error_members() {
    let mut coll = item("/cal/");
    coll.is_collection = true;
    let mut ok = item("/cal/a.ics");
    ok.etag = Some("1".to_owned());
    let mut bad = item("/cal/b.ics");
    bad.status = Some("HTTP/1.1 403 Forbidden".to_owned());
    let m = listing_etags(vec![coll, ok, bad]);
    assert_eq!(m.len(), 1);
    assert_eq!(m.get("/cal/a.ics"), Some(&Some("1".to_owned())));
}

#[test]
fn multiget_batches_chunk_by_hundred() {
    let hrefs: Vec<String> = (0..250).map(|i| format!("/c/{i}.ics")).collect();
    let spec = SyncDataSpec::calendar();
    let bodies = multiget_batches(&hrefs, spec.namespace, spec.multiget_root, spec.data_element);
    assert_eq!(bodies.len(), 3);
    assert!(bodies[0].starts_with("<C:calendar-multiget"));
    assert_eq!(bodies[0].matches("<D:href>").count(), 100);
    assert_eq!(bodies[2].matches("<D:href>").count(), 50);
    let empty = multiget_batches(&[String::new()], spec.namespace, spec.multiget_root, spec.data_element);
    assert!(empty.is_empty());
}

#[test]
fn session_downgrades_on_rejected_report() {
    let mut s = SessionState::new();
    let forbidden = Error::UnexpectedStatus { operation: Operation::ReportSyncCollection, status: 403 };
    assert!(is_rejected_report(&forbidden));
    assert!(s.note_report_error(&forbidden));
    assert_eq!(s.capability, Some(SyncCapability::Unsupported));
    let other = Error::UnexpectedStatus { operation: Operation::ReportSyncCollection, status: 500 };
    let mut t = SessionState::new();
    assert!(!t.note_report_error(&other));
    assert_eq!(t.capability, None);
}

#[test]
fn session_snapshot_then_delta() {
    let mut s = SessionState::new();
    let snap = s.record_snapshot(vec![row("/a", Some("1"), None, false)], Some("t1".to_owned()));
    assert_eq!(snap.items.len(), 1);
    assert_eq!(s.token.as_deref(), Some("t1"));
    let delta = s.record_delta(
        false,
        vec![row("/a", Some("2"), None, false), row("/b", Some("1"), None, false)],
        Some("t2".to_owned()),
        false,
    );
    assert_eq!(hrefs(&delta.modified), vec!["/a"]);
    assert_eq!(hrefs(&delta.added), vec!["/b"]);
    assert_eq!(delta.sync_token.as_deref(), Some("t2"));
    s.restore_token(Some("saved"));
    assert_eq!(s.token.as_deref(), Some("saved"));
    assert!(s.prev.is_none());
}

#[test]
fn session_listing_snapshot_attaches_payloads() {
    let mut s = SessionState::new();
    let cur = map_of(&[("/b", Some("1")), ("/a", Some("2"))]);
    let bodies = map_of(&[("/a", Some("DATA"))]);
    let snap = s.record_listing_snapshot(cur, &bodies);
    assert_eq!(hrefs(&snap.items), vec!["/a", "/b"]);
    assert_eq!(snap.items[0].data.as_deref(), Some("DATA"));
    assert_eq!(snap.items[1].data, None);
    assert!(snap.sync_token.is_none());
}
