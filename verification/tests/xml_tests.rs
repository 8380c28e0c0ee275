use fast_dav_rs::types::{Collation, MatchType, ParamFilter, SyncLevel, TextMatch};
use fast_dav_rs::xml::{
    build_multiget_body, build_sync_collection_body, comp_filter_xml, escape_xml, param_filter_xml, prop_filter_xml,
    text_match_xml, time_range_xml, validate_component_name, validate_utc_datetime,
};

#[test]
fn sync_collection_body_doc_example() {
    let body = build_sync_collection_body(
        Some("http://example.com/sync/7"),
        None,
        true,
        "urn:ietf:params:xml:ns:caldav",
        "calendar-data",
        None,
        SyncLevel::Infinite,
    );
    assert!(body.contains("<D:sync-token>http://example.com/sync/7</D:sync-token>"));
    assert!(body.contains("<D:sync-level>infinite</D:sync-level>"));
}

#[test]
fn sync_collection_body_exact_text() {
    let body = build_sync_collection_body(None, Some(50), false, "DAV:", "", Some(("20240101T000000Z", None)), SyncLevel::One);
    assert_eq!(
        body,
        "<D:sync-collection xmlns:D=\"DAV:\" xmlns:C=\"DAV:\"><D:sync-token/><D:sync-level>1</D:sync-level>\
<D:prop><D:getetag/><C:><C:expand start=\"20240101T000000Z\"/></C:></D:prop>\
<D:limit><D:nresults>50</D:nresults></D:limit></D:sync-collection>"
    );
}

#[test]
fn multiget_body_skips_empty_hrefs_and_escapes() {
    let hrefs = vec![String::new(), "/a&b.ics".to_owned()];
    let body = build_multiget_body(&hrefs, false, "urn:x", "calendar-multiget", "calendar-data", None).unwrap();
    assert_eq!(
        body,
        "<C:calendar-multiget xmlns:D=\"DAV:\" xmlns:C=\"urn:x\"><D:prop><D:getetag/></D:prop>\
<D:href>/a&amp;b.ics</D:href></C:calendar-multiget>"
    );
    assert!(build_multiget_body(&[String::new()], true, "urn:x", "r", "d", None).is_none());
}

#[test]
fn escape_xml_replaces_the_five_specials() {
    assert_eq!(escape_xml("<a href=\"x\">&'</a>"), "&lt;a href=&quot;x&quot;&gt;&amp;&apos;&lt;/a&gt;");
}

#[test]
fn component_and_datetime_validation() {
    assert!(validate_component_name("VEVENT", "comp").is_ok());
    assert!(validate_component_name("X-CUSTOM", "comp").is_ok());
    assert!(validate_component_name("", "comp").is_err());
    assert!(validate_component_name("VEV<ENT", "comp").is_err());
    assert!(validate_utc_datetime("20240101T000000Z", "start").is_ok());
    assert!(validate_utc_datetime("2024-01-01", "start").is_err());
}

#[test]
fn escaped_text_holds_no_markup() {
    let e = escape_xml("<script>alert('x') & \"y\"</script>");
    assert!(!e.contains('<') && !e.contains('>') && !e.contains('"') && !e.contains('\''));
    assert_eq!(e.matches('&').count(), e.matches("&lt;").count() + e.matches("&gt;").count() + e.matches("&amp;").count() + e.matches("&quot;").count() + e.matches("&apos;").count());
}

#[test]
fn text_match_builders_set_each_field() {
    let tm = TextMatch::new("Büro & Co")
        .with_collation(Collation::AsciiCasemap)
        .with_match_type(MatchType::StartsWith)
        .with_negate(true);
    assert_eq!(tm.value, "Büro & Co");
    assert_eq!(tm.collation, Collation::AsciiCasemap);
    assert_eq!(tm.match_type, MatchType::StartsWith);
    assert!(tm.negate);
    assert_eq!(
        tm.to_xml(),
        "<C:text-match collation=\"i;ascii-casemap\" match-type=\"starts-with\" negate-condition=\"yes\">Büro &amp; Co</C:text-match>"
    );
    let plain = TextMatch::new("x");
    assert_eq!(plain.to_xml(), "<C:text-match collation=\"i;unicode-casemap\" match-type=\"equals\">x</C:text-match>");
}

#[test]
fn param_filters_render_their_condition() {
    let absent = ParamFilter::not_defined("PARTSTAT");
    assert!(absent.is_not_defined);
    assert!(absent.text_match.is_none());
    assert_eq!(absent.to_xml(), "<C:param-filter name=\"PARTSTAT\"><C:is-not-defined/></C:param-filter>");
    let matching = ParamFilter::new("PARTSTAT", TextMatch::new("ACCEPTED"));
    assert_eq!(
        matching.to_xml(),
        "<C:param-filter name=\"PARTSTAT\"><C:text-match collation=\"i;unicode-casemap\" match-type=\"equals\">ACCEPTED</C:text-match></C:param-filter>"
    );
}

#[test]
fn filter_elements_escape_names_and_keep_inner_markup() {
    assert_eq!(prop_filter_xml("X-A\"B", "<i/>"), "<C:prop-filter name=\"X-A&quot;B\"><i/></C:prop-filter>");
    assert_eq!(comp_filter_xml("VEVENT", ""), "<C:comp-filter name=\"VEVENT\"></C:comp-filter>");
    assert_eq!(param_filter_xml("P<", "x"), "<C:param-filter name=\"P&lt;\">x</C:param-filter>");
    assert_eq!(
        text_match_xml("a<b", "i;octet", "contains", false),
        "<C:text-match collation=\"i;octet\" match-type=\"contains\">a&lt;b</C:text-match>"
    );
}

#[test]
fn time_range_has_optional_end() {
    assert_eq!(time_range_xml("20240101T000000Z", None), "<C:time-range start=\"20240101T000000Z\"/>");
    assert_eq!(
        time_range_xml("20240101T000000Z", Some("20240201T000000Z")),
        "<C:time-range start=\"20240101T000000Z\" end=\"20240201T000000Z\"/>"
    );
}
