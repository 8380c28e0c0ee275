use fast_dav_rs::bodies::parse_current_user_principal_bytes;
use fast_dav_rs::common::CommonParser;
use fast_dav_rs::error::Error;
use fast_dav_rs::multistatus::{parse_multistatus_bytes, DavStreamEvent, MultistatusParser, MAX_ITEM_TEXT_BYTES};
use fast_dav_rs::names::ElementName;
use fast_dav_rs::types::DavItem;
use fast_dav_rs::xmlread::XmlEvent;
use fast_dav_rs::xmltext::append_capped;

#[test]
fn on_end_mismatched_closing_tag() {
    let mut parser = CommonParser::new();
    parser.on_start(b"D:response");
    let err = parser.on_end(b"D:prop").unwrap_err();
    assert!(err.message().contains("does not match"), "unexpected error: {err:?}");
}

#[test]
fn on_end_without_opening_tag() {
    let mut parser = CommonParser::new();
    let err = parser.on_end(b"D:response").unwrap_err();
    assert!(
        err.message().contains("without a matching opening tag"),
        "unexpected error: {err:?}"
    );
}

#[test]
fn on_text_sets_href() {
    let mut parser = CommonParser::new();
    parser.on_start(b"D:response");
    parser.on_start(b"D:href");
    parser.on_text("/path/to/resource/");
    let resp = parser.finish_response();
    assert_eq!(resp.href, "/path/to/resource/");
}

#[test]
fn on_text_sets_status_direct() {
    let mut parser = CommonParser::new();
    parser.on_start(b"D:response");
    parser.on_start(b"D:status");
    parser.on_text("HTTP/1.1 200 OK");
    let resp = parser.finish_response();
    assert_eq!(resp.status.as_deref(), Some("HTTP/1.1 200 OK"));
}

#[test]
fn on_text_sets_status_in_propstat() {
    let mut parser = CommonParser::new();
    parser.on_start(b"D:response");
    parser.on_start(b"D:propstat");
    parser.on_start(b"D:status");
    parser.on_text("HTTP/1.1 200 OK");
    let resp = parser.finish_response();
    assert_eq!(resp.status.as_deref(), Some("HTTP/1.1 200 OK"));
}

#[test]
fn on_text_sets_displayname() {
    let mut parser = CommonParser::new();
    parser.on_start(b"D:response");
    parser.on_start(b"D:propstat");
    parser.on_start(b"D:prop");
    parser.on_start(b"D:displayname");
    parser.on_text("My Calendar");
    let resp = parser.finish_response();
    assert_eq!(resp.displayname.as_deref(), Some("My Calendar"));
}

#[test]
fn on_text_sets_etag() {
    let mut parser = CommonParser::new();
    parser.on_start(b"D:response");
    parser.on_start(b"D:propstat");
    parser.on_start(b"D:prop");
    parser.on_start(b"D:getetag");
    parser.on_text("\"abc123\"");
    let resp = parser.finish_response();
    assert_eq!(resp.etag.as_deref(), Some("abc123"));
}

#[test]
fn on_text_sets_sync_token() {
    let mut parser = CommonParser::new();
    parser.on_start(b"D:response");
    parser.on_start(b"D:propstat");
    parser.on_start(b"D:prop");
    parser.on_start(b"D:sync-token");
    parser.on_text("http://sync/123");
    let resp = parser.finish_response();
    assert_eq!(resp.sync_token.as_deref(), Some("http://sync/123"));
}

#[test]
fn on_text_sets_current_user_principal() {
    let mut parser = CommonParser::new();
    parser.on_start(b"D:response");
    parser.on_start(b"D:propstat");
    parser.on_start(b"D:prop");
    parser.on_start(b"D:current-user-principal");
    parser.on_start(b"D:href");
    parser.on_text("/principals/me/");
    let resp = parser.finish_response();
    assert_eq!(resp.current_user_principal, vec!["/principals/me/".to_string()]);
}

#[test]
fn on_text_sets_owner() {
    let mut parser = CommonParser::new();
    parser.on_start(b"D:response");
    parser.on_start(b"D:propstat");
    parser.on_start(b"D:prop");
    parser.on_start(b"D:owner");
    parser.on_start(b"D:href");
    parser.on_text("/owners/me/");
    let resp = parser.finish_response();
    assert_eq!(resp.owner.as_deref(), Some("/owners/me/"));
}

#[test]
fn on_text_sets_content_type() {
    let mut parser = CommonParser::new();
    parser.on_start(b"D:response");
    parser.on_start(b"D:propstat");
    parser.on_start(b"D:prop");
    parser.on_start(b"D:getcontenttype");
    parser.on_text("text/calendar");
    let resp = parser.finish_response();
    assert_eq!(resp.content_type.as_deref(), Some("text/calendar"));
}

#[test]
fn on_text_sets_last_modified() {
    let mut parser = CommonParser::new();
    parser.on_start(b"D:response");
    parser.on_start(b"D:propstat");
    parser.on_start(b"D:prop");
    parser.on_start(b"D:getlastmodified");
    parser.on_text("Mon, 01 Jan 2024 00:00:00 GMT");
    let resp = parser.finish_response();
    assert_eq!(resp.last_modified.as_deref(), Some("Mon, 01 Jan 2024 00:00:00 GMT"));
}

#[test]
fn on_text_empty_is_noop() {
    let mut parser = CommonParser::new();
    parser.on_text("");
    let resp = parser.finish_response();
    assert!(resp.href.is_empty());
    assert!(resp.status.is_none());
}

#[test]
fn on_text_whitespace_only_is_noop() {
    let mut parser = CommonParser::new();
    parser.on_text("   \n\t  ");
    let resp = parser.finish_response();
    assert!(resp.href.is_empty());
    assert!(resp.status.is_none());
}

#[test]
fn on_text_no_context_is_noop() {
    let mut parser = CommonParser::new();
    parser.on_text("orphan text");
    let resp = parser.finish_response();
    assert!(resp.href.is_empty());
    assert!(resp.status.is_none());
}

fn cup_principal(href: &str) -> String {
    format!("<D:current-user-principal><D:href>{href}</D:href></D:current-user-principal>")
}

fn cup_response(prop: &str) -> String {
    format!(
        "<D:response><D:href>/</D:href><D:propstat><D:prop>{prop}</D:prop>\
         <D:status>HTTP/1.1 200 OK</D:status></D:propstat></D:response>"
    )
}

fn cup_doc(responses: &str) -> Vec<u8> {
    format!(
        "<?xml version=\"1.0\" encoding=\"utf-8\"?>\
         <D:multistatus xmlns:D=\"DAV:\">{responses}</D:multistatus>"
    )
    .into_bytes()
}

#[test]
fn parse_current_user_principal_bytes_valid() {
    let xml = cup_doc(&cup_response(&cup_principal("/principals/user/")));
    let result = parse_current_user_principal_bytes(&xml).unwrap();
    assert_eq!(result.as_deref(), Some("/principals/user/"));
}

#[test]
fn parse_current_user_principal_bytes_no_principal() {
    let xml = cup_doc(&cup_response("<D:displayname>My Cal</D:displayname>"));
    let result = parse_current_user_principal_bytes(&xml).unwrap();
    assert!(result.is_none());
}

#[test]
fn parse_current_user_principal_bytes_empty_href_skipped() {
    let xml = cup_doc(&cup_response(&cup_principal("")));
    let result = parse_current_user_principal_bytes(&xml).unwrap();
    assert!(result.is_none());
}

#[test]
fn parse_current_user_principal_bytes_multi_response_picks_second() {
    let xml = cup_doc(&format!(
        "{}{}",
        cup_response(&cup_principal("")),
        cup_response(&cup_principal("/principals/second/"))
    ));
    let result = parse_current_user_principal_bytes(&xml).unwrap();
    assert_eq!(result.as_deref(), Some("/principals/second/"));
}

#[test]
fn parse_current_user_principal_bytes_malformed_xml() {
    let xml = b"<D:multistatus><D:response><D:prop";
    let result = parse_current_user_principal_bytes(xml);
    assert!(result.is_err());
}

#[test]
fn parse_current_user_principal_bytes_first_match_wins() {
    let xml = cup_doc(&format!(
        "{}{}",
        cup_response(&cup_principal("/principals/first/")),
        cup_response(&cup_principal("/principals/second/"))
    ));
    let result = parse_current_user_principal_bytes(&xml).unwrap();
    assert_eq!(result.as_deref(), Some("/principals/first/"));
}

#[test]
fn append_capped_rejects_text_past_limit() {
    let mut buf = String::new();
    append_capped(&mut buf, "abc", 4).unwrap();
    let err = append_capped(&mut buf, "de", 4).unwrap_err();
    assert!(matches!(err, Error::BodyTooLarge { limit: 4 }), "{err:?}");
    assert_eq!(buf, "abc", "aborted append must leave the buffer unchanged");
}

#[test]
fn per_item_text_accumulation_is_capped() {
    let mut parser = MultistatusParser::new(Vec::<DavItem>::new());
    parser.stack = vec![
        ElementName::Response,
        ElementName::Propstat,
        ElementName::Prop,
        ElementName::CalendarData,
    ];
    let chunk = "x".repeat(64 * 1024);
    let chunks = MAX_ITEM_TEXT_BYTES / chunk.len() + 2;
    let mut result = Ok(());
    for _ in 0..chunks {
        result = parser.handle_text(chunk.clone());
        if result.is_err() {
            break;
        }
    }
    let err = result.expect_err("per-item cap must abort accumulation");
    assert!(
        matches!(err, Error::BodyTooLarge { limit } if limit == MAX_ITEM_TEXT_BYTES),
        "{err:?}"
    );
}

#[test]
fn append_capped_accepts_text_up_to_the_limit() {
    let mut buf = String::from("ab");
    append_capped(&mut buf, "cd", 4).unwrap();
    assert_eq!(buf, "abcd");
}

#[test]
fn foreign_namespace_elements_are_not_read_as_dav_elements() {
    let body = br#"<D:multistatus xmlns:D="DAV:" xmlns:X="urn:example:other"><D:response><D:href>/cal/a.ics</D:href><D:propstat><D:prop><X:href>/elsewhere</X:href><X:getetag>"x"</X:getetag><D:getetag>"real"</D:getetag></D:prop><D:status>HTTP/1.1 200 OK</D:status></D:propstat></D:response></D:multistatus>"#;
    let parsed = parse_multistatus_bytes(body).unwrap();
    assert_eq!(parsed.items.len(), 1);
    assert_eq!(parsed.items[0].href, "/cal/a.ics");
    assert_eq!(parsed.items[0].etag.as_deref(), Some("real"));
}

#[test]
fn draining_after_every_step_yields_the_whole_body_items() {
    let start = |t: &str| XmlEvent::Start(t.to_owned(), t.split(' ').next().unwrap().len());
    let end = |t: &str| XmlEvent::End(t.to_owned());
    let text = |t: &str| XmlEvent::Text(t.to_owned());
    let steps = vec![
        start("D:multistatus xmlns:D=\"DAV:\""),
        start("D:response"), start("D:href"), text("/a"), end("D:href"), end("D:response"),
        start("D:response"), start("D:href"), text("/b"), end("D:href"), end("D:response"),
        start("D:sync-token"), text("tok-1"), end("D:sync-token"),
        end("D:multistatus"),
        XmlEvent::Eof,
    ];
    let mut parser = MultistatusParser::new(Vec::new());
    let mut hrefs = Vec::new();
    let mut token = None;
    for step in steps {
        let done = parser.dispatch_event(step).unwrap();
        for ev in parser.drain_events() {
            match ev {
                DavStreamEvent::Item(i) => hrefs.push(i.href),
                DavStreamEvent::SyncToken(t) => token = Some(t),
                _ => {}
            }
        }
        if done {
            break;
        }
    }
    assert!(parser.finish().is_ok());
    let whole = parse_multistatus_bytes(
        b"<D:multistatus xmlns:D=\"DAV:\"><D:response><D:href>/a</D:href></D:response><D:response><D:href>/b</D:href></D:response><D:sync-token>tok-1</D:sync-token></D:multistatus>",
    )
    .unwrap();
    let whole_hrefs: Vec<String> = whole.items.into_iter().map(|i| i.href).collect();
    assert_eq!(hrefs, whole_hrefs);
    assert_eq!(token, whole.sync_token);
    assert_eq!(hrefs, vec!["/a".to_owned(), "/b".to_owned()]);
}

#[test]
fn namespace_declarations_end_with_their_element() {
    let body = br#"<D:multistatus xmlns:D="DAV:"><D:response><D:href>/a</D:href><D:propstat><D:prop><D:x xmlns:D="urn:other"/><D:getetag>"e1"</D:getetag></D:prop><D:status>HTTP/1.1 200 OK</D:status></D:propstat></D:response></D:multistatus>"#;
    let r = parse_multistatus_bytes(body).unwrap();
    assert_eq!(r.items.len(), 1);
    assert_eq!(r.items[0].href, "/a");
    assert_eq!(r.items[0].etag.as_deref(), Some("e1"));
    let nested = br#"<D:multistatus xmlns:D="DAV:"><D:response><D:href>/b</D:href><D:propstat><D:prop><D:y xmlns:D="urn:other"><D:z/></D:y><D:getetag>"e2"</D:getetag></D:prop></D:propstat></D:response></D:multistatus>"#;
    let r = parse_multistatus_bytes(nested).unwrap();
    assert_eq!(r.items[0].etag.as_deref(), Some("e2"));
}

#[test]
fn error_body_code_is_first_child_local_name() {
    let body = br#"<D:error xmlns:D="DAV:" xmlns:s="http://sabredav.org/ns"><s:exception>Conflict</s:exception><D:lock-token-submitted/></D:error>"#;
    let err = fast_dav_rs::bodies::parse_error_body(body).unwrap();
    assert_eq!(err.precondition_code.as_deref(), Some("exception"));
    assert!(!err.parse_failed);
    let doc = br#"<D:error xmlns:D="DAV:" xmlns:C="urn:ietf:params:xml:ns:caldav">
  <C:no-uid-conflict/>
</D:error>"#;
    let err = fast_dav_rs::bodies::parse_error_body(doc).unwrap();
    assert_eq!(err.precondition_code.as_deref(), Some("no-uid-conflict"));
    let broken = fast_dav_rs::bodies::parse_error_body(b"<D:error><x></D:error>").unwrap();
    assert!(broken.parse_failed);
    assert_eq!(fast_dav_rs::bodies::parse_error_body(b"  ").unwrap().precondition_code, None);
}

#[test]
fn attributes_starting_inside_a_character_are_malformed() {
    let err = fast_dav_rs::multistatus::parse_type_attributes("\u{e9}a=\"b\"", 1).unwrap_err();
    assert_eq!(err, Error::Xml(fast_dav_rs::error::XmlErrorKind::Malformed));
    let mut p = MultistatusParser::new(Vec::new());
    assert!(p.on_start("\u{e9}a=\"b\"", 1).is_err());
    assert!(fast_dav_rs::multistatus::parse_type_attributes("x content-type=\"text/vcard\"", 1).is_ok());
}
