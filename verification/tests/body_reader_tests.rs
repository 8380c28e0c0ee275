use fast_dav_rs::bodies::{ErrorBodyEnd, ErrorBodyReader, LockReader, PrincipalReader};
use fast_dav_rs::types::{Depth, LockScope};
use fast_dav_rs::xmlread::XmlEvent;

fn start(t: &str) -> XmlEvent {
    XmlEvent::Start(t.to_owned(), t.split(' ').next().unwrap().len())
}

fn empty(t: &str) -> XmlEvent {
    XmlEvent::Empty(t.to_owned(), t.split(' ').next().unwrap().len())
}

fn end(t: &str) -> XmlEvent {
    XmlEvent::End(t.to_owned())
}

fn text(t: &str) -> XmlEvent {
    XmlEvent::Text(t.to_owned())
}

#[test]
fn lock_reader_stops_at_first_activelock_end() {
    let steps = vec![
        start("D:prop xmlns:D=\"DAV:\""),
        start("D:lockdiscovery"),
        start("D:activelock"),
        start("D:lockscope"), empty("D:exclusive"), end("D:lockscope"),
        start("D:depth"), text("infinity"), end("D:depth"),
        start("D:timeout"), text("Second-600"), end("D:timeout"),
        start("D:locktoken"), start("D:href"), text("opaquelocktoken:abc"), end("D:href"), end("D:locktoken"),
        end("D:activelock"),
        start("D:activelock"),
        start("D:locktoken"), start("D:href"), text("opaquelocktoken:second"), end("D:href"), end("D:locktoken"),
        end("D:activelock"),
    ];
    let mut reader = LockReader::new();
    let mut stopped_at = None;
    for (i, step) in steps.into_iter().enumerate() {
        if reader.step(step).unwrap() {
            stopped_at = Some(i);
            break;
        }
    }
    assert_eq!(stopped_at, Some(17));
    let info = reader.into_info();
    assert_eq!(info.token, "opaquelocktoken:abc");
    assert_eq!(info.timeout_secs, Some(600));
    assert_eq!(info.scope, Some(LockScope::Exclusive));
    assert_eq!(info.depth, Some(Depth::Infinity));
}

#[test]
fn lock_reader_reports_tokenizer_failures() {
    let mut reader = LockReader::new();
    assert!(reader.step(XmlEvent::Malformed).is_err());
    let mut reader = LockReader::new();
    assert!(reader.step(XmlEvent::Failed).is_err());
    let mut reader = LockReader::new();
    assert_eq!(reader.step(XmlEvent::Eof).unwrap(), true);
    assert_eq!(reader.into_info().token, "");
}

#[test]
fn error_body_reader_keeps_the_first_child() {
    let mut reader = ErrorBodyReader::new();
    let steps = vec![
        start("D:error xmlns:D=\"DAV:\""),
        empty("D:lock-token-submitted"),
        empty("D:no-conflicting-lock"),
        end("D:error"),
    ];
    for step in steps {
        assert!(reader.step(step).is_none());
    }
    assert_eq!(reader.first_child().as_deref(), Some("lock-token-submitted"));
    assert!(matches!(reader.step(XmlEvent::Eof), Some(ErrorBodyEnd::Done)));
}

#[test]
fn error_body_reader_ignores_elements_outside_error() {
    let mut reader = ErrorBodyReader::new();
    assert!(reader.step(empty("D:other")).is_none());
    assert_eq!(reader.first_child(), None);
    assert!(matches!(reader.step(XmlEvent::Malformed), Some(ErrorBodyEnd::ParseFailed)));
    assert!(matches!(reader.step(XmlEvent::Failed), Some(ErrorBodyEnd::Fail(_))));
}

#[test]
fn principal_reader_stops_at_first_named_principal() {
    let steps = vec![
        start("D:multistatus xmlns:D=\"DAV:\""),
        start("D:response"), start("D:href"), text("/"), end("D:href"),
        start("D:propstat"), start("D:prop"),
        start("D:current-user-principal"), start("D:href"), text("/principals/alice/"), end("D:href"),
        end("D:current-user-principal"),
        end("D:prop"), end("D:propstat"),
        end("D:response"),
        start("D:response"),
    ];
    let mut reader = PrincipalReader::new();
    let mut stopped_at = None;
    for (i, step) in steps.into_iter().enumerate() {
        if reader.step(step).unwrap() {
            stopped_at = Some(i);
            break;
        }
    }
    assert_eq!(stopped_at, Some(14));
    assert_eq!(reader.principal().as_deref(), Some("/principals/alice/"));
}

#[test]
fn principal_reader_refuses_mismatched_end_tag() {
    let mut reader = PrincipalReader::new();
    assert_eq!(reader.step(start("D:multistatus xmlns:D=\"DAV:\"")).unwrap(), false);
    assert!(reader.step(end("D:response")).is_err());
    assert_eq!(reader.principal(), None);
}
