use enex2mf::{EnexParser, Error, Event, Note, NoteAttributes, Timestamp};

fn parse_all(xml: &str) -> Vec<Result<Note, Error>> {
    let mut parser = EnexParser::new(xml.as_bytes());
    let mut out = Vec::new();
    while let Some(r) = parser.next() {
        out.push(r);
    }
    out
}

fn start(name: &str) -> Event {
    Event::StartElement(name.to_string())
}

fn end(name: &str) -> Event {
    Event::EndElement(name.to_string())
}

fn text(t: &str) -> Event {
    Event::Characters(t.to_string())
}

#[test]
fn test_simple() {
    let buf = r#"<?xml version="1.0" encoding="UTF-8"?>
<!DOCTYPE en-export SYSTEM "http://xml.evernote.com/pub/evernote-export2.dtd">
<en-export export-date="20181226T083916Z" application="Evernote/Windows" version="6.x">
<note><title>foo</title></note>
</en-export>"#
        .as_bytes();

    let mut parser = EnexParser::new(buf);
    let mut notes: Vec<Note> = Vec::new();
    while let Some(x) = parser.next() {
        notes.push(x.unwrap());
    }
    assert_eq!(notes, vec![Note { title: Some("foo".to_string()), ..Note::default() }])
}

#[test]
fn notes_come_in_document_order_then_end_repeats() {
    let mut parser = EnexParser::new(
        b"<en-export><note><title>one</title></note><note><title>two</title></note>\
          <note><title>three</title></note></en-export>",
    );
    for want in ["one", "two", "three"] {
        let note = parser.next().unwrap().unwrap();
        assert_eq!(note.title, Some(want.to_string()));
    }
    assert!(parser.next().is_none());
    assert!(parser.next().is_none());
    assert!(parser.next().is_none());
}

#[test]
fn empty_export_has_no_notes() {
    let notes = parse_all("<en-export></en-export>");
    assert!(notes.is_empty());
}

#[test]
fn later_title_overwrites_earlier() {
    let notes = parse_all("<en-export><note><title>A</title><title>B</title></note></en-export>");
    assert_eq!(notes.len(), 1);
    assert_eq!(notes[0].as_ref().unwrap().title, Some("B".to_string()));
}

#[test]
fn tags_keep_order_and_duplicates() {
    let notes = parse_all(
        "<en-export><note><tag>x</tag><tag>y</tag><tag>x</tag></note></en-export>",
    );
    let note = notes[0].as_ref().unwrap();
    assert_eq!(note.tags, vec!["x".to_string(), "y".to_string(), "x".to_string()]);
}

#[test]
fn empty_tag_is_not_appended() {
    let notes = parse_all("<en-export><note><tag></tag><tag>a</tag></note></en-export>");
    assert_eq!(notes[0].as_ref().unwrap().tags, vec!["a".to_string()]);
}

#[test]
fn created_timestamp_in_utc() {
    let notes = parse_all(
        "<en-export><note><created>20181226T083916Z</created></note></en-export>",
    );
    let created: Timestamp = notes[0].as_ref().unwrap().created.unwrap();
    // 2018-12-26 08:39:16 UTC
    assert_eq!(created.seconds, 1545813556);
    assert!(created.offset > -86400 && created.offset < 86400);
    assert_eq!(notes[0].as_ref().unwrap().updated, None);
}

#[test]
fn updated_timestamp_with_numeric_offset() {
    let notes = parse_all(
        "<en-export><note><updated>20181226T103916+0200</updated></note></en-export>",
    );
    let updated = notes[0].as_ref().unwrap().updated.unwrap();
    assert_eq!(updated.seconds, 1545813556);
}

#[test]
fn malformed_timestamp_is_an_error() {
    let notes = parse_all("<en-export><note><created>not-a-date</created></note></en-export>");
    assert_eq!(notes.len(), 1);
    assert!(matches!(notes[0], Err(Error::Chrono(_))));
}

#[test]
fn empty_timestamp_is_an_error() {
    let notes = parse_all("<en-export><note><updated></updated></note></en-export>");
    assert_eq!(notes.len(), 1);
    assert!(matches!(notes[0], Err(Error::Chrono(_))));
}

#[test]
fn resource_with_nested_markup_is_skipped() {
    let notes = parse_all(
        "<en-export><note><title>t</title>\
         <resource><data encoding=\"base64\">QUJD</data><resource><title>inner</title></resource>\
         <recognition><![CDATA[<x>y</x>]]></recognition></resource>\
         <tag>after</tag></note><note><title>next</title></note></en-export>",
    );
    assert_eq!(notes.len(), 2);
    let first = notes[0].as_ref().unwrap();
    assert_eq!(first.title, Some("t".to_string()));
    assert_eq!(first.tags, vec!["after".to_string()]);
    assert_eq!(notes[1].as_ref().unwrap().title, Some("next".to_string()));
}

#[test]
fn missing_attributes_are_all_absent() {
    let notes = parse_all("<en-export><note><title>t</title></note></en-export>");
    assert_eq!(notes[0].as_ref().unwrap().attributes, NoteAttributes::default());
    assert_eq!(notes[0].as_ref().unwrap().attributes.author, None);
}

#[test]
fn attributes_are_read() {
    let notes = parse_all(
        "<en-export><note><note-attributes><author>me</author><source>web.clip</source>\
         <source-url>http://example.com/</source-url><latitude>1.5</latitude>\
         <longitude>-2.5</longitude><altitude>10</altitude></note-attributes></note></en-export>",
    );
    let attrs = &notes[0].as_ref().unwrap().attributes;
    assert_eq!(attrs.author, Some("me".to_string()));
    assert_eq!(attrs.source, Some("web.clip".to_string()));
    assert_eq!(attrs.source_url, Some("http://example.com/".to_string()));
    assert_eq!(attrs.latitude, Some("1.5".to_string()));
    assert_eq!(attrs.longitude, Some("-2.5".to_string()));
    assert_eq!(attrs.altitude, Some("10".to_string()));
}

#[test]
fn unknown_attribute_is_an_error() {
    let notes = parse_all(
        "<en-export><note><note-attributes><colour>red</colour></note-attributes></note></en-export>",
    );
    assert_eq!(notes.len(), 1);
    assert_eq!(notes[0], Err(Error::UnexpectedElement("colour".to_string())));
}

#[test]
fn unknown_element_in_note_ends_the_sequence() {
    let mut parser = EnexParser::new(
        b"<en-export><note><bogus/></note><note><title>n</title></note></en-export>",
    );
    assert_eq!(parser.next(), Some(Err(Error::UnexpectedElement("bogus".to_string()))));
    assert_eq!(parser.next(), None);
    assert_eq!(parser.next(), None);
}

#[test]
fn unknown_element_in_export_is_an_error() {
    let notes = parse_all("<en-export><notebook/></en-export>");
    assert_eq!(notes, vec![Err(Error::UnexpectedElement("notebook".to_string()))]);
}

#[test]
fn wrong_root_is_an_unexpected_event() {
    let notes = parse_all("<export></export>");
    assert_eq!(
        notes,
        vec![Err(Error::UnexpectedEvent("expected <en-export>".to_string(), start("export")))]
    );
}

#[test]
fn text_in_export_is_an_unexpected_event() {
    let notes = parse_all("<en-export>stray</en-export>");
    assert_eq!(
        notes,
        vec![Err(Error::UnexpectedEvent("in <en-export>".to_string(), text("stray")))]
    );
}

#[test]
fn element_inside_title_is_an_unexpected_event() {
    let notes = parse_all("<en-export><note><title><b>x</b></title></note></en-export>");
    assert_eq!(
        notes,
        vec![Err(Error::UnexpectedEvent("expected text".to_string(), start("b")))]
    );
}

#[test]
fn truncated_input_is_a_lexical_error() {
    let notes = parse_all("<en-export><note><title>t</title></note>");
    assert_eq!(notes.len(), 2);
    assert!(notes[0].is_ok());
    assert!(matches!(notes[1], Err(Error::Xml(_))));
}

#[test]
fn content_keeps_markup_as_text() {
    let notes = parse_all(
        "<en-export><note><content><![CDATA[<en-note><div>hi</div></en-note>]]></content></note></en-export>",
    );
    assert_eq!(
        notes[0].as_ref().unwrap().content,
        Some("<en-note><div>hi</div></en-note>".to_string())
    );
}

#[test]
fn split_text_is_joined() {
    let events = vec![
        Event::StartDocument,
        start("en-export"),
        start("note"),
        start("title"),
        text("ab"),
        text("cd"),
        text("e"),
        end("title"),
        end("note"),
        end("en-export"),
        Event::EndDocument,
    ];
    let mut parser = EnexParser::from_events(events);
    let note = parser.next().unwrap().unwrap();
    assert_eq!(note.title, Some("abcde".to_string()));
    assert_eq!(parser.next(), None);
}

#[test]
fn missing_document_start_is_an_unexpected_event() {
    let mut parser = EnexParser::from_events(vec![start("en-export")]);
    assert_eq!(
        parser.next(),
        Some(Err(Error::UnexpectedEvent("expected document start".to_string(), start("en-export"))))
    );
    assert_eq!(parser.next(), None);
}

#[test]
fn events_after_export_are_an_unexpected_event() {
    let mut parser = EnexParser::from_events(vec![
        Event::StartDocument,
        start("en-export"),
        end("en-export"),
        Event::Other("comment".to_string()),
    ]);
    assert_eq!(
        parser.next(),
        Some(Err(Error::UnexpectedEvent(
            "expected document end".to_string(),
            Event::Other("comment".to_string())
        )))
    );
}

#[test]
fn lexical_event_becomes_xml_error() {
    let mut parser = EnexParser::from_events(vec![
        Event::StartDocument,
        start("en-export"),
        Event::Malformed("bad byte".to_string()),
    ]);
    assert_eq!(parser.next(), Some(Err(Error::Xml("bad byte".to_string()))));
    assert_eq!(parser.next(), None);
}

#[test]
fn resource_without_end_is_an_unexpected_event() {
    let mut parser = EnexParser::from_events(vec![
        Event::StartDocument,
        start("en-export"),
        start("note"),
        start("resource"),
        start("data"),
    ]);
    assert_eq!(
        parser.next(),
        Some(Err(Error::UnexpectedEvent("in <resource>".to_string(), Event::EndDocument)))
    );
}

#[test]
fn modified_falls_back_to_created() {
    let notes = parse_all(
        "<en-export><note><created>20181226T083916Z</created></note>\
         <note><created>20181226T083916Z</created><updated>20181227T083916Z</updated></note></en-export>",
    );
    let only_created = notes[0].as_ref().unwrap();
    assert_eq!(only_created.modified().unwrap().seconds, 1545813556);
    let both = notes[1].as_ref().unwrap();
    assert_eq!(both.modified().unwrap().seconds, 1545813556 + 86400);
    assert_eq!(Note::default().modified(), None);
}
