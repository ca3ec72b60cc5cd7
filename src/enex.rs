use crate::error::{Error, Fault};
use crate::event::{first, rest, Event};
use crate::note::{empty_note, no_attributes, text_of, AttributesModel, Note, NoteAttributes, NoteModel, Timestamp};
use std::collections::VecDeque;
use vstd::prelude::*;
use vstd::string::StringExecFns;
use xml::reader::XmlEvent;

verus! {

/// Where the parser stands in the export.
#[derive(Debug, PartialEq, Eq, Structural)]
pub enum ParserState {
    Initial,
    EnExport,
    Done,
}

/// The form of a timestamp in an export: `20181226T083916Z`, or with a numeric offset.
pub const TIMESTAMP_FORMAT: &'static str = "%Y%m%dT%H%M%S%#z";

/// The instant that chrono reads from `text` with `format`, or `None` where it rejects it.
pub uninterp spec fn parsed_instant(text: Seq<char>, format: Seq<char>) -> Option<int>;

/// Relies on chrono's `DateTime::parse_from_str`, which reads `text` with the strftime-style
/// `format` and fails on an empty text, and on `DateTime::with_timezone(&Local)`, which keeps
/// the instant and gives the local zone's offset (a `FixedOffset`, under one day).
#[verifier::external_body]
fn parse_local_datetime(text: &str, format: &str) -> (r: Result<Timestamp, chrono::format::ParseError>)
    ensures
        r is Ok <==> parsed_instant(text@, format@) is Some,
        r is Ok ==> r->Ok_0.seconds == parsed_instant(text@, format@)->Some_0,
        r is Ok ==> -86400 < r->Ok_0.offset < 86400,
        text@.len() == 0 ==> r is Err,
{
    match chrono::DateTime::parse_from_str(text, format) {
        Ok(d) => Ok(
            Timestamp {
                seconds: d.timestamp(),
                offset: d.with_timezone(&chrono::Local).offset().local_minus_utc(),
            },
        ),
        Err(e) => Err(e),
    }
}

/// The next event of `s`, with a tokenizer failure turned into a fault.
pub open spec fn pull(s: Seq<Event>) -> Result<Event, Fault> {
    match first(s) {
        Event::Malformed(m) => Err(Fault::Lexical(m@)),
        e => Ok(e),
    }
}

/// Reads the start of the document.
pub open spec fn expect_document_start(s: Seq<Event>) -> Result<(), Fault> {
    match pull(s) {
        Err(f) => Err(f),
        Ok(Event::StartDocument) => Ok(()),
        Ok(e) => Err(Fault::UnexpectedEvent("expected document start"@, e)),
    }
}

/// Reads the end of the document.
pub open spec fn expect_document_end(s: Seq<Event>) -> Result<(), Fault> {
    match pull(s) {
        Err(f) => Err(f),
        Ok(Event::EndDocument) => Ok(()),
        Ok(e) => Err(Fault::UnexpectedEvent("expected document end"@, e)),
    }
}

/// Reads the opening of an element named `tag`.
pub open spec fn expect_element(s: Seq<Event>, tag: Seq<char>) -> Result<(), Fault> {
    match pull(s) {
        Err(f) => Err(f),
        Ok(Event::StartElement(n)) => if n@ == tag {
            Ok(())
        } else {
            Err(Fault::UnexpectedEvent("expected <"@ + tag + ">"@, Event::StartElement(n)))
        },
        Ok(e) => Err(Fault::UnexpectedEvent("expected <"@ + tag + ">"@, e)),
    }
}

/// Reads either the opening of a child element, giving its name, or the closing of the
/// enclosing element `end`, giving `None`.
pub open spec fn open_or_close(s: Seq<Event>, end: Seq<char>) -> Result<Option<Seq<char>>, Fault> {
    match pull(s) {
        Err(f) => Err(f),
        Ok(Event::StartElement(n)) => Ok(Some(n@)),
        Ok(Event::EndElement(n)) => if n@ == end {
            Ok(None)
        } else {
            Err(Fault::UnexpectedEvent("in <"@ + end + ">"@, Event::EndElement(n)))
        },
        Ok(e) => Err(Fault::UnexpectedEvent("in <"@ + end + ">"@, e)),
    }
}

/// Reads the text up to the closing of `end`: the text events' contents joined in order, or
/// `None` where the element is empty. Gives the result and the events left after it.
pub open spec fn read_text(s: Seq<Event>, end: Seq<char>) -> (Result<Option<Seq<char>>, Fault>, Seq<Event>)
    decreases s.len(),
{
    match pull(s) {
        Err(f) => (Err(f), rest(s)),
        Ok(Event::Characters(t)) => {
            match read_text(rest(s), end) {
                (Ok(Some(more)), r) => (Ok(Some(t@ + more)), r),
                (Ok(None), r) => (Ok(Some(t@)), r),
                (Err(f), r) => (Err(f), r),
            }
        },
        Ok(Event::EndElement(n)) => if n@ == end {
            (Ok(None), rest(s))
        } else {
            (Err(Fault::UnexpectedEvent("expected text"@, Event::EndElement(n))), rest(s))
        },
        Ok(e) => (Err(Fault::UnexpectedEvent("expected text"@, e)), rest(s)),
    }
}

/// The text of a timestamp element, or the empty text where it has none.
pub open spec fn text_or_empty(t: Option<Seq<char>>) -> Seq<char> {
    match t {
        Some(t) => t,
        None => Seq::empty(),
    }
}

/// Reads a timestamp up to the closing of `end`. An empty element is a malformed timestamp.
pub open spec fn read_timestamp(s: Seq<Event>, end: Seq<char>) -> (Result<int, Fault>, Seq<Event>) {
    match read_text(s, end) {
        (Err(f), r) => (Err(f), r),
        (Ok(t), r) => match parsed_instant(text_or_empty(t), TIMESTAMP_FORMAT@) {
            Some(i) => (Ok(i), r),
            None => (Err(Fault::Timestamp), r),
        },
    }
}

/// Skips a subtree whose opening has been read and which is `depth` levels deep where `s`
/// starts, up to and including the closing of `<resource>`.
pub open spec fn skip_resource(s: Seq<Event>, depth: nat) -> (Result<(), Fault>, Seq<Event>)
    decreases s.len(),
{
    match pull(s) {
        Err(f) => (Err(f), rest(s)),
        Ok(Event::StartElement(_)) => skip_resource(rest(s), depth + 1),
        Ok(Event::EndElement(n)) => if depth > 0 {
            skip_resource(rest(s), (depth - 1) as nat)
        } else if n@ == "resource"@ {
            (Ok(()), rest(s))
        } else {
            (Err(Fault::UnexpectedEvent("in <resource>"@, Event::EndElement(n))), rest(s))
        },
        Ok(Event::EndDocument) => (Err(Fault::UnexpectedEvent("in <resource>"@, Event::EndDocument)), rest(s)),
        Ok(_) => skip_resource(rest(s), depth),
    }
}

/// Reading text never lengthens what is left.
pub proof fn lemma_read_text_shrinks(s: Seq<Event>, end: Seq<char>)
    ensures
        read_text(s, end).1.len() <= s.len(),
    decreases s.len(),
{
    if let Ok(Event::Characters(_)) = pull(s) {
        lemma_read_text_shrinks(rest(s), end);
    }
}

/// Skipping a subtree never lengthens what is left.
pub proof fn lemma_skip_resource_shrinks(s: Seq<Event>, depth: nat)
    ensures
        skip_resource(s, depth).1.len() <= s.len(),
    decreases s.len(),
{
    match pull(s) {
        Ok(Event::StartElement(_)) => lemma_skip_resource_shrinks(rest(s), depth + 1),
        Ok(Event::EndElement(_)) => if depth > 0 {
            lemma_skip_resource_shrinks(rest(s), (depth - 1) as nat);
        },
        Ok(Event::EndDocument) => {},
        Ok(_) => lemma_skip_resource_shrinks(rest(s), depth),
        Err(_) => {},
    }
}

/// The attributes `acc` with the value `v` stored under the field that `tag` names.
pub open spec fn with_attribute(acc: AttributesModel, tag: Seq<char>, v: Option<Seq<char>>) -> AttributesModel {
    AttributesModel {
        author: if tag == "author"@ { v } else { acc.author },
        source: if tag == "source"@ { v } else { acc.source },
        source_url: if tag == "source-url"@ { v } else { acc.source_url },
        latitude: if tag == "latitude"@ { v } else { acc.latitude },
        longitude: if tag == "longitude"@ { v } else { acc.longitude },
        altitude: if tag == "altitude"@ { v } else { acc.altitude },
    }
}

/// The elements allowed inside `<note-attributes>`.
pub open spec fn is_attribute_tag(tag: Seq<char>) -> bool {
    tag == "author"@ || tag == "source"@ || tag == "source-url"@ || tag == "latitude"@
        || tag == "longitude"@ || tag == "altitude"@
}

/// Reads the children of `<note-attributes>` up to its closing, storing each into `acc`; a
/// repeated child overwrites the earlier one.
pub open spec fn attribute_fields(s: Seq<Event>, acc: AttributesModel) -> (Result<AttributesModel, Fault>, Seq<Event>)
    decreases s.len(),
{
    match open_or_close(s, "note-attributes"@) {
        Err(f) => (Err(f), rest(s)),
        Ok(None) => (Ok(acc), rest(s)),
        Ok(Some(tag)) => if is_attribute_tag(tag) {
            proof {
                lemma_read_text_shrinks(rest(s), tag);
            }
            match read_text(rest(s), tag) {
                (Err(f), r) => (Err(f), r),
                (Ok(v), r) => attribute_fields(r, with_attribute(acc, tag, v)),
            }
        } else {
            (Err(Fault::UnexpectedElement(tag)), rest(s))
        },
    }
}

/// The note `acc` with the text `v` of a `title`, `content` or `tag` element: the first two
/// overwrite, a tag with text is appended.
pub open spec fn with_text(acc: NoteModel, tag: Seq<char>, v: Option<Seq<char>>) -> NoteModel {
    NoteModel {
        title: if tag == "title"@ { v } else { acc.title },
        content: if tag == "content"@ { v } else { acc.content },
        tags: if tag == "tag"@ && v is Some { acc.tags.push(v->Some_0) } else { acc.tags },
        ..acc
    }
}

/// The note `acc` with the instant `i` of a `created` or `updated` element.
pub open spec fn with_instant(acc: NoteModel, tag: Seq<char>, i: int) -> NoteModel {
    NoteModel {
        created: if tag == "created"@ { Some(i) } else { acc.created },
        updated: if tag == "updated"@ { Some(i) } else { acc.updated },
        ..acc
    }
}

/// Reads the children of a `<note>` up to its closing, storing each into `acc`.
pub open spec fn note_fields(s: Seq<Event>, acc: NoteModel) -> (Result<NoteModel, Fault>, Seq<Event>)
    decreases s.len(),
{
    match open_or_close(s, "note"@) {
        Err(f) => (Err(f), rest(s)),
        Ok(None) => (Ok(acc), rest(s)),
        Ok(Some(tag)) => if tag == "title"@ || tag == "content"@ || tag == "tag"@ {
            proof {
                lemma_read_text_shrinks(rest(s), tag);
            }
            match read_text(rest(s), tag) {
                (Err(f), r) => (Err(f), r),
                (Ok(v), r) => note_fields(r, with_text(acc, tag, v)),
            }
        } else if tag == "created"@ || tag == "updated"@ {
            proof {
                lemma_read_text_shrinks(rest(s), tag);
            }
            match read_timestamp(rest(s), tag) {
                (Err(f), r) => (Err(f), r),
                (Ok(i), r) => note_fields(r, with_instant(acc, tag, i)),
            }
        } else if tag == "note-attributes"@ {
            proof {
                lemma_attribute_fields_shrinks(rest(s), no_attributes());
            }
            match attribute_fields(rest(s), no_attributes()) {
                (Err(f), r) => (Err(f), r),
                (Ok(a), r) => note_fields(r, NoteModel { attributes: a, ..acc }),
            }
        } else if tag == "resource"@ {
            proof {
                lemma_skip_resource_shrinks(rest(s), 0);
            }
            match skip_resource(rest(s), 0) {
                (Err(f), r) => (Err(f), r),
                (Ok(_), r) => note_fields(r, acc),
            }
        } else {
            (Err(Fault::UnexpectedElement(tag)), rest(s))
        },
    }
}

/// Reads one note whose opening has been read.
pub open spec fn read_note(s: Seq<Event>) -> (Result<NoteModel, Fault>, Seq<Event>) {
    note_fields(s, empty_note())
}

/// What one request for a record gives from `state` with the events `s` left: a record, an
/// error, or `None` at the end; then the next state and the events left. Any error ends the
/// sequence.
pub open spec fn next_record(state: ParserState, s: Seq<Event>) -> (Option<Result<NoteModel, Fault>>, ParserState, Seq<Event>) {
    match state {
        ParserState::Done => (None, ParserState::Done, s),
        ParserState::Initial => match expect_document_start(s) {
            Err(f) => (Some(Err(f)), ParserState::Done, rest(s)),
            Ok(_) => match expect_element(rest(s), "en-export"@) {
                Err(f) => (Some(Err(f)), ParserState::Done, rest(rest(s))),
                Ok(_) => container_step(rest(rest(s))),
            },
        },
        ParserState::EnExport => container_step(s),
    }
}

/// One step inside `<en-export>`: a note, or the end of the container and of the document.
pub open spec fn container_step(s: Seq<Event>) -> (Option<Result<NoteModel, Fault>>, ParserState, Seq<Event>) {
    match open_or_close(s, "en-export"@) {
        Err(f) => (Some(Err(f)), ParserState::Done, rest(s)),
        Ok(Some(tag)) => if tag == "note"@ {
            match read_note(rest(s)) {
                (Ok(n), r) => (Some(Ok(n)), ParserState::EnExport, r),
                (Err(f), r) => (Some(Err(f)), ParserState::Done, r),
            }
        } else {
            (Some(Err(Fault::UnexpectedElement(tag))), ParserState::Done, rest(s))
        },
        Ok(None) => match expect_document_end(rest(s)) {
            Ok(_) => (None, ParserState::Done, rest(rest(s))),
            Err(f) => (Some(Err(f)), ParserState::Done, rest(rest(s))),
        },
    }
}

/// Reading attributes never lengthens what is left.
pub proof fn lemma_attribute_fields_shrinks(s: Seq<Event>, acc: AttributesModel)
    ensures
        attribute_fields(s, acc).1.len() <= s.len(),
    decreases s.len(),
{
    if let Ok(Some(tag)) = open_or_close(s, "note-attributes"@) {
        if is_attribute_tag(tag) {
            lemma_read_text_shrinks(rest(s), tag);
            if let (Ok(v), r) = read_text(rest(s), tag) {
                lemma_attribute_fields_shrinks(r, with_attribute(acc, tag, v));
            }
        }
    }
}

/// The children of a note have different names.
pub(crate) proof fn lemma_note_tags_differ()
    ensures
        "title"@ != "content"@,
        "title"@ != "created"@,
        "title"@ != "updated"@,
        "title"@ != "tag"@,
        "title"@ != "note-attributes"@,
        "title"@ != "resource"@,
        "content"@ != "created"@,
        "content"@ != "updated"@,
        "content"@ != "tag"@,
        "content"@ != "note-attributes"@,
        "content"@ != "resource"@,
        "created"@ != "updated"@,
        "created"@ != "tag"@,
        "created"@ != "note-attributes"@,
        "created"@ != "resource"@,
        "updated"@ != "tag"@,
        "updated"@ != "note-attributes"@,
        "updated"@ != "resource"@,
        "tag"@ != "note-attributes"@,
        "tag"@ != "resource"@,
        "note-attributes"@ != "resource"@,
{
        reveal_strlit("title");
        reveal_strlit("content");
        reveal_strlit("created");
        reveal_strlit("updated");
        reveal_strlit("tag");
        reveal_strlit("note-attributes");
        reveal_strlit("resource");
        assert("title"@.len() != "content"@.len());
        assert("title"@.len() != "created"@.len());
        assert("title"@.len() != "updated"@.len());
        assert("title"@.len() != "tag"@.len());
        assert("title"@.len() != "note-attributes"@.len());
        assert("title"@.len() != "resource"@.len());
        assert("content"@[1] != "created"@[1]);
        assert("content"@[0] != "updated"@[0]);
        assert("content"@.len() != "tag"@.len());
        assert("content"@.len() != "note-attributes"@.len());
        assert("content"@.len() != "resource"@.len());
        assert("created"@[0] != "updated"@[0]);
        assert("created"@.len() != "tag"@.len());
        assert("created"@.len() != "note-attributes"@.len());
        assert("created"@.len() != "resource"@.len());
        assert("updated"@.len() != "tag"@.len());
        assert("updated"@.len() != "note-attributes"@.len());
        assert("updated"@.len() != "resource"@.len());
        assert("tag"@.len() != "note-attributes"@.len());
        assert("tag"@.len() != "resource"@.len());
        assert("note-attributes"@.len() != "resource"@.len());
}

/// The children of `<note-attributes>` have different names.
proof fn lemma_attribute_tags_differ()
    ensures
        "author"@ != "source"@,
        "author"@ != "source-url"@,
        "author"@ != "latitude"@,
        "author"@ != "longitude"@,
        "author"@ != "altitude"@,
        "source"@ != "source-url"@,
        "source"@ != "latitude"@,
        "source"@ != "longitude"@,
        "source"@ != "altitude"@,
        "source-url"@ != "latitude"@,
        "source-url"@ != "longitude"@,
        "source-url"@ != "altitude"@,
        "latitude"@ != "longitude"@,
        "latitude"@ != "altitude"@,
        "longitude"@ != "altitude"@,
{
        reveal_strlit("author");
        reveal_strlit("source");
        reveal_strlit("source-url");
        reveal_strlit("latitude");
        reveal_strlit("longitude");
        reveal_strlit("altitude");
        assert("author"@[0] != "source"@[0]);
        assert("author"@.len() != "source-url"@.len());
        assert("author"@.len() != "latitude"@.len());
        assert("author"@.len() != "longitude"@.len());
        assert("author"@.len() != "altitude"@.len());
        assert("source"@.len() != "source-url"@.len());
        assert("source"@.len() != "latitude"@.len());
        assert("source"@.len() != "longitude"@.len());
        assert("source"@.len() != "altitude"@.len());
        assert("source-url"@.len() != "latitude"@.len());
        assert("source-url"@.len() != "longitude"@.len());
        assert("source-url"@.len() != "altitude"@.len());
        assert("latitude"@.len() != "longitude"@.len());
        assert("latitude"@[0] != "altitude"@[0]);
        assert("longitude"@.len() != "altitude"@.len());
}

/// The events of an export, read one at a time.
struct EnexReader {
    pending: VecDeque<Event>,
}

/// Tells whether `a` and `b` hold the same characters.
fn same_name(a: &String, b: &str) -> (r: bool)
    ensures
        r == (a@ == b@),
{
    let b = b.to_owned();
    a.eq(&b)
}

/// Joins three texts.
fn joined(a: &str, b: &str, c: &str) -> (r: String)
    ensures
        r@ == a@ + b@ + c@,
{
    let mut r = a.to_owned();
    r.append(b);
    r.append(c);
    r
}

impl EnexReader {
    fn next_event(&mut self) -> (e: Event)
        ensures
            e == first(old(self).pending@),
            final(self).pending@ == rest(old(self).pending@),
    {
        match self.pending.pop_front() {
            Some(e) => e,
            None => Event::EndDocument,
        }
    }

    /// The next event, or the tokenizer's failure.
    fn pull_event(&mut self) -> (r: Result<Event, Error>)
        ensures
            match r {
                Ok(e) => pull(old(self).pending@) == Ok::<Event, Fault>(e),
                Err(e) => pull(old(self).pending@) == Err::<Event, Fault>(e@),
            },
            final(self).pending@ == rest(old(self).pending@),
    {
        match self.next_event() {
            Event::Malformed(m) => Err(Error::Xml(m)),
            e => Ok(e),
        }
    }

    fn consume_start_document(&mut self) -> (r: Result<(), Error>)
        ensures
            match r {
                Ok(_) => expect_document_start(old(self).pending@) is Ok,
                Err(e) => expect_document_start(old(self).pending@) == Err::<(), Fault>(e@),
            },
            final(self).pending@ == rest(old(self).pending@),
    {
        match self.pull_event()? {
            Event::StartDocument => Ok(()),
            x => Err(Error::UnexpectedEvent("expected document start".to_owned(), x)),
        }
    }

    fn consume_end_document(&mut self) -> (r: Result<(), Error>)
        ensures
            match r {
                Ok(_) => expect_document_end(old(self).pending@) is Ok,
                Err(e) => expect_document_end(old(self).pending@) == Err::<(), Fault>(e@),
            },
            final(self).pending@ == rest(old(self).pending@),
    {
        match self.pull_event()? {
            Event::EndDocument => Ok(()),
            x => Err(Error::UnexpectedEvent("expected document end".to_owned(), x)),
        }
    }

    fn consume_start_element(&mut self, start_tag: &str) -> (r: Result<(), Error>)
        ensures
            match r {
                Ok(_) => expect_element(old(self).pending@, start_tag@) is Ok,
                Err(e) => expect_element(old(self).pending@, start_tag@) == Err::<(), Fault>(e@),
            },
            final(self).pending@ == rest(old(self).pending@),
    {
        match self.pull_event()? {
            Event::StartElement(name) => {
                if same_name(&name, start_tag) {
                    Ok(())
                } else {
                    Err(Error::UnexpectedEvent(joined("expected <", start_tag, ">"), Event::StartElement(name)))
                }
            },
            x => Err(Error::UnexpectedEvent(joined("expected <", start_tag, ">"), x)),
        }
    }

    /// Gives `Some(name)` for `<name>`, or `None` for `</end_tag>`.
    fn read_start_element_until_enclosing(&mut self, end_tag: &str) -> (r: Result<Option<String>, Error>)
        ensures
            match r {
                Ok(Some(n)) => open_or_close(old(self).pending@, end_tag@) == Ok::<Option<Seq<char>>, Fault>(Some(n@)),
                Ok(None) => open_or_close(old(self).pending@, end_tag@) == Ok::<Option<Seq<char>>, Fault>(None),
                Err(e) => open_or_close(old(self).pending@, end_tag@) == Err::<Option<Seq<char>>, Fault>(e@),
            },
            final(self).pending@ == rest(old(self).pending@),
    {
        match self.pull_event()? {
            Event::StartElement(name) => Ok(Some(name)),
            Event::EndElement(name) => {
                if same_name(&name, end_tag) {
                    Ok(None)
                } else {
                    Err(Error::UnexpectedEvent(joined("in <", end_tag, ">"), Event::EndElement(name)))
                }
            },
            x => Err(Error::UnexpectedEvent(joined("in <", end_tag, ">"), x)),
        }
    }
    /// Gives the text up to `</end_tag>`, or `None` where the element is empty.
    fn read_text_until_enclosing(&mut self, end_tag: &str) -> (r: Result<Option<String>, Error>)
        ensures
            ({
                let (want, left) = read_text(old(self).pending@, end_tag@);
                &&& final(self).pending@ == left
                &&& match r {
                    Ok(t) => want == Ok::<Option<Seq<char>>, Fault>(text_of(t)),
                    Err(e) => want == Err::<Option<Seq<char>>, Fault>(e@),
                }
            }),
        decreases old(self).pending@.len(),
    {
        match self.pull_event()? {
            Event::Characters(text) => {
                match self.read_text_until_enclosing(end_tag)? {
                    Some(more) => Ok(Some(text.concat(more.as_str()))),
                    None => Ok(Some(text)),
                }
            },
            Event::EndElement(name) => {
                if same_name(&name, end_tag) {
                    Ok(None)
                } else {
                    Err(Error::UnexpectedEvent("expected text".to_owned(), Event::EndElement(name)))
                }
            },
            x => Err(Error::UnexpectedEvent("expected text".to_owned(), x)),
        }
    }

    /// Gives the instant written up to `</end_tag>`, in the local time zone.
    fn read_datetime_until_enclosing(&mut self, end_tag: &str) -> (r: Result<Timestamp, Error>)
        ensures
            ({
                let (want, left) = read_timestamp(old(self).pending@, end_tag@);
                &&& final(self).pending@ == left
                &&& match r {
                    Ok(t) => want == Ok::<int, Fault>(t.seconds as int) && -86400 < t.offset < 86400,
                    Err(e) => want == Err::<int, Fault>(e@),
                }
            }),
    {
        let text = self.read_text_until_enclosing(end_tag)?;
        let text = match text {
            Some(t) => t,
            None => String::new(),
        };
        match parse_local_datetime(text.as_str(), TIMESTAMP_FORMAT) {
            Ok(t) => Ok(t),
            Err(e) => Err(Error::Chrono(e)),
        }
    }

    /// Skips everything up to and including the `</resource>` that closes the element just
    /// opened, counting the elements nested inside it.
    fn consume_resource(&mut self) -> (r: Result<(), Error>)
        ensures
            ({
                let (want, left) = skip_resource(old(self).pending@, 0);
                &&& final(self).pending@ == left
                &&& match r {
                    Ok(_) => want is Ok,
                    Err(e) => want == Err::<(), Fault>(e@),
                }
            }),
    {
        let ghost start = self.pending@;
        let total: usize = self.pending.len();
        let mut depth: usize = 0;
        loop
            invariant
                start == old(self).pending@,
                skip_resource(self.pending@, depth as nat) == skip_resource(start, 0),
                depth + self.pending@.len() <= total,
            decreases self.pending@.len(),
        {
            match self.pull_event()? {
                Event::StartElement(_) => {
                    depth = depth + 1;
                },
                Event::EndElement(name) => {
                    if depth > 0 {
                        depth = depth - 1;
                    } else if same_name(&name, "resource") {
                        return Ok(());
                    } else {
                        return Err(Error::UnexpectedEvent("in <resource>".to_owned(), Event::EndElement(name)));
                    }
                },
                Event::EndDocument => {
                    return Err(Error::UnexpectedEvent("in <resource>".to_owned(), Event::EndDocument));
                },
                _ => {},
            }
        }
    }
}

/// The events that xml-rs reports for `bytes`, read with the given options.
pub uninterp spec fn xml_events(bytes: Seq<u8>, trim_whitespace: bool, cdata_to_characters: bool) -> Seq<Event>;

/// Relies on xml-rs's `EventReader`, configured by `ParserConfig`, and its event iterator,
/// which ends after the end of the document or after the first error. Each event is carried
/// over as an [`Event`].
#[verifier::external_body]
fn tokenize(bytes: &[u8], trim_whitespace: bool, cdata_to_characters: bool) -> (r: Vec<Event>)
    ensures
        r@ == xml_events(bytes@, trim_whitespace, cdata_to_characters),
{
    let config = xml::reader::ParserConfig::new().trim_whitespace(trim_whitespace);
    let mut events = Vec::new();
    for ev in config.cdata_to_characters(cdata_to_characters).create_reader(bytes) {
        events.push(match ev {
            Ok(XmlEvent::StartDocument { .. }) => Event::StartDocument,
            Ok(XmlEvent::EndDocument) => Event::EndDocument,
            Ok(XmlEvent::StartElement { name, .. }) => Event::StartElement(name.local_name),
            Ok(XmlEvent::EndElement { name }) => Event::EndElement(name.local_name),
            Ok(XmlEvent::Characters(t)) | Ok(XmlEvent::CData(t)) => Event::Characters(t),
            Ok(other) => Event::Other(format!("{:?}", other)),
            Err(e) => Event::Malformed(e.to_string()),
        });
    }
    events
}

/// Streaming parser of an export: each call of [`EnexParser::next`] gives the next note.
pub struct EnexParser {
    reader: EnexReader,
    state: ParserState,
}

/// The view of a request's outcome.
pub open spec fn outcome_of(r: Option<Result<Note, Error>>) -> Option<Result<NoteModel, Fault>> {
    match r {
        None => None,
        Some(Ok(n)) => Some(Ok(n@)),
        Some(Err(e)) => Some(Err(e@)),
    }
}

impl EnexParser {
    /// The events not yet read.
    pub closed spec fn pending(&self) -> Seq<Event> {
        self.reader.pending@
    }

    /// Where the parser stands.
    pub closed spec fn state(&self) -> ParserState {
        self.state
    }

    /// A parser over the export in `bytes`, read as XML with surrounding whitespace dropped
    /// and CDATA taken as text.
    pub fn new(bytes: &[u8]) -> (r: EnexParser)
        ensures
            r.pending() == xml_events(bytes@, true, true),
            r.state() == ParserState::Initial,
    {
        EnexParser::from_events(tokenize(bytes, true, true))
    }

    /// A parser over the given events, before the start of the document.
    pub fn from_events(events: Vec<Event>) -> (r: EnexParser)
        ensures
            r.pending() == events@,
            r.state() == ParserState::Initial,
    {
        let ghost all = events@;
        let mut events = events;
        let mut pending: VecDeque<Event> = VecDeque::new();
        loop
            invariant
                events@ + pending@ == all,
            ensures
                pending@ == all,
            decreases events@.len(),
        {
            match events.pop() {
                Some(e) => {
                    pending.push_front(e);
                    assert(events@ + pending@ =~= all);
                },
                None => {
                    assert(pending@ =~= all);
                    break;
                },
            }
        }
        EnexParser { reader: EnexReader { pending }, state: ParserState::Initial }
    }

    fn read_note_attributes(&mut self) -> (r: Result<NoteAttributes, Error>)
        ensures
            ({
                let (want, left) = attribute_fields(old(self).pending(), no_attributes());
                &&& final(self).pending() == left
                &&& final(self).state == old(self).state
                &&& match r {
                    Ok(a) => want == Ok::<AttributesModel, Fault>(a@),
                    Err(e) => want == Err::<AttributesModel, Fault>(e@),
                }
            }),
    {
        let ghost start = self.pending();
        let mut attrs = NoteAttributes::default();
        loop
            invariant
                start == old(self).pending(),
                self.state == old(self).state,
                attribute_fields(self.pending(), attrs@) == attribute_fields(start, no_attributes()),
            decreases self.pending().len(),
        {
            let ghost before = self.pending();
            let tag = match self.reader.read_start_element_until_enclosing("note-attributes")? {
                Some(tag) => tag,
                None => return Ok(attrs),
            };
            proof {
                lemma_read_text_shrinks(rest(before), tag@);
                lemma_attribute_tags_differ();
            }
            if same_name(&tag, "author") {
                attrs.author = self.reader.read_text_until_enclosing(tag.as_str())?;
            } else if same_name(&tag, "source") {
                attrs.source = self.reader.read_text_until_enclosing(tag.as_str())?;
            } else if same_name(&tag, "source-url") {
                attrs.source_url = self.reader.read_text_until_enclosing(tag.as_str())?;
            } else if same_name(&tag, "latitude") {
                attrs.latitude = self.reader.read_text_until_enclosing(tag.as_str())?;
            } else if same_name(&tag, "longitude") {
                attrs.longitude = self.reader.read_text_until_enclosing(tag.as_str())?;
            } else if same_name(&tag, "altitude") {
                attrs.altitude = self.reader.read_text_until_enclosing(tag.as_str())?;
            } else {
                return Err(Error::UnexpectedElement(tag));
            }
        }
    }

    fn read_note(&mut self) -> (r: Result<Note, Error>)
        ensures
            ({
                let (want, left) = read_note(old(self).pending());
                &&& final(self).pending() == left
                &&& final(self).state == old(self).state
                &&& match r {
                    Ok(n) => want == Ok::<NoteModel, Fault>(n@),
                    Err(e) => want == Err::<NoteModel, Fault>(e@),
                }
            }),
    {
        let ghost start = self.pending();
        let mut note = Note::default();
        loop
            invariant
                start == old(self).pending(),
                self.state == old(self).state,
                note_fields(self.pending(), note@) == note_fields(start, empty_note()),
            decreases self.pending().len(),
        {
            let ghost before = self.pending();
            let ghost acc = note@;
            let tag = match self.reader.read_start_element_until_enclosing("note")? {
                Some(tag) => tag,
                None => return Ok(note),
            };
            proof {
                lemma_read_text_shrinks(rest(before), tag@);
                lemma_attribute_fields_shrinks(rest(before), no_attributes());
                lemma_skip_resource_shrinks(rest(before), 0);
                lemma_note_tags_differ();
            }
            if same_name(&tag, "title") {
                note.title = self.reader.read_text_until_enclosing(tag.as_str())?;
            } else if same_name(&tag, "content") {
                note.content = self.reader.read_text_until_enclosing(tag.as_str())?;
            } else if same_name(&tag, "created") {
                note.created = Some(self.reader.read_datetime_until_enclosing(tag.as_str())?);
            } else if same_name(&tag, "updated") {
                note.updated = Some(self.reader.read_datetime_until_enclosing(tag.as_str())?);
            } else if same_name(&tag, "tag") {
                if let Some(t) = self.reader.read_text_until_enclosing(tag.as_str())? {
                    note.tags.push(t);
                    assert(note@.tags =~= acc.tags.push(t@));
                }
            } else if same_name(&tag, "note-attributes") {
                note.attributes = self.read_note_attributes()?;
            } else if same_name(&tag, "resource") {
                self.reader.consume_resource()?;
            } else {
                return Err(Error::UnexpectedElement(tag));
            }
        }
    }

    /// The next note as `Ok(Some(note))`, or `Ok(None)` at the end of the export.
    fn next_helper(&mut self) -> (r: Result<Option<Note>, Error>)
        ensures
            ({
                let (want, state, left) = next_record(old(self).state(), old(self).pending());
                &&& final(self).pending() == left
                &&& match r {
                    Ok(Some(n)) => want == Some(Ok::<NoteModel, Fault>(n@)) && final(self).state() == state,
                    Ok(None) => want is None && final(self).state() == state,
                    Err(e) => want == Some(Err::<NoteModel, Fault>(e@)),
                }
            }),
    {
        if self.state == ParserState::Initial {
            self.reader.consume_start_document()?;
            self.reader.consume_start_element("en-export")?;
            self.state = ParserState::EnExport;
        }
        if self.state == ParserState::Done {
            return Ok(None);
        }
        match self.reader.read_start_element_until_enclosing("en-export")? {
            Some(tag) => {
                if same_name(&tag, "note") {
                    Ok(Some(self.read_note()?))
                } else {
                    Err(Error::UnexpectedElement(tag))
                }
            },
            None => {
                self.reader.consume_end_document()?;
                self.state = ParserState::Done;
                Ok(None)
            },
        }
    }

    /// The next note, `Some(Err(..))` where the export is malformed, or `None` once the
    /// export has ended. After an error or the end, every later call gives `None`.
    pub fn next(&mut self) -> (r: Option<Result<Note, Error>>)
        ensures
            ({
                let (want, state, left) = next_record(old(self).state(), old(self).pending());
                &&& outcome_of(r) == want
                &&& final(self).state() == state
                &&& final(self).pending() == left
            }),
            old(self).state() == ParserState::Done ==> r is None && final(self).state() == ParserState::Done,
            r is None || r->Some_0 is Err ==> final(self).state() == ParserState::Done,
    {
        match self.next_helper() {
            Ok(Some(n)) => Some(Ok(n)),
            Ok(None) => None,
            Err(e) => {
                self.state = ParserState::Done;
                Some(Err(e))
            },
        }
    }
}

} // verus!
