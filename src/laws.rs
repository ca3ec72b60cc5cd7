//! Properties of the parser as a whole, proved over the spec functions that its operations
//! are verified against.
use crate::enex::{
    attribute_fields, container_step, lemma_note_tags_differ, next_record, note_fields,
    open_or_close, pull, read_note, read_text, read_timestamp, skip_resource, ParserState,
};
use crate::error::Fault;
use crate::event::{first, rest, Event};
use crate::note::{AttributesModel, NoteModel};
use vstd::prelude::*;

verus! {

/// `e` opens an element named `name`.
pub open spec fn opens(e: Event, name: Seq<char>) -> bool {
    match e {
        Event::StartElement(n) => n@ == name,
        _ => false,
    }
}

/// `e` closes an element named `name`.
pub open spec fn closes(e: Event, name: Seq<char>) -> bool {
    match e {
        Event::EndElement(n) => n@ == name,
        _ => false,
    }
}

/// The outcomes of `k` requests made one after another, from `state` with the events `s`.
pub open spec fn requests(state: ParserState, s: Seq<Event>, k: nat) -> Seq<Option<Result<NoteModel, Fault>>>
    decreases k,
{
    if k == 0 {
        Seq::empty()
    } else {
        let (o, next_state, left) = next_record(state, s);
        seq![o] + requests(next_state, left, (k - 1) as nat)
    }
}

/// The outcomes that yield `notes` in order, then `ends` signals of the end.
pub open spec fn yields(notes: Seq<NoteModel>, ends: nat) -> Seq<Option<Result<NoteModel, Fault>>> {
    notes.map_values(|n: NoteModel| Some(Ok::<NoteModel, Fault>(n))) + Seq::new(ends, |i: int| None::<Result<NoteModel, Fault>>)
}

/// `b` is one complete note element, `<note>` to `</note>`, whose contents read as `n`.
pub open spec fn is_note_element(b: Seq<Event>, n: NoteModel) -> bool {
    &&& b.len() > 0
    &&& opens(b[0], "note"@)
    &&& read_note(b.drop_first()) == (Ok::<NoteModel, Fault>(n), Seq::<Event>::empty())
}

/// `evs` is a whole export: the start of the document, `<en-export>`, the note elements
/// `notes_events` in order, `</en-export>` and the end of the document.
pub open spec fn is_export(evs: Seq<Event>, notes_events: Seq<Seq<Event>>) -> bool {
    &&& evs.len() == notes_events.flatten().len() + 4
    &&& evs[0] == Event::StartDocument
    &&& opens(evs[1], "en-export"@)
    &&& evs.subrange(2, evs.len() - 2) == notes_events.flatten()
    &&& closes(evs[evs.len() - 2], "en-export"@)
    &&& evs[evs.len() - 1] == Event::EndDocument
}

proof fn lemma_rest_append(s: Seq<Event>, t: Seq<Event>)
    requires
        s.len() > 0,
    ensures
        first(s + t) == first(s),
        pull(s + t) == pull(s),
        rest(s + t) == rest(s) + t,
{
    assert((s + t).drop_first() =~= s.drop_first() + t);
}

/// Reading text that ends inside `s` does not look past `s`.
proof fn lemma_read_text_frame(s: Seq<Event>, end: Seq<char>, t: Seq<Event>)
    requires
        read_text(s, end).0 is Ok,
    ensures
        read_text(s + t, end) == (read_text(s, end).0, read_text(s, end).1 + t),
    decreases s.len(),
{
    lemma_rest_append(s, t);
    if let Ok(Event::Characters(_)) = pull(s) {
        lemma_read_text_frame(rest(s), end, t);
    }
}

proof fn lemma_read_timestamp_frame(s: Seq<Event>, end: Seq<char>, t: Seq<Event>)
    requires
        read_timestamp(s, end).0 is Ok,
    ensures
        read_timestamp(s + t, end) == (read_timestamp(s, end).0, read_timestamp(s, end).1 + t),
{
    lemma_read_text_frame(s, end, t);
}

/// Skipping a subtree that ends inside `s` does not look past `s`.
proof fn lemma_skip_resource_frame(s: Seq<Event>, depth: nat, t: Seq<Event>)
    requires
        skip_resource(s, depth).0 is Ok,
    ensures
        skip_resource(s + t, depth) == (skip_resource(s, depth).0, skip_resource(s, depth).1 + t),
    decreases s.len(),
{
    lemma_rest_append(s, t);
    match pull(s) {
        Ok(Event::StartElement(_)) => lemma_skip_resource_frame(rest(s), depth + 1, t),
        Ok(Event::EndElement(_)) => if depth > 0 {
            lemma_skip_resource_frame(rest(s), (depth - 1) as nat, t);
        },
        Ok(Event::EndDocument) => {},
        Ok(_) => lemma_skip_resource_frame(rest(s), depth, t),
        Err(_) => {},
    }
}

proof fn lemma_attribute_fields_frame(s: Seq<Event>, acc: AttributesModel, t: Seq<Event>)
    requires
        attribute_fields(s, acc).0 is Ok,
    ensures
        attribute_fields(s + t, acc) == (attribute_fields(s, acc).0, attribute_fields(s, acc).1 + t),
    decreases s.len(),
{
    lemma_rest_append(s, t);
    if let Ok(Some(tag)) = open_or_close(s, "note-attributes"@) {
        crate::enex::lemma_read_text_shrinks(rest(s), tag);
        lemma_read_text_frame(rest(s), tag, t);
        if let (Ok(v), r) = read_text(rest(s), tag) {
            lemma_attribute_fields_frame(r, crate::enex::with_attribute(acc, tag, v), t);
        }
    }
}

/// Reading a note that closes inside `s` does not look past `s`.
proof fn lemma_note_fields_frame(s: Seq<Event>, acc: NoteModel, t: Seq<Event>)
    requires
        note_fields(s, acc).0 is Ok,
    ensures
        note_fields(s + t, acc) == (note_fields(s, acc).0, note_fields(s, acc).1 + t),
    decreases s.len(),
{
    lemma_rest_append(s, t);
    if let Ok(Some(tag)) = open_or_close(s, "note"@) {
        if tag == "title"@ || tag == "content"@ || tag == "tag"@ {
            crate::enex::lemma_read_text_shrinks(rest(s), tag);
            lemma_read_text_frame(rest(s), tag, t);
            if let (Ok(v), r) = read_text(rest(s), tag) {
                lemma_note_fields_frame(r, crate::enex::with_text(acc, tag, v), t);
            }
        } else if tag == "created"@ || tag == "updated"@ {
            crate::enex::lemma_read_text_shrinks(rest(s), tag);
            lemma_read_timestamp_frame(rest(s), tag, t);
            if let (Ok(i), r) = read_timestamp(rest(s), tag) {
                lemma_note_fields_frame(r, crate::enex::with_instant(acc, tag, i), t);
            }
        } else if tag == "note-attributes"@ {
            crate::enex::lemma_attribute_fields_shrinks(rest(s), crate::note::no_attributes());
            lemma_attribute_fields_frame(rest(s), crate::note::no_attributes(), t);
            if let (Ok(a), r) = attribute_fields(rest(s), crate::note::no_attributes()) {
                lemma_note_fields_frame(r, NoteModel { attributes: a, ..acc }, t);
            }
        } else if tag == "resource"@ {
            crate::enex::lemma_skip_resource_shrinks(rest(s), 0);
            lemma_skip_resource_frame(rest(s), 0, t);
            if let (Ok(_), r) = skip_resource(rest(s), 0) {
                lemma_note_fields_frame(r, acc, t);
            }
        }
    }
}

/// Once the parser is done, every request signals the end.
pub proof fn lemma_done_stays_done(s: Seq<Event>, k: nat)
    ensures
        requests(ParserState::Done, s, k) == Seq::new(k, |i: int| None::<Result<NoteModel, Fault>>),
    decreases k,
{
    if k > 0 {
        lemma_done_stays_done(s, (k - 1) as nat);
        assert(requests(ParserState::Done, s, k) =~= Seq::new(k, |i: int| None::<Result<NoteModel, Fault>>));
    }
}

proof fn lemma_container_yields(notes_events: Seq<Seq<Event>>, notes: Seq<NoteModel>, close: Event, extra: nat)
    requires
        notes_events.len() == notes.len(),
        forall|i: int| 0 <= i < notes.len() ==> is_note_element(#[trigger] notes_events[i], notes[i]),
        closes(close, "en-export"@),
    ensures
        requests(
            ParserState::EnExport,
            notes_events.flatten() + seq![close, Event::EndDocument],
            notes.len() + 1 + extra,
        ) == yields(notes, extra + 1),
    decreases notes.len(),
{
    let tail = seq![close, Event::EndDocument];
    let k = notes.len() + 1 + extra;
    if notes.len() == 0 {
        assert(notes_events.flatten() + tail =~= tail);
        assert(rest(rest(tail)) =~= Seq::<Event>::empty());
        lemma_done_stays_done(Seq::empty(), (k - 1) as nat);
        assert(requests(ParserState::EnExport, tail, k) =~= yields(notes, extra + 1));
    } else {
        let b = notes_events[0];
        let more = notes_events.drop_first();
        let s = notes_events.flatten() + tail;
        let after = more.flatten() + tail;
        assert(s =~= b + after);
        assert(is_note_element(b, notes[0]));
        assert(b =~= seq![b[0]] + b.drop_first());
        lemma_rest_append(b, after);
        assert(rest(b) =~= b.drop_first());
        lemma_note_fields_frame(b.drop_first(), crate::note::empty_note(), after);
        assert(b.drop_first() + after =~= rest(s));
        assert(container_step(s) == (Some(Ok::<NoteModel, Fault>(notes[0])), ParserState::EnExport, after));
        assert forall|i: int| 0 <= i < notes.drop_first().len() implies is_note_element(
            #[trigger] more[i],
            notes.drop_first()[i],
        ) by {
            assert(more[i] == notes_events[i + 1]);
        }
        lemma_container_yields(more, notes.drop_first(), close, extra);
        assert(yields(notes, extra + 1) =~= seq![Some(Ok::<NoteModel, Fault>(notes[0]))] + yields(notes.drop_first(), extra + 1));
    }
}

/// A whole export with N note elements gives exactly their N records, in document order,
/// then signals the end, and signals the end again on every later request.
pub proof fn lemma_export_yields_its_notes(evs: Seq<Event>, notes_events: Seq<Seq<Event>>, notes: Seq<NoteModel>, extra: nat)
    requires
        is_export(evs, notes_events),
        notes_events.len() == notes.len(),
        forall|i: int| 0 <= i < notes.len() ==> is_note_element(#[trigger] notes_events[i], notes[i]),
    ensures
        requests(ParserState::Initial, evs, notes.len() + 1 + extra) == yields(notes, extra + 1),
{
    let body = notes_events.flatten() + seq![evs[evs.len() - 2], Event::EndDocument];
    assert(rest(rest(evs)) =~= body);
    lemma_container_yields(notes_events, notes, evs[evs.len() - 2], extra);
    let k = notes.len() + 1 + extra;
    assert(next_record(ParserState::Initial, evs) == next_record(ParserState::EnExport, body));
    assert(requests(ParserState::Initial, evs, k) =~= requests(ParserState::EnExport, body, k));
}

/// The elements that a note may hold.
pub open spec fn is_note_child(tag: Seq<char>) -> bool {
    tag == "title"@ || tag == "content"@ || tag == "created"@ || tag == "updated"@ || tag == "tag"@
        || tag == "note-attributes"@ || tag == "resource"@
}

/// A `<resource>` element is skipped whole, whatever markup it holds: reading the rest of a
/// note from its opening gives what reading from the sibling after `</resource>` gives.
pub proof fn lemma_resource_is_skipped(open: Event, payload: Seq<Event>, t: Seq<Event>, acc: NoteModel)
    requires
        opens(open, "resource"@),
        skip_resource(payload, 0) == (Ok::<(), Fault>(()), Seq::<Event>::empty()),
    ensures
        note_fields(seq![open] + payload + t, acc) == note_fields(t, acc),
{
    let s = seq![open] + payload + t;
    lemma_note_tags_differ();
    assert(s[0] == open);
    assert(rest(s) =~= payload + t);
    lemma_skip_resource_frame(payload, 0, t);
    assert(Seq::<Event>::empty() + t =~= t);
}

/// An element that a note may not hold ends the sequence: the request that reads it gives a
/// structural error that names it, and every later request signals the end.
pub proof fn lemma_unknown_element_ends_sequence(note_open: Event, name: String, s: Seq<Event>, k: nat)
    requires
        opens(note_open, "note"@),
        !is_note_child(name@),
    ensures
        requests(ParserState::EnExport, seq![note_open, Event::StartElement(name)] + s, k + 1)
            == seq![Some(Err::<NoteModel, Fault>(Fault::UnexpectedElement(name@)))]
            + Seq::new(k, |i: int| None::<Result<NoteModel, Fault>>),
{
    let evs = seq![note_open, Event::StartElement(name)] + s;
    assert(evs[0] == note_open);
    assert(rest(evs) =~= seq![Event::StartElement(name)] + s);
    assert(rest(rest(evs)) =~= s);
    assert(first(rest(evs)) == Event::StartElement(name));
    lemma_done_stays_done(s, k);
    let want = seq![Some(Err::<NoteModel, Fault>(Fault::UnexpectedElement(name@)))]
        + Seq::new(k, |i: int| None::<Result<NoteModel, Fault>>);
    assert(requests(ParserState::EnExport, evs, k + 1) =~= want);
}

/// No event of `s` opens an element named `name`.
pub open spec fn never_opens(s: Seq<Event>, name: Seq<char>) -> bool {
    forall|i: int| 0 <= i < s.len() ==> !opens(#[trigger] s[i], name)
}

proof fn lemma_rest_never_opens(s: Seq<Event>, name: Seq<char>)
    requires
        never_opens(s, name),
    ensures
        never_opens(rest(s), name),
{
    if s.len() > 0 {
        assert forall|i: int| 0 <= i < rest(s).len() implies !opens(#[trigger] rest(s)[i], name) by {
            assert(rest(s)[i] == s[i + 1]);
        }
    }
}

proof fn lemma_read_text_never_opens(s: Seq<Event>, end: Seq<char>, name: Seq<char>)
    requires
        never_opens(s, name),
    ensures
        never_opens(read_text(s, end).1, name),
    decreases s.len(),
{
    lemma_rest_never_opens(s, name);
    if let Ok(Event::Characters(_)) = pull(s) {
        lemma_read_text_never_opens(rest(s), end, name);
    }
}

proof fn lemma_skip_resource_never_opens(s: Seq<Event>, depth: nat, name: Seq<char>)
    requires
        never_opens(s, name),
    ensures
        never_opens(skip_resource(s, depth).1, name),
    decreases s.len(),
{
    lemma_rest_never_opens(s, name);
    match pull(s) {
        Ok(Event::StartElement(_)) => lemma_skip_resource_never_opens(rest(s), depth + 1, name),
        Ok(Event::EndElement(_)) => if depth > 0 {
            lemma_skip_resource_never_opens(rest(s), (depth - 1) as nat, name);
        },
        Ok(Event::EndDocument) => {},
        Ok(_) => lemma_skip_resource_never_opens(rest(s), depth, name),
        Err(_) => {},
    }
}

/// Without a `<note-attributes>` element, reading the rest of a note leaves its attributes as
/// they were.
pub proof fn lemma_attributes_kept_without_block(s: Seq<Event>, acc: NoteModel)
    requires
        never_opens(s, "note-attributes"@),
        note_fields(s, acc).0 is Ok,
    ensures
        note_fields(s, acc).0->Ok_0.attributes == acc.attributes,
    decreases s.len(),
{
    lemma_rest_never_opens(s, "note-attributes"@);
    if let Ok(Some(tag)) = open_or_close(s, "note"@) {
        assert(opens(s[0], tag));
        if tag == "title"@ || tag == "content"@ || tag == "tag"@ {
            crate::enex::lemma_read_text_shrinks(rest(s), tag);
            lemma_read_text_never_opens(rest(s), tag, "note-attributes"@);
            if let (Ok(v), r) = read_text(rest(s), tag) {
                lemma_attributes_kept_without_block(r, crate::enex::with_text(acc, tag, v));
            }
        } else if tag == "created"@ || tag == "updated"@ {
            crate::enex::lemma_read_text_shrinks(rest(s), tag);
            lemma_read_text_never_opens(rest(s), tag, "note-attributes"@);
            if let (Ok(i), r) = read_timestamp(rest(s), tag) {
                lemma_attributes_kept_without_block(r, crate::enex::with_instant(acc, tag, i));
            }
        } else if tag == "resource"@ {
            crate::enex::lemma_skip_resource_shrinks(rest(s), 0);
            lemma_skip_resource_never_opens(rest(s), 0, "note-attributes"@);
            if let (Ok(_), r) = skip_resource(rest(s), 0) {
                lemma_attributes_kept_without_block(r, acc);
            }
        }
    }
}

/// A note without a `<note-attributes>` element reads without error as far as the attributes
/// go, and every field of its attributes is absent.
pub proof fn lemma_missing_attributes_are_absent(s: Seq<Event>)
    requires
        never_opens(s, "note-attributes"@),
        read_note(s).0 is Ok,
    ensures
        read_note(s).0->Ok_0.attributes == crate::note::no_attributes(),
{
    lemma_attributes_kept_without_block(s, crate::note::empty_note());
}

} // verus!
