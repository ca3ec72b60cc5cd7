use vstd::prelude::*;

verus! {

/// One markup event, as a pull tokenizer reports it.
#[derive(Debug, Clone, PartialEq)]
pub enum Event {
    StartDocument,
    EndDocument,
    /// An element opens; holds its local name.
    StartElement(String),
    /// An element closes; holds its local name.
    EndElement(String),
    /// Character data (text or CDATA) inside an element.
    Characters(String),
    /// Any other event (a comment, a processing instruction), described in words.
    Other(String),
    /// The tokenizer could not read the input; holds its message.
    Malformed(String),
}

/// The event that a reader positioned at `s` sees next. A reader that has run out of events
/// keeps reporting the end of the document.
pub open spec fn first(s: Seq<Event>) -> Event {
    if s.len() > 0 {
        s[0]
    } else {
        Event::EndDocument
    }
}

/// What is left of `s` once its next event has been read.
pub open spec fn rest(s: Seq<Event>) -> Seq<Event> {
    if s.len() > 0 {
        s.drop_first()
    } else {
        s
    }
}

} // verus!
