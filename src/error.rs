use crate::event::Event;
use vstd::prelude::*;

verus! {

#[verifier::external_type_specification]
#[verifier::external_body]
pub struct ExParseError(chrono::format::ParseError);

/// Why reading an export stopped.
#[derive(Debug, PartialEq)]
pub enum Error {
    /// The tokenizer could not read the input.
    Xml(String),
    /// A timestamp's text does not have the expected form.
    Chrono(chrono::format::ParseError),
    /// An element that is not allowed where it stands; holds its name.
    UnexpectedElement(String),
    /// An event that is not allowed where it stands, with what was expected instead.
    UnexpectedEvent(String, Event),
}

/// The contents of an [`Error`]. A timestamp error is known only by its kind.
pub enum Fault {
    Lexical(Seq<char>),
    Timestamp,
    UnexpectedElement(Seq<char>),
    UnexpectedEvent(Seq<char>, Event),
}

impl View for Error {
    type V = Fault;

    open spec fn view(&self) -> Fault {
        match self {
            Error::Xml(m) => Fault::Lexical(m@),
            Error::Chrono(_) => Fault::Timestamp,
            Error::UnexpectedElement(t) => Fault::UnexpectedElement(t@),
            Error::UnexpectedEvent(l, e) => Fault::UnexpectedEvent(l@, *e),
        }
    }
}

} // verus!
