//! Streaming reader for Evernote `.enex` exports.
//!
//! An XML tokenizer turns the export into a sequence of [`Event`]s; [`EnexParser`] turns those
//! into [`Note`] records, one per request, and stops cleanly at the first problem it meets.
//! Each operation is verified against spec functions over the remaining events, and
//! [`laws`] proves properties of the parser as a whole.

pub mod enex;
pub mod error;
pub mod event;
pub mod laws;
pub mod note;

pub use enex::{EnexParser, ParserState, TIMESTAMP_FORMAT};
pub use error::{Error, Fault};
pub use event::Event;
pub use note::{AttributesModel, Note, NoteAttributes, NoteModel, Timestamp};
