use vstd::prelude::*;

verus! {

/// An instant, kept in the local time zone.
#[derive(Debug, Clone, Copy, PartialEq, Eq)]
pub struct Timestamp {
    /// Seconds since 1970-01-01T00:00:00Z.
    pub seconds: i64,
    /// Offset of the local time zone east of UTC at that instant, in seconds.
    pub offset: i32,
}

/// Optional metadata of a note.
#[derive(Debug, Clone, PartialEq)]
pub struct NoteAttributes {
    pub author: Option<String>,
    pub source_url: Option<String>,
    pub source: Option<String>,
    pub latitude: Option<String>,
    pub longitude: Option<String>,
    pub altitude: Option<String>,
}

/// One exported note.
#[derive(Debug, Clone, PartialEq)]
pub struct Note {
    pub title: Option<String>,
    pub content: Option<String>,
    pub created: Option<Timestamp>,
    pub updated: Option<Timestamp>,
    pub tags: Vec<String>,
    pub attributes: NoteAttributes,
}

/// The contents of a [`NoteAttributes`], as character sequences.
pub struct AttributesModel {
    pub author: Option<Seq<char>>,
    pub source_url: Option<Seq<char>>,
    pub source: Option<Seq<char>>,
    pub latitude: Option<Seq<char>>,
    pub longitude: Option<Seq<char>>,
    pub altitude: Option<Seq<char>>,
}

/// The contents of a [`Note`]: texts as character sequences, instants as seconds since the
/// epoch (the local offset is a property of the machine, not of the document).
pub struct NoteModel {
    pub title: Option<Seq<char>>,
    pub content: Option<Seq<char>>,
    pub created: Option<int>,
    pub updated: Option<int>,
    pub tags: Seq<Seq<char>>,
    pub attributes: AttributesModel,
}

pub open spec fn text_of(o: Option<String>) -> Option<Seq<char>> {
    match o {
        Some(s) => Some(s@),
        None => None,
    }
}

pub open spec fn instant_of(o: Option<Timestamp>) -> Option<int> {
    match o {
        Some(t) => Some(t.seconds as int),
        None => None,
    }
}

impl View for NoteAttributes {
    type V = AttributesModel;

    open spec fn view(&self) -> AttributesModel {
        AttributesModel {
            author: text_of(self.author),
            source_url: text_of(self.source_url),
            source: text_of(self.source),
            latitude: text_of(self.latitude),
            longitude: text_of(self.longitude),
            altitude: text_of(self.altitude),
        }
    }
}

impl View for Note {
    type V = NoteModel;

    open spec fn view(&self) -> NoteModel {
        NoteModel {
            title: text_of(self.title),
            content: text_of(self.content),
            created: instant_of(self.created),
            updated: instant_of(self.updated),
            tags: self.tags@.map_values(|t: String| t@),
            attributes: self.attributes@,
        }
    }
}

/// Attributes with every field absent.
pub open spec fn no_attributes() -> AttributesModel {
    AttributesModel {
        author: None,
        source_url: None,
        source: None,
        latitude: None,
        longitude: None,
        altitude: None,
    }
}

/// A note with every field absent and no tags.
pub open spec fn empty_note() -> NoteModel {
    NoteModel {
        title: None,
        content: None,
        created: None,
        updated: None,
        tags: Seq::empty(),
        attributes: no_attributes(),
    }
}

impl Note {
    /// When the note last changed: `updated`, or `created` where the export gives no
    /// `updated`.
    pub fn modified(&self) -> (r: Option<Timestamp>)
        ensures
            r == (if self.updated is Some {
                self.updated
            } else {
                self.created
            }),
    {
        match self.updated {
            Some(t) => Some(t),
            None => self.created,
        }
    }
}

impl Default for NoteAttributes {
    fn default() -> (r: NoteAttributes)
        ensures
            r@ == no_attributes(),
    {
        NoteAttributes {
            author: None,
            source_url: None,
            source: None,
            latitude: None,
            longitude: None,
            altitude: None,
        }
    }
}

impl Default for Note {
    fn default() -> (r: Note)
        ensures
            r@ == empty_note(),
    {
        let r = Note {
            title: None,
            content: None,
            created: None,
            updated: None,
            tags: Vec::new(),
            attributes: NoteAttributes::default(),
        };
        assert(r@.tags =~= Seq::<Seq<char>>::empty());
        r
    }
}

} // verus!
