//! What can go wrong while a record is decoded, and where.

use vstd::prelude::*;

verus! {

/// A place in a record: one of the named members of a book, a cover or a
/// named link, or the value that is being decoded itself.
#[derive(Clone, Copy, PartialEq, Eq, Structural, Debug)]
pub enum Field {
    /// The value handed to the decoder, as opposed to one of its members.
    Root,
    Url,
    Key,
    Title,
    Subtitle,
    Authors,
    NumberOfPages,
    Identifiers,
    Classifications,
    Publishers,
    PublishPlaces,
    PublishDate,
    Subjects,
    SubjectPlaces,
    SubjectPeople,
    Notes,
    Cover,
    Small,
    Medium,
    Large,
    Name,
}

impl Field {
    /// The member name as it is written in the document; empty for the root.
    pub open spec fn wire_name(self) -> Seq<char> {
        match self {
            Field::Root => ""@,
            Field::Url => "url"@,
            Field::Key => "key"@,
            Field::Title => "title"@,
            Field::Subtitle => "subtitle"@,
            Field::Authors => "authors"@,
            Field::NumberOfPages => "number_of_pages"@,
            Field::Identifiers => "identifiers"@,
            Field::Classifications => "classifications"@,
            Field::Publishers => "publishers"@,
            Field::PublishPlaces => "publish_places"@,
            Field::PublishDate => "publish_date"@,
            Field::Subjects => "subjects"@,
            Field::SubjectPlaces => "subject_places"@,
            Field::SubjectPeople => "subject_people"@,
            Field::Notes => "notes"@,
            Field::Cover => "cover"@,
            Field::Small => "small"@,
            Field::Medium => "medium"@,
            Field::Large => "large"@,
            Field::Name => "name"@,
        }
    }

    /// The member name as it is written in the document.
    pub fn name(self) -> (s: &'static str)
        ensures
            s@ == self.wire_name(),
    {
        match self {
            Field::Root => "",
            Field::Url => "url",
            Field::Key => "key",
            Field::Title => "title",
            Field::Subtitle => "subtitle",
            Field::Authors => "authors",
            Field::NumberOfPages => "number_of_pages",
            Field::Identifiers => "identifiers",
            Field::Classifications => "classifications",
            Field::Publishers => "publishers",
            Field::PublishPlaces => "publish_places",
            Field::PublishDate => "publish_date",
            Field::Subjects => "subjects",
            Field::SubjectPlaces => "subject_places",
            Field::SubjectPeople => "subject_people",
            Field::Notes => "notes",
            Field::Cover => "cover",
            Field::Small => "small",
            Field::Medium => "medium",
            Field::Large => "large",
            Field::Name => "name",
        }
    }
}

/// The length of a name with three of its characters, which tell the names
/// of the places apart.
spec fn stamp(name: Seq<char>) -> (nat, char, char, char) {
    (
        name.len(),
        if name.len() > 0 {
            name[0]
        } else {
            ' '
        },
        if name.len() > 3 {
            name[3]
        } else {
            ' '
        },
        if name.len() > 9 {
            name[9]
        } else {
            ' '
        },
    )
}

/// The stamp of each place's name.
spec fn stamp_of(field: Field) -> (nat, char, char, char) {
    match field {
        Field::Root => (0, ' ', ' ', ' '),
        Field::Url => (3, 'u', ' ', ' '),
        Field::Key => (3, 'k', ' ', ' '),
        Field::Title => (5, 't', 'l', ' '),
        Field::Subtitle => (8, 's', 't', ' '),
        Field::Authors => (7, 'a', 'h', ' '),
        Field::NumberOfPages => (15, 'n', 'b', '_'),
        Field::Identifiers => (11, 'i', 'n', 'r'),
        Field::Classifications => (15, 'c', 's', 'a'),
        Field::Publishers => (10, 'p', 'l', 's'),
        Field::PublishPlaces => (14, 'p', 'l', 'l'),
        Field::PublishDate => (12, 'p', 'l', 'a'),
        Field::Subjects => (8, 's', 'j', ' '),
        Field::SubjectPlaces => (14, 's', 'j', 'l'),
        Field::SubjectPeople => (14, 's', 'j', 'e'),
        Field::Notes => (5, 'n', 'e', ' '),
        Field::Cover => (5, 'c', 'e', ' '),
        Field::Small => (5, 's', 'l', ' '),
        Field::Medium => (6, 'm', 'i', ' '),
        Field::Large => (5, 'l', 'g', ' '),
        Field::Name => (4, 'n', 'e', ' '),
    }
}

/// No two places are written alike.
pub proof fn lemma_wire_names_differ(a: Field, b: Field)
    requires
        a != b,
    ensures
        a.wire_name() != b.wire_name(),
{
    lemma_stamp(a);
    lemma_stamp(b);
}

/// Each place's name has the stamp listed for it.
proof fn lemma_stamp(field: Field)
    ensures
        stamp(field.wire_name()) == stamp_of(field),
{
    reveal_strlit("");
    reveal_strlit("url");
    reveal_strlit("key");
    reveal_strlit("title");
    reveal_strlit("subtitle");
    reveal_strlit("authors");
    reveal_strlit("number_of_pages");
    reveal_strlit("identifiers");
    reveal_strlit("classifications");
    reveal_strlit("publishers");
    reveal_strlit("publish_places");
    reveal_strlit("publish_date");
    reveal_strlit("subjects");
    reveal_strlit("subject_places");
    reveal_strlit("subject_people");
    reveal_strlit("notes");
    reveal_strlit("cover");
    reveal_strlit("small");
    reveal_strlit("medium");
    reveal_strlit("large");
    reveal_strlit("name");
}

/// The reason a value was refused.
#[derive(Clone, Copy, PartialEq, Eq, Structural, Debug)]
pub enum Fault {
    /// The bytes are not well-formed JSON.
    Malformed,
    /// A required member is absent from its object.
    Missing,
    /// A member occurs more than once in its object.
    Duplicate,
    /// The value has another JSON type than the one expected.
    Shape,
    /// The value has the expected JSON type but does not fit the target.
    Value,
}

/// The three classes of decode failure.
#[derive(Clone, Copy, PartialEq, Eq, Structural, Debug)]
pub enum ErrorKind {
    MalformedInput,
    ShapeMismatch,
    ValueMismatch,
}

/// A refused document: why, and at which member.
#[derive(Clone, Copy, PartialEq, Eq, Structural, Debug)]
pub struct DecodeError {
    pub fault: Fault,
    pub field: Field,
}

impl DecodeError {
    /// The class this error belongs to.
    pub open spec fn class(self) -> ErrorKind {
        match self.fault {
            Fault::Malformed => ErrorKind::MalformedInput,
            Fault::Missing => ErrorKind::ShapeMismatch,
            Fault::Duplicate => ErrorKind::ShapeMismatch,
            Fault::Shape => ErrorKind::ShapeMismatch,
            Fault::Value => ErrorKind::ValueMismatch,
        }
    }

    /// The class this error belongs to.
    pub fn kind(&self) -> (k: ErrorKind)
        ensures
            k == self.class(),
    {
        match self.fault {
            Fault::Malformed => ErrorKind::MalformedInput,
            Fault::Missing => ErrorKind::ShapeMismatch,
            Fault::Duplicate => ErrorKind::ShapeMismatch,
            Fault::Shape => ErrorKind::ShapeMismatch,
            Fault::Value => ErrorKind::ValueMismatch,
        }
    }

    /// The error as seen from the member `field` of an enclosing object: an
    /// error at the root of the member's value is an error at the member,
    /// one further inside keeps its own place.
    pub open spec fn located(self, field: Field) -> DecodeError {
        if self.field == Field::Root {
            DecodeError { fault: self.fault, field }
        } else {
            self
        }
    }

    /// Re-places an error raised while decoding the value of `field`.
    pub fn at(self, field: Field) -> (e: DecodeError)
        ensures
            e == self.located(field),
    {
        if self.field == Field::Root {
            DecodeError { fault: self.fault, field }
        } else {
            self
        }
    }
}

} // verus!
