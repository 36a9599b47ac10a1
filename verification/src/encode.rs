//! The writing of records as JSON text, field for field.

use std::borrow::Cow;
use vstd::prelude::*;
use crate::adapter::models;
use crate::decode::Decode;
use crate::error::Field;
use crate::inline::{Contents, InlineSeq};
use crate::json::{json_number, json_quoted, write_count, write_text};
use crate::mapping::entry_models;
use crate::record::{Book, BookModel, Cover, CoverModel, NamedUrl, NamedUrlModel};
use crate::text::{as_str, text_model, TextModel};
use crate::vecmap::{Key, VecMap};

verus! {

/// A value that can be written as the text of one JSON value.
pub trait Encode<'a>: Decode<'a> {
    /// The JSON text of a value that says `model`. How a text is held does
    /// not show in it.
    spec fn spelled(model: Self::Model) -> Seq<u8>;

    /// Writes the value as JSON text, without blanks.
    fn encode(&self) -> (out: Vec<u8>)
        ensures
            out@ == Self::spelled(self.model()),
    ;
}

/// Writes `value` as JSON text, without blanks.
pub fn encode<'a, T: Encode<'a>>(value: &T) -> (out: Vec<u8>)
    ensures
        out@ == T::spelled(value.model()),
{
    value.encode()
}

/// `parts` one behind the other with a comma between each two.
pub open spec fn joined(parts: Seq<Seq<u8>>) -> Seq<u8>
    decreases parts.len(),
{
    if parts.len() == 0 {
        Seq::empty()
    } else if parts.len() == 1 {
        parts[0]
    } else {
        joined(parts.drop_last()) + seq![0x2cu8] + parts.last()
    }
}

/// The text of an array whose items have the texts `items`.
pub open spec fn array_text(items: Seq<Seq<u8>>) -> Seq<u8> {
    seq![0x5bu8] + joined(items) + seq![0x5du8]
}

/// The text of one member of an object: the name as a JSON string, a
/// colon, the text of the value.
pub open spec fn member_text(member: (Seq<char>, Seq<u8>)) -> Seq<u8> {
    json_quoted(member.0) + seq![0x3au8] + member.1
}

/// The text of an object whose members have the names and value texts
/// `members`, in their order.
pub open spec fn object_text(members: Seq<(Seq<char>, Seq<u8>)>) -> Seq<u8> {
    seq![0x7bu8] + joined(members.map_values(|member: (Seq<char>, Seq<u8>)| member_text(member))) + seq![0x7du8]
}

/// Adds `bytes` behind what `out` holds.
fn put(out: &mut Vec<u8>, bytes: &[u8])
    ensures
        final(out)@ == old(out)@ + bytes@,
{
    let mut at: usize = 0;
    while at < bytes.len()
        invariant
            at <= bytes.len(),
            out@ == old(out)@ + bytes@.take(at as int),
        decreases bytes.len() - at,
    {
        out.push(bytes[at]);
        proof {
            assert(bytes@.take(at as int + 1) =~= bytes@.take(at as int).push(bytes@[at as int]));
        }
        at += 1;
    }
    proof {
        assert(bytes@.take(at as int) =~= bytes@);
    }
}

/// Adds one more part to a comma-separated run.
fn put_part(
    out: &mut Vec<u8>,
    part: &[u8],
    first: bool,
    Ghost(before): Ghost<Seq<Seq<u8>>>,
    Ghost(opening): Ghost<u8>,
)
    requires
        old(out)@ == seq![opening] + joined(before),
        first == (before.len() == 0),
    ensures
        final(out)@ == seq![opening] + joined(before.push(part@)),
{
    let ghost head = seq![opening];
    if !first {
        out.push(0x2c);
    }
    put(out, part);
    proof {
        let after = before.push(part@);
        assert(after.drop_last() =~= before);
        if before.len() == 0 {
            assert(joined(after) == part@);
            assert(head + joined(before) + part@ =~= head + part@);
        } else {
            assert(joined(after) == joined(before) + seq![0x2cu8] + part@);
            assert(out@ =~= head + joined(after));
        }
    }
}

/// The texts of the items of an array as plain values.
pub open spec fn texts_view(texts: Seq<Vec<u8>>) -> Seq<Seq<u8>> {
    texts.map_values(|text: Vec<u8>| text@)
}

/// Frames the texts of items as the text of an array.
pub fn frame_array(items: &Vec<Vec<u8>>) -> (out: Vec<u8>)
    ensures
        out@ == array_text(texts_view(items@)),
{
    let ghost texts = texts_view(items@);
    let mut out: Vec<u8> = Vec::new();
    out.push(0x5b);
    let mut at: usize = 0;
    proof {
        assert(texts.take(0) =~= Seq::<Seq<u8>>::empty());
        assert(out@ =~= seq![0x5bu8] + joined(texts.take(0)));
    }
    while at < items.len()
        invariant
            at <= items.len(),
            texts == texts_view(items@),
            out@ == seq![0x5bu8] + joined(texts.take(at as int)),
        decreases items.len() - at,
    {
        proof {
            assert(texts.take(at as int + 1) =~= texts.take(at as int).push(items[at as int]@));
        }
        put_part(&mut out, items[at].as_slice(), at == 0, Ghost(texts.take(at as int)), Ghost(0x5bu8));
        at += 1;
    }
    out.push(0x5d);
    proof {
        assert(texts.take(at as int) =~= texts);
    }
    out
}

/// The members of an object to be written, as plain values.
pub open spec fn named_view(members: Seq<(&str, Vec<u8>)>) -> Seq<(Seq<char>, Seq<u8>)> {
    members.map_values(|member: (&str, Vec<u8>)| (member.0@, member.1@))
}

/// Frames names and value texts as the text of an object, in their order.
pub fn frame_object(members: &Vec<(&str, Vec<u8>)>) -> (out: Vec<u8>)
    ensures
        out@ == object_text(named_view(members@)),
{
    let ghost plain = named_view(members@);
    let ghost parts = plain.map_values(|member: (Seq<char>, Seq<u8>)| member_text(member));
    let mut out: Vec<u8> = Vec::new();
    out.push(0x7b);
    let mut at: usize = 0;
    proof {
        assert(parts.take(0) =~= Seq::<Seq<u8>>::empty());
        assert(out@ =~= seq![0x7bu8] + joined(parts.take(0)));
    }
    while at < members.len()
        invariant
            at <= members.len(),
            plain == named_view(members@),
            parts == plain.map_values(|member: (Seq<char>, Seq<u8>)| member_text(member)),
            out@ == seq![0x7bu8] + joined(parts.take(at as int)),
        decreases members.len() - at,
    {
        let mut part = write_text(members[at].0);
        part.push(0x3a);
        put(&mut part, members[at].1.as_slice());
        proof {
            assert(part@ =~= member_text(plain[at as int]));
            assert(parts.take(at as int + 1) =~= parts.take(at as int).push(part@));
        }
        put_part(&mut out, part.as_slice(), at == 0, Ghost(parts.take(at as int)), Ghost(0x7bu8));
        at += 1;
    }
    out.push(0x7d);
    proof {
        assert(parts.take(at as int) =~= parts);
    }
    out
}

impl<'a> Encode<'a> for Cow<'a, str> {
    open spec fn spelled(model: TextModel) -> Seq<u8> {
        json_quoted(model.chars)
    }

    fn encode(&self) -> (out: Vec<u8>) {
        write_text(as_str(self))
    }
}

impl<'a> Encode<'a> for usize {
    open spec fn spelled(model: usize) -> Seq<u8> {
        json_number(model as u64)
    }

    fn encode(&self) -> (out: Vec<u8>) {
        write_count(*self as u64)
    }
}

/// The texts of values that say `models`, one for each.
pub open spec fn spelled_each<'a, T: Encode<'a>>(models: Seq<T::Model>) -> Seq<Seq<u8>> {
    models.map_values(|model: T::Model| T::spelled(model))
}

impl<'a, T: Encode<'a>, const N: usize> Encode<'a> for InlineSeq<T, N> where
    InlineSeq<T, N>: Contents<Item = T>,
 {
    open spec fn spelled(model: Seq<T::Model>) -> Seq<u8> {
        array_text(spelled_each::<T>(model))
    }

    fn encode(&self) -> (out: Vec<u8>) {
        let items = self.as_slice();
        let mut texts: Vec<Vec<u8>> = Vec::new();
        let mut at: usize = 0;
        while at < items.len()
            invariant
                at <= items.len(),
                items@ == self@,
                texts_view(texts@) == spelled_each::<T>(models(self@)).take(at as int),
            decreases items.len() - at,
        {
            let text = items[at].encode();
            let ghost before = texts@;
            let ghost want = spelled_each::<T>(models(self@));
            texts.push(text);
            proof {
                assert(want[at as int] == T::spelled(models(self@)[at as int]));
                assert(texts_view(before.push(text)) =~= texts_view(before).push(text@));
                assert(want.take(at as int + 1) =~= want.take(at as int).push(want[at as int]));
            }
            at += 1;
        }
        proof {
            assert(spelled_each::<T>(models(self@)).take(at as int) =~= spelled_each::<T>(models(self@)));
        }
        frame_array(&texts)
    }
}

/// The names of entries with the texts of values that say what the entries
/// say.
pub open spec fn spelled_entries<'a, V: Encode<'a>>(entries: Seq<(Seq<char>, V::Model)>) -> Seq<
    (Seq<char>, Seq<u8>),
> {
    entries.map_values(|entry: (Seq<char>, V::Model)| (entry.0, V::spelled(entry.1)))
}

impl<'a, K: crate::mapping::ReadKey<'a>, V: Encode<'a>, const N: usize> Encode<'a> for VecMap<K, V, N> where
    InlineSeq<(K, V), N>: Contents<Item = (K, V)>,
 {
    open spec fn spelled(model: Seq<(Seq<char>, V::Model)>) -> Seq<u8> {
        object_text(spelled_entries::<V>(model))
    }

    fn encode(&self) -> (out: Vec<u8>) {
        let entries = self.as_slice();
        let ghost want = spelled_entries::<V>(entry_models(self@));
        let mut members: Vec<(&str, Vec<u8>)> = Vec::new();
        let mut at: usize = 0;
        while at < entries.len()
            invariant
                at <= entries.len(),
                entries@ == self@,
                want == spelled_entries::<V>(entry_models(self@)),
                named_view(members@) == want.take(at as int),
            decreases entries.len() - at,
        {
            let text = entries[at].1.encode();
            let name = entries[at].0.text();
            let ghost before = members@;
            members.push((name, text));
            proof {
                assert(want[at as int] == (
                    entry_models(self@)[at as int].0,
                    V::spelled(entry_models(self@)[at as int].1),
                ));
                assert(named_view(before.push((name, text))) =~= named_view(before).push((name@, text@)));
                assert(want.take(at as int + 1) =~= want.take(at as int).push(want[at as int]));
            }
            at += 1;
        }
        proof {
            assert(want.take(at as int) =~= want);
        }
        frame_object(&members)
    }
}

/// `members` with one more member behind them.
pub open spec fn with_field(members: Seq<(Seq<char>, Seq<u8>)>, field: Field, text: Seq<u8>) -> Seq<
    (Seq<char>, Seq<u8>),
> {
    members.push((field.wire_name(), text))
}

/// `members` with one more member behind them where there is a value, and
/// as they are where there is none.
pub open spec fn with_optional(members: Seq<(Seq<char>, Seq<u8>)>, field: Field, text: Option<Seq<u8>>) -> Seq<
    (Seq<char>, Seq<u8>),
> {
    match text {
        Some(text) => with_field(members, field, text),
        None => members,
    }
}

/// The text of an optional text, where there is one.
pub open spec fn spelled_text(text: Option<TextModel>) -> Option<Seq<u8>> {
    match text {
        Some(text) => Some(json_quoted(text.chars)),
        None => None,
    }
}

/// Adds a member to the members of an object that is being written.
fn add_field(members: &mut Vec<(&'static str, Vec<u8>)>, field: Field, text: Vec<u8>)
    ensures
        named_view(final(members)@) == with_field(named_view(old(members)@), field, text@),
{
    members.push((field.name(), text));
    proof {
        assert(named_view(members@) =~= with_field(named_view(old(members)@), field, text@));
    }
}

/// Adds a text member where there is a text.
fn add_text(members: &mut Vec<(&'static str, Vec<u8>)>, field: Field, text: &Option<Cow<str>>)
    ensures
        named_view(final(members)@) == with_optional(
            named_view(old(members)@),
            field,
            spelled_text(text_model(*text)),
        ),
{
    match text {
        Some(text) => {
            add_field(members, field, write_text(as_str(text)));
        },
        None => {},
    }
}

/// The members that a named link is written with: its name, and its
/// address where it has one.
pub open spec fn named_url_members(model: NamedUrlModel) -> Seq<(Seq<char>, Seq<u8>)> {
    let members = Seq::<(Seq<char>, Seq<u8>)>::empty();
    let members = with_field(members, Field::Name, json_quoted(model.name.chars));
    let members = with_optional(members, Field::Url, spelled_text(model.url));
    members
}

impl<'a> NamedUrl<'a> {
    /// The members that the link is written with.
    pub fn to_members(&self) -> (members: Vec<(&'static str, Vec<u8>)>)
        ensures
            named_view(members@) == named_url_members(self@),
    {
        let mut members: Vec<(&'static str, Vec<u8>)> = Vec::new();
        proof {
            assert(named_view(members@) =~= Seq::<(Seq<char>, Seq<u8>)>::empty());
        }
        add_field(&mut members, Field::Name, write_text(as_str(&self.name)));
        add_text(&mut members, Field::Url, &self.url);
        members
    }
}

impl<'a> Encode<'a> for NamedUrl<'a> {
    open spec fn spelled(model: NamedUrlModel) -> Seq<u8> {
        object_text(named_url_members(model))
    }

    fn encode(&self) -> (out: Vec<u8>) {
        frame_object(&self.to_members())
    }
}

/// The members that a cover is written with: its three sizes.
pub open spec fn cover_members(model: CoverModel) -> Seq<(Seq<char>, Seq<u8>)> {
    let members = Seq::<(Seq<char>, Seq<u8>)>::empty();
    let members = with_field(members, Field::Small, json_quoted(model.small.chars));
    let members = with_field(members, Field::Medium, json_quoted(model.medium.chars));
    let members = with_field(members, Field::Large, json_quoted(model.large.chars));
    members
}

impl<'a> Cover<'a> {
    /// The members that the cover is written with.
    pub fn to_members(&self) -> (members: Vec<(&'static str, Vec<u8>)>)
        ensures
            named_view(members@) == cover_members(self@),
    {
        let mut members: Vec<(&'static str, Vec<u8>)> = Vec::new();
        proof {
            assert(named_view(members@) =~= Seq::<(Seq<char>, Seq<u8>)>::empty());
        }
        add_field(&mut members, Field::Small, write_text(as_str(&self.small)));
        add_field(&mut members, Field::Medium, write_text(as_str(&self.medium)));
        add_field(&mut members, Field::Large, write_text(as_str(&self.large)));
        members
    }
}

impl<'a> Encode<'a> for Cover<'a> {
    open spec fn spelled(model: CoverModel) -> Seq<u8> {
        object_text(cover_members(model))
    }

    fn encode(&self) -> (out: Vec<u8>) {
        frame_object(&self.to_members())
    }
}

/// The text `null`.
pub open spec fn null_text() -> Seq<u8> {
    seq![0x6eu8, 0x75u8, 0x6cu8, 0x6cu8]
}

/// The members that a book is written with, in the order in which a book
/// lists its fields. The subtitle, the page count, the date and the cover
/// are written only where they have a value; notes without a value are
/// written as `null`; lists and mappings are written even where empty.
pub open spec fn book_members(model: BookModel) -> Seq<(Seq<char>, Seq<u8>)> {
    let members = Seq::<(Seq<char>, Seq<u8>)>::empty();
    let members = with_field(members, Field::Url, json_quoted(model.url.chars));
    let members = with_field(members, Field::Key, json_quoted(model.key.chars));
    let members = with_field(members, Field::Title, json_quoted(model.title.chars));
    let members = with_optional(members, Field::Subtitle, spelled_text(model.subtitle));
    let members = with_field(members, Field::Authors, array_text(spelled_each::<NamedUrl>(model.authors)));
    let members = with_optional(
        members,
        Field::NumberOfPages,
        match model.number_of_pages {
            Some(n) => Some(json_number(n as u64)),
            None => None,
        },
    );
    let members = with_field(
        members,
        Field::Identifiers,
        object_text(spelled_entries::<InlineSeq<Cow<str>, 1>>(model.identifiers)),
    );
    let members = with_field(
        members,
        Field::Classifications,
        object_text(spelled_entries::<InlineSeq<Cow<str>, 1>>(model.classifications)),
    );
    let members = with_field(members, Field::Publishers, array_text(spelled_each::<NamedUrl>(model.publishers)));
    let members = with_field(
        members,
        Field::PublishPlaces,
        array_text(spelled_each::<NamedUrl>(model.publish_places)),
    );
    let members = with_optional(members, Field::PublishDate, spelled_text(model.publish_date));
    let members = with_field(members, Field::Subjects, array_text(spelled_each::<NamedUrl>(model.subjects)));
    let members = with_field(
        members,
        Field::SubjectPlaces,
        array_text(spelled_each::<NamedUrl>(model.subject_places)),
    );
    let members = with_field(
        members,
        Field::SubjectPeople,
        array_text(spelled_each::<NamedUrl>(model.subject_people)),
    );
    let members = with_field(
        members,
        Field::Notes,
        match model.notes {
            Some(notes) => json_quoted(notes.chars),
            None => null_text(),
        },
    );
    let members = with_optional(
        members,
        Field::Cover,
        match model.cover {
            Some(cover) => Some(object_text(cover_members(cover))),
            None => None,
        },
    );
    members
}

impl<'a> Book<'a> {
    /// The members that the book is written with.
    pub fn to_members(&self) -> (members: Vec<(&'static str, Vec<u8>)>)
        ensures
            named_view(members@) == book_members(self@),
    {
        let mut members: Vec<(&'static str, Vec<u8>)> = Vec::new();
        proof {
            assert(named_view(members@) =~= Seq::<(Seq<char>, Seq<u8>)>::empty());
        }
        add_field(&mut members, Field::Url, write_text(as_str(&self.url)));
        add_field(&mut members, Field::Key, write_text(as_str(&self.key)));
        add_field(&mut members, Field::Title, write_text(as_str(&self.title)));
        add_text(&mut members, Field::Subtitle, &self.subtitle);
        add_field(&mut members, Field::Authors, self.authors.encode());
        match self.number_of_pages {
            Some(n) => {
                add_field(&mut members, Field::NumberOfPages, write_count(n as u64));
            },
            None => {},
        }
        add_field(&mut members, Field::Identifiers, self.identifiers.encode());
        add_field(&mut members, Field::Classifications, self.classifications.encode());
        add_field(&mut members, Field::Publishers, self.publishers.encode());
        add_field(&mut members, Field::PublishPlaces, self.publish_places.encode());
        add_text(&mut members, Field::PublishDate, &self.publish_date);
        add_field(&mut members, Field::Subjects, self.subjects.encode());
        add_field(&mut members, Field::SubjectPlaces, self.subject_places.encode());
        add_field(&mut members, Field::SubjectPeople, self.subject_people.encode());
        match &self.notes {
            Some(notes) => {
                add_field(&mut members, Field::Notes, write_text(as_str(notes)));
            },
            None => {
                let mut null: Vec<u8> = Vec::new();
                null.push(0x6e);
                null.push(0x75);
                null.push(0x6c);
                null.push(0x6c);
                proof {
                    assert(null@ =~= null_text());
                }
                add_field(&mut members, Field::Notes, null);
            },
        }
        match &self.cover {
            Some(cover) => {
                add_field(&mut members, Field::Cover, cover.encode());
            },
            None => {},
        }
        members
    }
}

impl<'a> Encode<'a> for Book<'a> {
    open spec fn spelled(model: BookModel) -> Seq<u8> {
        object_text(book_members(model))
    }

    fn encode(&self) -> (out: Vec<u8>) {
        frame_object(&self.to_members())
    }
}

} // verus!
