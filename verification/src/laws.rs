//! What holds of every document: the laws of the decoders, proved from
//! their definitions.

use std::borrow::Cow;
use vstd::prelude::*;
use crate::decode::{required, Decode};
use crate::text::TextModel;
use crate::adapter::decoded_items;
use crate::encode::{array_text, book_members, null_text, object_text, spelled_each, spelled_entries, with_field, Encode};
use crate::inline::InlineSeq;
use crate::json::{json_items, json_members, json_quoted, json_text, ParseFault};
use crate::error::{lemma_wire_names_differ, DecodeError, Fault, Field};
use crate::fields::{member_of, named, optional_of, required_of, schemes_of, sequence_of};
use crate::mapping::{decoded_entries, model_keys, with_entry};
use crate::record::{book_of, cover_of, Book, BookModel, Cover, CoverModel, NamedUrl, NamedUrlModel};
use crate::vecmap::{lemma_position, lemma_position_found, position};

verus! {

/// Whether some member carries the name of `field`.
pub open spec fn mentions(members: Seq<(Seq<char>, Seq<u8>)>, field: Field) -> bool {
    exists|at: int| named(members, field.wire_name(), at)
}

/// The error of a required field that is not there.
pub open spec fn missing(field: Field) -> DecodeError {
    DecodeError { fault: Fault::Missing, field }
}

/// A field that is left out: an optional one has no value, a list or a
/// mapping is empty, a required one is missed by its name. No other member
/// changes that.
pub proof fn lemma_left_out<'a, T: Decode<'a>>(members: Seq<(Seq<char>, Seq<u8>)>, field: Field)
    requires
        !mentions(members, field),
    ensures
        member_of(members, field) == Ok::<Option<Seq<u8>>, DecodeError>(None),
        optional_of::<T>(members, field) == Ok::<Option<T::Model>, DecodeError>(None),
        sequence_of::<T>(members, field) == Ok::<_, DecodeError>(Seq::<T::Model>::empty()),
        schemes_of(members, field) == Ok::<_, DecodeError>(Seq::<(Seq<char>, Seq<TextModel>)>::empty()),
        required_of::<T>(members, field) == Err::<T::Model, _>(missing(field)),
{
}

/// A book that decodes has no value in an optional field that its document
/// leaves out, and an empty list or mapping for one that it leaves out.
pub proof fn lemma_book_left_out(members: Seq<(Seq<char>, Seq<u8>)>)
    requires
        book_of(members) is Ok,
    ensures
        !mentions(members, Field::Subtitle) ==> book_of(members)->Ok_0.subtitle is None,
        !mentions(members, Field::NumberOfPages) ==> book_of(members)->Ok_0.number_of_pages is None,
        !mentions(members, Field::PublishDate) ==> book_of(members)->Ok_0.publish_date is None,
        !mentions(members, Field::Notes) ==> book_of(members)->Ok_0.notes is None,
        !mentions(members, Field::Cover) ==> book_of(members)->Ok_0.cover is None,
        !mentions(members, Field::Authors) ==> book_of(members)->Ok_0.authors.len() == 0,
        !mentions(members, Field::Identifiers) ==> book_of(members)->Ok_0.identifiers.len() == 0,
        !mentions(members, Field::Classifications) ==> book_of(members)->Ok_0.classifications.len() == 0,
        !mentions(members, Field::Publishers) ==> book_of(members)->Ok_0.publishers.len() == 0,
        !mentions(members, Field::PublishPlaces) ==> book_of(members)->Ok_0.publish_places.len() == 0,
        !mentions(members, Field::Subjects) ==> book_of(members)->Ok_0.subjects.len() == 0,
        !mentions(members, Field::SubjectPlaces) ==> book_of(members)->Ok_0.subject_places.len() == 0,
        !mentions(members, Field::SubjectPeople) ==> book_of(members)->Ok_0.subject_people.len() == 0,
{
}

/// A book needs its three required fields: a document that leaves one of
/// them out is refused, whatever else it holds.
pub proof fn lemma_book_needs_required(members: Seq<(Seq<char>, Seq<u8>)>)
    ensures
        !mentions(members, Field::Url) ==> book_of(members) == Err::<BookModel, _>(missing(Field::Url)),
        !mentions(members, Field::Key) ==> book_of(members) is Err,
        !mentions(members, Field::Title) ==> book_of(members) is Err,
{
}

/// A cover needs all three sizes: an object that leaves one out is no
/// cover, and where the sizes before it are fine the error names the one
/// that is missing.
pub proof fn lemma_cover_needs_all_three(members: Seq<(Seq<char>, Seq<u8>)>)
    ensures
        !mentions(members, Field::Small) || !mentions(members, Field::Medium) || !mentions(members, Field::Large) ==> cover_of(
            members,
        ) is Err,
        !mentions(members, Field::Small) ==> cover_of(members) == Err::<CoverModel, _>(
            missing(Field::Small),
        ),
        required_of::<Cow<str>>(members, Field::Small) is Ok && !mentions(members, Field::Medium) ==> cover_of(members)
            == Err::<CoverModel, _>(missing(Field::Medium)),
        required_of::<Cow<str>>(members, Field::Small) is Ok && required_of::<Cow<str>>(
            members,
            Field::Medium,
        ) is Ok && !mentions(members, Field::Large) ==> cover_of(members) == Err::<CoverModel, _>(
            missing(Field::Large),
        ),
{
}

/// Whether every field that a book lists before its cover decodes.
pub open spec fn fine_before_cover(members: Seq<(Seq<char>, Seq<u8>)>) -> bool {
    &&& required_of::<Cow<str>>(members, Field::Url) is Ok
    &&& required_of::<Cow<str>>(members, Field::Key) is Ok
    &&& required_of::<Cow<str>>(members, Field::Title) is Ok
    &&& optional_of::<Cow<str>>(members, Field::Subtitle) is Ok
    &&& sequence_of::<NamedUrl>(members, Field::Authors) is Ok
    &&& optional_of::<usize>(members, Field::NumberOfPages) is Ok
    &&& schemes_of(members, Field::Identifiers) is Ok
    &&& schemes_of(members, Field::Classifications) is Ok
    &&& sequence_of::<NamedUrl>(members, Field::Publishers) is Ok
    &&& sequence_of::<NamedUrl>(members, Field::PublishPlaces) is Ok
    &&& optional_of::<Cow<str>>(members, Field::PublishDate) is Ok
    &&& sequence_of::<NamedUrl>(members, Field::Subjects) is Ok
    &&& sequence_of::<NamedUrl>(members, Field::SubjectPlaces) is Ok
    &&& sequence_of::<NamedUrl>(members, Field::SubjectPeople) is Ok
    &&& optional_of::<Cow<str>>(members, Field::Notes) is Ok
}

/// A book whose cover is refused is refused, and where the fields before
/// the cover are fine, with the cover's own error: a cover that lacks a
/// size makes the book fail with the name of that size.
pub proof fn lemma_book_with_refused_cover(members: Seq<(Seq<char>, Seq<u8>)>, text: Seq<u8>, error: DecodeError)
    requires
        member_of(members, Field::Cover) == Ok::<_, DecodeError>(Some(text)),
        Cover::decoded(text) == Err::<Option<CoverModel>, _>(error),
    ensures
        book_of(members) is Err,
        fine_before_cover(members) ==> book_of(members) == Err::<BookModel, _>(error.located(Field::Cover)),
        missing(Field::Large).located(Field::Cover) == missing(Field::Large),
{
}

/// The error of a field that comes twice.
pub open spec fn twice(field: Field) -> DecodeError {
    DecodeError { fault: Fault::Duplicate, field }
}

/// What one more member behind the others changes for a field: nothing
/// where the member is of another field; where it is of the field itself,
/// its text is the field's text, unless the field was there already.
pub proof fn lemma_one_more_member(members: Seq<(Seq<char>, Seq<u8>)>, of: Field, text: Seq<u8>, field: Field)
    ensures
        mentions(with_field(members, of, text), field) == (mentions(members, field) || of == field),
        member_of(with_field(members, of, text), field) == if of != field {
            member_of(members, field)
        } else if mentions(members, field) {
            Err::<Option<Seq<u8>>, _>(twice(field))
        } else {
            Ok::<_, DecodeError>(Some(text))
        },
{
    let name = field.wire_name();
    let more = with_field(members, of, text);
    let last = members.len() as int;
    if of != field {
        lemma_wire_names_differ(of, field);
    }
    assert(forall|at: int| 0 <= at < last ==> more[at] == members[at]);
    assert(forall|at: int| named(members, name, at) ==> named(more, name, at));
    assert(forall|at: int| named(more, name, at) && at != last ==> named(members, name, at));
    assert(of == field ==> named(more, name, last));
    assert(of != field ==> !named(more, name, last));
    if mentions(members, field) {
        let there = choose|at: int| named(members, name, at);
        assert(named(more, name, there));
    }
    if of != field {
        if exists|i: int, j: int| i != j && named(members, name, i) && named(members, name, j) {
            let (i, j) = choose|i: int, j: int| i != j && named(members, name, i) && named(members, name, j);
            assert(i != j && named(more, name, i) && named(more, name, j));
        } else if mentions(members, field) {
            let there = choose|at: int| named(members, name, at);
            let here = choose|at: int| named(more, name, at);
            assert(named(more, name, here));
            assert(named(members, name, here));
            assert(here == there);
        }
    } else if mentions(members, field) {
        let there = choose|at: int| named(members, name, at);
        assert(there != last && named(more, name, there) && named(more, name, last));
    } else {
        let here = choose|at: int| named(more, name, at);
        assert(named(more, name, here));
        assert(here == last);
    }
}

/// `lemma_one_more_member` for every member at once.
proof fn lemma_members_step(field: Field)
    ensures
        !mentions(Seq::<(Seq<char>, Seq<u8>)>::empty(), field),
        member_of(Seq::<(Seq<char>, Seq<u8>)>::empty(), field) == Ok::<Option<Seq<u8>>, DecodeError>(None),
        forall|members: Seq<(Seq<char>, Seq<u8>)>, of: Field, text: Seq<u8>|
            mentions(#[trigger] with_field(members, of, text), field) == (mentions(members, field) || of
                == field),
        forall|members: Seq<(Seq<char>, Seq<u8>)>, of: Field, text: Seq<u8>|
            member_of(#[trigger] with_field(members, of, text), field) == if of != field {
                member_of(members, field)
            } else if mentions(members, field) {
                Err::<Option<Seq<u8>>, _>(twice(field))
            } else {
                Ok::<_, DecodeError>(Some(text))
            },
{
    assert forall|members: Seq<(Seq<char>, Seq<u8>)>, of: Field, text: Seq<u8>|
        mentions(#[trigger] with_field(members, of, text), field) == (mentions(members, field) || of == field)
        && member_of(with_field(members, of, text), field) == if of != field {
            member_of(members, field)
        } else if mentions(members, field) {
            Err::<Option<Seq<u8>>, _>(twice(field))
        } else {
            Ok::<_, DecodeError>(Some(text))
        } by {
        lemma_one_more_member(members, of, text, field);
    }
}

/// What a book is written with. The subtitle, the page count, the date and
/// the cover are written exactly where they have a value: a field without
/// one is left out and not written as `null`. Every other field is always
/// written.
pub proof fn lemma_book_written_fields(model: BookModel)
    ensures
        mentions(book_members(model), Field::Subtitle) == model.subtitle is Some,
        mentions(book_members(model), Field::NumberOfPages) == model.number_of_pages is Some,
        mentions(book_members(model), Field::PublishDate) == model.publish_date is Some,
        mentions(book_members(model), Field::Cover) == model.cover is Some,
        mentions(book_members(model), Field::Url),
        mentions(book_members(model), Field::Key),
        mentions(book_members(model), Field::Title),
        mentions(book_members(model), Field::Authors),
        mentions(book_members(model), Field::Identifiers),
        mentions(book_members(model), Field::Classifications),
        mentions(book_members(model), Field::Publishers),
        mentions(book_members(model), Field::PublishPlaces),
        mentions(book_members(model), Field::Subjects),
        mentions(book_members(model), Field::SubjectPlaces),
        mentions(book_members(model), Field::SubjectPeople),
        mentions(book_members(model), Field::Notes),
{
    lemma_members_step(Field::Subtitle);
    lemma_members_step(Field::NumberOfPages);
    lemma_members_step(Field::PublishDate);
    lemma_members_step(Field::Cover);
    lemma_members_step(Field::Url);
    lemma_members_step(Field::Key);
    lemma_members_step(Field::Title);
    lemma_members_step(Field::Authors);
    lemma_members_step(Field::Identifiers);
    lemma_members_step(Field::Classifications);
    lemma_members_step(Field::Publishers);
    lemma_members_step(Field::PublishPlaces);
    lemma_members_step(Field::Subjects);
    lemma_members_step(Field::SubjectPlaces);
    lemma_members_step(Field::SubjectPeople);
    lemma_members_step(Field::Notes);
}

/// Whether a book has a value in its three required fields only: no
/// subtitle, page count, date, notes or cover, and nothing in its lists
/// and mappings.
pub open spec fn required_only(model: BookModel) -> bool {
    &&& model.subtitle is None
    &&& model.authors.len() == 0
    &&& model.number_of_pages is None
    &&& model.identifiers.len() == 0
    &&& model.classifications.len() == 0
    &&& model.publishers.len() == 0
    &&& model.publish_places.len() == 0
    &&& model.publish_date is None
    &&& model.subjects.len() == 0
    &&& model.subject_places.len() == 0
    &&& model.subject_people.len() == 0
    &&& model.notes is None
    &&& model.cover is None
}

/// Whether two books read alike in their required fields.
pub open spec fn same_required(a: BookModel, b: BookModel) -> bool {
    &&& a.url.chars == b.url.chars
    &&& a.key.chars == b.key.chars
    &&& a.title.chars == b.title.chars
}

/// Whether the parser reads a written text back as the text.
pub open spec fn reads_back(chars: Seq<char>) -> bool {
    json_text(json_quoted(chars)) == Ok::<_, ParseFault>(Some(chars))
}

/// Whether the parser reads back what a book with required fields only is
/// written with: its three texts, the empty array, the empty object, and
/// `null`.
pub open spec fn parser_reads_back(model: BookModel) -> bool {
    &&& reads_back(model.url.chars)
    &&& reads_back(model.key.chars)
    &&& reads_back(model.title.chars)
    &&& json_items(array_text(Seq::empty())) == Ok::<_, ParseFault>(Some(Seq::<Seq<u8>>::empty()))
    &&& json_members(object_text(Seq::empty())) == Ok::<_, ParseFault>(
        Some(Seq::<(Seq<char>, Seq<u8>)>::empty()),
    )
    &&& json_text(null_text()) == Ok::<Option<Seq<char>>, ParseFault>(None)
}

/// The text that a book with required fields only is written with in the
/// place `field`, if it is written with one there.
pub open spec fn written_text(model: BookModel, field: Field) -> Option<Seq<u8>> {
    match field {
        Field::Url => Some(json_quoted(model.url.chars)),
        Field::Key => Some(json_quoted(model.key.chars)),
        Field::Title => Some(json_quoted(model.title.chars)),
        Field::Authors | Field::Publishers | Field::PublishPlaces | Field::Subjects | Field::SubjectPlaces
        | Field::SubjectPeople => Some(array_text(Seq::empty())),
        Field::Identifiers | Field::Classifications => Some(object_text(Seq::empty())),
        Field::Notes => Some(null_text()),
        _ => None,
    }
}

/// A book with required fields only is written with each of its texts, an
/// empty array for each list, an empty object for each mapping, and `null`
/// for its notes, each once and under its own name.
pub proof fn lemma_required_only_written(model: BookModel, field: Field)
    requires
        required_only(model),
    ensures
        member_of(book_members(model), field) == Ok::<_, DecodeError>(written_text(model, field)),
{
    lemma_members_step(field);
    assert(spelled_each::<NamedUrl>(Seq::empty()) =~= Seq::<Seq<u8>>::empty());
    assert(spelled_entries::<InlineSeq<Cow<str>, 1>>(Seq::empty()) =~= Seq::<(Seq<char>, Seq<u8>)>::empty());
    assert(model.authors =~= Seq::empty());
    assert(model.publishers =~= Seq::empty());
    assert(model.publish_places =~= Seq::empty());
    assert(model.subjects =~= Seq::empty());
    assert(model.subject_places =~= Seq::empty());
    assert(model.subject_people =~= Seq::empty());
    assert(model.identifiers =~= Seq::empty());
    assert(model.classifications =~= Seq::empty());
}

/// Writing and reading a book with required fields only gives the book
/// back: wherever the parser reads back the parts that such a book is
/// written with, the members written decode to a book that reads alike in
/// every required field and has no value in any other. Where the parser
/// also reads the members back from the whole text, the same holds from
/// text to book.
pub proof fn lemma_round_trip_required(model: BookModel)
    requires
        required_only(model),
    ensures
        parser_reads_back(model) ==> book_of(book_members(model)) is Ok && same_required(
            book_of(book_members(model))->Ok_0,
            model,
        ) && required_only(book_of(book_members(model))->Ok_0),
        parser_reads_back(model) && json_members(Book::spelled(model)) == Ok::<_, ParseFault>(
            Some(book_members(model)),
        ) ==> (Book::decoded(Book::spelled(model)) matches Ok(Some(back)) && same_required(back, model)
            && required_only(back)),
{
    let members = book_members(model);
    lemma_required_only_written(model, Field::Url);
    lemma_required_only_written(model, Field::Key);
    lemma_required_only_written(model, Field::Title);
    lemma_required_only_written(model, Field::Subtitle);
    lemma_required_only_written(model, Field::Authors);
    lemma_required_only_written(model, Field::NumberOfPages);
    lemma_required_only_written(model, Field::Identifiers);
    lemma_required_only_written(model, Field::Classifications);
    lemma_required_only_written(model, Field::Publishers);
    lemma_required_only_written(model, Field::PublishPlaces);
    lemma_required_only_written(model, Field::PublishDate);
    lemma_required_only_written(model, Field::Subjects);
    lemma_required_only_written(model, Field::SubjectPlaces);
    lemma_required_only_written(model, Field::SubjectPeople);
    lemma_required_only_written(model, Field::Notes);
    lemma_required_only_written(model, Field::Cover);
    if parser_reads_back(model) {
        assert(decoded_items::<NamedUrl>(Seq::empty()) == Ok::<_, DecodeError>(Seq::<NamedUrlModel>::empty()));
        assert(decoded_entries::<InlineSeq<Cow<str>, 1>>(Seq::empty()) == Ok::<_, DecodeError>(
            Seq::<(Seq<char>, Seq<TextModel>)>::empty(),
        ));
    }
}

/// The value that `entries` hold under `key`, if they hold the key.
pub open spec fn entry_value<M>(entries: Seq<(Seq<char>, M)>, key: Seq<char>) -> Option<M> {
    match position(model_keys(entries), key) {
        Some(at) => Some(entries[at].1),
        None => None,
    }
}

/// After a value is put under a key, the key has that value, and every
/// other key has what it had.
pub proof fn lemma_with_entry_value<M>(
    entries: Seq<(Seq<char>, M)>,
    key: Seq<char>,
    value: M,
    other: Seq<char>,
)
    ensures
        entry_value(with_entry(entries, key, value), key) == Some(value),
        other != key ==> entry_value(with_entry(entries, key, value), other) == entry_value(entries, other),
{
    let keys = model_keys(entries);
    let after = with_entry(entries, key, value);
    lemma_position(keys, key);
    lemma_position(keys, other);
    match position(keys, key) {
        Some(at) => {
            assert(model_keys(after) =~= keys);
        },
        None => {
            assert(model_keys(after) =~= keys.push(key));
            lemma_position_found(model_keys(after), key, keys.len() as int);
            if other != key {
                match position(keys, other) {
                    Some(there) => {
                        lemma_position_found(model_keys(after), other, there);
                    },
                    None => {
                        lemma_position(model_keys(after), other);
                        if position(model_keys(after), other) is Some {
                            let there = position(model_keys(after), other)->Some_0;
                            assert(model_keys(after)[there] == other);
                            assert(there < keys.len() ==> keys[there] == other);
                        }
                    },
                }
            }
        },
    }
}

/// Where a name is repeated among the members of an object, the mapping
/// holds under it what its last member decodes to: the last write wins.
/// Every name among the members is a key of the mapping.
pub proof fn lemma_decoded_entries_last<'a, V: Decode<'a>>(members: Seq<(Seq<char>, Seq<u8>)>, at: int)
    requires
        decoded_entries::<V>(members) is Ok,
        0 <= at < members.len(),
        forall|later: int| at < later < members.len() ==> members[later].0 != members[at].0,
    ensures
        required(V::decoded(members[at].1)) is Ok,
        entry_value(decoded_entries::<V>(members)->Ok_0, members[at].0) == Some(
            required(V::decoded(members[at].1))->Ok_0,
        ),
    decreases members.len(),
{
    let before = decoded_entries::<V>(members.drop_last())->Ok_0;
    let last = members.last();
    let model = required(V::decoded(last.1))->Ok_0;
    lemma_with_entry_value(before, last.0, model, members[at].0);
    if at < members.len() - 1 {
        assert(members.drop_last()[at] == members[at]);
        assert(forall|later: int|
            at < later < members.len() - 1 ==> members.drop_last()[later] == members[later]);
        lemma_decoded_entries_last::<V>(members.drop_last(), at);
    }
}

} // verus!
