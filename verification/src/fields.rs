//! The members of a JSON object as the fields of a record: how a field is
//! looked up by its name, and what its absence means.

use std::borrow::Cow;
use vstd::prelude::*;
use crate::adapter::models;
use crate::decode::{decode, required, Decode};
use crate::text::TextModel;
use crate::error::{DecodeError, Fault, Field};
use crate::inline::{Contents, InlineSeq};
use crate::json::{json_members, members_view, within, Members};
use crate::mapping::{entry_models, lemma_decoded_entries_distinct, lemma_wf_by_model};
use crate::text::{as_str, same_str};
use crate::vecmap::VecMap;

verus! {

/// Whether member `at` of `members` has the name `name`.
pub open spec fn named(members: Seq<(Seq<char>, Seq<u8>)>, name: Seq<char>, at: int) -> bool {
    0 <= at < members.len() && members[at].0 == name
}

/// The text of the one member that carries the name of `field`: nothing
/// where no member does, an error where more than one does. Members of
/// other names do not matter.
pub open spec fn member_of(members: Seq<(Seq<char>, Seq<u8>)>, field: Field) -> Result<
    Option<Seq<u8>>,
    DecodeError,
> {
    let name = field.wire_name();
    if !exists|at: int| named(members, name, at) {
        Ok(None)
    } else if exists|i: int, j: int| i != j && named(members, name, i) && named(members, name, j) {
        Err(DecodeError { fault: Fault::Duplicate, field })
    } else {
        Ok(Some(members[choose|at: int| named(members, name, at)].1))
    }
}

/// Whether the text of every member is a run of bytes of `doc`.
pub open spec fn all_within(members: Seq<(Cow<str>, &[u8])>, doc: Seq<u8>) -> bool {
    forall|at: int| 0 <= at < members.len() ==> within((#[trigger] members[at]).1@, doc)
}

/// Whether `value` borrows from nothing but the texts of `members`: it
/// borrows from every document that holds them all.
pub open spec fn drawn_from<'a, T: Decode<'a>>(value: T, members: Seq<(Cow<str>, &[u8])>) -> bool {
    forall|doc: Seq<u8>| all_within(members, doc) ==> #[trigger] value.borrows_from(doc)
}

/// Looks a field up among the members of an object.
pub fn find_member<'a>(members: &Members<'a>, field: Field) -> (got: Result<Option<&'a [u8]>, DecodeError>)
    ensures
        match got {
            Ok(Some(text)) => member_of(members_view(*members), field) == Ok::<_, DecodeError>(Some(text@))
                && exists|at: int| 0 <= at < members.len() && (#[trigger] members[at]).1@ == text@,
            Ok(None) => member_of(members_view(*members), field) == Ok::<Option<Seq<u8>>, DecodeError>(None),
            Err(error) => member_of(members_view(*members), field) == Err::<Option<Seq<u8>>, _>(error),
        },
{
    let name = field.name();
    let ghost plain = members_view(*members);
    let mut found: Option<usize> = None;
    let mut at: usize = 0;
    while at < members.len()
        invariant
            at <= members.len(),
            plain == members_view(*members),
            name@ == field.wire_name(),
            match found {
                Some(first) => first < at && named(plain, name@, first as int) && forall|other: int|
                    0 <= other < at && other != first ==> !named(plain, name@, other),
                None => forall|other: int| 0 <= other < at ==> !named(plain, name@, other),
            },
        decreases members.len() - at,
    {
        if same_str(as_str(&members[at].0), name) {
            match found {
                Some(first) => {
                    proof {
                        assert(named(plain, name@, first as int) && named(plain, name@, at as int));
                    }
                    return Err(DecodeError { fault: Fault::Duplicate, field });
                },
                None => {
                    found = Some(at);
                },
            }
        }
        at += 1;
    }
    match found {
        Some(first) => {
            proof {
                assert(named(plain, name@, first as int));
                let chosen = choose|at: int| named(plain, name@, at);
                assert(chosen == first);
            }
            Ok(Some(members[first].1))
        },
        None => Ok(None),
    }
}

/// A field that must be there.
pub open spec fn required_of<'a, T: Decode<'a>>(members: Seq<(Seq<char>, Seq<u8>)>, field: Field) -> Result<
    T::Model,
    DecodeError,
> {
    match member_of(members, field) {
        Err(error) => Err(error),
        Ok(None) => Err(DecodeError { fault: Fault::Missing, field }),
        Ok(Some(text)) => match required(T::decoded(text)) {
            Err(error) => Err(error.located(field)),
            Ok(model) => Ok(model),
        },
    }
}

/// A field that may be left out, or be `null`: both mean that there is no
/// value.
pub open spec fn optional_of<'a, T: Decode<'a>>(members: Seq<(Seq<char>, Seq<u8>)>, field: Field) -> Result<
    Option<T::Model>,
    DecodeError,
> {
    match member_of(members, field) {
        Err(error) => Err(error),
        Ok(None) => Ok(None),
        Ok(Some(text)) => match T::decoded(text) {
            Err(error) => Err(error.located(field)),
            Ok(found) => Ok(found),
        },
    }
}

/// A field that holds an array and stands for the empty sequence where it
/// is left out. It may not be `null`.
pub open spec fn sequence_of<'a, T: Decode<'a>>(members: Seq<(Seq<char>, Seq<u8>)>, field: Field) -> Result<
    Seq<T::Model>,
    DecodeError,
> {
    match member_of(members, field) {
        Err(error) => Err(error),
        Ok(None) => Ok(Seq::empty()),
        Ok(Some(text)) => match required(crate::adapter::decoded_sequence::<T>(text)) {
            Err(error) => Err(error.located(field)),
            Ok(model) => Ok(model),
        },
    }
}

/// A field that holds an object of arrays of text and stands for the empty
/// mapping where it is left out. It may not be `null`.
pub open spec fn schemes_of(members: Seq<(Seq<char>, Seq<u8>)>, field: Field) -> Result<
    Seq<(Seq<char>, Seq<TextModel>)>,
    DecodeError,
> {
    match member_of(members, field) {
        Err(error) => Err(error),
        Ok(None) => Ok(Seq::empty()),
        Ok(Some(text)) => match required(
            crate::mapping::decoded_mapping::<Cow<str>, InlineSeq<Cow<str>, 1>>(text),
        ) {
            Err(error) => Err(error.located(field)),
            Ok(model) => Ok(model),
        },
    }
}

/// What is decoded from the text of a member borrows from nothing but the
/// members.
proof fn lemma_drawn<'a, T: Decode<'a>>(value: T, members: Seq<(Cow<str>, &[u8])>, at: int)
    requires
        0 <= at < members.len(),
        value.borrows_from(members[at].1@),
    ensures
        drawn_from(value, members),
{
    assert forall|doc: Seq<u8>| all_within(members, doc) implies #[trigger] value.borrows_from(doc) by {
        value.lemma_borrows_widen(members[at].1@, doc);
    }
}

/// Decodes a field that must be there.
pub fn required_member<'a, T: Decode<'a>>(members: &Members<'a>, field: Field) -> (got: Result<T, DecodeError>)
    ensures
        match got {
            Ok(value) => required_of::<T>(members_view(*members), field) == Ok::<_, DecodeError>(value.model())
                && drawn_from(value, members@),
            Err(error) => required_of::<T>(members_view(*members), field) == Err::<T::Model, _>(error),
        },
{
    match find_member(members, field) {
        Err(error) => Err(error),
        Ok(None) => Err(DecodeError { fault: Fault::Missing, field }),
        Ok(Some(text)) => match decode::<T>(text) {
            Err(error) => Err(error.at(field)),
            Ok(value) => {
                proof {
                    let at = choose|at: int| 0 <= at < members.len() && (#[trigger] members[at]).1@ == text@;
                    lemma_drawn(value, members@, at);
                }
                Ok(value)
            },
        },
    }
}

/// Decodes a field that may be left out or be `null`.
pub fn optional_member<'a, T: Decode<'a>>(members: &Members<'a>, field: Field) -> (got: Result<
    Option<T>,
    DecodeError,
>)
    ensures
        match got {
            Ok(Some(value)) => optional_of::<T>(members_view(*members), field) == Ok::<_, DecodeError>(
                Some(value.model()),
            ) && drawn_from(value, members@),
            Ok(None) => optional_of::<T>(members_view(*members), field) == Ok::<Option<T::Model>, DecodeError>(
                None,
            ),
            Err(error) => optional_of::<T>(members_view(*members), field) == Err::<Option<T::Model>, _>(error),
        },
{
    match find_member(members, field) {
        Err(error) => Err(error),
        Ok(None) => Ok(None),
        Ok(Some(text)) => match T::decode_nullable(text) {
            Err(error) => Err(error.at(field)),
            Ok(None) => Ok(None),
            Ok(Some(value)) => {
                proof {
                    let at = choose|at: int| 0 <= at < members.len() && (#[trigger] members[at]).1@ == text@;
                    lemma_drawn(value, members@, at);
                }
                Ok(Some(value))
            },
        },
    }
}

/// Decodes a field that holds an array, or is left out.
pub fn sequence_member<'a, T: Decode<'a>, const N: usize>(members: &Members<'a>, field: Field) -> (got: Result<
    InlineSeq<T, N>,
    DecodeError,
>) where InlineSeq<T, N>: Contents<Item = T>
    ensures
        match got {
            Ok(seq) => sequence_of::<T>(members_view(*members), field) == Ok::<_, DecodeError>(models(seq@))
                && drawn_from(seq, members@),
            Err(error) => sequence_of::<T>(members_view(*members), field) == Err::<Seq<T::Model>, _>(error),
        },
{
    match find_member(members, field) {
        Err(error) => Err(error),
        Ok(None) => {
            let seq: InlineSeq<T, N> = InlineSeq::new();
            proof {
                assert(models(seq@) =~= Seq::<T::Model>::empty());
            }
            Ok(seq)
        },
        Ok(Some(text)) => match decode::<InlineSeq<T, N>>(text) {
            Err(error) => Err(error.at(field)),
            Ok(seq) => {
                proof {
                    let at = choose|at: int| 0 <= at < members.len() && (#[trigger] members[at]).1@ == text@;
                    lemma_drawn(seq, members@, at);
                }
                Ok(seq)
            },
        },
    }
}

/// Decodes a field that holds an object of arrays of text, or is left out.
pub fn schemes_member<'a>(members: &Members<'a>, field: Field) -> (got: Result<
    VecMap<Cow<'a, str>, InlineSeq<Cow<'a, str>, 1>, 4>,
    DecodeError,
>)
    ensures
        match got {
            Ok(map) => schemes_of(members_view(*members), field) == Ok::<_, DecodeError>(entry_models(map@))
                && map.wf() && drawn_from(map, members@),
            Err(error) => schemes_of(members_view(*members), field) == Err::<
                Seq<(Seq<char>, Seq<TextModel>)>,
                _,
            >(error),
        },
{
    match find_member(members, field) {
        Err(error) => Err(error),
        Ok(None) => {
            let map: VecMap<Cow<'a, str>, InlineSeq<Cow<'a, str>, 1>, 4> = VecMap::new();
            proof {
                assert(entry_models(map@) =~= Seq::<(Seq<char>, Seq<TextModel>)>::empty());
            }
            Ok(map)
        },
        Ok(Some(text)) => match decode::<VecMap<Cow<'a, str>, InlineSeq<Cow<'a, str>, 1>, 4>>(text) {
            Err(error) => Err(error.at(field)),
            Ok(map) => {
                proof {
                    let at = choose|at: int| 0 <= at < members.len() && (#[trigger] members[at]).1@ == text@;
                    lemma_drawn(map, members@, at);
                    lemma_decoded_entries_distinct::<InlineSeq<Cow<str>, 1>>(json_members(text@)->Ok_0->Some_0);
                    lemma_wf_by_model(map);
                }
                Ok(map)
            },
        },
    }
}

} // verus!
