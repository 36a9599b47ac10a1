//! The decoding of a JSON object into a small mapping, member by member.

use std::borrow::Cow;
use vstd::prelude::*;
use crate::decode::{decode, error_of, parse_error, required, Decode};
use crate::error::DecodeError;
use crate::inline::{Contents, InlineSeq};
use crate::json::{
    json_keyed, json_members, keyed_view, members_view, read_keyed, read_members, within, ParseFault,
};
use crate::vecmap::{distinct, inserted, keys_of, lemma_position, position, Key, VecMap};

verus! {

/// What the entries of a mapping say: each key with what its value says.
pub open spec fn entry_models<'a, K: Key, V: Decode<'a>>(entries: Seq<(K, V)>) -> Seq<(Seq<char>, V::Model)> {
    entries.map_values(|entry: (K, V)| (entry.0.chars(), entry.1.model()))
}

/// The keys of `entries`, in their order.
pub open spec fn model_keys<M>(entries: Seq<(Seq<char>, M)>) -> Seq<Seq<char>> {
    entries.map_values(|entry: (Seq<char>, M)| entry.0)
}

/// `entries` with `value` under `key`: in the place of the entry that had
/// the key, or behind all others where none had it.
pub open spec fn with_entry<M>(entries: Seq<(Seq<char>, M)>, key: Seq<char>, value: M) -> Seq<(Seq<char>, M)> {
    match position(model_keys(entries), key) {
        Some(at) => entries.update(at, (key, value)),
        None => entries.push((key, value)),
    }
}

/// What the members of an object decode to as a mapping: the members are
/// taken in document order, each value is decoded with the decoder of `V`
/// and put under its name, a later member replacing an earlier one of the
/// same name; the first value that fails ends the decoding with its error.
pub open spec fn decoded_entries<'a, V: Decode<'a>>(members: Seq<(Seq<char>, Seq<u8>)>) -> Result<
    Seq<(Seq<char>, V::Model)>,
    DecodeError,
>
    decreases members.len(),
{
    if members.len() == 0 {
        Ok(Seq::empty())
    } else {
        match decoded_entries::<V>(members.drop_last()) {
            Err(error) => Err(error),
            Ok(before) => match required(V::decoded(members.last().1)) {
                Err(error) => Err(error),
                Ok(model) => Ok(with_entry(before, members.last().0, model)),
            },
        }
    }
}

/// Putting a value under a key keeps the keys distinct: the key is there
/// once afterwards, whether or not it was there before.
pub proof fn lemma_with_entry_distinct<M>(entries: Seq<(Seq<char>, M)>, key: Seq<char>, value: M)
    requires
        distinct(model_keys(entries)),
    ensures
        distinct(model_keys(with_entry(entries, key, value))),
{
    let keys = model_keys(entries);
    lemma_position(keys, key);
    match position(keys, key) {
        Some(at) => {
            assert(model_keys(entries.update(at, (key, value))) =~= keys);
        },
        None => {
            assert(model_keys(entries.push((key, value))) =~= keys.push(key));
        },
    }
}

/// However often a name is repeated among the members, the mapping they
/// decode to has each key once.
pub proof fn lemma_decoded_entries_distinct<'a, V: Decode<'a>>(members: Seq<(Seq<char>, Seq<u8>)>)
    requires
        decoded_entries::<V>(members) is Ok,
    ensures
        distinct(model_keys(decoded_entries::<V>(members)->Ok_0)),
    decreases members.len(),
{
    if members.len() > 0 {
        lemma_decoded_entries_distinct::<V>(members.drop_last());
        lemma_with_entry_distinct(
            decoded_entries::<V>(members.drop_last())->Ok_0,
            members.last().0,
            required(V::decoded(members.last().1))->Ok_0,
        );
    }
}

/// A mapping has its keys distinct exactly if what it says has.
pub proof fn lemma_wf_by_model<'a, K: Key, V: Decode<'a>, const N: usize>(map: VecMap<K, V, N>) where
    InlineSeq<(K, V), N>: Contents<Item = (K, V)>,

    ensures
        map.wf() <==> distinct(model_keys(entry_models(map@))),
{
    assert(model_keys(entry_models(map@)) =~= keys_of(map@));
}

/// An error among the first members is the error of the whole.
proof fn lemma_decoded_entries_prefix<'a, V: Decode<'a>>(members: Seq<(Seq<char>, Seq<u8>)>, n: int)
    requires
        0 <= n <= members.len(),
        decoded_entries::<V>(members.take(n)) is Err,
    ensures
        decoded_entries::<V>(members) == decoded_entries::<V>(members.take(n)),
    decreases members.len(),
{
    if n < members.len() {
        assert(members.drop_last().take(n) =~= members.take(n));
        lemma_decoded_entries_prefix::<V>(members.drop_last(), n);
    } else {
        assert(members.take(n) =~= members);
    }
}

/// Inserting into a mapping is inserting into what it says.
proof fn lemma_inserted_models<'a, K: Key, V: Decode<'a>>(entries: Seq<(K, V)>, key: K, value: V)
    ensures
        entry_models(inserted(entries, key, value)) == with_entry(
            entry_models(entries),
            key.chars(),
            value.model(),
        ),
{
    assert(model_keys(entry_models(entries)) =~= keys_of(entries));
    match position(keys_of(entries), key.chars()) {
        Some(at) => {
            lemma_position(keys_of(entries), key.chars());
            assert(entry_models(entries.update(at, (key, value))) =~= entry_models(entries).update(
                at,
                (key.chars(), value.model()),
            ));
        },
        None => {
            assert(entry_models(entries.push((key, value))) =~= entry_models(entries).push(
                (key.chars(), value.model()),
            ));
        },
    }
}

/// Members with keys of any kind as plain values.
pub open spec fn pairs_view<K: Key>(members: Seq<(K, &[u8])>) -> Seq<(Seq<char>, Seq<u8>)> {
    members.map_values(|member: (K, &[u8])| (member.0.chars(), member.1@))
}

/// Whether the entry was made from the member: it has the member's key,
/// and its value borrows from the member's text alone.
pub open spec fn made_from<'a, K: Key, V: Decode<'a>>(entry: (K, V), member: (K, &[u8])) -> bool {
    entry.0 == member.0 && entry.1.borrows_from(member.1@)
}

/// Decodes the members of an object into a small mapping, in document
/// order. Where a name comes twice the later value is kept, in the place of
/// the earlier one.
pub fn decode_entries<'a, K: Key, V: Decode<'a>, const N: usize>(members: Vec<(K, &'a [u8])>) -> (got: Result<
    VecMap<K, V, N>,
    DecodeError,
>) where InlineSeq<(K, V), N>: Contents<Item = (K, V)>
    ensures
        match got {
            Ok(map) => decoded_entries::<V>(pairs_view(members@)) == Ok::<_, DecodeError>(entry_models(map@))
                && map.wf() && forall|i: int|
                0 <= i < map@.len() ==> exists|j: int|
                    0 <= j < members.len() && made_from(#[trigger] map@[i], members[j]),
            Err(error) => decoded_entries::<V>(pairs_view(members@)) == Err::<Seq<(Seq<char>, V::Model)>, _>(
                error,
            ),
        },
{
    let ghost all = members@;
    let ghost texts = pairs_view(members@);
    let mut map: VecMap<K, V, N> = VecMap::new();
    proof {
        assert(entry_models(map@) =~= Seq::<(Seq<char>, V::Model)>::empty());
        assert(texts.take(0) =~= Seq::<(Seq<char>, Seq<u8>)>::empty());
    }
    for member in iter: members
        invariant
            iter.seq() == all,
            texts == pairs_view(all),
            map.wf(),
            decoded_entries::<V>(texts.take(iter.index() as int)) == Ok::<_, DecodeError>(entry_models(map@)),
            forall|i: int|
                0 <= i < map@.len() ==> exists|j: int| 0 <= j < all.len() && made_from(#[trigger] map@[i], all[j]),
    {
        let ghost at = iter.index() as int;
        let ghost before = map@;
        proof {
            assert(texts.take(at + 1).drop_last() =~= texts.take(at));
            assert(texts.take(at + 1).last() == (member.0.chars(), member.1@));
        }
        let (key, text) = member;
        match decode::<V>(text) {
            Ok(value) => {
                proof {
                    lemma_inserted_models(map@, key, value);
                    lemma_position(keys_of(map@), key.chars());
                }
                map.insert(key, value);
                proof {
                    assert forall|i: int| 0 <= i < map@.len() implies exists|j: int|
                        0 <= j < all.len() && made_from(#[trigger] map@[i], all[j]) by {
                        if map@[i] == (key, value) {
                            assert(made_from(map@[i], all[at]));
                        } else {
                            assert(map@[i] == before[i]);
                        }
                    }
                }
            },
            Err(error) => {
                proof {
                    lemma_decoded_entries_prefix::<V>(texts, at + 1);
                }
                return Err(error);
            },
        }
    }
    proof {
        assert(texts.take(all.len() as int) =~= texts);
    }
    Ok(map)
}

/// A kind of key that the members of an object can be read with.
pub trait ReadKey<'a>: Key {
    /// The members that `doc` holds when its names are read as keys of this
    /// kind; `None` where `doc` is `null` and a key of this kind lets it be.
    spec fn members_of(doc: Seq<u8>) -> Result<Option<Seq<(Seq<char>, Seq<u8>)>>, ParseFault>;

    /// Reads the members of the object `doc`, in document order.
    fn read(doc: &'a [u8]) -> (found: Result<Option<Vec<(Self, &'a [u8])>>, ParseFault>)
        ensures
            match found {
                Ok(Some(members)) => Self::members_of(doc@) == Ok::<_, ParseFault>(Some(pairs_view(members@)))
                    && forall|i: int|
                    0 <= i < members.len() ==> within((#[trigger] members[i]).1@, doc@)
                        && members[i].0.key_borrows_from(doc@),
                Ok(None) => Self::members_of(doc@) == Ok::<Option<Seq<(Seq<char>, Seq<u8>)>>, ParseFault>(None),
                Err(fault) => Self::members_of(doc@) == Err::<Option<Seq<(Seq<char>, Seq<u8>)>>, _>(fault),
            },
    ;
}

/// Names are read as they come, borrowed where the document allows it; a
/// `null` in place of the object is let be.
impl<'a> ReadKey<'a> for Cow<'a, str> {
    open spec fn members_of(doc: Seq<u8>) -> Result<Option<Seq<(Seq<char>, Seq<u8>)>>, ParseFault> {
        json_members(doc)
    }

    fn read(doc: &'a [u8]) -> (found: Result<Option<Vec<(Self, &'a [u8])>>, ParseFault>) {
        match read_members(doc) {
            Ok(Some(members)) => {
                proof {
                    assert(pairs_view(members@) =~= members_view(members));
                }
                Ok(Some(members))
            },
            Ok(None) => Ok(None),
            Err(fault) => Err(fault),
        }
    }
}

/// Names must be borrowed: an object with a name that needs unescaping is
/// refused, and so is `null`.
impl<'a> ReadKey<'a> for &'a str {
    open spec fn members_of(doc: Seq<u8>) -> Result<Option<Seq<(Seq<char>, Seq<u8>)>>, ParseFault> {
        match json_keyed(doc) {
            Ok(members) => Ok(Some(members)),
            Err(fault) => Err(fault),
        }
    }

    fn read(doc: &'a [u8]) -> (found: Result<Option<Vec<(Self, &'a [u8])>>, ParseFault>) {
        match read_keyed(doc) {
            Ok(members) => {
                proof {
                    assert(pairs_view(members@) =~= keyed_view(members));
                }
                Ok(Some(members))
            },
            Err(fault) => Err(fault),
        }
    }
}

/// What `doc` decodes to as a mapping from keys of kind `K` to `V`.
pub open spec fn decoded_mapping<'a, K: ReadKey<'a>, V: Decode<'a>>(doc: Seq<u8>) -> Result<
    Option<Seq<(Seq<char>, V::Model)>>,
    DecodeError,
> {
    match K::members_of(doc) {
        Err(fault) => Err(error_of(fault)),
        Ok(None) => Ok(None),
        Ok(Some(members)) => match decoded_entries::<V>(members) {
            Err(error) => Err(error),
            Ok(entries) => Ok(Some(entries)),
        },
    }
}

impl<'a, K: ReadKey<'a>, V: Decode<'a>, const N: usize> Decode<'a> for VecMap<K, V, N> where
    InlineSeq<(K, V), N>: Contents<Item = (K, V)>,
 {
    type Model = Seq<(Seq<char>, V::Model)>;

    open spec fn model(&self) -> Seq<(Seq<char>, V::Model)> {
        entry_models(self@)
    }

    open spec fn borrows_from(&self, doc: Seq<u8>) -> bool {
        forall|i: int|
            0 <= i < self@.len() ==> (#[trigger] self@[i]).0.key_borrows_from(doc) && self@[i].1.borrows_from(
                doc,
            )
    }

    open spec fn decoded(doc: Seq<u8>) -> Result<Option<Seq<(Seq<char>, V::Model)>>, DecodeError> {
        decoded_mapping::<K, V>(doc)
    }

    proof fn lemma_borrows_widen(&self, part: Seq<u8>, doc: Seq<u8>) {
        assert forall|i: int| 0 <= i < self@.len() implies (#[trigger] self@[i]).0.key_borrows_from(doc)
            && self@[i].1.borrows_from(doc) by {
            self@[i].0.lemma_key_widen(part, doc);
            self@[i].1.lemma_borrows_widen(part, doc);
        }
    }

    fn decode_nullable(doc: &'a [u8]) -> (got: Result<Option<Self>, DecodeError>) {
        match K::read(doc) {
            Err(fault) => Err(parse_error(fault)),
            Ok(None) => Ok(None),
            Ok(Some(members)) => {
                let ghost all = members@;
                match decode_entries::<K, V, N>(members) {
                    Err(error) => Err(error),
                    Ok(map) => {
                        proof {
                            assert forall|i: int| 0 <= i < map@.len() implies (#[trigger] map@[i]).0.key_borrows_from(
                                doc@,
                            ) && map@[i].1.borrows_from(doc@) by {
                                let j = choose|j: int| 0 <= j < all.len() && made_from(map@[i], all[j]);
                                map@[i].1.lemma_borrows_widen(all[j].1@, doc@);
                            }
                        }
                        Ok(Some(map))
                    },
                }
            },
        }
    }
}

} // verus!
