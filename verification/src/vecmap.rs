//! A small mapping that keeps its entries in one flat sequence.

use std::borrow::Cow;
use vstd::prelude::*;
use vstd::utf8::encode_utf8;
use crate::inline::{Contents, InlineSeq};
use crate::json::{lemma_within_chain, within};
use crate::text::{as_str, same_str};

verus! {

/// A key of a small mapping: a piece of text, however it is held. Two keys
/// are the same key when they read alike.
pub trait Key: Sized {
    /// The characters of the key.
    spec fn chars(&self) -> Seq<char>;

    /// Whether the key, if it borrows its text, borrows a run of bytes of
    /// `doc`.
    spec fn key_borrows_from(&self, doc: Seq<u8>) -> bool;

    /// What is borrowed from a part of a document is borrowed from the
    /// document.
    proof fn lemma_key_widen(&self, part: Seq<u8>, doc: Seq<u8>)
        requires
            self.key_borrows_from(part),
            within(part, doc),
        ensures
            self.key_borrows_from(doc),
    ;

    /// The characters of the key.
    fn text(&self) -> (s: &str)
        ensures
            s@ == self.chars(),
    ;
}

impl<'a> Key for Cow<'a, str> {
    open spec fn chars(&self) -> Seq<char> {
        self@
    }

    open spec fn key_borrows_from(&self, doc: Seq<u8>) -> bool {
        self is Borrowed ==> within(encode_utf8(self@), doc)
    }

    proof fn lemma_key_widen(&self, part: Seq<u8>, doc: Seq<u8>) {
        if self is Borrowed {
            lemma_within_chain(encode_utf8(self@), part, doc);
        }
    }

    fn text(&self) -> (s: &str) {
        as_str(self)
    }
}

impl<'a> Key for &'a str {
    open spec fn chars(&self) -> Seq<char> {
        self@
    }

    open spec fn key_borrows_from(&self, doc: Seq<u8>) -> bool {
        within(encode_utf8(self@), doc)
    }

    proof fn lemma_key_widen(&self, part: Seq<u8>, doc: Seq<u8>) {
        lemma_within_chain(encode_utf8(self@), part, doc);
    }

    fn text(&self) -> (s: &str) {
        *self
    }
}

/// The keys of `entries`, in their order.
pub open spec fn keys_of<K: Key, V>(entries: Seq<(K, V)>) -> Seq<Seq<char>> {
    entries.map_values(|entry: (K, V)| entry.0.chars())
}

/// Whether no key occurs twice in `keys`.
pub open spec fn distinct(keys: Seq<Seq<char>>) -> bool {
    forall|i: int, j: int| 0 <= i < j < keys.len() ==> keys[i] != keys[j]
}

/// Whether `at` is the first place in `keys` that holds `key`.
pub open spec fn first_at(keys: Seq<Seq<char>>, key: Seq<char>, at: int) -> bool {
    &&& 0 <= at < keys.len()
    &&& keys[at] == key
    &&& forall|before: int| 0 <= before < at ==> keys[before] != key
}

/// The first place in `keys` that holds `key`, if any does.
pub open spec fn position(keys: Seq<Seq<char>>, key: Seq<char>) -> Option<int> {
    if exists|at: int| first_at(keys, key, at) {
        Some(choose|at: int| first_at(keys, key, at))
    } else {
        None
    }
}

/// `position` finds the first place and no other.
pub proof fn lemma_position_found(keys: Seq<Seq<char>>, key: Seq<char>, at: int)
    requires
        first_at(keys, key, at),
    ensures
        position(keys, key) == Some(at),
{
    let chosen = choose|at: int| first_at(keys, key, at);
    assert(first_at(keys, key, chosen));
    if chosen < at {
        assert(keys[chosen] != key);
    } else if at < chosen {
        assert(keys[at] != key);
    }
}

/// `position` finds nothing where the key is nowhere.
pub proof fn lemma_position_absent(keys: Seq<Seq<char>>, key: Seq<char>)
    requires
        forall|at: int| 0 <= at < keys.len() ==> keys[at] != key,
    ensures
        position(keys, key) is None,
{
}

/// What `position` finds is a place of the key; where it finds nothing the
/// key is nowhere.
pub proof fn lemma_position(keys: Seq<Seq<char>>, key: Seq<char>)
    ensures
        match position(keys, key) {
            Some(at) => first_at(keys, key, at),
            None => forall|at: int| 0 <= at < keys.len() ==> keys[at] != key,
        },
{
    if position(keys, key) is None {
        assert forall|at: int| 0 <= at < keys.len() implies keys[at] != key by {
            if keys[at] == key {
                lemma_some_first(keys, key, at);
            }
        }
    }
}

/// A key that occurs has a first place.
proof fn lemma_some_first(keys: Seq<Seq<char>>, key: Seq<char>, at: int)
    requires
        0 <= at < keys.len(),
        keys[at] == key,
    ensures
        exists|first: int| first_at(keys, key, first),
    decreases at,
{
    if exists|before: int| 0 <= before < at && keys[before] == key {
        let before = choose|before: int| 0 <= before < at && keys[before] == key;
        lemma_some_first(keys, key, before);
    } else {
        assert(first_at(keys, key, at));
    }
}

/// `entries` with `value` under `key`: in the place of the entry that had
/// the key, or behind all others where none had it.
pub open spec fn inserted<K: Key, V>(entries: Seq<(K, V)>, key: K, value: V) -> Seq<(K, V)> {
    match position(keys_of(entries), key.chars()) {
        Some(at) => entries.update(at, (key, value)),
        None => entries.push((key, value)),
    }
}

/// Inserting keeps the keys distinct.
pub proof fn lemma_inserted_distinct<K: Key, V>(entries: Seq<(K, V)>, key: K, value: V)
    requires
        distinct(keys_of(entries)),
    ensures
        distinct(keys_of(inserted(entries, key, value))),
        position(keys_of(entries), key.chars()) is Some ==> keys_of(inserted(entries, key, value)) == keys_of(
            entries,
        ),
        position(keys_of(entries), key.chars()) is None ==> keys_of(inserted(entries, key, value)) == keys_of(
            entries,
        ).push(key.chars()),
{
    let keys = keys_of(entries);
    lemma_position(keys, key.chars());
    match position(keys, key.chars()) {
        Some(at) => {
            assert(keys_of(entries.update(at, (key, value))) =~= keys);
        },
        None => {
            assert(keys_of(entries.push((key, value))) =~= keys.push(key.chars()));
        },
    }
}

/// A mapping from unique keys to values that keeps its entries in the order
/// in which their keys first came, and finds a key by walking them. Up to
/// `N` entries are stored inside the mapping itself.
#[derive(Debug)]
#[verifier::reject_recursive_types(K)]
#[verifier::reject_recursive_types(V)]
pub struct VecMap<K, V, const N: usize> {
    entries: InlineSeq<(K, V), N>,
}

impl<K: Key, V, const N: usize> View for VecMap<K, V, N> where InlineSeq<(K, V), N>: Contents<Item = (K, V)> {
    type V = Seq<(K, V)>;

    closed spec fn view(&self) -> Seq<(K, V)> {
        self.entries@
    }
}

impl<K: Key, V, const N: usize> VecMap<K, V, N> where InlineSeq<(K, V), N>: Contents<Item = (K, V)> {
    /// No key occurs twice. Every mapping that `new` made and `insert`
    /// filled is so.
    pub open spec fn wf(&self) -> bool {
        distinct(keys_of(self@))
    }

    /// The value under `key`, if the mapping has the key.
    pub open spec fn value_of(self, key: Seq<char>) -> Option<V> {
        match position(keys_of(self@), key) {
            Some(at) => Some(self@[at].1),
            None => None,
        }
    }

    /// A mapping without entries.
    pub fn new() -> (map: Self)
        ensures
            map@ == Seq::<(K, V)>::empty(),
            map.wf(),
    {
        VecMap { entries: InlineSeq::new() }
    }

    /// The entries in the order in which their keys first came.
    pub fn as_slice(&self) -> (entries: &[(K, V)])
        ensures
            entries@ == self@,
    {
        self.entries.as_slice()
    }

    /// The number of entries.
    pub fn len(&self) -> (n: usize)
        ensures
            n == self@.len(),
    {
        self.entries.len()
    }

    /// Whether there is no entry.
    pub fn is_empty(&self) -> (empty: bool)
        ensures
            empty == (self@.len() == 0),
    {
        self.entries.is_empty()
    }

    /// The place of `key` among the entries, found by walking them.
    pub fn find(&self, key: &str) -> (found: Option<usize>)
        ensures
            match found {
                Some(at) => position(keys_of(self@), key@) == Some(at as int),
                None => position(keys_of(self@), key@) is None,
            },
    {
        let entries = self.entries.as_slice();
        let mut at: usize = 0;
        while at < entries.len()
            invariant
                at <= entries.len(),
                entries@ == self@,
                forall|before: int| 0 <= before < at ==> keys_of(self@)[before] != key@,
            decreases entries.len() - at,
        {
            if same_str(entries[at].0.text(), key) {
                proof {
                    lemma_position_found(keys_of(self@), key@, at as int);
                }
                return Some(at);
            }
            at += 1;
        }
        proof {
            lemma_position_absent(keys_of(self@), key@);
        }
        None
    }

    /// The value under `key`, if the mapping has the key.
    pub fn get(&self, key: &str) -> (value: Option<&V>)
        ensures
            match value {
                Some(found) => self.value_of(key@) == Some(*found),
                None => self.value_of(key@) is None,
            },
    {
        match self.find(key) {
            Some(at) => {
                proof {
                    lemma_position(keys_of(self@), key@);
                }
                let entries = self.entries.as_slice();
                Some(&entries[at].1)
            },
            None => None,
        }
    }

    /// Whether the mapping has `key`.
    pub fn contains_key(&self, key: &str) -> (has: bool)
        ensures
            has == self.value_of(key@).is_some(),
    {
        self.find(key).is_some()
    }

    /// Puts `value` under `key`. A key that the mapping already has keeps
    /// its place and loses its old value: the last write wins. A new key
    /// goes behind all others.
    pub fn insert(&mut self, key: K, value: V)
        ensures
            final(self)@ == inserted(old(self)@, key, value),
            old(self).wf() ==> final(self).wf(),
    {
        proof {
            if self.wf() {
                lemma_inserted_distinct(self@, key, value);
            }
        }
        match self.find(key.text()) {
            Some(at) => {
                proof {
                    lemma_position(keys_of(self@), key.chars());
                }
                self.entries.set(at, (key, value));
            },
            None => {
                self.entries.push((key, value));
            },
        }
    }
}

} // verus!
