//! A growable sequence that keeps its first items in place. The storage is
//! `smallvec::SmallVec`; what it holds is taken on trust and given a name
//! for each kind of sequence that a record has.

use std::borrow::Cow;
use smallvec::SmallVec;
use vstd::prelude::*;
use crate::record::{Book, NamedUrl};

verus! {

/// An ordered, growable sequence that stores up to `N` items inside itself
/// and moves them to the heap only when it grows beyond that. The field is
/// a `SmallVec`, which Verus cannot look into.
#[derive(Debug)]
#[verifier::external_body]
#[verifier::reject_recursive_types(T)]
pub struct InlineSeq<T, const N: usize> {
    inner: SmallVec<[T; N]>,
}

/// The kinds of inline sequence whose items are known.
pub trait Contents: Sized {
    type Item;

    /// The items held, first to last.
    spec fn contents(self) -> Seq<Self::Item>;

    /// The items held, first to last.
    fn as_slice(&self) -> (items: &[Self::Item])
        ensures
            items@ == self.contents(),
    ;
}

/// What a sequence of texts with room for one holds.
pub uninterp spec fn held_texts(seq: InlineSeq<Cow<str>, 1>) -> Seq<Cow<str>>;

/// What a sequence of links with room for one holds.
pub uninterp spec fn held_links_1(seq: InlineSeq<NamedUrl, 1>) -> Seq<NamedUrl>;

/// What a sequence of links with room for four holds.
pub uninterp spec fn held_links_4(seq: InlineSeq<NamedUrl, 4>) -> Seq<NamedUrl>;

/// What a sequence of links with room for eight holds.
pub uninterp spec fn held_links_8(seq: InlineSeq<NamedUrl, 8>) -> Seq<NamedUrl>;

/// What a sequence of links with room for sixteen holds.
pub uninterp spec fn held_links_16(seq: InlineSeq<NamedUrl, 16>) -> Seq<NamedUrl>;

/// What a sequence of scheme entries with room for four holds. Lifetimes
/// play no part in a specification; the name is written at `'static` and
/// stands for every lifetime.
pub uninterp spec fn held_schemes(
    seq: InlineSeq<(Cow<'static, str>, InlineSeq<Cow<'static, str>, 1>), 4>,
) -> Seq<(Cow<'static, str>, InlineSeq<Cow<'static, str>, 1>)>;

/// What a sequence of keyed books with room for one holds, written at
/// `'static` like `held_schemes`.
pub uninterp spec fn held_books(seq: InlineSeq<(&'static str, Book<'static>), 1>) -> Seq<
    (&'static str, Book<'static>),
>;

/// Calls `SmallVec::as_slice`. Claimed: the slice is what the sequence holds.
#[verifier::external_body]
fn texts_slice<'s, 'a>(seq: &'s InlineSeq<Cow<'a, str>, 1>) -> (items: &'s [Cow<'a, str>])
    ensures
        items@ == held_texts(*seq),
{
    seq.inner.as_slice()
}

/// Calls `SmallVec::as_slice`. Claimed: the slice is what the sequence holds.
#[verifier::external_body]
fn links_1_slice<'s, 'a>(seq: &'s InlineSeq<NamedUrl<'a>, 1>) -> (items: &'s [NamedUrl<'a>])
    ensures
        items@ == held_links_1(*seq),
{
    seq.inner.as_slice()
}

/// Calls `SmallVec::as_slice`. Claimed: the slice is what the sequence holds.
#[verifier::external_body]
fn links_4_slice<'s, 'a>(seq: &'s InlineSeq<NamedUrl<'a>, 4>) -> (items: &'s [NamedUrl<'a>])
    ensures
        items@ == held_links_4(*seq),
{
    seq.inner.as_slice()
}

/// Calls `SmallVec::as_slice`. Claimed: the slice is what the sequence holds.
#[verifier::external_body]
fn links_8_slice<'s, 'a>(seq: &'s InlineSeq<NamedUrl<'a>, 8>) -> (items: &'s [NamedUrl<'a>])
    ensures
        items@ == held_links_8(*seq),
{
    seq.inner.as_slice()
}

/// Calls `SmallVec::as_slice`. Claimed: the slice is what the sequence holds.
#[verifier::external_body]
fn links_16_slice<'s, 'a>(seq: &'s InlineSeq<NamedUrl<'a>, 16>) -> (items: &'s [NamedUrl<'a>])
    ensures
        items@ == held_links_16(*seq),
{
    seq.inner.as_slice()
}

/// Calls `SmallVec::as_slice`. Claimed: the slice is what the sequence holds.
#[verifier::external_body]
fn schemes_slice<'s, 'a>(seq: &'s InlineSeq<(Cow<'a, str>, InlineSeq<Cow<'a, str>, 1>), 4>) -> (items:
    &'s [(Cow<'a, str>, InlineSeq<Cow<'a, str>, 1>)])
    ensures
        items@ == held_schemes(*seq),
{
    seq.inner.as_slice()
}

/// Calls `SmallVec::as_slice`. Claimed: the slice is what the sequence holds.
#[verifier::external_body]
fn books_slice<'s, 'a>(seq: &'s InlineSeq<(&'a str, Book<'a>), 1>) -> (items: &'s [(&'a str, Book<'a>)])
    ensures
        items@ == held_books(*seq),
{
    seq.inner.as_slice()
}

impl<'a> Contents for InlineSeq<Cow<'a, str>, 1> {
    type Item = Cow<'a, str>;

    open spec fn contents(self) -> Seq<Cow<'a, str>> {
        held_texts(self)
    }

    fn as_slice(&self) -> (items: &[Cow<'a, str>]) {
        texts_slice(self)
    }
}

impl<'a> Contents for InlineSeq<NamedUrl<'a>, 1> {
    type Item = NamedUrl<'a>;

    open spec fn contents(self) -> Seq<NamedUrl<'a>> {
        held_links_1(self)
    }

    fn as_slice(&self) -> (items: &[NamedUrl<'a>]) {
        links_1_slice(self)
    }
}

impl<'a> Contents for InlineSeq<NamedUrl<'a>, 4> {
    type Item = NamedUrl<'a>;

    open spec fn contents(self) -> Seq<NamedUrl<'a>> {
        held_links_4(self)
    }

    fn as_slice(&self) -> (items: &[NamedUrl<'a>]) {
        links_4_slice(self)
    }
}

impl<'a> Contents for InlineSeq<NamedUrl<'a>, 8> {
    type Item = NamedUrl<'a>;

    open spec fn contents(self) -> Seq<NamedUrl<'a>> {
        held_links_8(self)
    }

    fn as_slice(&self) -> (items: &[NamedUrl<'a>]) {
        links_8_slice(self)
    }
}

impl<'a> Contents for InlineSeq<NamedUrl<'a>, 16> {
    type Item = NamedUrl<'a>;

    open spec fn contents(self) -> Seq<NamedUrl<'a>> {
        held_links_16(self)
    }

    fn as_slice(&self) -> (items: &[NamedUrl<'a>]) {
        links_16_slice(self)
    }
}

impl<'a> Contents for InlineSeq<(Cow<'a, str>, InlineSeq<Cow<'a, str>, 1>), 4> {
    type Item = (Cow<'a, str>, InlineSeq<Cow<'a, str>, 1>);

    open spec fn contents(self) -> Seq<(Cow<'a, str>, InlineSeq<Cow<'a, str>, 1>)> {
        held_schemes(self)
    }

    fn as_slice(&self) -> (items: &[(Cow<'a, str>, InlineSeq<Cow<'a, str>, 1>)]) {
        schemes_slice(self)
    }
}

impl<'a> Contents for InlineSeq<(&'a str, Book<'a>), 1> {
    type Item = (&'a str, Book<'a>);

    open spec fn contents(self) -> Seq<(&'a str, Book<'a>)> {
        held_books(self)
    }

    fn as_slice(&self) -> (items: &[(&'a str, Book<'a>)]) {
        books_slice(self)
    }
}

/// Calls `SmallVec::new`. Claimed: the new sequence holds nothing.
#[verifier::external_body]
fn seq_new<T, const N: usize>() -> (seq: InlineSeq<T, N>) where InlineSeq<T, N>: Contents<Item = T>
    ensures
        seq.contents() == Seq::<T>::empty(),
{
    InlineSeq { inner: SmallVec::new() }
}

/// Calls `SmallVec::try_reserve_exact` and lets its answer go: room is made
/// where the allocator grants it. Claimed: the items stay as they are.
#[verifier::external_body]
fn seq_reserve<T, const N: usize>(seq: &mut InlineSeq<T, N>, more: usize) where
    InlineSeq<T, N>: Contents<Item = T>,

    ensures
        final(seq).contents() == old(seq).contents(),
{
    let _ = seq.inner.try_reserve_exact(more);
}

/// Calls `SmallVec::push`. Claimed: the item is added behind the others,
/// which stay as they are, whether or not the sequence has to move to the
/// heap for it. Like `Vec::push`, the call ends the process where memory
/// runs out; nothing else stops it.
#[verifier::external_body]
fn seq_push<T, const N: usize>(seq: &mut InlineSeq<T, N>, item: T) where
    InlineSeq<T, N>: Contents<Item = T>,

    ensures
        final(seq).contents() == old(seq).contents().push(item),
{
    seq.inner.push(item)
}

/// Writes through `SmallVec`'s `IndexMut`. Claimed: the item at `at` is
/// replaced and the others stay as they are. An index past the end would
/// panic and is left out.
#[verifier::external_body]
fn seq_set<T, const N: usize>(seq: &mut InlineSeq<T, N>, at: usize, item: T) where
    InlineSeq<T, N>: Contents<Item = T>,

    requires
        at < old(seq).contents().len(),
    ensures
        final(seq).contents() == old(seq).contents().update(at as int, item),
{
    seq.inner[at] = item;
}

impl<T, const N: usize> View for InlineSeq<T, N> where InlineSeq<T, N>: Contents<Item = T> {
    type V = Seq<T>;

    open spec fn view(&self) -> Seq<T> {
        self.contents()
    }
}

impl<T, const N: usize> InlineSeq<T, N> where InlineSeq<T, N>: Contents<Item = T> {
    /// A sequence that holds nothing.
    pub fn new() -> (seq: Self)
        ensures
            seq@ == Seq::<T>::empty(),
    {
        seq_new()
    }

    /// A sequence that holds nothing, made after asking the allocator for room
    /// for `room` items; it holds nothing whether or not the room was granted.
    pub fn with_capacity(room: usize) -> (seq: Self)
        ensures
            seq@ == Seq::<T>::empty(),
    {
        let mut seq = seq_new();
        seq_reserve(&mut seq, room);
        seq
    }

    /// Adds `item` behind the items already held. The sequence grows as
    /// needed, onto the heap once more than `N` items are held: there is no
    /// length at which this is refused, and no item moves out of its place.
    pub fn push(&mut self, item: T)
        ensures
            final(self)@ == old(self)@.push(item),
    {
        seq_push(self, item)
    }

    /// Puts `item` in the place of the item at `at`.
    pub(crate) fn set(&mut self, at: usize, item: T)
        requires
            at < old(self)@.len(),
        ensures
            final(self)@ == old(self)@.update(at as int, item),
    {
        seq_set(self, at, item)
    }

    /// The number of items held.
    pub fn len(&self) -> (n: usize)
        ensures
            n == self@.len(),
    {
        self.as_slice().len()
    }

    /// Whether nothing is held.
    pub fn is_empty(&self) -> (empty: bool)
        ensures
            empty == (self@.len() == 0),
    {
        self.as_slice().len() == 0
    }

    /// The item at `at`, counted from zero, if there is one.
    pub fn get(&self, at: usize) -> (item: Option<&T>)
        ensures
            match item {
                Some(found) => at < self@.len() && *found == self@[at as int],
                None => at >= self@.len(),
            },
    {
        let items = self.as_slice();
        if at < items.len() {
            Some(&items[at])
        } else {
            None
        }
    }

    /// The number of items that are held without the heap.
    pub fn inline_capacity(&self) -> (n: usize)
        ensures
            n == N,
    {
        N
    }
}

} // verus!
