//! The decoding of a JSON array into an inline sequence, item by item, with
//! whatever decoder the items have.

use vstd::prelude::*;
use crate::decode::{decode, error_of, parse_error, required, Decode};
use crate::error::DecodeError;
use crate::inline::{Contents, InlineSeq};
use crate::json::{items_view, json_items, read_items, Items};

verus! {

/// What each of `items` says.
pub open spec fn models<'a, T: Decode<'a>>(items: Seq<T>) -> Seq<T::Model> {
    items.map_values(|item: T| item.model())
}

/// What the texts `items` decode to, one by one and in order: every item's
/// value, or the error of the first item that has one. An item that is
/// `null` has the wrong shape.
pub open spec fn decoded_items<'a, T: Decode<'a>>(items: Seq<Seq<u8>>) -> Result<Seq<T::Model>, DecodeError>
    decreases items.len(),
{
    if items.len() == 0 {
        Ok(Seq::empty())
    } else {
        match decoded_items::<T>(items.drop_last()) {
            Err(error) => Err(error),
            Ok(before) => match required(T::decoded(items.last())) {
                Err(error) => Err(error),
                Ok(model) => Ok(before.push(model)),
            },
        }
    }
}

/// Where the items decode, there is one value for each item, in the order
/// of the items, however many there are.
pub proof fn lemma_decoded_items_ok<'a, T: Decode<'a>>(items: Seq<Seq<u8>>)
    requires
        decoded_items::<T>(items) is Ok,
    ensures
        decoded_items::<T>(items)->Ok_0.len() == items.len(),
        forall|i: int|
            0 <= i < items.len() ==> required(T::decoded(#[trigger] items[i])) == Ok::<_, DecodeError>(
                decoded_items::<T>(items)->Ok_0[i],
            ),
    decreases items.len(),
{
    if items.len() > 0 {
        lemma_decoded_items_ok::<T>(items.drop_last());
        assert(forall|i: int| 0 <= i < items.len() - 1 ==> items[i] == items.drop_last()[i]);
    }
}

/// Where the items do not decode, the error is that of the first item that
/// does not.
pub proof fn lemma_decoded_items_err<'a, T: Decode<'a>>(items: Seq<Seq<u8>>) -> (at: int)
    requires
        decoded_items::<T>(items) is Err,
    ensures
        0 <= at < items.len(),
        required(T::decoded(items[at])) == Err::<T::Model, _>(decoded_items::<T>(items)->Err_0),
        forall|i: int| 0 <= i < at ==> required(T::decoded(#[trigger] items[i])) is Ok,
    decreases items.len(),
{
    if decoded_items::<T>(items.drop_last()) is Err {
        let at = lemma_decoded_items_err::<T>(items.drop_last());
        assert(forall|i: int| 0 <= i < items.len() - 1 ==> items[i] == items.drop_last()[i]);
        at
    } else {
        lemma_decoded_items_ok::<T>(items.drop_last());
        assert(forall|i: int| 0 <= i < items.len() - 1 ==> items[i] == items.drop_last()[i]);
        items.len() - 1
    }
}

/// An error among the first items is the error of the whole.
proof fn lemma_decoded_items_prefix<'a, T: Decode<'a>>(items: Seq<Seq<u8>>, n: int)
    requires
        0 <= n <= items.len(),
        decoded_items::<T>(items.take(n)) is Err,
    ensures
        decoded_items::<T>(items) == decoded_items::<T>(items.take(n)),
    decreases items.len(),
{
    if n < items.len() {
        assert(items.drop_last().take(n) =~= items.take(n));
        lemma_decoded_items_prefix::<T>(items.drop_last(), n);
    } else {
        assert(items.take(n) =~= items);
    }
}

/// Decodes the items of an array into an inline sequence: room is made for
/// as many items as there are, each item is decoded with the decoder of `T`
/// and added behind the others, and the first item that fails ends the
/// decoding with its error.
pub fn decode_items<'a, T: Decode<'a>, const N: usize>(items: &Items<'a>) -> (got: Result<
    InlineSeq<T, N>,
    DecodeError,
>) where InlineSeq<T, N>: Contents<Item = T>
    ensures
        match got {
            Ok(seq) => decoded_items::<T>(items_view(*items)) == Ok::<_, DecodeError>(models(seq@))
                && seq@.len() == items.len() && forall|i: int|
                0 <= i < seq@.len() ==> (#[trigger] seq@[i]).borrows_from(items[i]@),
            Err(error) => decoded_items::<T>(items_view(*items)) == Err::<Seq<T::Model>, _>(error),
        },
{
    let ghost texts = items_view(*items);
    let mut seq: InlineSeq<T, N> = InlineSeq::with_capacity(items.len());
    let mut at: usize = 0;
    proof {
        assert(models(seq@) =~= Seq::<T::Model>::empty());
    }
    while at < items.len()
        invariant
            at <= items.len(),
            texts == items_view(*items),
            seq@.len() == at,
            decoded_items::<T>(texts.take(at as int)) == Ok::<_, DecodeError>(models(seq@)),
            forall|i: int| 0 <= i < seq@.len() ==> (#[trigger] seq@[i]).borrows_from(items[i]@),
        decreases items.len() - at,
    {
        proof {
            assert(texts.take(at as int + 1).drop_last() =~= texts.take(at as int));
            assert(texts.take(at as int + 1).last() == items[at as int]@);
        }
        match decode::<T>(items[at]) {
            Ok(item) => {
                proof {
                    assert(models(seq@.push(item)) =~= models(seq@).push(item.model()));
                }
                seq.push(item);
            },
            Err(error) => {
                proof {
                    lemma_decoded_items_prefix::<T>(texts, at as int + 1);
                }
                return Err(error);
            },
        }
        at += 1;
    }
    proof {
        assert(texts.take(at as int) =~= texts);
    }
    Ok(seq)
}

/// What `doc` decodes to as an array of `T`.
pub open spec fn decoded_sequence<'a, T: Decode<'a>>(doc: Seq<u8>) -> Result<Option<Seq<T::Model>>, DecodeError> {
    match json_items(doc) {
        Err(fault) => Err(error_of(fault)),
        Ok(None) => Ok(None),
        Ok(Some(items)) => match decoded_items::<T>(items) {
            Err(error) => Err(error),
            Ok(found) => Ok(Some(found)),
        },
    }
}

impl<'a, T: Decode<'a>, const N: usize> Decode<'a> for InlineSeq<T, N> where
    InlineSeq<T, N>: Contents<Item = T>,
 {
    type Model = Seq<T::Model>;

    open spec fn model(&self) -> Seq<T::Model> {
        models(self@)
    }

    open spec fn borrows_from(&self, doc: Seq<u8>) -> bool {
        forall|i: int| 0 <= i < self@.len() ==> (#[trigger] self@[i]).borrows_from(doc)
    }

    open spec fn decoded(doc: Seq<u8>) -> Result<Option<Seq<T::Model>>, DecodeError> {
        decoded_sequence::<T>(doc)
    }

    proof fn lemma_borrows_widen(&self, part: Seq<u8>, doc: Seq<u8>) {
        assert forall|i: int| 0 <= i < self@.len() implies (#[trigger] self@[i]).borrows_from(doc) by {
            self@[i].lemma_borrows_widen(part, doc);
        }
    }

    fn decode_nullable(doc: &'a [u8]) -> (got: Result<Option<Self>, DecodeError>) {
        match read_items(doc) {
            Err(fault) => Err(parse_error(fault)),
            Ok(None) => Ok(None),
            Ok(Some(items)) => match decode_items::<T, N>(&items) {
                Err(error) => Err(error),
                Ok(seq) => {
                    proof {
                        assert forall|i: int| 0 <= i < seq@.len() implies (#[trigger] seq@[i]).borrows_from(
                            doc@,
                        ) by {
                            seq@[i].lemma_borrows_widen(items[i]@, doc@);
                        }
                    }
                    Ok(Some(seq))
                },
            },
        }
    }
}

} // verus!
