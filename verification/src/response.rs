//! A response body that has not been decoded yet.

use std::marker::PhantomData;
use bytes::Bytes;
use vstd::prelude::*;
use crate::decode::{agrees, decode, required, Decode};
use crate::error::DecodeError;
use crate::record::Book;
use crate::vecmap::VecMap;

verus! {

/// `bytes::Bytes`, the buffer in which a transport hands over a body.
#[verifier::external_type_specification]
#[verifier::external_body]
pub struct ExBytes(Bytes);

/// The bytes that a buffer holds.
pub uninterp spec fn bytes_held(buffer: Bytes) -> Seq<u8>;

/// Borrows the buffer's bytes through `Bytes`'s `AsRef<[u8]>`. Claimed:
/// the slice is what the buffer holds.
#[verifier::external_body]
fn bytes_slice(buffer: &Bytes) -> (bytes: &[u8])
    ensures
        bytes@ == bytes_held(*buffer),
{
    buffer.as_ref()
}

/// The body of a response, kept as it came, together with the type it is
/// to be decoded as. Decoding borrows from the body, so the body has to
/// outlive what is decoded from it.
pub struct DeserializableResponse<'a, T> {
    inner: Bytes,
    target: PhantomData<&'a T>,
}

/// The answer to a query by bibliographic key: the book found, under the
/// key it was asked for.
pub type BooksResponse<'a> = DeserializableResponse<'a, VecMap<&'a str, Book<'a>, 1>>;

impl<'de, T: Decode<'de>> DeserializableResponse<'de, T> {
    /// The bytes of the body.
    pub closed spec fn body(&self) -> Seq<u8> {
        bytes_held(self.inner)
    }

    /// Takes a body over from the transport.
    pub fn new(inner: Bytes) -> (response: Self)
        ensures
            response.body() == bytes_held(inner),
    {
        DeserializableResponse { inner, target: PhantomData }
    }

    /// Decodes the body as one JSON value of the target type. Every text
    /// that the value borrows is a run of bytes of the body.
    pub fn get(&'de self) -> (got: Result<T, DecodeError>)
        ensures
            agrees(got, required(T::decoded(self.body()))),
            got matches Ok(value) ==> value.borrows_from(self.body()),
    {
        decode::<T>(bytes_slice(&self.inner))
    }
}

} // verus!
