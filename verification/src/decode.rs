//! What it is to decode a value from JSON text, and the decoders of the
//! plain values: a text and a count.

use std::borrow::Cow;
use vstd::prelude::*;
use vstd::utf8::encode_utf8;
use crate::error::{DecodeError, Fault, Field};
use crate::json::{
    json_count, json_text, lemma_within_chain, read_count, read_text, within, ParseFault, BACKSLASH,
};
use crate::text::{text_model, text_says, TextModel};

verus! {

/// A value that can be decoded from the text of one JSON value.
pub trait Decode<'a>: Sized {
    /// The value as mathematics: what it says, not how it is held.
    type Model;

    /// What this value says.
    spec fn model(&self) -> Self::Model;

    /// Whether every text that this value borrows is a run of bytes of
    /// `doc`.
    spec fn borrows_from(&self, doc: Seq<u8>) -> bool;

    /// What `doc` decodes to: a value, nothing where `doc` is `null`, or the
    /// first error.
    spec fn decoded(doc: Seq<u8>) -> Result<Option<Self::Model>, DecodeError>;

    /// What is borrowed from a part of a document is borrowed from the
    /// document.
    proof fn lemma_borrows_widen(&self, part: Seq<u8>, doc: Seq<u8>)
        requires
            self.borrows_from(part),
            within(part, doc),
        ensures
            self.borrows_from(doc),
    ;

    /// Decodes `doc`, which may be `null`.
    fn decode_nullable(doc: &'a [u8]) -> (got: Result<Option<Self>, DecodeError>)
        ensures
            match got {
                Ok(Some(value)) => Self::decoded(doc@) == Ok::<_, DecodeError>(Some(value.model()))
                    && value.borrows_from(doc@),
                Ok(None) => Self::decoded(doc@) == Ok::<Option<Self::Model>, DecodeError>(None),
                Err(error) => Self::decoded(doc@) == Err::<Option<Self::Model>, _>(error),
            },
    ;
}

/// The error of a value that is there but has the wrong JSON type.
pub open spec fn shape_error() -> DecodeError {
    DecodeError { fault: Fault::Shape, field: Field::Root }
}

/// The error the library gives for a refusal of the parser that was not
/// about a number.
pub open spec fn error_of(fault: ParseFault) -> DecodeError {
    match fault {
        ParseFault::Syntax => DecodeError { fault: Fault::Malformed, field: Field::Root },
        ParseFault::Mismatch => shape_error(),
    }
}

/// The error the library gives for a refusal of the parser.
pub fn parse_error(fault: ParseFault) -> (error: DecodeError)
    ensures
        error == error_of(fault),
{
    match fault {
        ParseFault::Syntax => DecodeError { fault: Fault::Malformed, field: Field::Root },
        ParseFault::Mismatch => DecodeError { fault: Fault::Shape, field: Field::Root },
    }
}

/// A decoded value that must be there: `null` is a value of the wrong type.
pub open spec fn required<M>(found: Result<Option<M>, DecodeError>) -> Result<M, DecodeError> {
    match found {
        Ok(Some(model)) => Ok(model),
        Ok(None) => Err(shape_error()),
        Err(error) => Err(error),
    }
}

/// Whether the outcome `got` is the outcome `want`, value for model.
pub open spec fn agrees<'a, T: Decode<'a>>(got: Result<T, DecodeError>, want: Result<T::Model, DecodeError>) -> bool {
    match got {
        Ok(value) => want == Ok::<_, DecodeError>(value.model()),
        Err(error) => want == Err::<T::Model, _>(error),
    }
}

/// Decodes `doc`, which must hold a value and not `null`.
pub fn decode<'a, T: Decode<'a>>(doc: &'a [u8]) -> (got: Result<T, DecodeError>)
    ensures
        agrees(got, required(T::decoded(doc@))),
        got matches Ok(value) ==> value.borrows_from(doc@),
{
    match T::decode_nullable(doc) {
        Ok(Some(value)) => Ok(value),
        Ok(None) => Err(DecodeError { fault: Fault::Shape, field: Field::Root }),
        Err(error) => Err(error),
    }
}

/// The text that `doc` decodes to. It is borrowed exactly if `doc` spells
/// it without an escape, that is, holds no backslash.
pub open spec fn decoded_text(doc: Seq<u8>) -> Result<Option<TextModel>, DecodeError> {
    match json_text(doc) {
        Ok(Some(chars)) => Ok(Some(TextModel { chars, borrowed: !doc.contains(BACKSLASH) })),
        Ok(None) => Ok(None),
        Err(fault) => Err(error_of(fault)),
    }
}

/// Decodes a string or `null`. A string that the document spells without a
/// backslash comes back borrowed, as the very bytes of the document; one
/// with an escape comes back owned.
pub fn decode_text<'a>(doc: &'a [u8]) -> (got: Result<Option<Cow<'a, str>>, DecodeError>)
    ensures
        match got {
            Ok(found) => decoded_text(doc@) == Ok::<_, DecodeError>(text_model(found)),
            Err(error) => decoded_text(doc@) == Err::<Option<TextModel>, _>(error),
        },
        got matches Ok(Some(Cow::Borrowed(text))) ==> within(encode_utf8(text@), doc@),
{
    match read_text(doc) {
        Ok(found) => Ok(found),
        Err(fault) => Err(parse_error(fault)),
    }
}

impl<'a> Decode<'a> for Cow<'a, str> {
    type Model = TextModel;

    open spec fn model(&self) -> TextModel {
        text_says(*self)
    }

    open spec fn borrows_from(&self, doc: Seq<u8>) -> bool {
        self is Borrowed ==> within(encode_utf8(self@), doc)
    }

    open spec fn decoded(doc: Seq<u8>) -> Result<Option<TextModel>, DecodeError> {
        decoded_text(doc)
    }

    proof fn lemma_borrows_widen(&self, part: Seq<u8>, doc: Seq<u8>) {
        if self is Borrowed {
            lemma_within_chain(encode_utf8(self@), part, doc);
        }
    }

    fn decode_nullable(doc: &'a [u8]) -> (got: Result<Option<Self>, DecodeError>) {
        decode_text(doc)
    }
}

/// Whether `byte` is one of the four that JSON allows between its tokens.
pub open spec fn is_blank(byte: u8) -> bool {
    byte == 0x20 || byte == 0x0a || byte == 0x0d || byte == 0x09
}

/// Whether the first byte of `doc` behind any blanks starts a JSON number.
pub open spec fn starts_number(doc: Seq<u8>) -> bool
    decreases doc.len(),
{
    if doc.len() == 0 {
        false
    } else if is_blank(doc[0]) {
        starts_number(doc.drop_first())
    } else {
        doc[0] == 0x2d || (0x30 <= doc[0] <= 0x39)
    }
}

/// Whether the first byte of `doc` behind any blanks starts a JSON number.
pub fn begins_number(doc: &[u8]) -> (yes: bool)
    ensures
        yes == starts_number(doc@),
{
    let mut at: usize = 0;
    proof {
        assert(doc@.skip(0) =~= doc@);
    }
    while at < doc.len() && (doc[at] == 0x20 || doc[at] == 0x0a || doc[at] == 0x0d || doc[at] == 0x09)
        invariant
            at <= doc.len(),
            starts_number(doc@) == starts_number(doc@.skip(at as int)),
        decreases doc.len() - at,
    {
        proof {
            assert(doc@.skip(at as int).drop_first() =~= doc@.skip(at as int + 1));
        }
        at += 1;
    }
    if at < doc.len() {
        doc[at] == 0x2d || (0x30 <= doc[at] && doc[at] <= 0x39)
    } else {
        false
    }
}

/// The count that `doc` decodes to. A number that is no count (negative,
/// fractional, or too large) is a value that does not fit; anything else
/// that is no number has the wrong shape.
pub open spec fn decoded_count(doc: Seq<u8>) -> Result<Option<usize>, DecodeError> {
    match json_count(doc) {
        Ok(None) => Ok(None),
        Ok(Some(n)) => if n <= usize::MAX {
            Ok(Some(n as usize))
        } else {
            Err(DecodeError { fault: Fault::Value, field: Field::Root })
        },
        Err(ParseFault::Syntax) => Err(DecodeError { fault: Fault::Malformed, field: Field::Root }),
        Err(ParseFault::Mismatch) => if starts_number(doc) {
            Err(DecodeError { fault: Fault::Value, field: Field::Root })
        } else {
            Err(shape_error())
        },
    }
}

/// Decodes a non-negative whole number or `null`.
pub fn decode_count(doc: &[u8]) -> (got: Result<Option<usize>, DecodeError>)
    ensures
        got == decoded_count(doc@),
{
    match read_count(doc) {
        Ok(None) => Ok(None),
        Ok(Some(n)) => {
            if n <= usize::MAX as u64 {
                Ok(Some(n as usize))
            } else {
                Err(DecodeError { fault: Fault::Value, field: Field::Root })
            }
        },
        Err(ParseFault::Syntax) => Err(DecodeError { fault: Fault::Malformed, field: Field::Root }),
        Err(ParseFault::Mismatch) => {
            if begins_number(doc) {
                Err(DecodeError { fault: Fault::Value, field: Field::Root })
            } else {
                Err(DecodeError { fault: Fault::Shape, field: Field::Root })
            }
        },
    }
}

impl<'a> Decode<'a> for usize {
    type Model = usize;

    open spec fn model(&self) -> usize {
        *self
    }

    open spec fn borrows_from(&self, doc: Seq<u8>) -> bool {
        true
    }

    open spec fn decoded(doc: Seq<u8>) -> Result<Option<usize>, DecodeError> {
        decoded_count(doc)
    }

    proof fn lemma_borrows_widen(&self, part: Seq<u8>, doc: Seq<u8>) {
    }

    fn decode_nullable(doc: &'a [u8]) -> (got: Result<Option<Self>, DecodeError>) {
        decode_count(doc)
    }
}

} // verus!
