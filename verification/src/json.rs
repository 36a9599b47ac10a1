//! The reading of JSON text, one level at a time. The parser is
//! `serde_json`; what it answers for given bytes is taken on trust here and
//! given a name, and the rest of the library is proved against those names.

use std::borrow::Cow;
use serde_json::error::Category;
use serde_json::value::RawValue;
use serde_with::de::DeserializeAsWrap;
use serde_with::{BorrowCow, Same};
use vstd::prelude::*;
use vstd::utf8::encode_utf8;

verus! {

/// Why the parser refused a document.
#[derive(Clone, Copy, PartialEq, Eq, Structural, Debug)]
pub enum ParseFault {
    /// The bytes are not well-formed JSON, or end too early.
    Syntax,
    /// The bytes hold a JSON value of another type than the one asked for,
    /// or one that the type asked for cannot hold.
    Mismatch,
}

/// The members of a JSON object in document order: each name with the
/// text of its value.
pub type Members<'a> = Vec<(Cow<'a, str>, &'a [u8])>;

/// The members of a JSON object whose names are all spelled without
/// escapes.
pub type Keyed<'a> = Vec<(&'a str, &'a [u8])>;

/// The items of a JSON array in document order: the text of each.
pub type Items<'a> = Vec<&'a [u8]>;

/// Whether `part` occurs in `whole` as one run of bytes.
pub open spec fn within(part: Seq<u8>, whole: Seq<u8>) -> bool {
    exists|at: int|
        0 <= at && at + part.len() <= whole.len() && #[trigger] whole.subrange(
            at,
            at + part.len(),
        ) == part
}

/// A run of a run is a run.
pub proof fn lemma_within_chain(a: Seq<u8>, b: Seq<u8>, c: Seq<u8>)
    requires
        within(a, b),
        within(b, c),
    ensures
        within(a, c),
{
    let i = choose|at: int| 0 <= at && at + a.len() <= b.len() && #[trigger] b.subrange(at, at + a.len()) == a;
    let j = choose|at: int| 0 <= at && at + b.len() <= c.len() && #[trigger] c.subrange(at, at + b.len()) == b;
    assert(c.subrange(i + j, i + j + a.len()) =~= c.subrange(j, j + b.len()).subrange(i, i + a.len()));
}

/// The byte that starts an escape inside a JSON string.
pub const BACKSLASH: u8 = 0x5c;

/// Members as plain values.
pub open spec fn members_view(members: Members) -> Seq<(Seq<char>, Seq<u8>)> {
    members@.map_values(|m: (Cow<str>, &[u8])| (m.0@, m.1@))
}

/// Members with unescaped names as plain values.
pub open spec fn keyed_view(members: Keyed) -> Seq<(Seq<char>, Seq<u8>)> {
    members@.map_values(|m: (&str, &[u8])| (m.0@, m.1@))
}

/// Items as plain values.
pub open spec fn items_view(items: Items) -> Seq<Seq<u8>> {
    items@.map_values(|item: &[u8]| item@)
}

/// What `serde_json` reads from `doc` when asked for an object or `null`:
/// the members in document order, repeated names included, or `None` for
/// `null`.
pub uninterp spec fn json_members(doc: Seq<u8>) -> Result<Option<Seq<(Seq<char>, Seq<u8>)>>, ParseFault>;

/// What `serde_json` reads from `doc` when asked for an object whose member
/// names can be borrowed from the document.
pub uninterp spec fn json_keyed(doc: Seq<u8>) -> Result<Seq<(Seq<char>, Seq<u8>)>, ParseFault>;

/// What `serde_json` reads from `doc` when asked for an array or `null`.
pub uninterp spec fn json_items(doc: Seq<u8>) -> Result<Option<Seq<Seq<u8>>>, ParseFault>;

/// What `serde_json` reads from `doc` when asked for a string or `null`.
pub uninterp spec fn json_text(doc: Seq<u8>) -> Result<Option<Seq<char>>, ParseFault>;

/// What `serde_json` reads from `doc` when asked for an unsigned 64-bit
/// integer or `null`.
pub uninterp spec fn json_count(doc: Seq<u8>) -> Result<Option<u64>, ParseFault>;

/// How `serde_json` writes a string: the characters between quotes, with
/// escapes where JSON asks for them.
pub uninterp spec fn json_quoted(text: Seq<char>) -> Seq<u8>;

/// How `serde_json` writes an unsigned 64-bit integer.
pub uninterp spec fn json_number(n: u64) -> Seq<u8>;

/// `serde_json::Error`, the parser's own account of a failure.
#[verifier::external_type_specification]
#[verifier::external_body]
pub struct ExJsonError(serde_json::Error);

/// Calls `serde_json::Error::classify` and keeps of its answer whether the
/// parser judged the data (`Category::Data`) or the text (all others).
/// Nothing is claimed of the answer.
#[verifier::external_body]
fn fault_of(error: serde_json::Error) -> ParseFault {
    match error.classify() {
        Category::Data => ParseFault::Mismatch,
        Category::Syntax => ParseFault::Syntax,
        Category::Eof => ParseFault::Syntax,
        Category::Io => ParseFault::Syntax,
    }
}

/// Calls `serde_json::from_slice` for an optional map, collected by
/// `serde_with::Map` into pairs of a `BorrowCow` name and a `&RawValue`.
/// Claimed: the answer is `json_members` of the document; each value text
/// is a run of bytes of the document, and so is each borrowed name.
#[verifier::external_body]
pub(crate) fn read_members<'a>(doc: &'a [u8]) -> (found: Result<Option<Members<'a>>, ParseFault>)
    ensures
        match found {
            Ok(Some(members)) => json_members(doc@) == Ok::<_, ParseFault>(Some(members_view(members))),
            Ok(None) => json_members(doc@) == Ok::<Option<Seq<(Seq<char>, Seq<u8>)>>, ParseFault>(None),
            Err(fault) => json_members(doc@) == Err::<Option<Seq<(Seq<char>, Seq<u8>)>>, _>(fault),
        },
        found matches Ok(Some(members)) ==> forall|i: int|
            0 <= i < members.len() ==> within((#[trigger] members[i]).1@, doc@) && (members[i].0 is Borrowed
                ==> within(encode_utf8(members[i].0@), doc@)),
{
    serde_json::from_slice::<
        Option<DeserializeAsWrap<Vec<(Cow<'a, str>, &'a RawValue)>, serde_with::Map<BorrowCow, Same>>>,
    >(doc).map(
        |found| found.map(|w| w.into_inner().into_iter().map(|(k, v)| (k, v.get().as_bytes())).collect()),
    ).map_err(fault_of)
}

/// Calls `serde_json::from_slice` for a map, collected by `serde_with::Map`
/// into pairs of a `&str` name and a `&RawValue`. Claimed: the answer is
/// `json_keyed` of the document; each value text is a run of bytes of the
/// document, and so is each name.
#[verifier::external_body]
pub(crate) fn read_keyed<'a>(doc: &'a [u8]) -> (found: Result<Keyed<'a>, ParseFault>)
    ensures
        match found {
            Ok(members) => json_keyed(doc@) == Ok::<_, ParseFault>(keyed_view(members)),
            Err(fault) => json_keyed(doc@) == Err::<Seq<(Seq<char>, Seq<u8>)>, _>(fault),
        },
        found matches Ok(members) ==> forall|i: int|
            0 <= i < members.len() ==> within((#[trigger] members[i]).1@, doc@) && within(
                encode_utf8(members[i].0@),
                doc@,
            ),
{
    serde_json::from_slice::<
        DeserializeAsWrap<Vec<(&'a str, &'a RawValue)>, serde_with::Map<Same, Same>>,
    >(doc).map(
        |w| w.into_inner().into_iter().map(|(k, v)| (k, v.get().as_bytes())).collect(),
    ).map_err(fault_of)
}

/// Calls `serde_json::from_slice` for an optional `Vec<&RawValue>`.
/// Claimed: the answer is `json_items` of the document; each item text is a
/// run of bytes of the document.
#[verifier::external_body]
pub(crate) fn read_items<'a>(doc: &'a [u8]) -> (found: Result<Option<Items<'a>>, ParseFault>)
    ensures
        match found {
            Ok(Some(items)) => json_items(doc@) == Ok::<_, ParseFault>(Some(items_view(items))),
            Ok(None) => json_items(doc@) == Ok::<Option<Seq<Seq<u8>>>, ParseFault>(None),
            Err(fault) => json_items(doc@) == Err::<Option<Seq<Seq<u8>>>, _>(fault),
        },
        found matches Ok(Some(items)) ==> forall|i: int|
            0 <= i < items.len() ==> within((#[trigger] items[i])@, doc@),
{
    serde_json::from_slice::<Option<Vec<&'a RawValue>>>(doc).map(
        |found| found.map(|items| items.into_iter().map(|v| v.get().as_bytes()).collect()),
    ).map_err(fault_of)
}

/// Calls `serde_json::from_slice` for an optional string read through
/// `serde_with::BorrowCow`. Claimed: the answer is `json_text` of the
/// document; the text is borrowed exactly if the document holds no
/// backslash, and a borrowed text is a run of bytes of the document.
#[verifier::external_body]
pub(crate) fn read_text<'a>(doc: &'a [u8]) -> (found: Result<Option<Cow<'a, str>>, ParseFault>)
    ensures
        match found {
            Ok(Some(text)) => json_text(doc@) == Ok::<_, ParseFault>(Some(text@)),
            Ok(None) => json_text(doc@) == Ok::<Option<Seq<char>>, ParseFault>(None),
            Err(fault) => json_text(doc@) == Err::<Option<Seq<char>>, _>(fault),
        },
        found matches Ok(Some(text)) ==> (text is Borrowed <==> !doc@.contains(BACKSLASH)) && (text is Borrowed
            ==> within(encode_utf8(text@), doc@)),
{
    serde_json::from_slice::<Option<DeserializeAsWrap<Cow<'a, str>, BorrowCow>>>(doc).map(
        |found| found.map(|w| w.into_inner()),
    ).map_err(fault_of)
}

/// Calls `serde_json::from_slice` for an optional `u64`. Claimed: the
/// answer is `json_count` of the document.
#[verifier::external_body]
pub(crate) fn read_count(doc: &[u8]) -> (found: Result<Option<u64>, ParseFault>)
    ensures
        found == json_count(doc@),
{
    serde_json::from_slice::<Option<u64>>(doc).map_err(fault_of)
}

/// Calls `serde_json::to_vec` on a string, which writes into memory and so
/// meets no error. Claimed: the answer is `json_quoted` of the string.
#[verifier::external_body]
pub(crate) fn write_text(text: &str) -> (out: Vec<u8>)
    ensures
        out@ == json_quoted(text@),
{
    serde_json::to_vec(text).unwrap_or_default()
}

/// Calls `serde_json::to_vec` on a `u64`, which writes into memory and so
/// meets no error. Claimed: the answer is `json_number` of the integer.
#[verifier::external_body]
pub(crate) fn write_count(n: u64) -> (out: Vec<u8>)
    ensures
        out@ == json_number(n),
{
    serde_json::to_vec(&n).unwrap_or_default()
}

} // verus!
