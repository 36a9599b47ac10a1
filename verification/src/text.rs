//! Text that either points into the input or owns its characters.

use std::borrow::Cow;
use vstd::prelude::*;
use vstd::utf8::{encode_utf8, encode_utf8_decode_utf8};

verus! {

/// A piece of text from a decoded document. Where the document spells the
/// text without escapes the value points at the document's own bytes;
/// otherwise it owns the unescaped characters. Both read alike.
pub type Text<'a> = Cow<'a, str>;

/// What a text says: its characters, and whether it points into the
/// document it was decoded from or owns a copy.
pub struct TextModel {
    pub chars: Seq<char>,
    pub borrowed: bool,
}

/// What `text` says.
pub open spec fn text_says(text: Text) -> TextModel {
    TextModel { chars: text@, borrowed: text is Borrowed }
}

/// What an optional text says.
pub open spec fn text_model(text: Option<Text>) -> Option<TextModel> {
    match text {
        Some(text) => Some(text_says(text)),
        None => None,
    }
}

/// Two strings have the same characters exactly if they have the same bytes.
pub proof fn lemma_same_bytes_same_chars(a: Seq<char>, b: Seq<char>)
    ensures
        (encode_utf8(a) == encode_utf8(b)) <==> (a == b),
{
    encode_utf8_decode_utf8(a);
    encode_utf8_decode_utf8(b);
}

/// Whether two strings hold the same characters.
pub fn same_str(a: &str, b: &str) -> (same: bool)
    ensures
        same == (a@ == b@),
{
    let x = a.as_bytes();
    let y = b.as_bytes();
    proof {
        lemma_same_bytes_same_chars(a@, b@);
    }
    if x.len() != y.len() {
        return false;
    }
    let mut i: usize = 0;
    while i < x.len()
        invariant
            i <= x.len(),
            x.len() == y.len(),
            x@.take(i as int) == y@.take(i as int),
            (x@ == y@) <==> (a@ == b@),
        decreases x.len() - i,
    {
        if x[i] != y[i] {
            return false;
        }
        proof {
            assert(x@.take(i as int + 1) =~= x@.take(i as int).push(x@[i as int]));
            assert(y@.take(i as int + 1) =~= y@.take(i as int).push(y@[i as int]));
        }
        i += 1;
    }
    proof {
        assert(x@.take(i as int) =~= x@);
        assert(y@.take(i as int) =~= y@);
    }
    true
}

/// Whether the text points into the input instead of owning a copy.
pub fn borrows(text: &Text) -> (b: bool)
    ensures
        b == text_says(*text).borrowed,
{
    match text {
        Cow::Borrowed(_) => true,
        Cow::Owned(_) => false,
    }
}

/// The characters, whichever way they are held.
pub fn as_str<'s>(text: &'s Text) -> (s: &'s str)
    ensures
        s@ == text@,
{
    match text {
        Cow::Borrowed(s) => s,
        Cow::Owned(s) => s.as_str(),
    }
}

/// Whether two texts read alike, however they are held.
pub fn same_text(a: &Text, b: &Text) -> (same: bool)
    ensures
        same == (a@ == b@),
{
    same_str(as_str(a), as_str(b))
}

} // verus!
