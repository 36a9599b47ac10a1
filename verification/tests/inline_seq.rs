use std::borrow::Cow;

use openlibrary::inline::{Contents, InlineSeq};
use openlibrary::record::NamedUrl;

fn link(name: &'static str) -> NamedUrl<'static> {
    NamedUrl { name: Cow::Borrowed(name), url: None }
}

#[test]
fn a_new_sequence_is_empty() {
    let seq: InlineSeq<NamedUrl, 4> = InlineSeq::new();
    assert_eq!(seq.len(), 0);
    assert!(seq.is_empty());
    assert!(seq.get(0).is_none());
    assert_eq!(seq.inline_capacity(), 4);
}

#[test]
fn pushing_past_the_inline_capacity_keeps_every_item_in_order() {
    let names = ["a", "b", "c", "d", "e", "f"];
    let mut seq: InlineSeq<NamedUrl, 4> = InlineSeq::new();
    for name in names {
        seq.push(link(name));
    }
    assert_eq!(seq.len(), 6);
    for (at, name) in names.iter().enumerate() {
        assert_eq!(seq.get(at).unwrap().name, *name);
    }
    assert_eq!(seq.as_slice().len(), 6);
}

#[test]
fn room_made_in_advance_holds_nothing() {
    let mut seq: InlineSeq<Cow<str>, 1> = InlineSeq::with_capacity(3);
    assert!(seq.is_empty());
    assert_eq!(seq.inline_capacity(), 1);
    seq.push(Cow::Borrowed("x"));
    seq.push(Cow::Borrowed("y"));
    assert_eq!(seq.as_slice(), &[Cow::Borrowed("x"), Cow::Borrowed("y")]);
    let huge: InlineSeq<Cow<str>, 1> = InlineSeq::with_capacity(usize::MAX);
    assert_eq!(huge.len(), 0);
}

#[test]
fn reading_does_not_use_the_sequence_up() {
    let mut seq: InlineSeq<NamedUrl, 8> = InlineSeq::new();
    seq.push(link("a"));
    seq.push(link("b"));
    let first: Vec<&str> = seq.as_slice().iter().map(|item| item.name.as_ref()).collect();
    let second: Vec<&str> = seq.as_slice().iter().map(|item| item.name.as_ref()).collect();
    assert_eq!(first, ["a", "b"]);
    assert_eq!(first, second);
    assert_eq!(seq.len(), 2);
}
