use std::borrow::Cow;

use bytes::Bytes;
use openlibrary::decode::decode;
use openlibrary::error::{DecodeError, Fault, Field};
use openlibrary::inline::{Contents, InlineSeq};
use openlibrary::json::{Keyed, Members};
use openlibrary::mapping::decode_entries;
use openlibrary::record::Book;
use openlibrary::response::{BooksResponse, DeserializableResponse};
use openlibrary::vecmap::VecMap;

type Schemes<'a> = VecMap<Cow<'a, str>, InlineSeq<Cow<'a, str>, 1>, 4>;

fn one(text: &'static str) -> InlineSeq<Cow<'static, str>, 1> {
    let mut seq = InlineSeq::new();
    seq.push(Cow::Borrowed(text));
    seq
}

fn first<'m>(map: &'m Schemes, key: &str) -> Option<&'m str> {
    map.get(key).and_then(|values| values.get(0)).map(|text| text.as_ref())
}

#[test]
fn a_new_map_has_no_key() {
    let map: Schemes = VecMap::new();
    assert_eq!(map.len(), 0);
    assert!(map.is_empty());
    assert!(map.get("lccn").is_none());
    assert!(!map.contains_key("lccn"));
    assert_eq!(map.find("lccn"), None);
}

#[test]
fn keys_keep_the_order_in_which_they_first_came() {
    let mut map: Schemes = VecMap::new();
    for key in ["e", "b", "a", "d", "c", "f"] {
        map.insert(Cow::Borrowed(key), one(key));
    }
    assert_eq!(map.len(), 6);
    let keys: Vec<&str> = map.as_slice().iter().map(|entry| entry.0.as_ref()).collect();
    assert_eq!(keys, ["e", "b", "a", "d", "c", "f"]);
    assert_eq!(map.find("a"), Some(2));
    assert_eq!(first(&map, "f"), Some("f"));
}

#[test]
fn the_last_write_for_a_key_wins_and_keeps_the_place() {
    let mut map: Schemes = VecMap::new();
    map.insert(Cow::Borrowed("lccn"), one("1"));
    map.insert(Cow::Borrowed("oclc"), one("2"));
    map.insert(Cow::Owned(String::from("lccn")), one("3"));
    assert_eq!(map.len(), 2);
    assert_eq!(map.find("lccn"), Some(0));
    assert_eq!(first(&map, "lccn"), Some("3"));
    assert_eq!(first(&map, "oclc"), Some("2"));
    assert!(map.contains_key("lccn"));
    assert!(!map.contains_key("LCCN"));
}

#[test]
fn map_key_uniqueness() {
    let map: Schemes = decode(br#"{"lccn": ["1"], "lccn": ["2"], "lccn": ["3"]}"#).unwrap();
    assert_eq!(map.len(), 1);
    assert_eq!(first(&map, "lccn"), Some("3"));
}

#[test]
fn keys_are_compared_by_their_characters() {
    let map: Schemes = decode(br#"{"ab": ["1"], "ab": ["2"]}"#).unwrap();
    assert_eq!(map.len(), 1);
    assert_eq!(first(&map, "ab"), Some("2"));
}

#[test]
fn a_value_that_fails_ends_the_decoding_of_the_map() {
    let got = decode::<Schemes>(br#"{"a": ["1"], "b": "2", "c": 3}"#).unwrap_err();
    assert_eq!(got, DecodeError { fault: Fault::Shape, field: Field::Root });
    let got = decode::<Schemes>(br#"{"a": ["1"], "b": null}"#).unwrap_err();
    assert_eq!(got, DecodeError { fault: Fault::Shape, field: Field::Root });
    let got = decode::<Schemes>(br#"[["a", ["1"]]]"#).unwrap_err();
    assert_eq!(got, DecodeError { fault: Fault::Shape, field: Field::Root });
    let got = decode::<Schemes>(br#"{"a": ["1"], }"#).unwrap_err();
    assert_eq!(got, DecodeError { fault: Fault::Malformed, field: Field::Root });
}

#[test]
fn entries_are_decoded_from_members_by_value() {
    let members: Members = vec![
        (Cow::Borrowed("x"), &b"[\"1\"]"[..]),
        (Cow::Borrowed("y"), &b"[]"[..]),
        (Cow::Owned(String::from("x")), &b"[\"2\", \"3\"]"[..]),
    ];
    let map: Schemes = decode_entries(members).unwrap();
    assert_eq!(map.len(), 2);
    assert_eq!(map.as_slice()[0].0, "x");
    assert_eq!(map.as_slice()[0].1.as_slice(), &[Cow::Borrowed("2"), Cow::Borrowed("3")]);
    assert_eq!(map.as_slice()[1].0, "y");
    assert!(map.as_slice()[1].1.is_empty());
    let members: Keyed = vec![("a", &br#"{"url": "u", "key": "k", "title": "t"}"#[..])];
    let books: VecMap<&str, Book, 1> = decode_entries(members).unwrap();
    assert_eq!(books.get("a").unwrap().url, "u");
    let members: Keyed = vec![("a", &b"{}"[..])];
    let got = decode_entries::<&str, Book, 1>(members).unwrap_err();
    assert_eq!(got, DecodeError { fault: Fault::Missing, field: Field::Url });
}

const ANSWER: &str = r#"{"ISBN:0261102214": {"url": "u", "key": "/books/OL1M", "title": "The Hobbit"}}"#;

#[test]
fn a_response_decodes_to_the_book_under_its_query_key() {
    let response: BooksResponse = DeserializableResponse::new(Bytes::from_static(ANSWER.as_bytes()));
    let books = response.get().unwrap();
    assert_eq!(books.len(), 1);
    let book = books.get("ISBN:0261102214").unwrap();
    assert_eq!(book.title, "The Hobbit");
    assert!(matches!(book.title, Cow::Borrowed(_)));
    assert_eq!(books.as_slice()[0].0, "ISBN:0261102214");
    let again = response.get().unwrap();
    assert_eq!(again.len(), 1);
}

#[test]
fn a_response_may_hold_several_books_or_none() {
    let response: BooksResponse = DeserializableResponse::new(Bytes::from_static(b"{}"));
    assert!(response.get().unwrap().is_empty());
    let body = br#"{"a": {"url": "1", "key": "1", "title": "1"}, "b": {"url": "2", "key": "2", "title": "2"}}"#;
    let response: BooksResponse = DeserializableResponse::new(Bytes::from_static(body));
    let books = response.get().unwrap();
    assert_eq!(books.len(), 2);
    assert_eq!(books.get("b").unwrap().title, "2");
}

#[test]
fn a_query_key_that_needs_unescaping_is_refused() {
    let body = br#"{"ISBN\u003a1": {"url": "u", "key": "k", "title": "t"}}"#;
    let response: BooksResponse = DeserializableResponse::new(Bytes::from_static(body));
    assert_eq!(response.get().unwrap_err(), DecodeError { fault: Fault::Shape, field: Field::Root });
}

#[test]
fn a_response_that_is_no_object_of_books_is_refused() {
    let refused = |body: &'static [u8]| {
        let response: BooksResponse = DeserializableResponse::new(Bytes::from_static(body));
        response.get().unwrap_err()
    };
    assert_eq!(refused(b"null"), DecodeError { fault: Fault::Shape, field: Field::Root });
    assert_eq!(refused(b"[]"), DecodeError { fault: Fault::Shape, field: Field::Root });
    assert_eq!(refused(b"{\"a\": "), DecodeError { fault: Fault::Malformed, field: Field::Root });
    assert_eq!(refused(b"not json"), DecodeError { fault: Fault::Malformed, field: Field::Root });
    assert_eq!(refused(br#"{"a": {"url": "u", "key": "k"}}"#), DecodeError { fault: Fault::Missing, field: Field::Title });
    assert_eq!(refused(br#"{"a": 5}"#), DecodeError { fault: Fault::Shape, field: Field::Root });
}

#[test]
fn a_response_can_be_decoded_as_one_record() {
    let response: DeserializableResponse<Book> =
        DeserializableResponse::new(Bytes::from_static(br#"{"url": "u", "key": "k", "title": "t"}"#));
    assert_eq!(response.get().unwrap().key, "k");
}
