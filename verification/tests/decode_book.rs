use std::borrow::Cow;

use openlibrary::decode::decode;
use openlibrary::error::{DecodeError, ErrorKind, Fault, Field};
use openlibrary::inline::Contents;
use openlibrary::json::Members;
use openlibrary::record::{Book, Cover, NamedUrl};

const HOBBIT: &str = r#"{
    "url": "https://openlibrary.org/books/OL1M/The_Hobbit",
    "key": "/books/OL1M",
    "title": "The Hobbit",
    "subtitle": "or There and Back Again",
    "authors": [
        {"url": "https://openlibrary.org/authors/OL26320A", "name": "J.R.R. Tolkien"}
    ],
    "number_of_pages": 310,
    "identifiers": {
        "isbn_10": ["0261102214"],
        "lccn": ["12-3456", "12-3457"]
    },
    "classifications": {
        "dewey_decimal_class": ["823/.912"]
    },
    "publishers": [{"name": "Allen & Unwin"}],
    "publish_places": [{"name": "London"}],
    "publish_date": "1937",
    "subjects": [
        {"name": "Fantasy", "url": "https://openlibrary.org/subjects/fantasy"},
        {"name": "Dragons"}
    ],
    "subject_places": [{"name": "Middle Earth"}],
    "subject_people": [{"name": "Bilbo Baggins"}, {"name": "Gandalf"}],
    "notes": "First edition.\nRare.",
    "cover": {
        "small": "https://covers.openlibrary.org/b/id/1-S.jpg",
        "medium": "https://covers.openlibrary.org/b/id/1-M.jpg",
        "large": "https://covers.openlibrary.org/b/id/1-L.jpg"
    },
    "weight": "1 pound",
    "ebooks": [{"preview_url": "x", "formats": {}}]
}"#;

fn at(fault: Fault, field: Field) -> DecodeError {
    DecodeError { fault, field }
}

fn texts<'a>(seq: &'a [Cow<'a, str>]) -> Vec<&'a str> {
    seq.iter().map(|text| text.as_ref()).collect()
}

#[test]
fn a_whole_book_decodes_field_for_field() {
    let book: Book = decode(HOBBIT.as_bytes()).unwrap();
    assert_eq!(book.url, "https://openlibrary.org/books/OL1M/The_Hobbit");
    assert_eq!(book.key, "/books/OL1M");
    assert_eq!(book.title, "The Hobbit");
    assert_eq!(book.subtitle.as_deref(), Some("or There and Back Again"));
    assert_eq!(book.authors.len(), 1);
    let author = book.authors.get(0).unwrap();
    assert_eq!(author.name, "J.R.R. Tolkien");
    assert_eq!(author.url.as_deref(), Some("https://openlibrary.org/authors/OL26320A"));
    assert_eq!(book.number_of_pages, Some(310));
    assert_eq!(book.identifiers.len(), 2);
    assert_eq!(texts(book.identifiers.get("isbn_10").unwrap().as_slice()), ["0261102214"]);
    assert_eq!(texts(book.identifiers.get("lccn").unwrap().as_slice()), ["12-3456", "12-3457"]);
    assert!(book.identifiers.get("oclc").is_none());
    assert_eq!(book.classifications.len(), 1);
    assert_eq!(
        texts(book.classifications.get("dewey_decimal_class").unwrap().as_slice()),
        ["823/.912"]
    );
    assert_eq!(book.publishers.len(), 1);
    assert_eq!(book.publishers.get(0).unwrap().name, "Allen & Unwin");
    assert_eq!(book.publishers.get(0).unwrap().url, None);
    assert_eq!(book.publish_places.get(0).unwrap().name, "London");
    assert_eq!(book.publish_date.as_deref(), Some("1937"));
    assert_eq!(book.subjects.len(), 2);
    assert_eq!(book.subjects.get(0).unwrap().name, "Fantasy");
    assert_eq!(book.subjects.get(1).unwrap().name, "Dragons");
    assert_eq!(book.subject_places.len(), 1);
    assert_eq!(book.subject_people.len(), 2);
    assert_eq!(book.subject_people.get(1).unwrap().name, "Gandalf");
    assert_eq!(book.notes.as_deref(), Some("First edition.\nRare."));
    let cover = book.cover.unwrap();
    assert_eq!(cover.small, "https://covers.openlibrary.org/b/id/1-S.jpg");
    assert_eq!(cover.medium, "https://covers.openlibrary.org/b/id/1-M.jpg");
    assert_eq!(cover.large, "https://covers.openlibrary.org/b/id/1-L.jpg");
}

#[test]
fn unescaped_fields_borrow_and_escaped_fields_own() {
    let book: Book = decode(HOBBIT.as_bytes()).unwrap();
    assert!(matches!(book.title, Cow::Borrowed(_)));
    assert!(matches!(book.url, Cow::Borrowed(_)));
    assert!(matches!(book.authors.get(0).unwrap().name, Cow::Borrowed(_)));
    assert!(matches!(book.identifiers.get("lccn").unwrap().get(1), Some(Cow::Borrowed(_))));
    assert!(matches!(book.notes, Some(Cow::Owned(_))));
    let at = HOBBIT.find("The Hobbit\"").unwrap();
    let Cow::Borrowed(title) = book.title else { unreachable!() };
    assert_eq!(title.as_ptr() as usize, HOBBIT.as_ptr() as usize + at);
}

#[test]
fn only_the_three_required_fields_are_needed() {
    let book: Book = decode(br#"{"url": "u", "key": "k", "title": "t"}"#).unwrap();
    assert_eq!(book.url, "u");
    assert_eq!(book.key, "k");
    assert_eq!(book.title, "t");
    assert_eq!(book.subtitle, None);
    assert!(book.authors.is_empty());
    assert_eq!(book.number_of_pages, None);
    assert!(book.identifiers.is_empty());
    assert!(book.classifications.is_empty());
    assert!(book.publishers.is_empty());
    assert!(book.publish_places.is_empty());
    assert_eq!(book.publish_date, None);
    assert!(book.subjects.is_empty());
    assert!(book.subject_places.is_empty());
    assert!(book.subject_people.is_empty());
    assert_eq!(book.notes, None);
    assert!(book.cover.is_none());
}

#[test]
fn a_null_in_an_optional_field_is_no_value() {
    let book: Book = decode(
        br#"{"url": "u", "key": "k", "title": "t", "subtitle": null, "number_of_pages": null,
            "publish_date": null, "notes": null, "cover": null}"#,
    )
    .unwrap();
    assert_eq!(book.subtitle, None);
    assert_eq!(book.number_of_pages, None);
    assert_eq!(book.publish_date, None);
    assert_eq!(book.notes, None);
    assert!(book.cover.is_none());
}

#[test]
fn each_required_field_is_missed_by_name() {
    let got = decode::<Book>(br#"{"key": "k", "title": "t"}"#).unwrap_err();
    assert_eq!(got, at(Fault::Missing, Field::Url));
    assert_eq!(got.field.name(), "url");
    assert_eq!(got.kind(), ErrorKind::ShapeMismatch);
    let got = decode::<Book>(br#"{"url": "u", "title": "t"}"#).unwrap_err();
    assert_eq!(got, at(Fault::Missing, Field::Key));
    let got = decode::<Book>(br#"{"url": "u", "key": "k"}"#).unwrap_err();
    assert_eq!(got, at(Fault::Missing, Field::Title));
    let got = decode::<Book>(b"{}").unwrap_err();
    assert_eq!(got, at(Fault::Missing, Field::Url));
}

#[test]
fn a_null_in_a_required_field_has_the_wrong_shape() {
    let got = decode::<Book>(br#"{"url": "u", "key": "k", "title": null}"#).unwrap_err();
    assert_eq!(got, at(Fault::Shape, Field::Title));
    let got = decode::<Book>(br#"{"url": "u", "key": "k", "title": "t", "authors": null}"#).unwrap_err();
    assert_eq!(got, at(Fault::Shape, Field::Authors));
    let got = decode::<Book>(br#"{"url": "u", "key": "k", "title": "t", "identifiers": null}"#).unwrap_err();
    assert_eq!(got, at(Fault::Shape, Field::Identifiers));
}

#[test]
fn a_field_that_comes_twice_is_refused() {
    let got = decode::<Book>(br#"{"url": "u", "key": "k", "title": "t", "title": "t"}"#).unwrap_err();
    assert_eq!(got, at(Fault::Duplicate, Field::Title));
    assert_eq!(got.kind(), ErrorKind::ShapeMismatch);
}

#[test]
fn a_book_must_be_an_object() {
    assert_eq!(decode::<Book>(b"[]").unwrap_err(), at(Fault::Shape, Field::Root));
    assert_eq!(decode::<Book>(b"\"book\"").unwrap_err(), at(Fault::Shape, Field::Root));
    assert_eq!(decode::<Book>(b"null").unwrap_err(), at(Fault::Shape, Field::Root));
    assert_eq!(decode::<Book>(b"{\"url\": ").unwrap_err(), at(Fault::Malformed, Field::Root));
    assert_eq!(decode::<Book>(b"").unwrap_err(), at(Fault::Malformed, Field::Root));
    assert_eq!(decode::<Book>(b"{} {}").unwrap_err(), at(Fault::Malformed, Field::Root));
}

#[test]
fn the_page_count_must_be_a_count() {
    let head = r#"{"url": "u", "key": "k", "title": "t", "number_of_pages": "#;
    let got = decode::<Book>(format!("{head}-3}}").as_bytes()).unwrap_err();
    assert_eq!(got, at(Fault::Value, Field::NumberOfPages));
    assert_eq!(got.kind(), ErrorKind::ValueMismatch);
    let got = decode::<Book>(format!("{head}2.5}}").as_bytes()).unwrap_err();
    assert_eq!(got, at(Fault::Value, Field::NumberOfPages));
    let got = decode::<Book>(format!("{head}\"many\"}}").as_bytes()).unwrap_err();
    assert_eq!(got, at(Fault::Shape, Field::NumberOfPages));
    let doc = format!("{head}0}}");
    let book: Book = decode(doc.as_bytes()).unwrap();
    assert_eq!(book.number_of_pages, Some(0));
}

#[test]
fn identifiers_take_arrays_of_text_and_nothing_else() {
    let head = r#"{"url": "u", "key": "k", "title": "t", "identifiers": "#;
    let got = decode::<Book>(format!("{head}{{\"lccn\": \"12-3456\"}}}}").as_bytes()).unwrap_err();
    assert_eq!(got, at(Fault::Shape, Field::Identifiers));
    let got = decode::<Book>(format!("{head}{{\"lccn\": {{\"a\": 1}}}}}}").as_bytes()).unwrap_err();
    assert_eq!(got, at(Fault::Shape, Field::Identifiers));
    let got = decode::<Book>(format!("{head}{{\"lccn\": [1, 2]}}}}").as_bytes()).unwrap_err();
    assert_eq!(got, at(Fault::Shape, Field::Identifiers));
    let got = decode::<Book>(format!("{head}[\"12-3456\"]}}").as_bytes()).unwrap_err();
    assert_eq!(got, at(Fault::Shape, Field::Identifiers));
    let head = r#"{"url": "u", "key": "k", "title": "t", "classifications": "#;
    let got = decode::<Book>(format!("{head}7}}").as_bytes()).unwrap_err();
    assert_eq!(got, at(Fault::Shape, Field::Classifications));
}

#[test]
fn multi_value_field() {
    let book: Book =
        decode(br#"{"url": "u", "key": "k", "title": "t", "identifiers": {"lccn": ["12-3456", "12-3457"]}}"#)
            .unwrap();
    let lccn = book.identifiers.get("lccn").unwrap();
    assert_eq!(lccn.len(), 2);
    assert_eq!(texts(lccn.as_slice()), ["12-3456", "12-3457"]);
}

#[test]
fn an_empty_array_under_a_scheme_is_kept_as_an_empty_sequence() {
    let book: Book =
        decode(br#"{"url": "u", "key": "k", "title": "t", "identifiers": {"lccn": []}}"#).unwrap();
    assert!(book.identifiers.contains_key("lccn"));
    assert_eq!(book.identifiers.len(), 1);
    assert!(book.identifiers.get("lccn").unwrap().is_empty());
}

#[test]
fn a_repeated_scheme_keeps_its_last_values_in_its_first_place() {
    let book: Book = decode(
        br#"{"url": "u", "key": "k", "title": "t",
            "identifiers": {"lccn": ["1"], "oclc": ["2"], "lccn": ["3", "4"]}}"#,
    )
    .unwrap();
    assert_eq!(book.identifiers.len(), 2);
    let entries = book.identifiers.as_slice();
    assert_eq!(entries[0].0, "lccn");
    assert_eq!(texts(entries[0].1.as_slice()), ["3", "4"]);
    assert_eq!(entries[1].0, "oclc");
    assert_eq!(texts(entries[1].1.as_slice()), ["2"]);
}

#[test]
fn authors_must_be_objects_with_a_name() {
    let head = r#"{"url": "u", "key": "k", "title": "t", "authors": "#;
    let got = decode::<Book>(format!("{head}[\"J.R.R. Tolkien\"]}}").as_bytes()).unwrap_err();
    assert_eq!(got, at(Fault::Shape, Field::Authors));
    let got = decode::<Book>(format!("{head}[{{\"url\": \"x\"}}]}}").as_bytes()).unwrap_err();
    assert_eq!(got, at(Fault::Missing, Field::Name));
    let got = decode::<Book>(format!("{head}[{{\"name\": \"a\"}}, null]}}").as_bytes()).unwrap_err();
    assert_eq!(got, at(Fault::Shape, Field::Authors));
    let got = decode::<Book>(format!("{head}{{\"name\": \"a\"}}}}").as_bytes()).unwrap_err();
    assert_eq!(got, at(Fault::Shape, Field::Authors));
    let got = decode::<Book>(format!("{head}[[\"a\", \"b\"]]}}").as_bytes()).unwrap_err();
    assert_eq!(got, at(Fault::Shape, Field::Authors));
}

#[test]
fn cover_partial_object_rejection() {
    let got = decode::<Book>(
        br#"{"url": "u", "key": "k", "title": "t", "cover": {"small": "s.jpg", "medium": "m.jpg"}}"#,
    )
    .unwrap_err();
    assert_eq!(got, at(Fault::Missing, Field::Large));
    assert_eq!(got.kind(), ErrorKind::ShapeMismatch);
    assert_eq!(got.field.name(), "large");
    let got = decode::<Cover>(br#"{"small": "s.jpg", "medium": "m.jpg"}"#).unwrap_err();
    assert_eq!(got, at(Fault::Missing, Field::Large));
    let got = decode::<Cover>(br#"{"medium": "m.jpg", "large": "l.jpg"}"#).unwrap_err();
    assert_eq!(got, at(Fault::Missing, Field::Small));
    let got = decode::<Cover>(br#"{"small": "s.jpg", "large": "l.jpg"}"#).unwrap_err();
    assert_eq!(got, at(Fault::Missing, Field::Medium));
    let got = decode::<Cover>(br#"{"small": "s.jpg", "medium": 5, "large": "l.jpg"}"#).unwrap_err();
    assert_eq!(got, at(Fault::Shape, Field::Medium));
}

#[test]
fn spill_behavior() {
    let names: Vec<String> = (0..20).map(|n| format!("subject {n}")).collect();
    let items: Vec<String> = names.iter().map(|name| format!("{{\"name\": \"{name}\"}}")).collect();
    let doc = format!("{{\"url\": \"u\", \"key\": \"k\", \"title\": \"t\", \"subjects\": [{}]}}", items.join(", "));
    let book: Book = decode(doc.as_bytes()).unwrap();
    assert_eq!(book.subjects.inline_capacity(), 16);
    assert_eq!(book.subjects.len(), 20);
    for (at, name) in names.iter().enumerate() {
        assert_eq!(book.subjects.get(at).unwrap().name, name.as_str());
    }
    assert!(book.subjects.get(20).is_none());
}

#[test]
fn seventeen_subjects_are_one_more_than_fit_inline() {
    let items: Vec<String> = (0..17).map(|n| format!("{{\"name\": \"s{n}\"}}")).collect();
    let doc = format!("{{\"url\": \"u\", \"key\": \"k\", \"title\": \"t\", \"subjects\": [{}]}}", items.join(","));
    let book: Book = decode(doc.as_bytes()).unwrap();
    assert_eq!(book.subjects.len(), 17);
    assert_eq!(book.subjects.get(15).unwrap().name, "s15");
    assert_eq!(book.subjects.get(16).unwrap().name, "s16");
}

#[test]
fn a_named_link_needs_its_name_only() {
    let link: NamedUrl = decode(br#"{"name": "London"}"#).unwrap();
    assert_eq!(link.name, "London");
    assert_eq!(link.url, None);
    let link: NamedUrl = decode(br#"{"name": "London", "url": null, "id": 7}"#).unwrap();
    assert_eq!(link.url, None);
    assert_eq!(decode::<NamedUrl>(br#"{"url": "x"}"#).unwrap_err(), at(Fault::Missing, Field::Name));
    assert_eq!(decode::<NamedUrl>(br#"{"name": 5}"#).unwrap_err(), at(Fault::Shape, Field::Name));
    assert_eq!(decode::<NamedUrl>(br#"{"name": "a", "url": 5}"#).unwrap_err(), at(Fault::Shape, Field::Url));
    assert_eq!(decode::<NamedUrl>(br#""London""#).unwrap_err(), at(Fault::Shape, Field::Root));
}

#[test]
fn records_are_built_from_members_in_any_order() {
    let members: Members = vec![
        (Cow::Borrowed("large"), &b"\"l\""[..]),
        (Cow::Borrowed("other"), &b"[1, 2]"[..]),
        (Cow::Owned(String::from("small")), &b"\"s\""[..]),
        (Cow::Borrowed("medium"), &b"\"m\""[..]),
    ];
    let cover = Cover::from_members(&members).unwrap();
    assert_eq!(cover.small, "s");
    assert_eq!(cover.medium, "m");
    assert_eq!(cover.large, "l");
    let members: Members = vec![(Cow::Borrowed("name"), &b"\"n\""[..]), (Cow::Borrowed("name"), &b"\"n\""[..])];
    assert_eq!(NamedUrl::from_members(&members).unwrap_err(), at(Fault::Duplicate, Field::Name));
    let members: Members = vec![(Cow::Borrowed("title"), &b"\"t\""[..])];
    assert_eq!(Book::from_members(&members).unwrap_err(), at(Fault::Missing, Field::Url));
}

#[test]
fn the_first_failing_field_in_the_order_of_the_record_gives_the_error() {
    let got = decode::<Book>(br#"{"title": 5, "key": 6, "url": "u"}"#).unwrap_err();
    assert_eq!(got, at(Fault::Shape, Field::Key));
    let got = decode::<Book>(br#"{"cover": 1, "url": "u", "key": "k", "title": "t", "notes": 2}"#).unwrap_err();
    assert_eq!(got, at(Fault::Shape, Field::Notes));
}

#[test]
fn broken_text_inside_a_field_is_malformed_at_that_field() {
    let got = decode::<Book>(br#"{"url": "u", "key": "k", "title": "\ud800"}"#).unwrap_err();
    assert_eq!(got, at(Fault::Malformed, Field::Title));
    assert_eq!(got.kind(), ErrorKind::MalformedInput);
}
