use std::borrow::Cow;

use openlibrary::decode::decode;
use openlibrary::encode::{encode, frame_array, frame_object, Encode};
use openlibrary::inline::{Contents, InlineSeq};
use openlibrary::record::{Book, Cover, NamedUrl};
use openlibrary::vecmap::VecMap;

fn required_only(url: &'static str, key: &'static str, title: &'static str) -> Book<'static> {
    Book {
        url: Cow::Borrowed(url),
        key: Cow::Borrowed(key),
        title: Cow::Borrowed(title),
        subtitle: None,
        authors: InlineSeq::new(),
        number_of_pages: None,
        identifiers: VecMap::new(),
        classifications: VecMap::new(),
        publishers: InlineSeq::new(),
        publish_places: InlineSeq::new(),
        publish_date: None,
        subjects: InlineSeq::new(),
        subject_places: InlineSeq::new(),
        subject_people: InlineSeq::new(),
        notes: None,
        cover: None,
    }
}

#[test]
fn a_book_with_required_fields_only_is_written_field_for_field() {
    let book = required_only("u", "k", "t");
    let text = String::from_utf8(encode(&book)).unwrap();
    let head = r#"{"url":"u","key":"k","title":"t","authors":[],"identifiers":{},"classifications":{},"#;
    let tail = r#""publishers":[],"publish_places":[],"subjects":[],"subject_places":[],"subject_people":[],"#;
    let end = r#""notes":null}"#;
    assert_eq!(text, format!("{head}{tail}{end}"));
}

#[test]
fn round_trip() {
    for (url, key, title) in [
        ("https://openlibrary.org/books/OL1M", "/books/OL1M", "The Hobbit"),
        ("", "", ""),
        ("a\"b", "back\\slash", "line\nbreak\ttab \u{1F600} \u{0}"),
    ] {
        let book = required_only(url, key, title);
        let text = encode(&book);
        let back: Book = decode(&text).unwrap();
        assert_eq!(back.url, book.url);
        assert_eq!(back.key, book.key);
        assert_eq!(back.title, book.title);
        assert_eq!(back.subtitle, None);
        assert!(back.authors.is_empty());
        assert_eq!(back.number_of_pages, None);
        assert!(back.identifiers.is_empty());
        assert!(back.classifications.is_empty());
        assert!(back.publishers.is_empty());
        assert!(back.publish_places.is_empty());
        assert_eq!(back.publish_date, None);
        assert!(back.subjects.is_empty());
        assert!(back.subject_places.is_empty());
        assert!(back.subject_people.is_empty());
        assert_eq!(back.notes, None);
        assert!(back.cover.is_none());
    }
}

#[test]
fn missing_optional_field() {
    let doc = br#"{"url": "u", "key": "k", "title": "t", "publish_date": "1937"}"#;
    let book: Book = decode(doc).unwrap();
    assert_eq!(book.subtitle, None);
    let text = String::from_utf8(encode(&book)).unwrap();
    assert!(!text.contains("subtitle"));
    assert!(!text.contains("number_of_pages"));
    assert!(!text.contains("cover"));
    assert!(text.contains(r#""publish_date":"1937""#));
    let names: Vec<&str> = book.to_members().iter().map(|member| member.0).collect();
    assert_eq!(
        names,
        [
            "url", "key", "title", "authors", "identifiers", "classifications", "publishers", "publish_places",
            "publish_date", "subjects", "subject_places", "subject_people", "notes"
        ]
    );
}

#[test]
fn a_full_book_survives_writing_and_reading() {
    let mut book = required_only("u", "k", "t");
    book.subtitle = Some(Cow::Borrowed("sub"));
    book.authors.push(NamedUrl { name: Cow::Borrowed("A"), url: Some(Cow::Borrowed("http://a")) });
    book.authors.push(NamedUrl { name: Cow::Owned(String::from("B \"the\" second")), url: None });
    book.number_of_pages = Some(310);
    let mut lccn: InlineSeq<Cow<str>, 1> = InlineSeq::new();
    lccn.push(Cow::Borrowed("12-3456"));
    lccn.push(Cow::Borrowed("12-3457"));
    book.identifiers.insert(Cow::Borrowed("lccn"), lccn);
    book.identifiers.insert(Cow::Borrowed("oclc"), InlineSeq::new());
    book.publish_date = Some(Cow::Borrowed("1937"));
    for n in 0..17 {
        book.subjects.push(NamedUrl { name: Cow::Owned(format!("s{n}")), url: None });
    }
    book.notes = Some(Cow::Borrowed("n"));
    book.cover = Some(Cover { small: Cow::Borrowed("s"), medium: Cow::Borrowed("m"), large: Cow::Borrowed("l") });

    let text = encode(&book);
    let back: Book = decode(&text).unwrap();
    assert_eq!(back.subtitle.as_deref(), Some("sub"));
    assert_eq!(back.authors.len(), 2);
    assert_eq!(back.authors.get(0).unwrap().url.as_deref(), Some("http://a"));
    assert_eq!(back.authors.get(1).unwrap().name, "B \"the\" second");
    assert_eq!(back.authors.get(1).unwrap().url, None);
    assert_eq!(back.number_of_pages, Some(310));
    assert_eq!(back.identifiers.len(), 2);
    assert_eq!(back.identifiers.get("lccn").unwrap().as_slice(), book.identifiers.get("lccn").unwrap().as_slice());
    assert!(back.identifiers.get("oclc").unwrap().is_empty());
    assert_eq!(back.publish_date.as_deref(), Some("1937"));
    assert_eq!(back.subjects.len(), 17);
    assert_eq!(back.subjects.get(16).unwrap().name, "s16");
    assert_eq!(back.notes.as_deref(), Some("n"));
    let cover = back.cover.unwrap();
    assert_eq!((cover.small.as_ref(), cover.medium.as_ref(), cover.large.as_ref()), ("s", "m", "l"));
}

#[test]
fn text_is_written_between_quotes_with_escapes() {
    assert_eq!(Cow::Borrowed("plain").encode(), br#""plain""#);
    assert_eq!(Cow::Borrowed("a\nb").encode(), br#""a\nb""#);
    assert_eq!(Cow::Borrowed("q\"\\").encode(), br#""q\"\\""#);
    let owned: Cow<str> = Cow::Owned(String::from("plain"));
    assert_eq!(owned.encode(), br#""plain""#);
}

#[test]
fn a_count_is_written_in_decimal() {
    assert_eq!(0usize.encode(), b"0");
    assert_eq!(310usize.encode(), b"310");
    assert_eq!(usize::MAX.encode(), usize::MAX.to_string().as_bytes());
}

#[test]
fn arrays_and_objects_are_framed_without_blanks() {
    assert_eq!(frame_array(&vec![]), b"[]");
    assert_eq!(frame_array(&vec![b"1".to_vec()]), b"[1]");
    assert_eq!(frame_array(&vec![b"1".to_vec(), b"\"x\"".to_vec(), b"[]".to_vec()]), br#"[1,"x",[]]"#);
    assert_eq!(frame_object(&vec![]), b"{}");
    assert_eq!(frame_object(&vec![("a", b"1".to_vec())]), br#"{"a":1}"#);
    assert_eq!(
        frame_object(&vec![("a", b"1".to_vec()), ("b \"c\"", b"null".to_vec())]),
        br#"{"a":1,"b \"c\"":null}"#
    );
}

#[test]
fn a_named_link_is_written_without_an_absent_address() {
    let link = NamedUrl { name: Cow::Borrowed("London"), url: None };
    assert_eq!(link.encode(), br#"{"name":"London"}"#);
    let link = NamedUrl { name: Cow::Borrowed("London"), url: Some(Cow::Borrowed("x")) };
    assert_eq!(link.encode(), br#"{"name":"London","url":"x"}"#);
    let cover = Cover { small: Cow::Borrowed("s"), medium: Cow::Borrowed("m"), large: Cow::Borrowed("l") };
    assert_eq!(cover.encode(), br#"{"small":"s","medium":"m","large":"l"}"#);
}
