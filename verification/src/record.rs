//! The records of the catalogue: a book, its cover images, and the named
//! links it refers to.

use std::borrow::Cow;
use vstd::prelude::*;
use crate::adapter::models;
use crate::decode::{error_of, parse_error, Decode};
use crate::text::{text_model, text_says, TextModel};
use crate::error::{DecodeError, Field};
use crate::fields::{
    all_within, optional_member, optional_of, required_member, required_of, schemes_member, schemes_of,
    sequence_member, sequence_of,
};
use crate::inline::InlineSeq;
use crate::json::{json_members, members_view, read_members, Members};
use crate::mapping::entry_models;
use crate::vecmap::VecMap;

verus! {

/// What a JSON text decodes to as a record, given what the members of an
/// object decode to: `null` is no record, and anything but an object or
/// `null` has the wrong shape.
pub open spec fn decoded_record<M>(
    doc: Seq<u8>,
    of_members: spec_fn(Seq<(Seq<char>, Seq<u8>)>) -> Result<M, DecodeError>,
) -> Result<Option<M>, DecodeError> {
    match json_members(doc) {
        Err(fault) => Err(error_of(fault)),
        Ok(None) => Ok(None),
        Ok(Some(members)) => match of_members(members) {
            Err(error) => Err(error),
            Ok(model) => Ok(Some(model)),
        },
    }
}

/// Anything with a display name and, perhaps, a page of its own: an author,
/// a publisher, a subject, a place, a person.
#[derive(Debug)]
pub struct NamedUrl<'a> {
    pub name: Cow<'a, str>,
    pub url: Option<Cow<'a, str>>,
}

/// What a named link says.
pub struct NamedUrlModel {
    pub name: TextModel,
    pub url: Option<TextModel>,
}

/// The named link that the members of an object make: `name` must be
/// there, `url` may be.
pub open spec fn named_url_of(members: Seq<(Seq<char>, Seq<u8>)>) -> Result<NamedUrlModel, DecodeError> {
    let name = required_of::<Cow<str>>(members, Field::Name);
    let url = optional_of::<Cow<str>>(members, Field::Url);
    if name is Err {
        Err(name->Err_0)
    } else if url is Err {
        Err(url->Err_0)
    } else {
        Ok(NamedUrlModel { name: name->Ok_0, url: url->Ok_0 })
    }
}

impl<'a> View for NamedUrl<'a> {
    type V = NamedUrlModel;

    open spec fn view(&self) -> NamedUrlModel {
        NamedUrlModel { name: text_says(self.name), url: text_model(self.url) }
    }
}

impl<'a> NamedUrl<'a> {
    /// Whether every text that the link borrows is a run of bytes of `doc`.
    pub open spec fn held_within(&self, doc: Seq<u8>) -> bool {
        &&& self.name.borrows_from(doc)
        &&& self.url matches Some(url) ==> url.borrows_from(doc)
    }

    /// Builds a named link from the members of its object. What the link
    /// borrows, it borrows from the texts of the members.
    pub fn from_members(members: &Members<'a>) -> (got: Result<NamedUrl<'a>, DecodeError>)
        ensures
            match got {
                Ok(link) => named_url_of(members_view(*members)) == Ok::<_, DecodeError>(link@) && forall|
                    doc: Seq<u8>,
                | all_within(members@, doc) ==> #[trigger] link.held_within(doc),
                Err(error) => named_url_of(members_view(*members)) == Err::<NamedUrlModel, _>(error),
            },
    {
        let name = required_member::<Cow<'a, str>>(members, Field::Name)?;
        let url = optional_member::<Cow<'a, str>>(members, Field::Url)?;
        Ok(NamedUrl { name, url })
    }
}

impl<'a> Decode<'a> for NamedUrl<'a> {
    type Model = NamedUrlModel;

    open spec fn model(&self) -> NamedUrlModel {
        self@
    }

    open spec fn borrows_from(&self, doc: Seq<u8>) -> bool {
        self.held_within(doc)
    }

    open spec fn decoded(doc: Seq<u8>) -> Result<Option<NamedUrlModel>, DecodeError> {
        decoded_record(doc, |members: Seq<(Seq<char>, Seq<u8>)>| named_url_of(members))
    }

    proof fn lemma_borrows_widen(&self, part: Seq<u8>, doc: Seq<u8>) {
        self.name.lemma_borrows_widen(part, doc);
        if let Some(url) = self.url {
            url.lemma_borrows_widen(part, doc);
        }
    }

    fn decode_nullable(doc: &'a [u8]) -> (got: Result<Option<Self>, DecodeError>) {
        match read_members(doc) {
            Err(fault) => Err(parse_error(fault)),
            Ok(None) => Ok(None),
            Ok(Some(members)) => match NamedUrl::from_members(&members) {
                Err(error) => Err(error),
                Ok(link) => {
                    assert(all_within(members@, doc@));
                    Ok(Some(link))
                },
            },
        }
    }
}

/// The three sizes in which a cover image is offered, each by its address.
#[derive(Debug)]
pub struct Cover<'a> {
    pub small: Cow<'a, str>,
    pub medium: Cow<'a, str>,
    pub large: Cow<'a, str>,
}

/// What a cover says.
pub struct CoverModel {
    pub small: TextModel,
    pub medium: TextModel,
    pub large: TextModel,
}

/// The cover that the members of an object make: all three sizes must be
/// there.
pub open spec fn cover_of(members: Seq<(Seq<char>, Seq<u8>)>) -> Result<CoverModel, DecodeError> {
    let small = required_of::<Cow<str>>(members, Field::Small);
    let medium = required_of::<Cow<str>>(members, Field::Medium);
    let large = required_of::<Cow<str>>(members, Field::Large);
    if small is Err {
        Err(small->Err_0)
    } else if medium is Err {
        Err(medium->Err_0)
    } else if large is Err {
        Err(large->Err_0)
    } else {
        Ok(CoverModel { small: small->Ok_0, medium: medium->Ok_0, large: large->Ok_0 })
    }
}

impl<'a> View for Cover<'a> {
    type V = CoverModel;

    open spec fn view(&self) -> CoverModel {
        CoverModel { small: text_says(self.small), medium: text_says(self.medium), large: text_says(self.large) }
    }
}

impl<'a> Cover<'a> {
    /// Whether every text that the cover borrows is a run of bytes of `doc`.
    pub open spec fn held_within(&self, doc: Seq<u8>) -> bool {
        &&& self.small.borrows_from(doc)
        &&& self.medium.borrows_from(doc)
        &&& self.large.borrows_from(doc)
    }

    /// Builds a cover from the members of its object. What the cover
    /// borrows, it borrows from the texts of the members.
    pub fn from_members(members: &Members<'a>) -> (got: Result<Cover<'a>, DecodeError>)
        ensures
            match got {
                Ok(cover) => cover_of(members_view(*members)) == Ok::<_, DecodeError>(cover@) && forall|
                    doc: Seq<u8>,
                | all_within(members@, doc) ==> #[trigger] cover.held_within(doc),
                Err(error) => cover_of(members_view(*members)) == Err::<CoverModel, _>(error),
            },
    {
        let small = required_member::<Cow<'a, str>>(members, Field::Small)?;
        let medium = required_member::<Cow<'a, str>>(members, Field::Medium)?;
        let large = required_member::<Cow<'a, str>>(members, Field::Large)?;
        Ok(Cover { small, medium, large })
    }
}

impl<'a> Decode<'a> for Cover<'a> {
    type Model = CoverModel;

    open spec fn model(&self) -> CoverModel {
        self@
    }

    open spec fn borrows_from(&self, doc: Seq<u8>) -> bool {
        self.held_within(doc)
    }

    open spec fn decoded(doc: Seq<u8>) -> Result<Option<CoverModel>, DecodeError> {
        decoded_record(doc, |members: Seq<(Seq<char>, Seq<u8>)>| cover_of(members))
    }

    proof fn lemma_borrows_widen(&self, part: Seq<u8>, doc: Seq<u8>) {
        self.small.lemma_borrows_widen(part, doc);
        self.medium.lemma_borrows_widen(part, doc);
        self.large.lemma_borrows_widen(part, doc);
    }

    fn decode_nullable(doc: &'a [u8]) -> (got: Result<Option<Self>, DecodeError>) {
        match read_members(doc) {
            Err(fault) => Err(parse_error(fault)),
            Ok(None) => Ok(None),
            Ok(Some(members)) => match Cover::from_members(&members) {
                Err(error) => Err(error),
                Ok(cover) => {
                    assert(all_within(members@, doc@));
                    Ok(Some(cover))
                },
            },
        }
    }
}

/// One book as the catalogue describes it.
#[derive(Debug)]
pub struct Book<'a> {
    pub url: Cow<'a, str>,
    pub key: Cow<'a, str>,
    pub title: Cow<'a, str>,
    pub subtitle: Option<Cow<'a, str>>,
    pub authors: InlineSeq<NamedUrl<'a>, 4>,
    pub number_of_pages: Option<usize>,
    pub identifiers: VecMap<Cow<'a, str>, InlineSeq<Cow<'a, str>, 1>, 4>,
    pub classifications: VecMap<Cow<'a, str>, InlineSeq<Cow<'a, str>, 1>, 4>,
    pub publishers: InlineSeq<NamedUrl<'a>, 1>,
    pub publish_places: InlineSeq<NamedUrl<'a>, 1>,
    pub publish_date: Option<Cow<'a, str>>,
    pub subjects: InlineSeq<NamedUrl<'a>, 16>,
    pub subject_places: InlineSeq<NamedUrl<'a>, 8>,
    pub subject_people: InlineSeq<NamedUrl<'a>, 8>,
    pub notes: Option<Cow<'a, str>>,
    pub cover: Option<Cover<'a>>,
}

/// What a book says.
pub struct BookModel {
    pub url: TextModel,
    pub key: TextModel,
    pub title: TextModel,
    pub subtitle: Option<TextModel>,
    pub authors: Seq<NamedUrlModel>,
    pub number_of_pages: Option<usize>,
    pub identifiers: Seq<(Seq<char>, Seq<TextModel>)>,
    pub classifications: Seq<(Seq<char>, Seq<TextModel>)>,
    pub publishers: Seq<NamedUrlModel>,
    pub publish_places: Seq<NamedUrlModel>,
    pub publish_date: Option<TextModel>,
    pub subjects: Seq<NamedUrlModel>,
    pub subject_places: Seq<NamedUrlModel>,
    pub subject_people: Seq<NamedUrlModel>,
    pub notes: Option<TextModel>,
    pub cover: Option<CoverModel>,
}

/// The book that the members of an object make. `url`, `key` and `title`
/// must be there. A text, the page count or the cover that is left out or
/// `null` is no value; a list or a mapping that is left out is empty. The
/// fields are taken in the order in which a book lists them, and the first
/// that fails gives the error.
pub open spec fn book_of(members: Seq<(Seq<char>, Seq<u8>)>) -> Result<BookModel, DecodeError> {
    let url = required_of::<Cow<str>>(members, Field::Url);
    let key = required_of::<Cow<str>>(members, Field::Key);
    let title = required_of::<Cow<str>>(members, Field::Title);
    let subtitle = optional_of::<Cow<str>>(members, Field::Subtitle);
    let authors = sequence_of::<NamedUrl>(members, Field::Authors);
    let number_of_pages = optional_of::<usize>(members, Field::NumberOfPages);
    let identifiers = schemes_of(members, Field::Identifiers);
    let classifications = schemes_of(members, Field::Classifications);
    let publishers = sequence_of::<NamedUrl>(members, Field::Publishers);
    let publish_places = sequence_of::<NamedUrl>(members, Field::PublishPlaces);
    let publish_date = optional_of::<Cow<str>>(members, Field::PublishDate);
    let subjects = sequence_of::<NamedUrl>(members, Field::Subjects);
    let subject_places = sequence_of::<NamedUrl>(members, Field::SubjectPlaces);
    let subject_people = sequence_of::<NamedUrl>(members, Field::SubjectPeople);
    let notes = optional_of::<Cow<str>>(members, Field::Notes);
    let cover = optional_of::<Cover>(members, Field::Cover);
    if url is Err {
        Err(url->Err_0)
    } else if key is Err {
        Err(key->Err_0)
    } else if title is Err {
        Err(title->Err_0)
    } else if subtitle is Err {
        Err(subtitle->Err_0)
    } else if authors is Err {
        Err(authors->Err_0)
    } else if number_of_pages is Err {
        Err(number_of_pages->Err_0)
    } else if identifiers is Err {
        Err(identifiers->Err_0)
    } else if classifications is Err {
        Err(classifications->Err_0)
    } else if publishers is Err {
        Err(publishers->Err_0)
    } else if publish_places is Err {
        Err(publish_places->Err_0)
    } else if publish_date is Err {
        Err(publish_date->Err_0)
    } else if subjects is Err {
        Err(subjects->Err_0)
    } else if subject_places is Err {
        Err(subject_places->Err_0)
    } else if subject_people is Err {
        Err(subject_people->Err_0)
    } else if notes is Err {
        Err(notes->Err_0)
    } else if cover is Err {
        Err(cover->Err_0)
    } else {
        Ok(
            BookModel {
                url: url->Ok_0,
                key: key->Ok_0,
                title: title->Ok_0,
                subtitle: subtitle->Ok_0,
                authors: authors->Ok_0,
                number_of_pages: number_of_pages->Ok_0,
                identifiers: identifiers->Ok_0,
                classifications: classifications->Ok_0,
                publishers: publishers->Ok_0,
                publish_places: publish_places->Ok_0,
                publish_date: publish_date->Ok_0,
                subjects: subjects->Ok_0,
                subject_places: subject_places->Ok_0,
                subject_people: subject_people->Ok_0,
                notes: notes->Ok_0,
                cover: cover->Ok_0,
            },
        )
    }
}

impl<'a> View for Book<'a> {
    type V = BookModel;

    open spec fn view(&self) -> BookModel {
        BookModel {
            url: text_says(self.url),
            key: text_says(self.key),
            title: text_says(self.title),
            subtitle: text_model(self.subtitle),
            authors: models(self.authors@),
            number_of_pages: self.number_of_pages,
            identifiers: entry_models(self.identifiers@),
            classifications: entry_models(self.classifications@),
            publishers: models(self.publishers@),
            publish_places: models(self.publish_places@),
            publish_date: text_model(self.publish_date),
            subjects: models(self.subjects@),
            subject_places: models(self.subject_places@),
            subject_people: models(self.subject_people@),
            notes: text_model(self.notes),
            cover: match self.cover {
                Some(cover) => Some(cover@),
                None => None,
            },
        }
    }
}

impl<'a> Book<'a> {
    /// Whether every text that the book borrows, in any of its fields, is a
    /// run of bytes of `doc`.
    pub open spec fn held_within(&self, doc: Seq<u8>) -> bool {
        &&& self.url.borrows_from(doc)
        &&& self.key.borrows_from(doc)
        &&& self.title.borrows_from(doc)
        &&& self.subtitle matches Some(text) ==> text.borrows_from(doc)
        &&& self.authors.borrows_from(doc)
        &&& self.identifiers.borrows_from(doc)
        &&& self.classifications.borrows_from(doc)
        &&& self.publishers.borrows_from(doc)
        &&& self.publish_places.borrows_from(doc)
        &&& self.publish_date matches Some(text) ==> text.borrows_from(doc)
        &&& self.subjects.borrows_from(doc)
        &&& self.subject_places.borrows_from(doc)
        &&& self.subject_people.borrows_from(doc)
        &&& self.notes matches Some(text) ==> text.borrows_from(doc)
        &&& self.cover matches Some(cover) ==> cover.borrows_from(doc)
    }

    /// Builds a book from the members of its object. What the book borrows,
    /// it borrows from the texts of the members; no scheme occurs twice in
    /// its identifiers or in its classifications.
    pub fn from_members(members: &Members<'a>) -> (got: Result<Book<'a>, DecodeError>)
        ensures
            match got {
                Ok(book) => book_of(members_view(*members)) == Ok::<_, DecodeError>(book@) && (forall|
                    doc: Seq<u8>,
                | all_within(members@, doc) ==> #[trigger] book.held_within(doc)) && book.identifiers.wf()
                    && book.classifications.wf(),
                Err(error) => book_of(members_view(*members)) == Err::<BookModel, _>(error),
            },
    {
        let url = required_member::<Cow<'a, str>>(members, Field::Url)?;
        let key = required_member::<Cow<'a, str>>(members, Field::Key)?;
        let title = required_member::<Cow<'a, str>>(members, Field::Title)?;
        let subtitle = optional_member::<Cow<'a, str>>(members, Field::Subtitle)?;
        let authors = sequence_member::<NamedUrl<'a>, 4>(members, Field::Authors)?;
        let number_of_pages = optional_member::<usize>(members, Field::NumberOfPages)?;
        let identifiers = schemes_member(members, Field::Identifiers)?;
        let classifications = schemes_member(members, Field::Classifications)?;
        let publishers = sequence_member::<NamedUrl<'a>, 1>(members, Field::Publishers)?;
        let publish_places = sequence_member::<NamedUrl<'a>, 1>(members, Field::PublishPlaces)?;
        let publish_date = optional_member::<Cow<'a, str>>(members, Field::PublishDate)?;
        let subjects = sequence_member::<NamedUrl<'a>, 16>(members, Field::Subjects)?;
        let subject_places = sequence_member::<NamedUrl<'a>, 8>(members, Field::SubjectPlaces)?;
        let subject_people = sequence_member::<NamedUrl<'a>, 8>(members, Field::SubjectPeople)?;
        let notes = optional_member::<Cow<'a, str>>(members, Field::Notes)?;
        let cover = optional_member::<Cover<'a>>(members, Field::Cover)?;
        Ok(
            Book {
                url,
                key,
                title,
                subtitle,
                authors,
                number_of_pages,
                identifiers,
                classifications,
                publishers,
                publish_places,
                publish_date,
                subjects,
                subject_places,
                subject_people,
                notes,
                cover,
            },
        )
    }
}

impl<'a> Decode<'a> for Book<'a> {
    type Model = BookModel;

    open spec fn model(&self) -> BookModel {
        self@
    }

    open spec fn borrows_from(&self, doc: Seq<u8>) -> bool {
        self.held_within(doc)
    }

    open spec fn decoded(doc: Seq<u8>) -> Result<Option<BookModel>, DecodeError> {
        decoded_record(doc, |members: Seq<(Seq<char>, Seq<u8>)>| book_of(members))
    }

    proof fn lemma_borrows_widen(&self, part: Seq<u8>, doc: Seq<u8>) {
        self.url.lemma_borrows_widen(part, doc);
        self.key.lemma_borrows_widen(part, doc);
        self.title.lemma_borrows_widen(part, doc);
        if let Some(text) = self.subtitle {
            text.lemma_borrows_widen(part, doc);
        }
        self.authors.lemma_borrows_widen(part, doc);
        self.identifiers.lemma_borrows_widen(part, doc);
        self.classifications.lemma_borrows_widen(part, doc);
        self.publishers.lemma_borrows_widen(part, doc);
        self.publish_places.lemma_borrows_widen(part, doc);
        if let Some(text) = self.publish_date {
            text.lemma_borrows_widen(part, doc);
        }
        self.subjects.lemma_borrows_widen(part, doc);
        self.subject_places.lemma_borrows_widen(part, doc);
        self.subject_people.lemma_borrows_widen(part, doc);
        if let Some(text) = self.notes {
            text.lemma_borrows_widen(part, doc);
        }
        if let Some(cover) = self.cover {
            cover.lemma_borrows_widen(part, doc);
        }
    }

    fn decode_nullable(doc: &'a [u8]) -> (got: Result<Option<Self>, DecodeError>) {
        match read_members(doc) {
            Err(fault) => Err(parse_error(fault)),
            Ok(None) => Ok(None),
            Ok(Some(members)) => match Book::from_members(&members) {
                Err(error) => Err(error),
                Ok(book) => {
                    assert(all_within(members@, doc@));
                    Ok(Some(book))
                },
            },
        }
    }
}

} // verus!
