//! The book entity, the error envelope, and the catalog's volume records.
use vstd::prelude::*;

verus! {

/// The body of a non-2xx JSON reply.
pub struct ApiError {
    pub message: String,
}

impl ApiError {
    pub fn new(message: String) -> (r: Self)
        ensures
            r.message@ == message@,
    {
        ApiError { message }
    }
}

pub open spec fn is_leap_year(y: int) -> bool {
    (y % 4 == 0 && y % 100 != 0) || y % 400 == 0
}

pub open spec fn days_in_month(y: int, m: int) -> int {
    if m == 2 {
        if is_leap_year(y) { 29 } else { 28 }
    } else if m == 4 || m == 6 || m == 9 || m == 11 {
        30
    } else {
        31
    }
}

/// A day of the proleptic Gregorian calendar.
#[derive(Clone, Copy, Debug, PartialEq, Eq, Structural)]
pub struct Date {
    pub year: i32,
    pub month: u32,
    pub day: u32,
}

impl Date {
    pub open spec fn wf(self) -> bool {
        1 <= self.month <= 12 && 1 <= self.day <= days_in_month(self.year as int, self.month as int)
    }

    /// The first of January of `year`.
    pub fn year_start(year: i32) -> (r: Date)
        ensures
            r == (Date { year, month: 1, day: 1 }),
            r.wf(),
    {
        Date { year, month: 1, day: 1 }
    }

    /// The date that stands for a publication date that was given in no known form.
    pub fn sentinel() -> (r: Date)
        ensures
            r == (Date { year: 0, month: 1, day: 1 }),
            r.wf(),
    {
        Date { year: 0, month: 1, day: 1 }
    }
}

/// What a stored book is, as values.
pub struct BookView {
    pub id: int,
    pub title: Seq<char>,
    pub authors: Seq<Seq<char>>,
    pub publication_date: Date,
}

#[derive(Debug)]
pub struct Book {
    pub id: i32,
    pub title: String,
    pub authors: Vec<String>,
    pub publication_date: Date,
}

impl View for Book {
    type V = BookView;

    open spec fn view(&self) -> BookView {
        BookView {
            id: self.id as int,
            title: self.title@,
            authors: self.authors.deep_view(),
            publication_date: self.publication_date,
        }
    }
}

impl Book {
    pub fn new(id: i32, title: String, authors: Vec<String>, publication_date: Date) -> (r: Self)
        ensures
            r.id == id,
            r.title@ == title@,
            r.authors.deep_view() == authors.deep_view(),
            r.publication_date == publication_date,
    {
        Book { id, title, authors, publication_date }
    }

    /// A copy of this book under another id.
    pub fn with_id(&self, id: i32) -> (r: Self)
        ensures
            r@ == (BookView { id: id as int, ..self@ }),
    {
        let authors = self.authors.clone();
        proof {
            assert(authors.deep_view() =~= self.authors.deep_view());
        }
        Book {
            id,
            title: self.title.clone(),
            authors,
            publication_date: self.publication_date,
        }
    }

    /// A copy of this book.
    pub fn duplicate(&self) -> (r: Self)
        ensures
            r@ == self@,
    {
        self.with_id(self.id)
    }
}

/// The query of a listing request: how many stored books to pass over.
pub struct Params {
    pub offset: i32,
}

/// The query of an import request: the search term for the catalog.
pub struct ImportBooksParams {
    pub q: String,
}

/// A search reply of the volumes catalog.
pub struct GoogleBooksRoot {
    pub kind: String,
    pub total_items: i64,
    pub items: Vec<GoogleBook>,
}

pub struct GoogleBook {
    pub kind: String,
    pub id: String,
    pub etag: String,
    pub self_link: String,
    pub volume_info: VolumeInfo,
}

/// The fields of a volume that the library holds; the catalog's rating, a
/// fraction, is left to the wire form.
pub struct VolumeInfo {
    pub title: String,
    pub authors: Vec<String>,
    pub publisher: Option<String>,
    pub published_date: String,
    pub description: Option<String>,
    pub industry_identifiers: Option<Vec<IndustryIdentifier>>,
    pub reading_modes: Option<ReadingModes>,
    pub page_count: Option<i64>,
    pub print_type: Option<String>,
    pub categories: Option<Vec<String>>,
    pub ratings_count: Option<i64>,
    pub maturity_rating: Option<String>,
    pub allow_anon_logging: Option<bool>,
    pub content_version: Option<String>,
    pub panelization_summary: Option<PanelizationSummary>,
    pub image_links: Option<ImageLinks>,
    pub language: Option<String>,
    pub preview_link: Option<String>,
    pub info_link: Option<String>,
    pub canonical_volume_link: Option<String>,
}

pub struct IndustryIdentifier {
    pub type_field: String,
    pub identifier: String,
}

#[derive(Clone, Copy, Debug, PartialEq, Eq, Structural)]
pub struct ReadingModes {
    pub text: bool,
    pub image: bool,
}

#[derive(Clone, Copy, Debug, PartialEq, Eq, Structural)]
pub struct PanelizationSummary {
    pub contains_epub_bubbles: bool,
    pub contains_image_bubbles: bool,
}

pub struct ImageLinks {
    pub small_thumbnail: String,
    pub thumbnail: String,
}

} // verus!
