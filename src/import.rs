//! Importing books from the volumes catalog: the search term, the books that
//! a reply of the catalog yields, and storing them one after another.
use vstd::prelude::*;
use crate::dates::{normalize_date, normalized};
use crate::handlers::{bare_reply, failure_reply, invalid_input, Failure, Reply};
use crate::models::{Book, BookView, GoogleBook, GoogleBooksRoot, ImportBooksParams};
use crate::store::{books_view, BookTable};

verus! {

/// The catalog's volumes search; the term goes, URL-encoded, in its `q` parameter.
pub const VOLUMES_URL: &'static str = "https://www.googleapis.com/books/v1/volumes";

/// The search term of an import; an empty one is refused before any call
/// to the catalog.
pub fn search_term(params: &ImportBooksParams) -> (r: Result<String, Reply>)
    ensures
        params.q@.len() == 0 <==> r is Err,
        r matches Err(e) ==> e.status == 400,
        r matches Ok(t) ==> t@ == params.q@,
{
    if params.q.as_str().is_empty() {
        Err(invalid_input("q must not be empty"))
    } else {
        Ok(params.q.clone())
    }
}

/// The book that the catalog record `g` yields, where its date can be read.
pub open spec fn record_book(g: GoogleBook) -> Option<BookView> {
    match normalized(g.volume_info.published_date@) {
        Ok(d) => Some(
            BookView {
                id: 0,
                title: g.volume_info.title@,
                authors: g.volume_info.authors.deep_view(),
                publication_date: d,
            },
        ),
        Err(_) => None,
    }
}

/// The books that the records `items` yield, in their order; a record whose
/// date cannot be read yields none.
pub open spec fn imported(items: Seq<GoogleBook>) -> Seq<BookView>
    decreases items.len(),
{
    if items.len() == 0 {
        Seq::empty()
    } else {
        let rest = imported(items.drop_last());
        match record_book(items.last()) {
            Some(b) => rest.push(b),
            None => rest,
        }
    }
}

/// In a batch of one readable and one unreadable record, in either order,
/// only the readable one yields a book.
pub proof fn lemma_unreadable_record_skipped(good: GoogleBook, bad: GoogleBook)
    requires
        record_book(good) is Some,
        record_book(bad) is None,
    ensures
        imported(seq![good, bad]) == seq![record_book(good)->Some_0],
        imported(seq![bad, good]) == seq![record_book(good)->Some_0],
{
    assert(imported(Seq::<GoogleBook>::empty()) =~= Seq::<BookView>::empty());
    assert(seq![good].last() == good);
    assert(seq![bad].last() == bad);
    assert(seq![good, bad].last() == bad);
    assert(seq![bad, good].last() == good);
    assert(seq![good, bad].drop_last() =~= seq![good]);
    assert(seq![good].drop_last() =~= Seq::<GoogleBook>::empty());
    assert(seq![bad, good].drop_last() =~= seq![bad]);
    assert(seq![bad].drop_last() =~= Seq::<GoogleBook>::empty());
    assert(imported(seq![good]) =~= seq![record_book(good)->Some_0]);
    assert(imported(seq![bad]) =~= Seq::<BookView>::empty());
}

/// The books to store for a reply of the catalog.
pub fn import_plan(root: &GoogleBooksRoot) -> (r: Vec<Book>)
    ensures
        books_view(r@) == imported(root.items@),
{
    let mut out: Vec<Book> = Vec::new();
    let n = root.items.len();
    let mut i: usize = 0;
    while i < n
        invariant
            i <= n,
            n == root.items@.len(),
            books_view(out@) == imported(root.items@.take(i as int)),
        decreases n - i,
    {
        let g = &root.items[i];
        let ghost prev = out@;
        assert(root.items@.take(i + 1).drop_last() =~= root.items@.take(i as int));
        match normalize_date(g.volume_info.published_date.as_str()) {
            Ok(d) => {
                let authors = g.volume_info.authors.clone();
                assert(authors.deep_view() =~= g.volume_info.authors.deep_view());
                let b = Book::new(0, g.volume_info.title.clone(), authors, d);
                let ghost bv = b@;
                out.push(b);
                assert(books_view(out@) =~= books_view(prev).push(bv));
            },
            Err(_) => {},
        }
        i = i + 1;
    }
    assert(root.items@.take(n as int) =~= root.items@);
    out
}

/// `books` as the store keeps them when the first gets the id `first` and
/// each next one the following id.
pub open spec fn numbered(books: Seq<BookView>, first: int) -> Seq<BookView> {
    books.map(|k: int, b: BookView| BookView { id: first + k, ..b })
}

/// Stores `books` in order. Where the store runs out of ids it stops there
/// and answers `500`; the books stored before stay.
pub fn import_into(table: &mut BookTable, books: Vec<Book>) -> (r: Reply)
    requires
        old(table).wf(),
    ensures
        final(table).wf(),
        r.status == 200 || r.status == 500,
        r.status == 200 <==> old(table).next_id() + books@.len() <= i32::MAX,
        r.status == 200 ==> final(table).rows() == old(table).rows() + numbered(
            books_view(books@),
            old(table).next_id(),
        ),
{
    let n = books.len();
    let mut i: usize = 0;
    let ghost all = books_view(books@);
    let ghost first = table.next_id();
    let ghost start = table.rows();
    assert(start + numbered(all.take(0), first) =~= start);
    while i < n
        invariant
            i <= n,
            n == books@.len(),
            books_view(books@) == all,
            table.wf(),
            table.next_id() == first + i,
            first == old(table).next_id(),
            start == old(table).rows(),
            table.rows() == start + numbered(all.take(i as int), first),
        decreases n - i,
    {
        let b = books[i].duplicate();
        let ghost bv = b@;
        assert(bv == all[i as int]);
        match table.insert(b) {
            Ok(_) => {},
            Err(_) => {
                assert(table.next_id() == i32::MAX);
                return failure_reply(Failure::Store);
            },
        }
        assert(numbered(all.take(i + 1), first) =~= numbered(all.take(i as int), first).push(
            BookView { id: first + i, ..bv },
        ));
        i = i + 1;
    }
    assert(all.take(n as int) =~= all);
    bare_reply(200)
}

/// `GET /import/books` once the catalog was asked: stores what its reply
/// `fetched` yields, or answers `500` where it could not be fetched or read.
pub fn books_import(table: &mut BookTable, fetched: Option<&GoogleBooksRoot>) -> (r: Reply)
    requires
        old(table).wf(),
    ensures
        final(table).wf(),
        fetched is None ==> r.status == 500 && *final(table) == *old(table),
        fetched matches Some(root) ==> {
            let books = imported(root.items@);
            &&& r.status == 200 <==> old(table).next_id() + books.len() <= i32::MAX
            &&& r.status == 200 ==> final(table).rows() == old(table).rows() + numbered(
                books,
                old(table).next_id(),
            )
        },
{
    match fetched {
        None => failure_reply(Failure::Import),
        Some(root) => import_into(table, import_plan(root)),
    }
}

} // verus!
