//! What each route answers, as plain values: the decisions of the handlers,
//! and the handlers themselves over a [`BookTable`].
use vstd::prelude::*;
use vstd::string::StrSliceExecFns;
use vstd::string::StringSliceAdditionalSpecFns;
use crate::decimal::{decimal_i32, parse_i32};
use crate::models::{ApiError, Book, BookView, Params};
use crate::store::{books_view, has_id, page_of, BookTable, StoreError};

verus! {

/// The kinds of failure that a request can meet.
#[derive(Clone, Copy, Debug, PartialEq, Eq, Structural)]
pub enum Failure {
    /// Malformed client input.
    Validation,
    /// A missing or wrong bearer token.
    Unauthorized,
    /// The book to delete does not exist.
    NotFound,
    /// The store failed.
    Store,
    /// The catalog could not be fetched or read.
    Import,
}

pub open spec fn failure_status(f: Failure) -> u16 {
    match f {
        Failure::Validation => 400,
        Failure::Unauthorized => 401,
        Failure::NotFound => 404,
        Failure::Store => 500,
        Failure::Import => 500,
    }
}

/// The HTTP status of each kind of failure.
pub fn status_of(f: Failure) -> (r: u16)
    ensures
        r == failure_status(f),
{
    match f {
        Failure::Validation => 400,
        Failure::Unauthorized => 401,
        Failure::NotFound => 404,
        Failure::Store => 500,
        Failure::Import => 500,
    }
}

pub enum ReplyBody {
    Empty,
    Text(String),
    Created(Book),
    Page(Vec<Book>),
    Problem(ApiError),
}

/// An HTTP reply: a status and what goes in its body.
pub struct Reply {
    pub status: u16,
    pub body: ReplyBody,
}

/// A reply with no body.
pub fn bare_reply(status: u16) -> (r: Reply)
    ensures
        r.status == status,
        r.body is Empty,
{
    Reply { status, body: ReplyBody::Empty }
}

/// A reply for the failure `f` with no body.
pub fn failure_reply(f: Failure) -> (r: Reply)
    ensures
        r.status == failure_status(f),
        r.body is Empty,
{
    bare_reply(status_of(f))
}

/// A validation failure, with a message for the client.
pub fn invalid_input(message: &str) -> (r: Reply)
    ensures
        r.status == 400,
        r.body matches ReplyBody::Problem(e) && e.message@ == message@,
{
    Reply { status: status_of(Failure::Validation), body: ReplyBody::Problem(ApiError::new(message.to_owned())) }
}

/// The root route: `200` with the text `OK`.
pub fn index() -> (r: Reply)
    ensures
        r.status == 200,
        r.body matches ReplyBody::Text(t) && t@ == "OK"@,
{
    Reply { status: 200, body: ReplyBody::Text("OK".to_owned()) }
}

/// The offset that the listing query asks for: no `offset` means `0`, and
/// one that is no `i32` asks for none.
pub open spec fn requested_offset(text: Option<&str>) -> Option<i32> {
    match text {
        None => Some(0),
        Some(t) => decimal_i32(t.spec_bytes()),
    }
}

/// Reads the listing query; an `offset` that is no `i32` is refused.
pub fn offset_param(text: Option<&str>) -> (r: Result<Params, Reply>)
    ensures
        match requested_offset(text) {
            Some(v) => r matches Ok(p) && p.offset == v,
            None => r matches Err(e) && e.status == 400 && e.body is Problem,
        },
{
    match text {
        None => Ok(Params { offset: 0 }),
        Some(t) => match parse_i32(t) {
            Some(v) => Ok(Params { offset: v }),
            None => Err(invalid_input("offset must be an integer")),
        },
    }
}

/// The reply to a listing: the page of books, or `500` where the store failed.
pub fn page_reply(rows: Result<Vec<Book>, StoreError>) -> (r: Reply)
    ensures
        rows is Err ==> r.status == 500 && r.body is Empty,
        rows matches Ok(v) ==> r.status == 200 && (r.body matches ReplyBody::Page(p) && books_view(p@)
            == books_view(v@) && p@.len() == v@.len()),
{
    match rows {
        Ok(v) => Reply { status: 200, body: ReplyBody::Page(v) },
        Err(_) => failure_reply(Failure::Store),
    }
}

/// `GET /books`: the page of `table` that starts at the query's `offset`,
/// at most ten books; a negative offset is a failure of the store.
pub fn books_get(table: &BookTable, offset_text: Option<&str>) -> (r: Reply)
    ensures
        match requested_offset(offset_text) {
            None => r.status == 400,
            Some(v) => if v < 0 {
                r.status == 500
            } else {
                r.status == 200 && (r.body matches ReplyBody::Page(p) && books_view(p@) == page_of(
                    table.rows(),
                    v as int,
                ) && p@.len() <= 10)
            },
        },
{
    match offset_param(offset_text) {
        Err(e) => e,
        Ok(p) => page_reply(table.list(p.offset)),
    }
}

/// The `Authorization` header that carries the bearer token `secret`.
pub open spec fn bearer_header(secret: Seq<char>) -> Seq<char> {
    seq!['B', 'e', 'a', 'r', 'e', 'r', ' '] + secret
}

/// Whether a request with the `Authorization` header `header` may change the
/// store, where `secret` is the token the service expects; with no secret,
/// authorization is off.
pub open spec fn admits(header: Option<&str>, secret: Option<&str>) -> bool {
    match secret {
        None => true,
        Some(s) => header matches Some(h) && h@ == bearer_header(s@),
    }
}

fn carries_token(h: &str, s: &str) -> (r: bool)
    ensures
        r == (h@ == bearer_header(s@)),
{
    let scheme = "Bearer ";
    proof {
        reveal_strlit("Bearer ");
    }
    let hn = h.unicode_len();
    let sn = s.unicode_len();
    if hn < 7 || hn - 7 != sn {
        return false;
    }
    let mut i: usize = 0;
    while i < 7
        invariant
            i <= 7,
            hn == h@.len(),
            scheme@ == seq!['B', 'e', 'a', 'r', 'e', 'r', ' '],
            hn >= 7,
            forall|k: int| 0 <= k < i ==> h@[k] == #[trigger] bearer_header(s@)[k],
        decreases 7 - i,
    {
        if h.get_char(i) != scheme.get_char(i) {
            assert(h@[i as int] != bearer_header(s@)[i as int]);
            return false;
        }
        i = i + 1;
    }
    let mut j: usize = 0;
    while j < sn
        invariant
            j <= sn,
            hn == h@.len(),
            sn == s@.len(),
            hn == sn + 7,
            forall|k: int| 0 <= k < 7 + j ==> h@[k] == #[trigger] bearer_header(s@)[k],
        decreases sn - j,
    {
        if h.get_char(j + 7) != s.get_char(j) {
            assert(h@[j + 7] != bearer_header(s@)[j + 7]);
            return false;
        }
        j = j + 1;
    }
    assert(h@ =~= bearer_header(s@));
    true
}

/// Checks the `Authorization` header of a request that changes the store.
pub fn authorized(header: Option<&str>, secret: Option<&str>) -> (r: bool)
    ensures
        r == admits(header, secret),
{
    match secret {
        None => true,
        Some(s) => match header {
            None => false,
            Some(h) => carries_token(h, s),
        },
    }
}

/// The reply to a create: `201` with the book under the id the store gave it,
/// or `500` where the store failed.
pub fn created_reply(book: &Book, inserted: Result<i32, StoreError>) -> (r: Reply)
    ensures
        inserted is Err ==> r.status == 500 && r.body is Empty,
        inserted matches Ok(id) ==> r.status == 201 && (r.body matches ReplyBody::Created(b) && b@ == (
        BookView { id: id as int, ..book@ })),
{
    match inserted {
        Ok(id) => Reply { status: 201, body: ReplyBody::Created(book.with_id(id)) },
        Err(_) => failure_reply(Failure::Store),
    }
}

/// The reply to a delete: `204` where a row went, `404` where none matched,
/// `500` where the store failed.
pub fn deleted_reply(affected: Result<u64, StoreError>) -> (r: Reply)
    ensures
        r.body is Empty,
        r.status == match affected {
            Ok(n) => if n == 0 { 404u16 } else { 204u16 },
            Err(_) => 500u16,
        },
{
    match affected {
        Ok(n) => if n == 0 {
            failure_reply(Failure::NotFound)
        } else {
            bare_reply(204)
        },
        Err(_) => failure_reply(Failure::Store),
    }
}

/// Checks a book sent for creation: its title must not be empty.
pub fn check_payload(book: &Book) -> (r: Result<(), Reply>)
    ensures
        book.title@.len() == 0 <==> r is Err,
        r matches Err(e) ==> e.status == 400 && e.body is Problem,
{
    if book.title.as_str().is_empty() {
        Err(invalid_input("title must not be empty"))
    } else {
        Ok(())
    }
}

/// `POST /books`: stores `book` under a fresh id where the request is
/// authorized and the book has a title; any other request leaves `table` as
/// it was.
pub fn books_post(table: &mut BookTable, header: Option<&str>, secret: Option<&str>, book: Book) -> (r: Reply)
    requires
        old(table).wf(),
    ensures
        final(table).wf(),
        !admits(header, secret) ==> r.status == 401 && *final(table) == *old(table),
        admits(header, secret) && book.title@.len() == 0 ==> r.status == 400 && *final(table)
            == *old(table),
        admits(header, secret) && book.title@.len() > 0 && old(table).next_id() == i32::MAX ==> r.status
            == 500 && *final(table) == *old(table),
        admits(header, secret) && book.title@.len() > 0 && old(table).next_id() < i32::MAX ==> {
            &&& r.status == 201
            &&& r.body matches ReplyBody::Created(b) && b@ == (BookView { id: old(table).next_id(), ..book@ })
            &&& final(table).rows() == old(table).rows().push(BookView { id: old(table).next_id(), ..book@ })
            &&& !has_id(old(table).rows(), old(table).next_id())
            &&& old(table).next_id() > 0
        },
{
    if !authorized(header, secret) {
        return failure_reply(Failure::Unauthorized);
    }
    if let Err(e) = check_payload(&book) {
        return e;
    }
    let draft = book.duplicate();
    let inserted = table.insert(book);
    created_reply(&draft, inserted)
}

/// What `DELETE /books/{id}` answers on a table with rows `rows`.
pub open spec fn delete_status(rows: Seq<BookView>, id: int, authorized: bool) -> u16 {
    if !authorized {
        401
    } else if has_id(rows, id) {
        204
    } else {
        404
    }
}

/// `DELETE /books/{id}`: removes the book with that id where the request is
/// authorized.
pub fn books_delete(table: &mut BookTable, header: Option<&str>, secret: Option<&str>, id: i32) -> (r: Reply)
    requires
        old(table).wf(),
    ensures
        final(table).wf(),
        r.body is Empty,
        r.status == delete_status(old(table).rows(), id as int, admits(header, secret)),
        r.status != 204 ==> *final(table) == *old(table),
        r.status == 204 ==> exists|k: int|
            0 <= k < old(table).rows().len() && old(table).rows()[k].id == id
                && final(table).rows() == old(table).rows().remove(k),
        !has_id(final(table).rows(), id as int) || !admits(header, secret),
{
    if !authorized(header, secret) {
        return failure_reply(Failure::Unauthorized);
    }
    let n = table.delete(id);
    deleted_reply(Ok(n))
}

/// The most bytes that a request body read chunk by chunk may hold.
pub const MAX_SIZE: usize = 262_144;

/// Whether a body of `body_len` bytes may take a chunk of `chunk_len` more.
pub fn chunk_fits(body_len: usize, chunk_len: usize) -> (r: bool)
    ensures
        r == (body_len + chunk_len <= MAX_SIZE),
{
    chunk_len <= MAX_SIZE && body_len <= MAX_SIZE - chunk_len
}

/// No two rows share an id.
pub open spec fn ids_distinct(rows: Seq<BookView>) -> bool {
    forall|j: int, k: int|
        0 <= j < rows.len() && 0 <= k < rows.len() && j != k ==> #[trigger] rows[j].id != #[trigger] rows[k].id
}

/// A book appended to the store is listed, with the fields it was stored
/// with, on every page whose range covers its position.
pub proof fn lemma_created_book_listed(rows: Seq<BookView>, created: BookView, offset: int)
    requires
        0 <= offset <= rows.len() < offset + 10,
    ensures
        page_of(rows.push(created), offset).len() == rows.len() + 1 - offset,
        page_of(rows.push(created), offset)[rows.len() - offset] == created,
{
}

/// Deleting an existing id twice in a row answers `204` and then `404`.
pub proof fn lemma_delete_twice(rows: Seq<BookView>, k: int)
    requires
        ids_distinct(rows),
        0 <= k < rows.len(),
    ensures
        delete_status(rows, rows[k].id, true) == 204,
        delete_status(rows.remove(k), rows[k].id, true) == 404,
{
    let id = rows[k].id;
    let after = rows.remove(k);
    assert(has_id(rows, id));
    assert forall|j: int| 0 <= j < after.len() implies (#[trigger] after[j]).id != id by {
        if j < k {
            assert(after[j] == rows[j]);
        } else {
            assert(after[j] == rows[j + 1]);
        }
    }
}

/// A well-formed table keeps distinct ids.
pub proof fn lemma_table_ids_distinct(t: BookTable)
    requires
        t.wf(),
    ensures
        ids_distinct(t.rows()),
{
    assert forall|j: int, k: int|
        0 <= j < t.rows().len() && 0 <= k < t.rows().len() && j != k implies #[trigger] t.rows()[j].id
        != #[trigger] t.rows()[k].id by {
        if j < k {
            assert(t.rows()[j].id < t.rows()[k].id);
        } else {
            assert(t.rows()[k].id < t.rows()[j].id);
        }
    }
}

} // verus!
