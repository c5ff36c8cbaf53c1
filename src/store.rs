//! An in-memory table of books with the semantics of the service's store:
//! pages in insertion order, ids assigned in increasing order, delete by id.
use vstd::prelude::*;
use crate::models::{Book, BookView};

verus! {

/// How many books a listing returns at most.
pub const PAGE_SIZE: i32 = 10;

/// Why the store did not do what it was asked.
#[derive(Clone, Copy, Debug, PartialEq, Eq, Structural)]
pub enum StoreError {
    /// A listing was asked to pass over a negative number of rows.
    NegativeOffset,
    /// Every id that the table can assign is taken.
    IdsExhausted,
    /// The store could not be reached, or refused the statement.
    Unavailable,
}

pub open spec fn books_view(v: Seq<Book>) -> Seq<BookView> {
    v.map_values(|b: Book| b@)
}

/// The rows from `offset` on, at most a page of them.
pub open spec fn page_of(rows: Seq<BookView>, offset: int) -> Seq<BookView> {
    let end = if offset + PAGE_SIZE < rows.len() { offset + PAGE_SIZE } else { rows.len() as int };
    if offset < rows.len() {
        rows.subrange(offset, end)
    } else {
        Seq::empty()
    }
}

pub open spec fn has_id(rows: Seq<BookView>, id: int) -> bool {
    exists|k: int| 0 <= k < rows.len() && (#[trigger] rows[k]).id == id
}

pub struct BookTable {
    rows: Vec<Book>,
    next_id: i32,
}

impl BookTable {
    /// The stored books, in insertion order.
    pub closed spec fn rows(self) -> Seq<BookView> {
        books_view(self.rows@)
    }

    /// The id that the next insert assigns.
    pub closed spec fn next_id(self) -> int {
        self.next_id as int
    }

    /// Ids are positive, below the next one, and increase along the rows.
    pub open spec fn wf(self) -> bool {
        &&& 1 <= self.next_id() <= i32::MAX
        &&& forall|k: int| 0 <= k < self.rows().len() ==> 0 < #[trigger] self.rows()[k].id < self.next_id()
        &&& forall|j: int, k: int|
            0 <= j < k < self.rows().len() ==> #[trigger] self.rows()[j].id < #[trigger] self.rows()[k].id
    }

    pub fn new() -> (r: Self)
        ensures
            r.wf(),
            r.rows() == Seq::<BookView>::empty(),
            r.next_id() == 1,
    {
        let r = BookTable { rows: Vec::new(), next_id: 1 };
        assert(r.rows() =~= Seq::<BookView>::empty());
        r
    }

    pub fn len(&self) -> (r: usize)
        ensures
            r == self.rows().len(),
    {
        self.rows.len()
    }

    /// The page of books that starts at `offset`.
    pub fn list(&self, offset: i32) -> (r: Result<Vec<Book>, StoreError>)
        ensures
            offset < 0 ==> r == Err::<Vec<Book>, StoreError>(StoreError::NegativeOffset),
            offset >= 0 ==> (r matches Ok(v) && books_view(v@) == page_of(self.rows(), offset as int)
                && v@.len() <= PAGE_SIZE),
    {
        if offset < 0 {
            return Err(StoreError::NegativeOffset);
        }
        let n = self.rows.len();
        let start = offset as usize;
        let mut out: Vec<Book> = Vec::new();
        if start >= n {
            assert(books_view(out@) =~= page_of(self.rows(), offset as int));
            return Ok(out);
        }
        let end: usize = if n - start > 10 { start + 10 } else { n };
        assert(books_view(out@) =~= books_view(self.rows@).subrange(start as int, start as int));
        let mut i: usize = start;
        while i < end
            invariant
                start <= i <= end <= n,
                n == self.rows@.len(),
                books_view(out@) == books_view(self.rows@).subrange(start as int, i as int),
            decreases end - i,
        {
            let b = self.rows[i].duplicate();
            let ghost prev = out@;
            let ghost bv = b@;
            out.push(b);
            proof {
                assert(books_view(out@) =~= books_view(prev).push(bv));
                assert(books_view(out@) =~= books_view(self.rows@).subrange(start as int, i + 1));
            }
            i = i + 1;
        }
        assert(books_view(out@) =~= page_of(self.rows(), offset as int));
        Ok(out)
    }

    /// Stores `book` under a fresh id and returns that id.
    pub fn insert(&mut self, book: Book) -> (r: Result<i32, StoreError>)
        requires
            old(self).wf(),
        ensures
            final(self).wf(),
            old(self).next_id() == i32::MAX ==> r == Err::<i32, StoreError>(StoreError::IdsExhausted)
                && *final(self) == *old(self),
            old(self).next_id() < i32::MAX ==> r == Ok::<i32, StoreError>(old(self).next_id() as i32)
                && final(self).rows() == old(self).rows().push(BookView { id: old(self).next_id(), ..book@ })
                && final(self).next_id() == old(self).next_id() + 1,
    {
        if self.next_id == i32::MAX {
            return Err(StoreError::IdsExhausted);
        }
        let id = self.next_id;
        let stored = book.with_id(id);
        self.rows.push(stored);
        self.next_id = id + 1;
        proof {
            assert(self.rows() =~= old(self).rows().push(BookView { id: id as int, ..book@ }));
        }
        Ok(id)
    }

    /// Removes the book with id `id`, if there is one, and returns how many
    /// rows went.
    pub fn delete(&mut self, id: i32) -> (r: u64)
        requires
            old(self).wf(),
        ensures
            final(self).wf(),
            final(self).next_id() == old(self).next_id(),
            !has_id(final(self).rows(), id as int),
            r == 0 <==> !has_id(old(self).rows(), id as int),
            r == 0 ==> *final(self) == *old(self),
            r == 1 ==> exists|k: int|
                0 <= k < old(self).rows().len() && old(self).rows()[k].id == id
                    && final(self).rows() == old(self).rows().remove(k),
            r <= 1,
    {
        let n = self.rows.len();
        let mut i: usize = 0;
        while i < n
            invariant
                n == self.rows@.len(),
                i <= n,
                *self == *old(self),
                self.wf(),
                forall|k: int| 0 <= k < i ==> (#[trigger] self.rows()[k]).id != id,
            decreases n - i,
        {
            if self.rows[i].id == id {
                let ghost before = self.rows();
                self.rows.remove(i);
                proof {
                    assert(self.rows() =~= before.remove(i as int));
                    assert forall|k: int| 0 <= k < self.rows().len() implies #[trigger] self.rows()[k].id != id by {
                        if k >= i {
                            assert(before[k + 1].id > before[i as int].id);
                        }
                    }
                    assert forall|j: int, k: int| 0 <= j < k < self.rows().len() implies
                        #[trigger] self.rows()[j].id < #[trigger] self.rows()[k].id by {
                        if j < i {
                            if k >= i {
                                assert(before[j].id < before[k + 1].id);
                            }
                        } else {
                            assert(before[j + 1].id < before[k + 1].id);
                        }
                    }
                }
                return 1;
            }
            i = i + 1;
        }
        0
    }
}

} // verus!
