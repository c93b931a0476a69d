//! The insertion-ordered record store and its four operations, each with a
//! contract over the store's mathematical view. Every record is either
//! present or absent: create brings it into being under a fresh id, update
//! replaces its mutable fields, delete removes it for good.
use vstd::prelude::*;
use crate::book::{Book, BookPayload, BookView, normalize_author, normalize_author_spec,
    normalize_title, title_acceptable};
use crate::service::ServiceError;
use crate::text::{lemma_trim_normalized, trim_spec};

verus! {

/// The mathematical value of a store: its records in insertion order, and
/// the next id it will assign.
pub struct StoreView {
    pub books: Seq<BookView>,
    pub next_id: int,
}

/// The store invariant: ids strictly increase with insertion order (so no
/// id is ever reused or repeated), every id is positive and below the next
/// one to be assigned, and every record satisfies the record invariant.
pub open spec fn store_inv(v: StoreView) -> bool {
    &&& 1 <= v.next_id <= i32::MAX
    &&& forall|i: int, j: int|
        #![trigger v.books[i], v.books[j]]
        0 <= i < j < v.books.len() ==> v.books[i].id < v.books[j].id
    &&& forall|i: int|
        0 <= i < v.books.len() ==> (#[trigger] v.books[i]).wf() && v.books[i].id < v.next_id
}

/// Whether some record carries the given id.
pub open spec fn contains_id(s: Seq<BookView>, id: int) -> bool {
    exists|i: int| 0 <= i < s.len() && (#[trigger] s[i]).id == id
}

/// The first record carrying the given id, if any.
pub open spec fn find_book(s: Seq<BookView>, id: int) -> Option<BookView>
    decreases s.len(),
{
    if s.len() == 0 {
        None
    } else if s[0].id == id {
        Some(s[0])
    } else {
        find_book(s.drop_first(), id)
    }
}

/// `find_book` returns the record at the first index whose id matches.
pub proof fn lemma_find_book_at(s: Seq<BookView>, id: int, k: int)
    requires
        0 <= k < s.len(),
        s[k].id == id,
        forall|i: int| 0 <= i < k ==> (#[trigger] s[i]).id != id,
    ensures
        find_book(s, id) == Some(s[k]),
    decreases k,
{
    if k > 0 {
        lemma_find_book_at(s.drop_first(), id, k - 1);
    }
}

/// When no record carries the id, `find_book` finds nothing.
pub proof fn lemma_find_book_none(s: Seq<BookView>, id: int)
    requires
        forall|i: int| 0 <= i < s.len() ==> (#[trigger] s[i]).id != id,
    ensures
        find_book(s, id) is None,
    decreases s.len(),
{
    if s.len() > 0 {
        lemma_find_book_none(s.drop_first(), id);
    }
}

/// `find_book` fails exactly on the ids no record carries.
pub proof fn lemma_find_book_absent(s: Seq<BookView>, id: int)
    ensures
        (find_book(s, id) is None) <==> !contains_id(s, id),
    decreases s.len(),
{
    if s.len() == 0 {
    } else if s[0].id == id {
        assert(contains_id(s, id));
    } else {
        lemma_find_book_absent(s.drop_first(), id);
        if contains_id(s, id) {
            let i = choose|i: int| 0 <= i < s.len() && (#[trigger] s[i]).id == id;
            assert(s.drop_first()[i - 1].id == id);
            assert(contains_id(s.drop_first(), id));
        }
        if contains_id(s.drop_first(), id) {
            let i = choose|i: int|
                0 <= i < s.drop_first().len() && (#[trigger] s.drop_first()[i]).id == id;
            assert(s[i + 1].id == id);
            assert(contains_id(s, id));
        }
    }
}

/// An insertion-ordered store of book records with store-assigned ids.
pub struct BookStore {
    books: Vec<Book>,
    next_id: i32,
}

impl View for BookStore {
    type V = StoreView;

    closed spec fn view(&self) -> StoreView {
        StoreView {
            books: self.books@.map_values(|b: Book| b@),
            next_id: self.next_id as int,
        }
    }
}

impl BookStore {
    /// The invariant the constructor establishes and every operation keeps.
    pub open spec fn wf(&self) -> bool {
        store_inv(self@)
    }

    /// An empty store; ids start at one.
    pub fn new() -> (r: BookStore)
        ensures
            r.wf(),
            r@.books == Seq::<BookView>::empty(),
            r@.next_id == 1,
    {
        let r = BookStore { books: Vec::new(), next_id: 1 };
        proof {
            assert(r@.books =~= Seq::<BookView>::empty());
        }
        r
    }

    /// The position of the record carrying the given id, if any.
    fn find_index(&self, id: i32) -> (r: Option<usize>)
        ensures
            match r {
                Some(k) => k < self@.books.len() && self@.books[k as int].id == id as int
                    && forall|i: int| 0 <= i < k ==> (#[trigger] self@.books[i]).id != id as int,
                None => forall|i: int|
                    0 <= i < self@.books.len() ==> (#[trigger] self@.books[i]).id != id as int,
            },
    {
        let n = self.books.len();
        let mut k: usize = 0;
        while k < n
            invariant
                n == self.books.len(),
                k <= n,
                forall|i: int| 0 <= i < k ==> (#[trigger] self@.books[i]).id != id as int,
            decreases n - k,
        {
            if self.books[k].id == id {
                return Some(k);
            }
            k = k + 1;
        }
        None
    }

    /// List: every record, in insertion order, all or nothing.
    pub fn list(&self) -> (r: Vec<Book>)
        ensures
            r@.map_values(|b: Book| b@) == self@.books,
    {
        let n = self.books.len();
        let mut out: Vec<Book> = Vec::new();
        let mut k: usize = 0;
        while k < n
            invariant
                n == self.books.len(),
                k <= n,
                out@.len() == k,
                forall|i: int| 0 <= i < k ==> (#[trigger] out@[i])@ == self@.books[i],
            decreases n - k,
        {
            let b = self.books[k].clone();
            out.push(b);
            k = k + 1;
        }
        proof {
            assert(out@.map_values(|b: Book| b@) =~= self@.books);
        }
        out
    }

    /// Get: returns the record whose id matches; an absent id is
    /// `NotFound`, and no other outcome exists.
    pub fn get(&self, id: i32) -> (r: Result<Book, ServiceError>)
        ensures
            match find_book(self@.books, id as int) {
                Some(bv) => r matches Ok(b) && b@ == bv,
                None => r matches Err(ServiceError::NotFound),
            },
            (r matches Err(ServiceError::NotFound)) <==> !contains_id(self@.books, id as int),
    {
        proof {
            lemma_find_book_absent(self@.books, id as int);
        }
        match self.find_index(id) {
            Some(k) => {
                proof {
                    lemma_find_book_at(self@.books, id as int, k as int);
                }
                Ok(self.books[k].clone())
            },
            None => {
                proof {
                    lemma_find_book_none(self@.books, id as int);
                }
                Err(ServiceError::NotFound)
            },
        }
    }

    /// Create: validates the payload, then appends a record under a fresh
    /// store-assigned id with the supplied creation time (microseconds
    /// since the Unix epoch). A title that is empty after trimming is
    /// rejected before the store is touched; a store that has run out of
    /// ids reports a storage failure.
    pub fn create(&mut self, payload: &BookPayload, now: i64) -> (r: Result<Book, ServiceError>)
        requires
            old(self).wf(),
            payload.wf(),
        ensures
            final(self).wf(),
            !title_acceptable(payload@.title) ==> (r matches Err(ServiceError::BadInput)
                && final(self)@ == old(self)@),
            title_acceptable(payload@.title) && old(self)@.next_id == i32::MAX as int ==> (
            r matches Err(ServiceError::Internal) && final(self)@ == old(self)@),
            title_acceptable(payload@.title) && old(self)@.next_id < i32::MAX as int ==> match r {
                Ok(b) => {
                    &&& b@ == (BookView {
                        id: old(self)@.next_id,
                        title: trim_spec(payload@.title),
                        author: normalize_author_spec(payload@.author),
                        published_date: payload@.published_date,
                        stock: payload@.stock,
                        created_at: now as int,
                    })
                    &&& b@.wf()
                    &&& final(self)@.books == old(self)@.books.push(b@)
                    &&& final(self)@.next_id == old(self)@.next_id + 1
                },
                Err(_) => false,
            },
    {
        let title = match normalize_title(payload.title.as_str()) {
            Some(t) => t,
            None => { return Err(ServiceError::BadInput) },
        };
        if self.next_id == i32::MAX {
            return Err(ServiceError::Internal);
        }
        let author = normalize_author(&payload.author);
        let book = Book {
            id: self.next_id,
            title,
            author,
            published_date: payload.published_date,
            stock: payload.stock,
            created_at: now,
        };
        let out = book.clone();
        proof {
            lemma_trim_normalized(payload@.title);
            match payload@.author {
                Some(a) => lemma_trim_normalized(a),
                None => (),
            }
        }
        self.books.push(book);
        self.next_id = self.next_id + 1;
        proof {
            let ov = old(self)@;
            let nv = self@;
            assert(nv.books =~= ov.books.push(out@));
            assert(out@.wf());
            assert forall|i: int, j: int|
                #![trigger nv.books[i], nv.books[j]]
                0 <= i < j < nv.books.len() implies nv.books[i].id < nv.books[j].id by {
                if j < ov.books.len() as int {
                    assert(ov.books[i].id < ov.books[j].id);
                } else {
                    assert(nv.books[j] == out@);
                    assert(nv.books[i] == ov.books[i]);
                }
            }
        }
        Ok(out)
    }

    /// Update: replaces the title, author, date and stock of the record
    /// with the given id; the id and creation time are never altered, and
    /// every other record is left as it was. A title that is empty after
    /// trimming is rejected before the store is touched; an absent id is
    /// `NotFound`.
    pub fn update(&mut self, id: i32, payload: &BookPayload) -> (r: Result<Book, ServiceError>)
        requires
            old(self).wf(),
            payload.wf(),
        ensures
            final(self).wf(),
            final(self)@.next_id == old(self)@.next_id,
            !title_acceptable(payload@.title) ==> (r matches Err(ServiceError::BadInput)
                && final(self)@ == old(self)@),
            title_acceptable(payload@.title) ==> match find_book(old(self)@.books, id as int) {
                None => r matches Err(ServiceError::NotFound) && final(self)@ == old(self)@,
                Some(prev) => match r {
                    Ok(b) => {
                        &&& b@ == (BookView {
                            id: prev.id,
                            title: trim_spec(payload@.title),
                            author: normalize_author_spec(payload@.author),
                            published_date: payload@.published_date,
                            stock: payload@.stock,
                            created_at: prev.created_at,
                        })
                        &&& b@.wf()
                        &&& final(self)@.books.len() == old(self)@.books.len()
                        &&& forall|i: int|
                            0 <= i < old(self)@.books.len() ==> #[trigger] final(self)@.books[i]
                                == (if old(self)@.books[i].id == id as int {
                                b@
                            } else {
                                old(self)@.books[i]
                            })
                    },
                    Err(_) => false,
                },
            },
    {
        let title = match normalize_title(payload.title.as_str()) {
            Some(t) => t,
            None => { return Err(ServiceError::BadInput) },
        };
        match self.find_index(id) {
            None => {
                proof {
                    lemma_find_book_none(self@.books, id as int);
                }
                Err(ServiceError::NotFound)
            },
            Some(k) => {
                proof {
                    lemma_find_book_at(self@.books, id as int, k as int);
                }
                let author = normalize_author(&payload.author);
                let prev_id = self.books[k].id;
                let prev_created = self.books[k].created_at;
                let book = Book {
                    id: prev_id,
                    title,
                    author,
                    published_date: payload.published_date,
                    stock: payload.stock,
                    created_at: prev_created,
                };
                let out = book.clone();
                proof {
                    lemma_trim_normalized(payload@.title);
                    match payload@.author {
                        Some(a) => lemma_trim_normalized(a),
                        None => (),
                    }
                }
                self.books[k] = book;
                proof {
                    let ov = old(self)@;
                    let nv = self@;
                    assert(nv.books =~= ov.books.update(k as int, out@));
                    assert(out@.wf());
                    assert forall|i: int|
                        0 <= i < ov.books.len() implies #[trigger] nv.books[i] == (if ov.books[
                        i
                    ].id == id as int {
                        out@
                    } else {
                        ov.books[i]
                    }) by {
                        if i != k as int && ov.books[i].id == id as int {
                            if i < k as int {
                                assert(ov.books[i].id != id as int);
                            } else {
                                assert(ov.books[k as int].id < ov.books[i].id);
                            }
                        }
                    }
                    assert forall|i: int, j: int|
                        #![trigger nv.books[i], nv.books[j]]
                        0 <= i < j < nv.books.len() implies nv.books[i].id < nv.books[j].id by {
                        assert(ov.books[i].id < ov.books[j].id);
                        assert(nv.books[i].id == ov.books[i].id);
                        assert(nv.books[j].id == ov.books[j].id);
                    }
                }
                Ok(out)
            },
        }
    }

    /// Delete: removes the record with the given id, leaving the rest in
    /// order. Success means exactly one record was removed and its id is
    /// gone for good; an absent id is `NotFound`, never a silent success.
    pub fn delete(&mut self, id: i32) -> (r: Result<(), ServiceError>)
        requires
            old(self).wf(),
        ensures
            final(self).wf(),
            final(self)@.next_id == old(self)@.next_id,
            contains_id(old(self)@.books, id as int) ==> {
                &&& r matches Ok(())
                &&& exists|k: int|
                    0 <= k < old(self)@.books.len() && (#[trigger] old(self)@.books[k]).id
                        == id as int && final(self)@.books == old(self)@.books.remove(k)
                &&& !contains_id(final(self)@.books, id as int)
            },
            !contains_id(old(self)@.books, id as int) ==> (r matches Err(ServiceError::NotFound)
                && final(self)@ == old(self)@),
    {
        match self.find_index(id) {
            None => {
                proof {
                    assert(!contains_id(self@.books, id as int));
                }
                Err(ServiceError::NotFound)
            },
            Some(k) => {
                self.books.remove(k);
                proof {
                    let ov = old(self)@;
                    let nv = self@;
                    assert(contains_id(ov.books, id as int));
                    assert(nv.books =~= ov.books.remove(k as int));
                    assert forall|i: int|
                        0 <= i < nv.books.len() implies (#[trigger] nv.books[i]).id
                        != id as int by {
                        if i < k as int {
                            assert(nv.books[i] == ov.books[i]);
                            assert(ov.books[i].id != id as int);
                        } else {
                            assert(nv.books[i] == ov.books[i + 1]);
                            assert(ov.books[k as int].id < ov.books[i + 1].id);
                        }
                    }
                    assert(!contains_id(nv.books, id as int));
                    assert forall|i: int, j: int|
                        #![trigger nv.books[i], nv.books[j]]
                        0 <= i < j < nv.books.len() implies nv.books[i].id < nv.books[j].id by {
                        let i0 = if i < k as int {
                            i
                        } else {
                            i + 1
                        };
                        let j0 = if j < k as int {
                            j
                        } else {
                            j + 1
                        };
                        assert(nv.books[i] == ov.books[i0]);
                        assert(nv.books[j] == ov.books[j0]);
                        assert(ov.books[i0].id < ov.books[j0].id);
                    }
                }
                Ok(())
            },
        }
    }
}

} // verus!
