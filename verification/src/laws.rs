//! Laws that span more than one operation, proved over the same views and
//! spec functions that the operations' contracts use.
use vstd::prelude::*;
use crate::book::BookView;
use crate::store::{StoreView, contains_id, find_book, lemma_find_book_at, store_inv};

verus! {

/// A record whose id no existing record carries is found, unchanged, once
/// appended.
proof fn lemma_find_push_fresh(s: Seq<BookView>, b: BookView)
    requires
        forall|i: int| 0 <= i < s.len() ==> (#[trigger] s[i]).id != b.id,
    ensures
        find_book(s.push(b), b.id) == Some(b),
{
    lemma_find_book_at(s.push(b), b.id, s.len() as int);
}

/// Law: create followed by get returns the created record unchanged. A
/// well-formed store holds no record under its next id, so after create
/// appends the new record under that id, get's lookup finds exactly it.
pub proof fn lemma_create_then_get(v: StoreView, b: BookView)
    requires
        store_inv(v),
        b.id == v.next_id,
    ensures
        find_book(v.books.push(b), b.id) == Some(b),
{
    lemma_find_push_fresh(v.books, b);
}

/// Law: delete succeeds only once for an id. In a well-formed store ids
/// are unique, so removing the record that carries an id leaves the id in
/// no record; by delete's contract, a second delete on the same id then
/// fails `NotFound`.
pub proof fn lemma_delete_removes_for_good(v: StoreView, k: int, id: int)
    requires
        store_inv(v),
        0 <= k < v.books.len(),
        v.books[k].id == id,
    ensures
        !contains_id(v.books.remove(k), id),
{
    let s = v.books.remove(k);
    assert forall|i: int| 0 <= i < s.len() implies (#[trigger] s[i]).id != id by {
        if i < k {
            assert(s[i] == v.books[i]);
            assert(v.books[i].id < v.books[k].id);
        } else {
            assert(s[i] == v.books[i + 1]);
            assert(v.books[k].id < v.books[i + 1].id);
        }
    }
}

} // verus!
