//! The book record and the client payload, their mathematical views, and
//! the validation and normalization of client-supplied fields.
use vstd::prelude::*;
use crate::dates::Date;
use crate::text::{normalized_text, trim_spec, trim_str};

verus! {

/// The mathematical value of a book record.
pub struct BookView {
    pub id: int,
    pub title: Seq<char>,
    pub author: Option<Seq<char>>,
    pub published_date: Option<Date>,
    pub stock: int,
    pub created_at: int,
}

impl BookView {
    /// The record invariant the store maintains: a positive id, a trimmed
    /// non-empty title, an author that is absent rather than blank, and a
    /// date that names a real calendar day. The creation time is measured
    /// in microseconds since the Unix epoch.
    pub open spec fn wf(self) -> bool {
        &&& 1 <= self.id <= i32::MAX
        &&& self.title.len() > 0
        &&& normalized_text(self.title)
        &&& match self.author {
            Some(a) => a.len() > 0 && normalized_text(a),
            None => true,
        }
        &&& match self.published_date {
            Some(d) => d.valid(),
            None => true,
        }
    }
}

/// A book record as stored and returned; `id` and `created_at` are assigned
/// by the store, never by the client.
#[derive(Debug, PartialEq)]
pub struct Book {
    pub id: i32,
    pub title: String,
    pub author: Option<String>,
    pub published_date: Option<Date>,
    pub stock: i32,
    pub created_at: i64,
}

impl View for Book {
    type V = BookView;

    open spec fn view(&self) -> BookView {
        BookView {
            id: self.id as int,
            title: self.title@,
            author: self.author.deep_view(),
            published_date: self.published_date,
            stock: self.stock as int,
            created_at: self.created_at as int,
        }
    }
}

impl Clone for Book {
    /// A clone carries the same record value.
    fn clone(&self) -> (r: Book)
        ensures
            r@ == self@,
    {
        Book {
            id: self.id,
            title: self.title.clone(),
            author: match &self.author {
                Some(a) => Some(a.clone()),
                None => None,
            },
            published_date: self.published_date,
            stock: self.stock,
            created_at: self.created_at,
        }
    }
}

/// The client-supplied fields of a create or update request.
pub struct BookPayload {
    pub title: String,
    pub author: Option<String>,
    pub stock: i32,
    pub published_date: Option<Date>,
}

/// The mathematical value of a payload.
pub struct PayloadView {
    pub title: Seq<char>,
    pub author: Option<Seq<char>>,
    pub stock: int,
    pub published_date: Option<Date>,
}

impl View for BookPayload {
    type V = PayloadView;

    open spec fn view(&self) -> PayloadView {
        PayloadView {
            title: self.title@,
            author: self.author.deep_view(),
            stock: self.stock as int,
            published_date: self.published_date,
        }
    }
}

impl BookPayload {
    /// What a decoded payload guarantees: a present date names a real
    /// calendar day.
    pub open spec fn wf(self) -> bool {
        match self.published_date {
            Some(d) => d.valid(),
            None => true,
        }
    }
}

/// Whether a title passes validation: non-empty after trimming.
pub open spec fn title_acceptable(t: Seq<char>) -> bool {
    trim_spec(t).len() > 0
}

/// The stored form of the author field: trimmed, with an empty result
/// stored as absent rather than as an empty string.
pub open spec fn normalize_author_spec(a: Option<Seq<char>>) -> Option<Seq<char>> {
    match a {
        Some(s) => if trim_spec(s).len() == 0 {
            None
        } else {
            Some(trim_spec(s))
        },
        None => None,
    }
}

/// Runtime test of `title_acceptable`.
pub fn title_ok(title: &str) -> (r: bool)
    ensures
        r == title_acceptable(title@),
{
    let t = trim_str(title);
    !t.as_str().is_empty()
}

/// Validates and trims a title; `None` when it is empty after trimming.
pub fn normalize_title(title: &str) -> (r: Option<String>)
    ensures
        match r {
            Some(t) => title_acceptable(title@) && t@ == trim_spec(title@),
            None => !title_acceptable(title@),
        },
{
    let t = trim_str(title);
    if t.as_str().is_empty() {
        None
    } else {
        Some(t)
    }
}

/// Trims the author field, turning a blank entry into an absent one.
pub fn normalize_author(author: &Option<String>) -> (r: Option<String>)
    ensures
        r.deep_view() == normalize_author_spec(author.deep_view()),
{
    match author {
        Some(a) => {
            let t = trim_str(a.as_str());
            if t.as_str().is_empty() {
                None
            } else {
                Some(t)
            }
        },
        None => None,
    }
}

} // verus!
