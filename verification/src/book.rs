//! The book record: the sole entity of the catalog.

use vstd::prelude::*;

verus! {

/// Mathematical model of a [`Book`]: the identifier, the title and
/// author as character sequences, and the publication year.
#[verifier::ext_equal]
pub ghost struct BookView {
    pub id: u32,
    pub title: Seq<char>,
    pub author: Seq<char>,
    pub year: u16,
}

/// A single catalog record.  `id` uniquely identifies a book within a
/// catalog; `title` and `author` are non-empty text; `year` is the
/// publication year.
pub struct Book {
    pub id: u32,
    pub title: String,
    pub author: String,
    pub year: u16,
}

impl View for Book {
    type V = BookView;

    open spec fn view(&self) -> BookView {
        BookView { id: self.id, title: self.title@, author: self.author@, year: self.year }
    }
}

impl Book {
    /// Well-formedness: the title and the author are non-empty.
    pub open spec fn wf(self) -> bool {
        self.title@.len() > 0 && self.author@.len() > 0
    }

    /// Builds a record from its four fields.
    pub fn new(id: u32, title: String, author: String, year: u16) -> (r: Book)
        ensures
            r@ == (BookView { id, title: title@, author: author@, year }),
    {
        Book { id, title, author, year }
    }

    /// An identical copy of the record.
    pub fn duplicate(&self) -> (r: Book)
        ensures
            r@ == self@,
            r.wf() == self.wf(),
    {
        Book {
            id: self.id,
            title: self.title.clone(),
            author: self.author.clone(),
            year: self.year,
        }
    }
}

} // verus!
