//! The fixed seed data: five records applied at startup.

use vstd::prelude::*;
use crate::book::{Book, BookView};

verus! {

/// How many seed records there are.
pub open spec fn seed_len() -> int {
    5
}

/// The seed record at position `i`, as a model value.
pub open spec fn seed_view(i: int) -> BookView {
    if i == 0 {
        BookView {
            id: 1u32,
            title: "The Rust Programming Language"@,
            author: "Steve Klabnik"@,
            year: 2019u16,
        }
    } else if i == 1 {
        BookView {
            id: 2u32,
            title: "The Go Programming Language"@,
            author: "Alan Donovan"@,
            year: 2015u16,
        }
    } else if i == 2 {
        BookView {
            id: 3u32,
            title: "Designing Data-Intensive Applications"@,
            author: "Martin Kleppmann"@,
            year: 2017u16,
        }
    } else if i == 3 {
        BookView {
            id: 4u32,
            title: "Clean Code"@,
            author: "Robert C. Martin"@,
            year: 2008u16,
        }
    } else {
        BookView {
            id: 5u32,
            title: "Structure and Interpretation of Computer Programs"@,
            author: "Harold Abelson"@,
            year: 1996u16,
        }
    }
}

/// Builds the seed record at position `i`.
pub fn make_seed_book(i: usize) -> (r: Book)
    requires
        0 <= i < seed_len(),
    ensures
        r@ == seed_view(i as int),
        r.wf(),
{
    proof {
        reveal_strlit("The Rust Programming Language");
        reveal_strlit("Steve Klabnik");
        reveal_strlit("The Go Programming Language");
        reveal_strlit("Alan Donovan");
        reveal_strlit("Designing Data-Intensive Applications");
        reveal_strlit("Martin Kleppmann");
        reveal_strlit("Clean Code");
        reveal_strlit("Robert C. Martin");
        reveal_strlit("Structure and Interpretation of Computer Programs");
        reveal_strlit("Harold Abelson");
    }
    if i == 0 {
        Book::new(1, "The Rust Programming Language".to_owned(), "Steve Klabnik".to_owned(), 2019)
    } else if i == 1 {
        Book::new(2, "The Go Programming Language".to_owned(), "Alan Donovan".to_owned(), 2015)
    } else if i == 2 {
        Book::new(
            3,
            "Designing Data-Intensive Applications".to_owned(),
            "Martin Kleppmann".to_owned(),
            2017,
        )
    } else if i == 3 {
        Book::new(4, "Clean Code".to_owned(), "Robert C. Martin".to_owned(), 2008)
    } else {
        Book::new(
            5,
            "Structure and Interpretation of Computer Programs".to_owned(),
            "Harold Abelson".to_owned(),
            1996,
        )
    }
}

/// All five seed records, in order of their identifiers.
pub fn seed_books() -> (r: Vec<Book>)
    ensures
        r@.len() == seed_len(),
        forall|i: int| 0 <= i < seed_len() ==> #[trigger] r@[i]@ == seed_view(i),
        forall|i: int| 0 <= i < seed_len() ==> #[trigger] r@[i].wf(),
{
    let mut r: Vec<Book> = Vec::new();
    let mut i: usize = 0;
    while i < 5
        invariant
            0 <= i <= 5,
            r@.len() == i,
            forall|j: int| 0 <= j < i ==> #[trigger] r@[j]@ == seed_view(j),
            forall|j: int| 0 <= j < i ==> #[trigger] r@[j].wf(),
        decreases 5 - i,
    {
        r.push(make_seed_book(i));
        i += 1;
    }
    r
}

} // verus!
