//! The in-memory catalog: records keyed by a unique identifier,
//! filled once by an idempotent insert-if-absent policy.

use vstd::prelude::*;
use crate::book::{Book, BookView};
use crate::seed::{seed_len, seed_view};

verus! {

/// How a lookup can fail: the requested record is absent, or the
/// backing store itself failed (pool exhaustion, I/O).  The in-memory
/// catalog only ever reports `NotFound`; `Storage` exists for callers
/// that stand between a fallible store and the response mapping.
#[derive(Clone, Copy, PartialEq, Eq, Structural, Debug)]
pub enum StoreError {
    NotFound,
    Storage,
}

/// Is a record with identifier `id` present?
pub open spec fn has_id(s: Seq<BookView>, id: u32) -> bool {
    exists|i: int| 0 <= i < s.len() && s[i].id == id
}

/// The position of the record with identifier `id` (meaningful only
/// when `has_id(s, id)` holds).
pub open spec fn idx_of_id(s: Seq<BookView>, id: u32) -> int {
    choose|i: int| 0 <= i < s.len() && s[i].id == id
}

/// The record with identifier `id` (meaningful only when
/// `has_id(s, id)` holds).
pub open spec fn book_with_id(s: Seq<BookView>, id: u32) -> BookView {
    s[idx_of_id(s, id)]
}

/// No two records share an identifier.
pub open spec fn unique_ids(s: Seq<BookView>) -> bool {
    forall|i: int, j: int| 0 <= i < j < s.len() ==> s[i].id != s[j].id
}

/// The insert-if-absent policy: a record whose identifier is already
/// present leaves the catalog unchanged; otherwise it is appended.
pub open spec fn insert_view(s: Seq<BookView>, b: BookView) -> Seq<BookView> {
    if has_id(s, b.id) {
        s
    } else {
        s.push(b)
    }
}

/// The catalog after the first `n` seed records have been applied.
pub open spec fn seeded_prefix(s: Seq<BookView>, n: int) -> Seq<BookView>
    decreases n,
{
    if n <= 0 {
        s
    } else {
        insert_view(seeded_prefix(s, n - 1), seed_view(n - 1))
    }
}

/// The catalog after all five seed records have been applied.
pub open spec fn apply_seeds(s: Seq<BookView>) -> Seq<BookView> {
    seeded_prefix(s, seed_len())
}

/// The read-only catalog of book records.
pub struct Catalog {
    books: Vec<Book>,
}

impl View for Catalog {
    type V = Seq<BookView>;

    closed spec fn view(&self) -> Seq<BookView> {
        self.books@.map_values(|b: Book| b@)
    }
}

impl Catalog {
    /// Well-formedness: identifiers are unique and every record has
    /// non-empty title and author.
    pub closed spec fn wf(self) -> bool {
        unique_ids(self@) && forall|i: int| 0 <= i < self.books@.len()
            ==> (#[trigger] self.books@[i]).wf()
    }

    /// A well-formed catalog has unique identifiers.  `wf` is opaque
    /// outside this module; this is what callers may rely on, and it
    /// is what makes the record [`book_with_id`] in `get_by_id`'s
    /// contract the unique match.
    pub proof fn lemma_wf_unique(self)
        requires
            self.wf(),
        ensures
            unique_ids(self@),
    {
    }

    /// An empty catalog.
    pub fn new() -> (r: Catalog)
        ensures
            r@ == Seq::<BookView>::empty(),
            r.wf(),
    {
        let r = Catalog { books: Vec::new() };
        proof {
            assert(r@ =~= Seq::<BookView>::empty());
        }
        r
    }

    /// How many records the catalog holds.
    pub fn len(&self) -> (n: usize)
        ensures
            n == self@.len(),
    {
        self.books.len()
    }

    /// Is a record with identifier `id` present?
    pub fn contains_id(&self, id: u32) -> (b: bool)
        ensures
            b == has_id(self@, id),
    {
        let mut i: usize = 0;
        while i < self.books.len()
            invariant
                i <= self.books@.len(),
                self@.len() == self.books@.len(),
                forall|j: int| 0 <= j < i ==> #[trigger] self@[j].id != id,
            decreases self.books@.len() - i,
        {
            if self.books[i].id == id {
                assert(self@[i as int].id == id);
                return true;
            }
            assert(self@[i as int] == self.books@[i as int]@);
            i += 1;
        }
        false
    }

    /// Inserts `b` unless a record with its identifier is already
    /// present; reruns with the same record change nothing.
    pub fn insert_if_absent(&mut self, b: Book)
        requires
            old(self).wf(),
            b.wf(),
        ensures
            final(self).wf(),
            final(self)@ == insert_view(old(self)@, b@),
            has_id(final(self)@, b@.id),
    {
        if !self.contains_id(b.id) {
            let ghost prev = self.books@;
            self.books.push(b);
            proof {
                assert(self.books@ == prev.push(b));
                assert(self@ =~= old(self)@.push(b@)) by {
                    assert forall|i: int| 0 <= i < prev.len() implies #[trigger] self@[i]
                        == old(self)@[i] by {
                        assert(self.books@[i] == prev[i]);
                    }
                    assert(self.books@[prev.len() as int] == b);
                }
                assert forall|i: int, j: int| 0 <= i < j < self@.len() implies self@[i].id
                    != self@[j].id by {
                    if j < old(self)@.len() {
                        assert(old(self)@[i].id != old(self)@[j].id);
                    } else {
                        assert(self@[j] == b@);
                        assert(!has_id(old(self)@, b@.id));
                        assert(self@[i] == old(self)@[i]);
                    }
                }
                assert(self@[old(self)@.len() as int] == b@);
            }
        }
    }

    /// Applies the five seed records with the insert-if-absent
    /// policy.  Running it on an already seeded catalog changes
    /// nothing.
    pub fn initialize(&mut self)
        requires
            old(self).wf(),
        ensures
            final(self).wf(),
            final(self)@ == apply_seeds(old(self)@),
    {
        let ghost s0: Seq<BookView> = self@;
        let mut i: usize = 0;
        while i < 5
            invariant
                i <= 5,
                self.wf(),
                self@ == seeded_prefix(s0, i as int),
            decreases 5 - i,
        {
            let b = crate::seed::make_seed_book(i);
            self.insert_if_absent(b);
            assert(self@ == seeded_prefix(s0, i as int + 1));
            i += 1;
        }
    }

    /// Looks a record up by its identifier.  Succeeds exactly when a
    /// record with that identifier is present, and then returns that
    /// record; an absent identifier is reported as `NotFound`, never
    /// as a storage failure.
    pub fn get_by_id(&self, id: u32) -> (r: Result<Book, StoreError>)
        requires
            self.wf(),
        ensures
            r is Ok <==> has_id(self@, id),
            r matches Ok(b) ==> b@.id == id && b@ == book_with_id(self@, id) && b.wf(),
            r matches Err(e) ==> e is NotFound,
    {
        let mut i: usize = 0;
        while i < self.books.len()
            invariant
                i <= self.books@.len(),
                self@.len() == self.books@.len(),
                self.wf(),
                forall|j: int| 0 <= j < i ==> #[trigger] self@[j].id != id,
            decreases self.books@.len() - i,
        {
            if self.books[i].id == id {
                let b = self.books[i].duplicate();
                proof {
                    assert(self@[i as int] == self.books@[i as int]@);
                    let k = idx_of_id(self@, id);
                    assert(0 <= k < self@.len() && self@[k].id == id);
                    if k != i as int {
                        assert(self@[k].id != self@[i as int].id);
                    }
                }
                return Ok(b);
            }
            assert(self@[i as int] == self.books@[i as int]@);
            i += 1;
        }
        Err(StoreError::NotFound)
    }

    /// Every record, in storage order.
    pub fn list_all(&self) -> (r: Vec<Book>)
        ensures
            r@.len() == self@.len(),
            forall|i: int| 0 <= i < self@.len() ==> #[trigger] r@[i]@ == self@[i],
    {
        let mut r: Vec<Book> = Vec::new();
        let mut i: usize = 0;
        while i < self.books.len()
            invariant
                i <= self.books@.len(),
                self@.len() == self.books@.len(),
                r@.len() == i,
                forall|j: int| 0 <= j < i ==> #[trigger] r@[j]@ == self@[j],
            decreases self.books@.len() - i,
        {
            let b = self.books[i].duplicate();
            proof {
                assert(self@[i as int] == self.books@[i as int]@);
            }
            r.push(b);
            i += 1;
        }
        r
    }
}

/// Inserting a record disturbs no identifier already present, and
/// afterwards the inserted record's identifier is present.
proof fn lemma_insert_view_has_id(s: Seq<BookView>, b: BookView, id: u32)
    ensures
        has_id(s, id) ==> has_id(insert_view(s, b), id),
        has_id(insert_view(s, b), b.id),
{
    if !has_id(s, b.id) {
        assert(insert_view(s, b)[s.len() as int] == b);
        if has_id(s, id) {
            let i = choose|i: int| 0 <= i < s.len() && s[i].id == id;
            assert(insert_view(s, b)[i].id == id);
        }
    }
}

/// After the first `n` seeds are applied, every one of their
/// identifiers is present.
proof fn lemma_seeded_prefix_has_ids(s: Seq<BookView>, n: int, j: int)
    requires
        0 <= j < n <= seed_len(),
    ensures
        has_id(seeded_prefix(s, n), seed_view(j).id),
    decreases n,
{
    if j < n - 1 {
        lemma_seeded_prefix_has_ids(s, n - 1, j);
    }
    lemma_insert_view_has_id(seeded_prefix(s, n - 1), seed_view(n - 1), seed_view(j).id);
}

/// A catalog that already holds every seed identifier is left
/// unchanged by seeding.
proof fn lemma_seeded_prefix_fixed(t: Seq<BookView>, n: int)
    requires
        0 <= n <= seed_len(),
        forall|j: int| 0 <= j < seed_len() ==> has_id(t, #[trigger] seed_view(j).id),
    ensures
        seeded_prefix(t, n) == t,
    decreases n,
{
    if n > 0 {
        lemma_seeded_prefix_fixed(t, n - 1);
    }
}

/// Law: seeding is idempotent.  Applying the seed records to an
/// already seeded catalog changes nothing, whatever the catalog held
/// before the first seeding.
pub proof fn lemma_apply_seeds_idempotent(s: Seq<BookView>)
    ensures
        apply_seeds(apply_seeds(s)) == apply_seeds(s),
{
    let t = apply_seeds(s);
    assert forall|j: int| 0 <= j < seed_len() implies has_id(
        t,
        #[trigger] seed_view(j).id,
    ) by {
        lemma_seeded_prefix_has_ids(s, seed_len(), j);
    }
    lemma_seeded_prefix_fixed(t, seed_len());
}

/// Law: seeding an empty catalog yields exactly the five seed
/// records, in order.
pub proof fn lemma_apply_seeds_empty()
    ensures
        apply_seeds(Seq::<BookView>::empty()).len() == seed_len(),
        forall|i: int| 0 <= i < seed_len() ==> apply_seeds(Seq::<BookView>::empty())[i]
            == seed_view(i),
{
    let s0 = Seq::<BookView>::empty();
    let s1 = seeded_prefix(s0, 1);
    let s2 = seeded_prefix(s0, 2);
    let s3 = seeded_prefix(s0, 3);
    let s4 = seeded_prefix(s0, 4);
    let s5 = seeded_prefix(s0, 5);
    assert(seeded_prefix(s0, 0) == s0);
    assert(s1 == insert_view(s0, seed_view(0)));
    assert(s2 == insert_view(s1, seed_view(1)));
    assert(s3 == insert_view(s2, seed_view(2)));
    assert(s4 == insert_view(s3, seed_view(3)));
    assert(s5 == insert_view(s4, seed_view(4)));
    assert(!has_id(s0, seed_view(0).id));
    assert(s1 == s0.push(seed_view(0)));
    assert(s1[0] == seed_view(0));
    assert(!has_id(s1, seed_view(1).id));
    assert(s2 == s1.push(seed_view(1)));
    assert(!has_id(s2, seed_view(2).id));
    assert(s3 == s2.push(seed_view(2)));
    assert(!has_id(s3, seed_view(3).id));
    assert(s4 == s3.push(seed_view(3)));
    assert(!has_id(s4, seed_view(4).id));
    assert(s5 == s4.push(seed_view(4)));
}

/// Law: a fresh, seeded catalog holds exactly the identifiers 1
/// through 5.  With `get_by_id`'s contract this says that every
/// identifier in that range is found with its own record, and that
/// any other identifier is reported `NotFound`, never as a storage
/// failure.
pub proof fn lemma_fresh_ids(id: u32)
    ensures
        has_id(apply_seeds(Seq::<BookView>::empty()), id) <==> (1 <= id <= 5),
{
    lemma_apply_seeds_empty();
    let t = apply_seeds(Seq::<BookView>::empty());
    if 1 <= id && id <= 5 {
        let i: int = id as int - 1;
        assert(t[i] == seed_view(i));
        assert(t[i].id == id);
    }
    if has_id(t, id) {
        let i = choose|i: int| 0 <= i < t.len() && t[i].id == id;
        assert(t[i] == seed_view(i));
        assert(1 <= seed_view(i).id <= 5);
    }
}

/// Law: seeding a fresh catalog twice still yields exactly five
/// records, never ten.
pub proof fn lemma_seed_twice_exactly_five()
    ensures
        apply_seeds(apply_seeds(Seq::<BookView>::empty())).len() == 5,
{
    lemma_apply_seeds_idempotent(Seq::<BookView>::empty());
    lemma_apply_seeds_empty();
}

} // verus!
