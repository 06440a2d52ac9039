//! The checkout ledger.
//!
//! The ledger owns two record sets: the active loans (at most one per book)
//! and the immutable archive of returned loans. Creating a loan checks,
//! inside what the production store would make one serializable
//! transaction, that the book exists and is not already on loan; returning
//! a loan moves it atomically from the active set to the archive. The
//! in-memory implementation here owns both sets directly, so the
//! check-then-act unit is a single `&mut self` call and the isolation the
//! production store must provide is a fact of the semantics.

use vstd::prelude::*;

use crate::error::{AppError, AppResult};
use crate::model::checkout::{Checkout, CheckoutBook, CreateCheckout, UpdateReturned};
use crate::model::id::{BookId, CheckoutId, UserId};
use crate::seqtools::{lemma_filter_membership, lemma_filter_push};

verus! {

/// A book row: the descriptive data the ledger joins into loan views.
pub struct BookRecord {
    pub book_id: BookId,
    pub title: String,
    pub author: String,
    pub isbn: String,
}

/// An active loan row.
#[derive(Clone, Copy)]
pub struct ActiveLoan {
    pub checkout_id: CheckoutId,
    pub book_id: BookId,
    pub checked_out_by: UserId,
    pub checked_out_at: i64,
}

/// An archived loan row: an active loan plus the time it was returned.
#[derive(Clone, Copy)]
pub struct ReturnedLoan {
    pub checkout_id: CheckoutId,
    pub book_id: BookId,
    pub checked_out_by: UserId,
    pub checked_out_at: i64,
    pub returned_at: i64,
}

/// The checkout ledger over an in-memory store.
pub struct CheckoutRepositoryImpl {
    books: Vec<BookRecord>,
    active: Vec<ActiveLoan>,
    returned: Vec<ReturnedLoan>,
    next_checkout_id: u64,
}

// ---------------------------------------------------------------------------
// The spec-level model: lookups, orderings and views over the record sets.
// ---------------------------------------------------------------------------

/// True if a book with this id is registered.
pub open spec fn has_book(books: Seq<BookRecord>, id: BookId) -> bool {
    exists|i: int| 0 <= i < books.len() && books[i].book_id == id
}

/// The registered book with this id.
pub open spec fn book_of(books: Seq<BookRecord>, id: BookId) -> BookRecord {
    books[choose|i: int| 0 <= i < books.len() && books[i].book_id == id]
}

/// True if some active loan concerns this book.
pub open spec fn has_active_for_book(active: Seq<ActiveLoan>, id: BookId) -> bool {
    exists|i: int| 0 <= i < active.len() && active[i].book_id == id
}

/// The active loan of this book.
pub open spec fn active_for_book(active: Seq<ActiveLoan>, id: BookId) -> ActiveLoan {
    active[choose|i: int| 0 <= i < active.len() && active[i].book_id == id]
}

/// True if some active loan has this loan id.
pub open spec fn has_active_id(active: Seq<ActiveLoan>, id: CheckoutId) -> bool {
    exists|i: int| 0 <= i < active.len() && active[i].checkout_id == id
}

/// The index of the active loan with this loan id.
pub open spec fn active_index_of_id(active: Seq<ActiveLoan>, id: CheckoutId) -> int {
    choose|i: int| 0 <= i < active.len() && active[i].checkout_id == id
}

/// The active set is kept ordered by checkout time, oldest first.
pub open spec fn sorted_asc(s: Seq<ActiveLoan>) -> bool {
    forall|i: int, j: int|
        0 <= i < j < s.len() ==> #[trigger] s[i].checked_out_at <= #[trigger] s[j].checked_out_at
}

/// The archive is kept ordered by checkout time, newest first.
pub open spec fn sorted_desc(s: Seq<ReturnedLoan>) -> bool {
    forall|i: int, j: int|
        0 <= i < j < s.len() ==> #[trigger] s[i].checked_out_at >= #[trigger] s[j].checked_out_at
}

/// Where a loan checked out at `t` is inserted into the active set: after
/// every loan checked out at or before `t`.
pub open spec fn insert_pos_asc(s: Seq<ActiveLoan>, t: i64) -> int
    decreases s.len(),
{
    if s.len() == 0 {
        0
    } else if s.first().checked_out_at <= t {
        1 + insert_pos_asc(s.drop_first(), t)
    } else {
        0
    }
}

/// Where a loan checked out at `t` is inserted into the archive: after
/// every archived loan checked out at or after `t`.
pub open spec fn insert_pos_desc(s: Seq<ReturnedLoan>, t: i64) -> int
    decreases s.len(),
{
    if s.len() == 0 {
        0
    } else if s.first().checked_out_at >= t {
        1 + insert_pos_desc(s.drop_first(), t)
    } else {
        0
    }
}

/// The predicate selecting a borrower's loans.
pub open spec fn by_borrower(user_id: UserId) -> spec_fn(ActiveLoan) -> bool {
    |l: ActiveLoan| l.checked_out_by == user_id
}

/// The predicate selecting a book's archived loans.
pub open spec fn archived_for_book(book_id: BookId) -> spec_fn(ReturnedLoan) -> bool {
    |r: ReturnedLoan| r.book_id == book_id
}

/// The loan view of an active loan, joined with its book's data.
pub open spec fn checkout_of_active(books: Seq<BookRecord>, l: ActiveLoan) -> Checkout {
    Checkout {
        id: l.checkout_id,
        checked_out_by: l.checked_out_by,
        checked_out_at: l.checked_out_at,
        returned_at: None,
        book: CheckoutBook {
            book_id: l.book_id,
            title: book_of(books, l.book_id).title,
            author: book_of(books, l.book_id).author,
            isbn: book_of(books, l.book_id).isbn,
        },
    }
}

/// The loan view of an archived loan, joined with its book's data.
pub open spec fn checkout_of_returned(books: Seq<BookRecord>, r: ReturnedLoan) -> Checkout {
    Checkout {
        id: r.checkout_id,
        checked_out_by: r.checked_out_by,
        checked_out_at: r.checked_out_at,
        returned_at: Some(r.returned_at),
        book: CheckoutBook {
            book_id: r.book_id,
            title: book_of(books, r.book_id).title,
            author: book_of(books, r.book_id).author,
            isbn: book_of(books, r.book_id).isbn,
        },
    }
}

/// The loan views of a sequence of active loans, in order.
pub open spec fn active_views(books: Seq<BookRecord>, s: Seq<ActiveLoan>) -> Seq<Checkout> {
    s.map_values(|l: ActiveLoan| checkout_of_active(books, l))
}

/// The loan views of a sequence of archived loans, in order.
pub open spec fn returned_views(books: Seq<BookRecord>, s: Seq<ReturnedLoan>) -> Seq<Checkout> {
    s.map_values(|r: ReturnedLoan| checkout_of_returned(books, r))
}

/// What listing one book's history returns: the book's active loan first,
/// if any, then its archived loans, newest checkout first. The prepend is a
/// deliberate, simple policy: the active loan is always presented as the
/// most recent entry, whatever its timestamp.
pub open spec fn book_history_view(
    books: Seq<BookRecord>,
    active: Seq<ActiveLoan>,
    returned: Seq<ReturnedLoan>,
    book_id: BookId,
) -> Seq<Checkout> {
    let archived = returned_views(books, returned.filter(archived_for_book(book_id)));
    if has_active_for_book(active, book_id) {
        seq![checkout_of_active(books, active_for_book(active, book_id))] + archived
    } else {
        archived
    }
}

impl CheckoutRepositoryImpl {
    /// The registered books.
    pub closed spec fn books(&self) -> Seq<BookRecord> {
        self.books@
    }

    /// The active loans, ordered by checkout time ascending.
    pub closed spec fn active(&self) -> Seq<ActiveLoan> {
        self.active@
    }

    /// The archived loans, ordered by checkout time descending.
    pub closed spec fn returned(&self) -> Seq<ReturnedLoan> {
        self.returned@
    }

    /// The next loan id to be handed out; every id in use is below it.
    pub closed spec fn next_id(&self) -> u64 {
        self.next_checkout_id
    }

    /// Well-formedness of the ledger.
    pub open spec fn wf(&self) -> bool {
        let books = self.books();
        let active = self.active();
        let returned = self.returned();
        // books are registered once
        &&& forall|i: int, j: int|
            0 <= i < j < books.len() ==> #[trigger] books[i].book_id != #[trigger] books[j].book_id
        // mutual exclusion: at most one active loan per book
        &&& forall|i: int, j: int|
            0 <= i < j < active.len() ==> #[trigger] active[i].book_id != #[trigger] active[j].book_id
        // loan ids are unique among active loans, among archived loans,
        // and between the two sets
        &&& forall|i: int, j: int|
            0 <= i < j < active.len() ==> #[trigger] active[i].checkout_id != #[trigger] active[j].checkout_id
        &&& forall|i: int, j: int|
            0 <= i < j < returned.len() ==> #[trigger] returned[i].checkout_id != #[trigger] returned[j].checkout_id
        &&& forall|i: int, j: int|
            0 <= i < active.len() && 0 <= j < returned.len() ==> #[trigger] active[i].checkout_id
                != #[trigger] returned[j].checkout_id
        // every id in use was handed out earlier than the next one
        &&& forall|i: int| 0 <= i < active.len() ==> (#[trigger] active[i].checkout_id).0 < self.next_id()
        &&& forall|i: int|
            0 <= i < returned.len() ==> (#[trigger] returned[i].checkout_id).0 < self.next_id()
        // loans only concern registered books
        &&& forall|i: int| 0 <= i < active.len() ==> has_book(books, (#[trigger] active[i]).book_id)
        &&& forall|i: int| 0 <= i < returned.len() ==> has_book(books, (#[trigger] returned[i]).book_id)
        // the orderings the read side relies on
        &&& sorted_asc(active)
        &&& sorted_desc(returned)
    }

    /// An empty ledger.
    pub fn new() -> (res: Self)
        ensures
            res.wf(),
            res.books().len() == 0,
            res.active().len() == 0,
            res.returned().len() == 0,
            res.next_id() == 0,
    {
        CheckoutRepositoryImpl {
            books: Vec::new(),
            active: Vec::new(),
            returned: Vec::new(),
            next_checkout_id: 0,
        }
    }

    /// Register a book, so that it can be lent. A book id can be
    /// registered only once; a second registration fails as the store's
    /// key violation would.
    pub fn register_book(&mut self, book: BookRecord) -> (res: AppResult<()>)
        requires
            old(self).wf(),
        ensures
            final(self).wf(),
            has_book(old(self).books(), book.book_id) ==> {
                &&& res matches Err(e)
                &&& e matches AppError::SpecificOperationError(_)
                &&& state_unchanged(*old(self), *final(self))
            },
            !has_book(old(self).books(), book.book_id) ==> {
                &&& res matches Ok(_)
                &&& final(self).books() == old(self).books().push(book)
                &&& final(self).active() == old(self).active()
                &&& final(self).returned() == old(self).returned()
                &&& final(self).next_id() == old(self).next_id()
            },
    {
        if self.book_index(book.book_id).is_some() {
            return Err(
                AppError::SpecificOperationError("a book with this id is already registered".to_owned()),
            );
        }
        let ghost old_books = self.books@;
        self.books.push(book);
        proof {
            assert forall|i: int|
                0 <= i < self.active@.len() implies has_book(self.books@, (#[trigger] self.active@[i]).book_id) by {
                let k = choose|k: int|
                    0 <= k < old_books.len() && old_books[k].book_id == self.active@[i].book_id;
                assert(self.books@[k].book_id == self.active@[i].book_id);
            }
            assert forall|i: int|
                0 <= i < self.returned@.len() implies has_book(
                self.books@,
                (#[trigger] self.returned@[i]).book_id,
            ) by {
                let k = choose|k: int|
                    0 <= k < old_books.len() && old_books[k].book_id == self.returned@[i].book_id;
                assert(self.books@[k].book_id == self.returned@[i].book_id);
            }
        }
        Ok(())
    }

    /// The index of the book with this id, if it is registered.
    fn book_index(&self, id: BookId) -> (res: Option<usize>)
        ensures
            match res {
                Some(i) => i < self.books().len() && self.books()[i as int].book_id == id,
                None => !has_book(self.books(), id),
            },
    {
        let mut i: usize = 0;
        while i < self.books.len()
            invariant
                i <= self.books.len(),
                forall|j: int| 0 <= j < i ==> (#[trigger] self.books@[j]).book_id != id,
            decreases self.books.len() - i,
        {
            if self.books[i].book_id == id {
                return Some(i);
            }
            i += 1;
        }
        None
    }

    /// The index of the active loan of this book, if there is one.
    fn active_index_by_book(&self, id: BookId) -> (res: Option<usize>)
        ensures
            match res {
                Some(i) => i < self.active().len() && self.active()[i as int].book_id == id,
                None => !has_active_for_book(self.active(), id),
            },
    {
        let mut i: usize = 0;
        while i < self.active.len()
            invariant
                i <= self.active.len(),
                forall|j: int| 0 <= j < i ==> (#[trigger] self.active@[j]).book_id != id,
            decreases self.active.len() - i,
        {
            if self.active[i].book_id == id {
                return Some(i);
            }
            i += 1;
        }
        None
    }

    /// The index of the active loan with this loan id, if there is one.
    fn active_index_by_id(&self, id: CheckoutId) -> (res: Option<usize>)
        ensures
            match res {
                Some(i) => i < self.active().len() && self.active()[i as int].checkout_id == id,
                None => !has_active_id(self.active(), id),
            },
    {
        let mut i: usize = 0;
        while i < self.active.len()
            invariant
                i <= self.active.len(),
                forall|j: int| 0 <= j < i ==> (#[trigger] self.active@[j]).checkout_id != id,
            decreases self.active.len() - i,
        {
            if self.active[i].checkout_id == id {
                return Some(i);
            }
            i += 1;
        }
        None
    }

    /// The loan view of one active loan.
    fn view_of_active(&self, l: &ActiveLoan) -> (c: Checkout)
        requires
            self.wf(),
            has_book(self.books(), l.book_id),
        ensures
            c == checkout_of_active(self.books(), *l),
    {
        let i = match self.book_index(l.book_id) {
            Some(i) => i,
            None => {
                proof {
                    assert(false);
                }
                0
            },
        };
        let b = &self.books[i];
        proof {
            let k = choose|k: int|
                0 <= k < self.books().len() && self.books()[k].book_id == l.book_id;
            if k != i {
                assert(false);
            }
        }
        Checkout {
            id: l.checkout_id,
            checked_out_by: l.checked_out_by,
            checked_out_at: l.checked_out_at,
            returned_at: None,
            book: CheckoutBook {
                book_id: l.book_id,
                title: b.title.clone(),
                author: b.author.clone(),
                isbn: b.isbn.clone(),
            },
        }
    }

    /// The loan view of one archived loan.
    fn view_of_returned(&self, r: &ReturnedLoan) -> (c: Checkout)
        requires
            self.wf(),
            has_book(self.books(), r.book_id),
        ensures
            c == checkout_of_returned(self.books(), *r),
    {
        let i = match self.book_index(r.book_id) {
            Some(i) => i,
            None => {
                proof {
                    assert(false);
                }
                0
            },
        };
        let b = &self.books[i];
        proof {
            let k = choose|k: int|
                0 <= k < self.books().len() && self.books()[k].book_id == r.book_id;
            if k != i {
                assert(false);
            }
        }
        Checkout {
            id: r.checkout_id,
            checked_out_by: r.checked_out_by,
            checked_out_at: r.checked_out_at,
            returned_at: Some(r.returned_at),
            book: CheckoutBook {
                book_id: r.book_id,
                title: b.title.clone(),
                author: b.author.clone(),
                isbn: b.isbn.clone(),
            },
        }
    }
}

// ---------------------------------------------------------------------------
// Lemmas relating the view functions to one-element steps.
// ---------------------------------------------------------------------------

proof fn lemma_active_views_push(books: Seq<BookRecord>, s: Seq<ActiveLoan>, l: ActiveLoan)
    ensures
        active_views(books, s.push(l)) == active_views(books, s).push(
            checkout_of_active(books, l),
        ),
{
    assert(active_views(books, s.push(l)) =~= active_views(books, s).push(
        checkout_of_active(books, l),
    ));
}

proof fn lemma_returned_views_push(books: Seq<BookRecord>, s: Seq<ReturnedLoan>, r: ReturnedLoan)
    ensures
        returned_views(books, s.push(r)) == returned_views(books, s).push(
            checkout_of_returned(books, r),
        ),
{
    assert(returned_views(books, s.push(r)) =~= returned_views(books, s).push(
        checkout_of_returned(books, r),
    ));
}

impl CheckoutRepositoryImpl {
    /// All active loans, joined with their books' data, oldest checkout
    /// first.
    pub fn find_unreturned_all(&self) -> (res: AppResult<Vec<Checkout>>)
        requires
            self.wf(),
        ensures
            res matches Ok(v) && v@ == active_views(self.books(), self.active()),
    {
        let mut out: Vec<Checkout> = Vec::new();
        let mut i: usize = 0;
        while i < self.active.len()
            invariant
                self.wf(),
                i <= self.active.len(),
                out@ == active_views(self.books(), self.active().take(i as int)),
            decreases self.active.len() - i,
        {
            proof {
                assert(has_book(self.books(), self.active()[i as int].book_id));
            }
            let c = self.view_of_active(&self.active[i]);
            out.push(c);
            proof {
                assert(self.active().take(i as int + 1) =~= self.active().take(i as int).push(
                    self.active()[i as int],
                ));
                lemma_active_views_push(
                    self.books(),
                    self.active().take(i as int),
                    self.active()[i as int],
                );
            }
            i += 1;
        }
        proof {
            assert(self.active().take(self.active().len() as int) =~= self.active());
        }
        Ok(out)
    }

    /// A borrower's active loans, joined with their books' data, oldest
    /// checkout first.
    pub fn find_unreturned_by_user_id(&self, user_id: UserId) -> (res: AppResult<Vec<Checkout>>)
        requires
            self.wf(),
        ensures
            res matches Ok(v) && v@ == active_views(
                self.books(),
                self.active().filter(by_borrower(user_id)),
            ),
    {
        let mut out: Vec<Checkout> = Vec::new();
        let mut i: usize = 0;
        while i < self.active.len()
            invariant
                self.wf(),
                i <= self.active.len(),
                out@ == active_views(
                    self.books(),
                    self.active().take(i as int).filter(by_borrower(user_id)),
                ),
            decreases self.active.len() - i,
        {
            let l = self.active[i];
            if l.checked_out_by == user_id {
                proof {
                    assert(has_book(self.books(), self.active()[i as int].book_id));
                }
                let c = self.view_of_active(&l);
                out.push(c);
            }
            proof {
                assert(self.active().take(i as int + 1) =~= self.active().take(i as int).push(
                    self.active()[i as int],
                ));
                lemma_filter_push(
                    self.active().take(i as int),
                    by_borrower(user_id),
                    self.active()[i as int],
                );
                if l.checked_out_by == user_id {
                    lemma_active_views_push(
                        self.books(),
                        self.active().take(i as int).filter(by_borrower(user_id)),
                        self.active()[i as int],
                    );
                }
            }
            i += 1;
        }
        proof {
            assert(self.active().take(self.active().len() as int) =~= self.active());
        }
        Ok(out)
    }

    /// The active loan of one book, if there is one, joined with the
    /// book's data.
    pub fn find_unreturned_by_book_id(&self, book_id: BookId) -> (res: AppResult<Option<Checkout>>)
        requires
            self.wf(),
        ensures
            res matches Ok(o) && o == if has_active_for_book(self.active(), book_id) {
                Some(checkout_of_active(self.books(), active_for_book(self.active(), book_id)))
            } else {
                None::<Checkout>
            },
    {
        match self.active_index_by_book(book_id) {
            Some(i) => {
                proof {
                    assert(has_book(self.books(), self.active()[i as int].book_id));
                    let k = choose|k: int|
                        0 <= k < self.active().len() && self.active()[k].book_id == book_id;
                    if k != i {
                        assert(false);
                    }
                }
                let c = self.view_of_active(&self.active[i]);
                Ok(Some(c))
            },
            None => Ok(None),
        }
    }

    /// One book's full loan history: the active loan first, if any, then
    /// the archived loans, newest checkout first.
    pub fn find_history_by_book_id(&self, book_id: BookId) -> (res: AppResult<Vec<Checkout>>)
        requires
            self.wf(),
        ensures
            res matches Ok(v) && v@ == book_history_view(
                self.books(),
                self.active(),
                self.returned(),
                book_id,
            ),
    {
        let co = match self.find_unreturned_by_book_id(book_id) {
            Ok(o) => o,
            Err(e) => {
                proof {
                    assert(false);
                }
                return Err(e);
            },
        };
        let mut out: Vec<Checkout> = Vec::new();
        let mut i: usize = 0;
        while i < self.returned.len()
            invariant
                self.wf(),
                i <= self.returned.len(),
                out@ == returned_views(
                    self.books(),
                    self.returned().take(i as int).filter(archived_for_book(book_id)),
                ),
            decreases self.returned.len() - i,
        {
            let r = self.returned[i];
            if r.book_id == book_id {
                proof {
                    assert(has_book(self.books(), self.returned()[i as int].book_id));
                }
                let c = self.view_of_returned(&r);
                out.push(c);
            }
            proof {
                assert(self.returned().take(i as int + 1) =~= self.returned().take(i as int).push(
                    self.returned()[i as int],
                ));
                lemma_filter_push(
                    self.returned().take(i as int),
                    archived_for_book(book_id),
                    self.returned()[i as int],
                );
                if r.book_id == book_id {
                    lemma_returned_views_push(
                        self.books(),
                        self.returned().take(i as int).filter(archived_for_book(book_id)),
                        self.returned()[i as int],
                    );
                }
            }
            i += 1;
        }
        proof {
            assert(self.returned().take(self.returned().len() as int) =~= self.returned());
        }
        match co {
            Some(c) => {
                let ghost archived = out@;
                out.insert(0, c);
                proof {
                    assert(archived.insert(0, c) =~= seq![c] + archived);
                }
                Ok(out)
            },
            None => Ok(out),
        }
    }
}

/// True if `post` carries the same state as `pre`.
pub open spec fn state_unchanged(pre: CheckoutRepositoryImpl, post: CheckoutRepositoryImpl) -> bool {
    &&& post.books() == pre.books()
    &&& post.active() == pre.active()
    &&& post.returned() == pre.returned()
    &&& post.next_id() == pre.next_id()
}

/// The active loan that a successful checkout inserts.
pub open spec fn new_loan(next_id: u64, e: CreateCheckout) -> ActiveLoan {
    ActiveLoan {
        checkout_id: CheckoutId(next_id),
        book_id: e.book_id,
        checked_out_by: e.checked_out_by,
        checked_out_at: e.checked_out_at,
    }
}

/// The archived record that a successful return writes: the active loan's
/// fields plus the time of return.
pub open spec fn returned_of(l: ActiveLoan, returned_at: i64) -> ReturnedLoan {
    ReturnedLoan {
        checkout_id: l.checkout_id,
        book_id: l.book_id,
        checked_out_by: l.checked_out_by,
        checked_out_at: l.checked_out_at,
        returned_at: returned_at,
    }
}

/// Exactly what checking a book out does, for every input.
///
/// An unknown book is rejected; a book already on loan is rejected; once
/// every loan id has been handed out, the defensive write guard reports
/// that no record was created. Otherwise the new loan, carrying the next
/// free id, is inserted at its place in the checkout-time ordering, and
/// nothing else changes.
pub open spec fn create_post(
    pre: CheckoutRepositoryImpl,
    post: CheckoutRepositoryImpl,
    e: CreateCheckout,
    res: AppResult<CheckoutId>,
) -> bool {
    if !has_book(pre.books(), e.book_id) {
        &&& state_unchanged(pre, post)
        &&& res matches Err(err)
        &&& err matches AppError::EntityNotFound(_)
    } else if has_active_for_book(pre.active(), e.book_id) {
        &&& state_unchanged(pre, post)
        &&& res matches Err(err)
        &&& err matches AppError::UnprocessableEntiry(_)
    } else if pre.next_id() == u64::MAX {
        &&& state_unchanged(pre, post)
        &&& res matches Err(err)
        &&& err matches AppError::NoRowAffectedError(_)
    } else {
        &&& res == Ok::<CheckoutId, AppError>(CheckoutId(pre.next_id()))
        &&& post.books() == pre.books()
        &&& post.returned() == pre.returned()
        &&& post.next_id() == pre.next_id() + 1
        &&& post.active() == pre.active().insert(
            insert_pos_asc(pre.active(), e.checked_out_at),
            new_loan(pre.next_id(), e),
        )
    }
}

/// Exactly what returning a loan does, for every input.
///
/// An unknown book is rejected; if the book has an active loan whose
/// `(loan id, borrower)` pair differs from the event's, the return is
/// rejected as a conflict. When the book has no active loan at all, the
/// precondition passes the event through, and the archive step stands on
/// its own: it looks the source row up by loan id alone, so it fails with
/// the zero-rows write guard when that id is not active anywhere — but it
/// does move a loan of a *different* book whose id matches. That
/// pass-through reproduces the store implementation faithfully and is
/// spelled out here rather than silently widened into a not-found check.
/// On success the loan leaves the active set and its archived record,
/// carrying the time of return, is inserted at its place in the archive's
/// ordering.
pub open spec fn return_post(
    pre: CheckoutRepositoryImpl,
    post: CheckoutRepositoryImpl,
    e: UpdateReturned,
    res: AppResult<()>,
) -> bool {
    if !has_book(pre.books(), e.book_id) {
        &&& state_unchanged(pre, post)
        &&& res matches Err(err)
        &&& err matches AppError::EntityNotFound(_)
    } else if has_active_for_book(pre.active(), e.book_id) && !(active_for_book(
        pre.active(),
        e.book_id,
    ).checkout_id == e.checkout_id && active_for_book(pre.active(), e.book_id).checked_out_by
        == e.returned_by) {
        &&& state_unchanged(pre, post)
        &&& res matches Err(err)
        &&& err matches AppError::UnprocessableEntiry(_)
    } else if !has_active_id(pre.active(), e.checkout_id) {
        &&& state_unchanged(pre, post)
        &&& res matches Err(err)
        &&& err matches AppError::NoRowAffectedError(_)
    } else {
        let i = active_index_of_id(pre.active(), e.checkout_id);
        let l = pre.active()[i];
        &&& res matches Ok(_)
        &&& post.books() == pre.books()
        &&& post.next_id() == pre.next_id()
        &&& post.active() == pre.active().remove(i)
        &&& post.returned() == pre.returned().insert(
            insert_pos_desc(pre.returned(), l.checked_out_at),
            returned_of(l, e.returned_at),
        )
    }
}

/// `insert_pos_asc` is the first position whose loan was checked out
/// strictly later than `t`.
proof fn lemma_insert_pos_asc(s: Seq<ActiveLoan>, t: i64)
    ensures
        0 <= insert_pos_asc(s, t) <= s.len(),
        forall|j: int| 0 <= j < insert_pos_asc(s, t) ==> #[trigger] s[j].checked_out_at <= t,
        insert_pos_asc(s, t) < s.len() ==> s[insert_pos_asc(s, t)].checked_out_at > t,
    decreases s.len(),
{
    if s.len() > 0 {
        lemma_insert_pos_asc(s.drop_first(), t);
        if s.first().checked_out_at <= t {
            let p = insert_pos_asc(s, t);
            assert forall|j: int| 0 <= j < p implies #[trigger] s[j].checked_out_at <= t by {
                if j > 0 {
                    assert(s.drop_first()[j - 1].checked_out_at <= t);
                    assert(s.drop_first()[j - 1] == s[j]);
                }
            }
            if p < s.len() {
                assert(s.drop_first()[p - 1] == s[p]);
            }
        }
    }
}

/// `insert_pos_desc` is the first position whose loan was checked out
/// strictly earlier than `t`.
proof fn lemma_insert_pos_desc(s: Seq<ReturnedLoan>, t: i64)
    ensures
        0 <= insert_pos_desc(s, t) <= s.len(),
        forall|j: int| 0 <= j < insert_pos_desc(s, t) ==> #[trigger] s[j].checked_out_at >= t,
        insert_pos_desc(s, t) < s.len() ==> s[insert_pos_desc(s, t)].checked_out_at < t,
    decreases s.len(),
{
    if s.len() > 0 {
        lemma_insert_pos_desc(s.drop_first(), t);
        if s.first().checked_out_at >= t {
            let p = insert_pos_desc(s, t);
            assert forall|j: int| 0 <= j < p implies #[trigger] s[j].checked_out_at >= t by {
                if j > 0 {
                    assert(s.drop_first()[j - 1].checked_out_at >= t);
                    assert(s.drop_first()[j - 1] == s[j]);
                }
            }
            if p < s.len() {
                assert(s.drop_first()[p - 1] == s[p]);
            }
        }
    }
}

impl CheckoutRepositoryImpl {
    /// Where a loan checked out at `t` goes in the active set.
    fn active_insert_pos(&self, t: i64) -> (pos: usize)
        ensures
            pos <= self.active().len(),
            pos == insert_pos_asc(self.active(), t),
    {
        let mut i: usize = 0;
        while i < self.active.len() && self.active[i].checked_out_at <= t
            invariant
                i <= self.active.len(),
                forall|j: int| 0 <= j < i ==> #[trigger] self.active()[j].checked_out_at <= t,
            decreases self.active.len() - i,
        {
            i += 1;
        }
        proof {
            lemma_insert_pos_asc(self.active(), t);
            let p = insert_pos_asc(self.active(), t);
            if (i as int) < p {
                assert(self.active()[i as int].checked_out_at <= t);
                assert(false);
            }
            if p < i as int {
                assert(self.active()[p].checked_out_at <= t);
                assert(false);
            }
        }
        i
    }

    /// Where a loan checked out at `t` goes in the archive.
    fn returned_insert_pos(&self, t: i64) -> (pos: usize)
        ensures
            pos <= self.returned().len(),
            pos == insert_pos_desc(self.returned(), t),
    {
        let mut i: usize = 0;
        while i < self.returned.len() && self.returned[i].checked_out_at >= t
            invariant
                i <= self.returned.len(),
                forall|j: int| 0 <= j < i ==> #[trigger] self.returned()[j].checked_out_at >= t,
            decreases self.returned.len() - i,
        {
            i += 1;
        }
        proof {
            lemma_insert_pos_desc(self.returned(), t);
            let p = insert_pos_desc(self.returned(), t);
            if (i as int) < p {
                assert(self.returned()[i as int].checked_out_at >= t);
                assert(false);
            }
            if p < i as int {
                assert(self.returned()[p].checked_out_at >= t);
                assert(false);
            }
        }
        i
    }

    /// Check a book out: the create operation of the ledger.
    ///
    /// Inside what the production store would make one serializable
    /// transaction, this checks that the book exists and has no active
    /// loan, then inserts a new loan under a fresh id. On success the new
    /// loan id is returned.
    pub fn create(&mut self, event: CreateCheckout) -> (res: AppResult<CheckoutId>)
        requires
            old(self).wf(),
        ensures
            final(self).wf(),
            create_post(*old(self), *final(self), event, res),
    {
        if self.book_index(event.book_id).is_none() {
            return Err(AppError::EntityNotFound("the book was not found".to_owned()));
        }
        proof {
            assert(has_book(self.books(), event.book_id));
        }
        if self.active_index_by_book(event.book_id).is_some() {
            return Err(
                AppError::UnprocessableEntiry("a loan for this book already exists".to_owned()),
            );
        }
        if self.next_checkout_id == u64::MAX {
            return Err(
                AppError::NoRowAffectedError("no checkout record has been created".to_owned()),
            );
        }
        let checkout_id = CheckoutId(self.next_checkout_id);
        let loan = ActiveLoan {
            checkout_id,
            book_id: event.book_id,
            checked_out_by: event.checked_out_by,
            checked_out_at: event.checked_out_at,
        };
        let pos = self.active_insert_pos(event.checked_out_at);
        self.next_checkout_id = self.next_checkout_id + 1;
        self.active.insert(pos, loan);
        proof {
            let s = old(self).active();
            let post = self.active();
            let p = pos as int;
            let t = event.checked_out_at;
            lemma_insert_pos_asc(s, t);
            s.insert_ensures(p, loan);
            assert(forall|k: int| 0 <= k < p ==> #[trigger] post[k] == s[k]);
            assert(forall|k: int| p <= k < s.len() ==> #[trigger] post[k + 1] == s[k]);
            assert(post[p] == loan);
            assert(post.len() == s.len() + 1);
            assert forall|i: int, j: int| 0 <= i < j < post.len() implies #[trigger] post[i].book_id
                != #[trigger] post[j].book_id by {
                if i < p && j > p {
                    assert(post[i] == s[i] && post[j] == s[j - 1]);
                } else if i == p && j > p {
                    assert(post[j] == s[j - 1]);
                    assert(s[j - 1].book_id != event.book_id);
                } else if i < p && j == p {
                    assert(post[i] == s[i]);
                    assert(s[i].book_id != event.book_id);
                } else if i > p && j > p {
                    assert(post[i] == s[i - 1] && post[j] == s[j - 1]);
                }
            }
            assert forall|i: int, j: int|
                0 <= i < j < post.len() implies #[trigger] post[i].checkout_id
                != #[trigger] post[j].checkout_id by {
                if i < p && j > p {
                    assert(post[i] == s[i] && post[j] == s[j - 1]);
                } else if i == p && j > p {
                    assert(post[j] == s[j - 1]);
                    assert(s[j - 1].checkout_id.0 < old(self).next_id());
                } else if i < p && j == p {
                    assert(post[i] == s[i]);
                    assert(s[i].checkout_id.0 < old(self).next_id());
                } else if i > p && j > p {
                    assert(post[i] == s[i - 1] && post[j] == s[j - 1]);
                }
            }
            assert forall|i: int, j: int|
                0 <= i < post.len() && 0 <= j < self.returned().len() implies #[trigger] post[i].checkout_id
                != #[trigger] self.returned()[j].checkout_id by {
                if i < p {
                    assert(post[i] == s[i]);
                } else if i > p {
                    assert(post[i] == s[i - 1]);
                } else {
                    assert(self.returned()[j].checkout_id.0 < old(self).next_id());
                }
            }
            assert forall|i: int|
                0 <= i < post.len() implies (#[trigger] post[i].checkout_id).0 < self.next_id() by {
                if i < p {
                    assert(post[i] == s[i]);
                } else if i > p {
                    assert(post[i] == s[i - 1]);
                }
            }
            assert forall|i: int|
                0 <= i < post.len() implies has_book(self.books(), (#[trigger] post[i]).book_id) by {
                if i < p {
                    assert(post[i] == s[i]);
                } else if i > p {
                    assert(post[i] == s[i - 1]);
                }
            }
            assert forall|i: int, j: int|
                0 <= i < j < post.len() implies #[trigger] post[i].checked_out_at
                <= #[trigger] post[j].checked_out_at by {
                if i < p && j < p {
                    assert(post[i] == s[i] && post[j] == s[j]);
                } else if i < p && j == p {
                    assert(post[i] == s[i]);
                    assert(s[i].checked_out_at <= t);
                } else if i < p && j > p {
                    assert(post[i] == s[i] && post[j] == s[j - 1]);
                } else if i == p && j > p {
                    assert(post[j] == s[j - 1]);
                    assert(j - 1 >= p);
                    if p < s.len() {
                        assert(s[p].checked_out_at > t);
                        assert(s[p].checked_out_at <= s[j - 1].checked_out_at);
                    }
                } else {
                    assert(post[i] == s[i - 1] && post[j] == s[j - 1]);
                }
            }
        }
        Ok(checkout_id)
    }

    /// Return a loan: the close operation of the ledger.
    ///
    /// Inside what the production store would make one serializable
    /// transaction, this checks the book exists and the return matches the
    /// book's active loan, archives the loan's fields together with the
    /// time of return, and deletes the active loan. See [`return_post`]
    /// for the precise treatment of a book without an active loan.
    pub fn update_returned(&mut self, event: UpdateReturned) -> (res: AppResult<()>)
        requires
            old(self).wf(),
        ensures
            final(self).wf(),
            return_post(*old(self), *final(self), event, res),
    {
        if self.book_index(event.book_id).is_none() {
            return Err(AppError::EntityNotFound("the book was not found".to_owned()));
        }
        proof {
            assert(has_book(self.books(), event.book_id));
        }
        match self.active_index_by_book(event.book_id) {
            Some(i) => {
                let l = self.active[i];
                proof {
                    let k = choose|k: int|
                        0 <= k < self.active().len() && self.active()[k].book_id == event.book_id;
                    if k != i {
                        assert(false);
                    }
                }
                if !(l.checkout_id == event.checkout_id && l.checked_out_by == event.returned_by) {
                    return Err(
                        AppError::UnprocessableEntiry("the loan cannot be returned".to_owned()),
                    );
                }
            },
            None => {},
        }
        let i = match self.active_index_by_id(event.checkout_id) {
            Some(i) => i,
            None => {
                return Err(
                    AppError::NoRowAffectedError("no returning record has been updated".to_owned()),
                );
            },
        };
        let l = self.active[i];
        proof {
            let k = active_index_of_id(self.active(), event.checkout_id);
            assert(0 <= k < self.active().len() && self.active()[k].checkout_id
                == event.checkout_id);
            if k != i {
                assert(false);
            }
        }
        let rec = ReturnedLoan {
            checkout_id: l.checkout_id,
            book_id: l.book_id,
            checked_out_by: l.checked_out_by,
            checked_out_at: l.checked_out_at,
            returned_at: event.returned_at,
        };
        let q = self.returned_insert_pos(l.checked_out_at);
        self.returned.insert(q, rec);
        self.active.remove(i);
        proof {
            let sa = old(self).active();
            let sr = old(self).returned();
            let pa = self.active();
            let pr = self.returned();
            let qi = q as int;
            let ii = i as int;
            let t = l.checked_out_at;
            lemma_insert_pos_desc(sr, t);
            sr.insert_ensures(qi, rec);
            sa.remove_ensures(ii);
            assert(forall|k: int| 0 <= k < qi ==> #[trigger] pr[k] == sr[k]);
            assert(forall|k: int| qi <= k < sr.len() ==> #[trigger] pr[k + 1] == sr[k]);
            assert(pr[qi] == rec);
            assert(pr.len() == sr.len() + 1);
            assert(forall|k: int| 0 <= k < ii ==> #[trigger] pa[k] == sa[k]);
            assert(forall|k: int| ii <= k < sa.len() - 1 ==> #[trigger] pa[k] == sa[k + 1]);
            assert(pa.len() == sa.len() - 1);
            assert forall|a: int, b: int| 0 <= a < b < pa.len() implies #[trigger] pa[a].book_id
                != #[trigger] pa[b].book_id by {
                if b < ii {
                    assert(pa[a] == sa[a] && pa[b] == sa[b]);
                } else if a < ii && b >= ii {
                    assert(pa[a] == sa[a] && pa[b] == sa[b + 1]);
                } else {
                    assert(pa[a] == sa[a + 1] && pa[b] == sa[b + 1]);
                }
            }
            assert forall|a: int, b: int| 0 <= a < b < pa.len() implies #[trigger] pa[a].checkout_id
                != #[trigger] pa[b].checkout_id by {
                if b < ii {
                    assert(pa[a] == sa[a] && pa[b] == sa[b]);
                } else if a < ii && b >= ii {
                    assert(pa[a] == sa[a] && pa[b] == sa[b + 1]);
                } else {
                    assert(pa[a] == sa[a + 1] && pa[b] == sa[b + 1]);
                }
            }
            assert forall|a: int, b: int| 0 <= a < b < pr.len() implies #[trigger] pr[a].checkout_id
                != #[trigger] pr[b].checkout_id by {
                if a != qi && b != qi {
                    let a0: int = if a < qi { a } else { a - 1 };
                    let b0: int = if b < qi { b } else { b - 1 };
                    assert(pr[a] == sr[a0] && pr[b] == sr[b0]);
                } else if a == qi {
                    let b0: int = b - 1;
                    assert(pr[b] == sr[b0]);
                    assert(sa[ii].checkout_id != sr[b0].checkout_id);
                } else {
                    let a0: int = a;
                    assert(pr[a] == sr[a0]);
                    assert(sa[ii].checkout_id != sr[a0].checkout_id);
                }
            }
            assert forall|a: int, b: int|
                0 <= a < pa.len() && 0 <= b < pr.len() implies #[trigger] pa[a].checkout_id
                != #[trigger] pr[b].checkout_id by {
                let a0: int = if a < ii { a } else { a + 1 };
                assert(pa[a] == sa[a0]);
                if b == qi {
                    assert(pr[b] == rec);
                    assert(sa[a0].checkout_id != sa[ii].checkout_id);
                } else {
                    let b0: int = if b < qi { b } else { b - 1 };
                    assert(pr[b] == sr[b0]);
                }
            }
            assert forall|a: int|
                0 <= a < pa.len() implies (#[trigger] pa[a].checkout_id).0 < self.next_id() by {
                let a0: int = if a < ii { a } else { a + 1 };
                assert(pa[a] == sa[a0]);
            }
            assert forall|b: int|
                0 <= b < pr.len() implies (#[trigger] pr[b].checkout_id).0 < self.next_id() by {
                if b == qi {
                    assert(pr[b] == rec);
                    assert(sa[ii].checkout_id.0 < old(self).next_id());
                } else {
                    let b0: int = if b < qi { b } else { b - 1 };
                    assert(pr[b] == sr[b0]);
                }
            }
            assert forall|a: int|
                0 <= a < pa.len() implies has_book(self.books(), (#[trigger] pa[a]).book_id) by {
                let a0: int = if a < ii { a } else { a + 1 };
                assert(pa[a] == sa[a0]);
            }
            assert forall|b: int|
                0 <= b < pr.len() implies has_book(self.books(), (#[trigger] pr[b]).book_id) by {
                if b == qi {
                    assert(pr[b] == rec);
                    assert(has_book(self.books(), sa[ii].book_id));
                } else {
                    let b0: int = if b < qi { b } else { b - 1 };
                    assert(pr[b] == sr[b0]);
                }
            }
            assert forall|a: int, b: int|
                0 <= a < b < pa.len() implies #[trigger] pa[a].checked_out_at
                <= #[trigger] pa[b].checked_out_at by {
                let a0: int = if a < ii { a } else { a + 1 };
                let b0: int = if b < ii { b } else { b + 1 };
                assert(pa[a] == sa[a0] && pa[b] == sa[b0]);
            }
            assert forall|a: int, b: int|
                0 <= a < b < pr.len() implies #[trigger] pr[a].checked_out_at
                >= #[trigger] pr[b].checked_out_at by {
                if a == qi {
                    let b0: int = b - 1;
                    assert(pr[b] == sr[b0]);
                    assert(b0 >= qi);
                    if qi < sr.len() {
                        assert(sr[qi].checked_out_at < t);
                        assert(sr[qi].checked_out_at >= sr[b0].checked_out_at);
                    }
                } else if b == qi {
                    let a0: int = a;
                    assert(pr[a] == sr[a0]);
                    assert(sr[a0].checked_out_at >= t);
                } else {
                    let a0: int = if a < qi { a } else { a - 1 };
                    let b0: int = if b < qi { b } else { b - 1 };
                    assert(pr[a] == sr[a0] && pr[b] == sr[b0]);
                }
            }
        }
        Ok(())
    }
}

// ---------------------------------------------------------------------------
// The laws of the ledger.
// ---------------------------------------------------------------------------

/// Filtering the archive keeps its newest-first ordering.
proof fn lemma_filter_sorted_desc(s: Seq<ReturnedLoan>, pred: spec_fn(ReturnedLoan) -> bool)
    requires
        sorted_desc(s),
    ensures
        sorted_desc(s.filter(pred)),
    decreases s.len(),
{
    reveal(Seq::filter);
    if s.len() > 0 {
        let d = s.drop_last();
        assert(sorted_desc(d));
        lemma_filter_sorted_desc(d, pred);
        lemma_filter_membership(d, pred);
        let fd = d.filter(pred);
        if pred(s.last()) {
            let f = s.filter(pred);
            assert(f == fd.push(s.last()));
            assert forall|i: int, j: int| 0 <= i < j < f.len() implies #[trigger] f[i].checked_out_at
                >= #[trigger] f[j].checked_out_at by {
                if j < fd.len() {
                    assert(f[i] == fd[i] && f[j] == fd[j]);
                } else {
                    assert(f[j] == s.last());
                    assert(f[i] == fd[i]);
                    assert(d.contains(fd[i]));
                    let k = choose|k: int| 0 <= k < d.len() && d[k] == fd[i];
                    assert(s[k] == fd[i]);
                    assert(s[k].checked_out_at >= s[s.len() - 1].checked_out_at);
                }
            }
        }
    }
}

/// Law: at any observable instant, a well-formed ledger holds at most one
/// active loan per book.
pub proof fn lemma_mutual_exclusion(st: CheckoutRepositoryImpl)
    requires
        st.wf(),
    ensures
        forall|i: int, j: int|
            0 <= i < j < st.active().len() ==> #[trigger] st.active()[i].book_id
                != #[trigger] st.active()[j].book_id,
{
}

/// Law: of two checkouts of the same book with no return between them,
/// only the first succeeds; the second fails with a conflict and leaves
/// the ledger unchanged.
pub proof fn lemma_second_create_conflicts(
    st0: CheckoutRepositoryImpl,
    st1: CheckoutRepositoryImpl,
    st2: CheckoutRepositoryImpl,
    e1: CreateCheckout,
    e2: CreateCheckout,
    r1: AppResult<CheckoutId>,
    r2: AppResult<CheckoutId>,
)
    requires
        st0.wf(),
        create_post(st0, st1, e1, r1),
        r1 matches Ok(_),
        create_post(st1, st2, e2, r2),
        e2.book_id == e1.book_id,
    ensures
        r2 matches Err(err) && err matches AppError::UnprocessableEntiry(_),
        state_unchanged(st1, st2),
{
    let s = st0.active();
    let p = insert_pos_asc(s, e1.checked_out_at);
    lemma_insert_pos_asc(s, e1.checked_out_at);
    s.insert_ensures(p, new_loan(st0.next_id(), e1));
    assert(st1.active()[p] == new_loan(st0.next_id(), e1));
    assert(has_active_for_book(st1.active(), e2.book_id));
    assert(has_book(st1.books(), e2.book_id));
}

/// Law: a successful return moves the loan: afterwards no active loan
/// carries its id, and exactly one archived record does — never both,
/// never neither.
pub proof fn lemma_return_moves_loan(
    pre: CheckoutRepositoryImpl,
    post: CheckoutRepositoryImpl,
    e: UpdateReturned,
    r: AppResult<()>,
)
    requires
        pre.wf(),
        post.wf(),
        return_post(pre, post, e, r),
        r matches Ok(_),
    ensures
        forall|i: int|
            0 <= i < post.active().len() ==> #[trigger] post.active()[i].checkout_id
                != e.checkout_id,
        exists|j: int|
            0 <= j < post.returned().len() && #[trigger] post.returned()[j].checkout_id
                == e.checkout_id,
        forall|j1: int, j2: int|
            0 <= j1 < post.returned().len() && 0 <= j2 < post.returned().len()
                && #[trigger] post.returned()[j1].checkout_id == e.checkout_id
                && #[trigger] post.returned()[j2].checkout_id == e.checkout_id ==> j1 == j2,
{
    let sa = pre.active();
    let sr = pre.returned();
    let ii = active_index_of_id(sa, e.checkout_id);
    let l = sa[ii];
    let qi = insert_pos_desc(sr, l.checked_out_at);
    lemma_insert_pos_desc(sr, l.checked_out_at);
    sa.remove_ensures(ii);
    sr.insert_ensures(qi, returned_of(l, e.returned_at));
    assert(post.returned()[qi] == returned_of(l, e.returned_at));
    assert(post.returned()[qi].checkout_id == e.checkout_id);
    assert forall|i: int|
        0 <= i < post.active().len() implies #[trigger] post.active()[i].checkout_id
        != e.checkout_id by {
        if i < ii {
            assert(post.active()[i] == sa[i]);
            assert(sa[i].checkout_id != sa[ii].checkout_id);
        } else {
            assert(post.active()[i] == sa[i + 1]);
            assert(sa[i + 1].checkout_id != sa[ii].checkout_id);
        }
    }
}

/// Law: the listing of all active loans presents them oldest checkout
/// first.
pub proof fn lemma_active_listing_is_oldest_first(st: CheckoutRepositoryImpl)
    requires
        st.wf(),
    ensures
        ({
            let v = active_views(st.books(), st.active());
            forall|i: int, j: int|
                0 <= i < j < v.len() ==> #[trigger] v[i].checked_out_at
                    <= #[trigger] v[j].checked_out_at
        }),
{
    let v = active_views(st.books(), st.active());
    assert forall|i: int, j: int|
        0 <= i < j < v.len() implies #[trigger] v[i].checked_out_at
        <= #[trigger] v[j].checked_out_at by {
        assert(v[i] == checkout_of_active(st.books(), st.active()[i]));
        assert(v[j] == checkout_of_active(st.books(), st.active()[j]));
    }
}

/// Law: the listing of all active loans never includes a loan that stands
/// in the archive.
pub proof fn lemma_active_listing_excludes_returned(st: CheckoutRepositoryImpl)
    requires
        st.wf(),
    ensures
        forall|i: int, j: int|
            0 <= i < active_views(st.books(), st.active()).len() && 0 <= j < st.returned().len()
                ==> #[trigger] active_views(st.books(), st.active())[i].id
                != #[trigger] st.returned()[j].checkout_id,
{
    assert forall|i: int, j: int|
        0 <= i < active_views(st.books(), st.active()).len() && 0 <= j
        < st.returned().len() implies #[trigger] active_views(st.books(), st.active())[i].id
        != #[trigger] st.returned()[j].checkout_id by {
        assert(active_views(st.books(), st.active())[i] == checkout_of_active(
            st.books(),
            st.active()[i],
        ));
    }
}

/// Law: a borrower's listing of active loans never includes a loan that
/// stands in the archive either.
pub proof fn lemma_borrower_listing_excludes_returned(st: CheckoutRepositoryImpl, user_id: UserId)
    requires
        st.wf(),
    ensures
        ({
            let v = active_views(st.books(), st.active().filter(by_borrower(user_id)));
            forall|i: int, j: int|
                0 <= i < v.len() && 0 <= j < st.returned().len() ==> #[trigger] v[i].id
                    != #[trigger] st.returned()[j].checkout_id
        }),
{
    lemma_filter_membership(st.active(), by_borrower(user_id));
    let f = st.active().filter(by_borrower(user_id));
    let v = active_views(st.books(), f);
    assert forall|i: int, j: int|
        0 <= i < v.len() && 0 <= j < st.returned().len() implies #[trigger] v[i].id
        != #[trigger] st.returned()[j].checkout_id by {
        assert(v[i] == checkout_of_active(st.books(), f[i]));
        assert(st.active().contains(f[i]));
        let k = choose|k: int| 0 <= k < st.active().len() && st.active()[k] == f[i];
        assert(st.active()[k].checkout_id != st.returned()[j].checkout_id);
    }
}

/// Law: one book's history is as long as its archive plus one entry for
/// its active loan, if there is one.
pub proof fn lemma_history_completeness(
    books: Seq<BookRecord>,
    active: Seq<ActiveLoan>,
    returned: Seq<ReturnedLoan>,
    book_id: BookId,
)
    ensures
        book_history_view(books, active, returned, book_id).len() == returned.filter(
            archived_for_book(book_id),
        ).len() + if has_active_for_book(active, book_id) {
            1int
        } else {
            0int
        },
{
    let f = returned.filter(archived_for_book(book_id));
    assert(returned_views(books, f).len() == f.len());
}

/// Law: in one book's history the archived entries stand in descending
/// checkout-time order, and the active loan, if any, stands first,
/// whatever its own timestamp.
pub proof fn lemma_history_ordering(
    books: Seq<BookRecord>,
    active: Seq<ActiveLoan>,
    returned: Seq<ReturnedLoan>,
    book_id: BookId,
)
    requires
        sorted_desc(returned),
    ensures
        ({
            let h = book_history_view(books, active, returned, book_id);
            let start: int = if has_active_for_book(active, book_id) {
                1
            } else {
                0
            };
            &&& (has_active_for_book(active, book_id) ==> h.len() >= 1 && h[0]
                == checkout_of_active(books, active_for_book(active, book_id)))
            &&& forall|i: int, j: int|
                start <= i < j < h.len() ==> #[trigger] h[i].checked_out_at
                    >= #[trigger] h[j].checked_out_at
        }),
{
    lemma_filter_sorted_desc(returned, archived_for_book(book_id));
    let f = returned.filter(archived_for_book(book_id));
    let h = book_history_view(books, active, returned, book_id);
    let start: int = if has_active_for_book(active, book_id) {
        1
    } else {
        0
    };
    assert forall|i: int, j: int|
        start <= i < j < h.len() implies #[trigger] h[i].checked_out_at
        >= #[trigger] h[j].checked_out_at by {
        assert(h[i] == returned_views(books, f)[i - start]);
        assert(h[j] == returned_views(books, f)[j - start]);
        assert(returned_views(books, f)[i - start] == checkout_of_returned(books, f[i - start]));
        assert(returned_views(books, f)[j - start] == checkout_of_returned(books, f[j - start]));
        assert(f[i - start].checked_out_at >= f[j - start].checked_out_at);
    }
}

} // verus!
