//! Loans: the domain projection read back from the ledger, and the events
//! that create and close a loan.
//!
//! Timestamps are carried as milliseconds since the Unix epoch; their only
//! use inside the library is ordering.

use vstd::prelude::*;

use crate::model::id::{BookId, CheckoutId, UserId};

verus! {

/// A loan, joined with the descriptive data of the book it concerns.
///
/// An active loan has `returned_at == None`; an archived one carries the
/// time it was returned.
pub struct Checkout {
    pub id: CheckoutId,
    pub checked_out_by: UserId,
    pub checked_out_at: i64,
    pub returned_at: Option<i64>,
    pub book: CheckoutBook,
}

/// The descriptive data of a book as embedded in a loan view.
pub struct CheckoutBook {
    pub book_id: BookId,
    pub title: String,
    pub author: String,
    pub isbn: String,
}

/// Event: check a book out to a user.
pub struct CreateCheckout {
    pub book_id: BookId,
    pub checked_out_by: UserId,
    pub checked_out_at: i64,
}

/// Event: return a loan.
///
/// `checkout_id` names the loan to close; `book_id` and `returned_by` must
/// match the active loan of that book for the return to be accepted.
pub struct UpdateReturned {
    pub checkout_id: CheckoutId,
    pub book_id: BookId,
    pub returned_by: UserId,
    pub returned_at: i64,
}

} // verus!
