//! Books and the read-side projection of a book together with its current
//! loan, if any.
//!
//! Timestamps are carried as milliseconds since the Unix epoch; their only
//! use inside the library is ordering.

use vstd::prelude::*;

use crate::model::id::{BookId, CheckoutId, UserId};
use crate::model::user::{BookOwner, CheckoutUser};

verus! {

/// A book with its descriptive data, its owner, and its current loan if it
/// is checked out.
#[derive(Debug)]
pub struct Book {
    pub id: BookId,
    pub title: String,
    pub author: String,
    pub isbn: String,
    pub description: String,
    pub owner: BookOwner,
    pub checkout: Option<Checkout>,
}

/// Range of a paginated book listing.
#[derive(Debug)]
pub struct BookListOptions {
    pub limit: i64,
    pub offset: i64,
}

/// The current loan of a book, as embedded in [`Book`].
///
/// A type of the same name in [`crate::model::checkout`] is a different
/// projection: that one carries the book's descriptive data, this one the
/// borrower's.
#[derive(Debug)]
pub struct Checkout {
    pub checkout_id: CheckoutId,
    pub checked_out_by: CheckoutUser,
    pub checked_out_at: i64,
}

/// A request to register a book.
pub struct CreateBook {
    pub title: String,
    pub author: String,
    pub isbn: String,
    pub description: String,
}

/// A request to update a book's descriptive data.
pub struct UpdateBook {
    pub book_id: BookId,
    pub title: String,
    pub author: String,
    pub isbn: String,
    pub description: String,
    pub requested_user: UserId,
}

} // verus!
