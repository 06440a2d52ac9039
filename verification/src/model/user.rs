//! Users of the lending system, and the small projections of a user that
//! accompany a book or a loan.

use vstd::prelude::*;

use crate::model::id::UserId;
use crate::model::role::Role;

verus! {

/// A registered user.
pub struct User {
    pub id: UserId,
    pub name: String,
    pub email: String,
    pub role: Role,
}

/// The owner of a book, as shown beside the book's descriptive data.
#[derive(Debug)]
pub struct BookOwner {
    pub id: UserId,
    pub name: String,
}

/// The borrower of a loan, as shown in a loan view.
#[derive(Debug)]
pub struct CheckoutUser {
    pub id: UserId,
    pub name: String,
}

} // verus!
