//! Identifier newtypes for the entities the ledger speaks about.

use vstd::prelude::*;

verus! {

/// Identifier of a book (a physical item; one row per item).
#[derive(Clone, Copy, Debug, PartialEq, Eq, Structural)]
pub struct BookId(pub u64);

/// Identifier of a user (borrower or owner); opaque to the ledger.
#[derive(Clone, Copy, Debug, PartialEq, Eq, Structural)]
pub struct UserId(pub u64);

/// Identifier of a loan; generated by the ledger when a loan is created.
#[derive(Clone, Copy, Debug, PartialEq, Eq, Structural)]
pub struct CheckoutId(pub u64);

} // verus!
