//! Checkout ledger: tracks lending of physical items (books) to users.
//!
//! The core is the checkout/return workflow: an item can be on loan to at
//! most one borrower at a time, a return must match the active loan it
//! closes, and history queries merge the active loan (if any) with the
//! immutable archive of completed loans.

pub mod api;
pub mod error;
pub mod model;
pub mod repository;
pub mod seqtools;
