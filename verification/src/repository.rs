//! Repositories: the checkout ledger and the token store.

pub mod auth;
pub mod checkout;
