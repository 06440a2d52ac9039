//! Domain model: identifiers, users, books, loans and access tokens.

pub mod auth;
pub mod book;
pub mod checkout;
pub mod id;
pub mod list;
pub mod role;
pub mod user;
