//! Roles a user can hold.

use vstd::prelude::*;

verus! {

/// A user is either an administrator or an ordinary user.
#[derive(Clone, Copy, Debug, PartialEq, Eq, Structural)]
pub enum Role {
    Admin,
    User,
}

} // verus!
