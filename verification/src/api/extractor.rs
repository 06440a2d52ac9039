//! The authorized caller a request handler works with.
//!
//! The transport layer extracts the bearer token from a request, resolves
//! it through the token store and loads the user; what it hands the
//! handlers is this pair.

use vstd::prelude::*;

use crate::model::auth::AccessToken;
use crate::model::id::UserId;
use crate::model::role::Role;
use crate::model::user::User;

verus! {

/// A caller whose access token was resolved to a user.
pub struct AuthorizedUser {
    pub access_token: AccessToken,
    pub user: User,
}

impl AuthorizedUser {
    /// The id of the authorized user.
    pub fn id(&self) -> (res: UserId)
        ensures
            res == self.user.id,
    {
        self.user.id
    }

    /// Whether the authorized user is an administrator.
    pub fn is_admin(&self) -> (res: bool)
        ensures
            res == (self.user.role is Admin),
    {
        self.user.role == Role::Admin
    }
}

} // verus!
