//! Access tokens and the event that mints one.

use vstd::prelude::*;

use crate::model::id::UserId;

verus! {

/// A bearer token that identifies a logged-in user.
pub struct AccessToken(pub String);

/// Event: associate a freshly minted access token with a user.
pub struct CreateToken {
    pub user_id: UserId,
    pub access_token: String,
}

/// Relies on uuid::Uuid::new_v4 and uuid::fmt::Simple: a random UUID in
/// the simple format prints as exactly 32 lower-case hex digits
/// (uuid::fmt::Simple::LENGTH). Nothing more is promised of a random
/// value.
#[verifier::external_body]
fn mint_token_string() -> (res: String)
    ensures
        res@.len() == 32,
{
    uuid::Uuid::new_v4().simple().to_string()
}

impl CreateToken {
    /// Mint a fresh access token for a user.
    pub fn new(user_id: UserId) -> (res: Self)
        ensures
            res.user_id == user_id,
            res.access_token@.len() == 32,
    {
        let access_token = mint_token_string();
        CreateToken { user_id, access_token }
    }
}

} // verus!
