//! The token store: which access token identifies which user.
//!
//! The production system keeps this table in an external key-value store;
//! this implementation owns the table itself, so that the lookup logic is
//! verified. Time-to-live handling belongs to the external store and is not
//! modelled.

use vstd::prelude::*;

use crate::error::{AppError, AppResult};
use crate::model::auth::{AccessToken, CreateToken};
use crate::model::id::UserId;

verus! {

/// An in-memory token table, mapping access tokens to user ids.
pub struct AuthRepositoryImpl {
    tokens: Vec<(AccessToken, UserId)>,
}

/// True if some entry holds a token with the characters `t`.
pub open spec fn has_token(tokens: Seq<(AccessToken, UserId)>, t: Seq<char>) -> bool {
    exists|i: int| 0 <= i < tokens.len() && tokens[i].0.0@ == t
}

/// The user an entry with token characters `t` maps to.
pub open spec fn token_user(tokens: Seq<(AccessToken, UserId)>, t: Seq<char>) -> UserId {
    tokens[choose|i: int| 0 <= i < tokens.len() && tokens[i].0.0@ == t].1
}

impl AuthRepositoryImpl {
    /// The stored table, as a sequence of (token, user) pairs.
    pub closed spec fn tokens(&self) -> Seq<(AccessToken, UserId)> {
        self.tokens@
    }

    /// Well-formedness: no two entries share a token.
    pub open spec fn wf(&self) -> bool {
        forall|i: int, j: int|
            0 <= i < j < self.tokens().len() ==> #[trigger] self.tokens()[i].0.0@ != #[trigger] self.tokens()[j].0.0@
    }

    /// An empty token table.
    pub fn new() -> (res: Self)
        ensures
            res.wf(),
            res.tokens().len() == 0,
    {
        AuthRepositoryImpl { tokens: Vec::new() }
    }

    /// Record a freshly minted token for a user.
    ///
    /// A token that is already present is rejected rather than overwritten;
    /// the store reports the collision as a key-value store failure.
    pub fn store_token(&mut self, event: CreateToken) -> (res: AppResult<AccessToken>)
        requires
            old(self).wf(),
        ensures
            final(self).wf(),
            has_token(old(self).tokens(), event.access_token@) ==> {
                &&& res matches Err(e)
                &&& e matches AppError::KeyValueStoreError(_)
                &&& final(self).tokens() == old(self).tokens()
            },
            !has_token(old(self).tokens(), event.access_token@) ==> {
                &&& res matches Ok(t)
                &&& t.0@ == event.access_token@
                &&& final(self).tokens().len() == old(self).tokens().len() + 1
                &&& final(self).tokens().last().0.0@ == event.access_token@
                &&& final(self).tokens().last().1 == event.user_id
                &&& final(self).tokens().drop_last() == old(self).tokens()
            },
    {
        let ghost tok: Seq<char> = event.access_token@;
        if self.token_index_of(&event.access_token).is_some() {
            return Err(
                AppError::KeyValueStoreError("an entry for this token already exists".to_owned()),
            );
        }
        let stored = AccessToken(event.access_token);
        let handed_out = AccessToken(stored.0.clone());
        let user_id = event.user_id;
        self.tokens.push((stored, user_id));
        proof {
            assert(self.tokens@.drop_last() =~= old(self).tokens@);
            assert forall|a: int, b: int|
                0 <= a < b < self.tokens@.len() implies #[trigger] self.tokens@[a].0.0@
                != #[trigger] self.tokens@[b].0.0@ by {
                if b < self.tokens@.len() - 1 {
                    assert(old(self).tokens()[a].0.0@ != old(self).tokens()[b].0.0@);
                } else {
                    assert(self.tokens@[a] == old(self).tokens()[a]);
                    assert(!has_token(old(self).tokens(), tok));
                    assert(old(self).tokens()[a].0.0@ != tok);
                }
            }
        }
        Ok(handed_out)
    }

    /// The index of the entry holding this token, if any.
    fn token_index_of(&self, t: &String) -> (res: Option<usize>)
        ensures
            match res {
                Some(i) => i < self.tokens().len() && self.tokens()[i as int].0.0@ == t@,
                None => !has_token(self.tokens(), t@),
            },
    {
        let mut i: usize = 0;
        while i < self.tokens.len()
            invariant
                i <= self.tokens.len(),
                forall|j: int| 0 <= j < i ==> #[trigger] self.tokens@[j].0.0@ != t@,
            decreases self.tokens.len() - i,
        {
            if self.tokens[i].0.0 == *t {
                return Some(i);
            }
            i += 1;
        }
        None
    }

    /// Look the user id up that a token identifies, if any.
    pub fn fetch_user_id_from_token(&self, access_token: &AccessToken) -> (res: AppResult<
        Option<UserId>,
    >)
        requires
            self.wf(),
        ensures
            res matches Ok(o) && o == if has_token(self.tokens(), access_token.0@) {
                Some(token_user(self.tokens(), access_token.0@))
            } else {
                None::<UserId>
            },
    {
        match self.token_index_of(&access_token.0) {
            Some(i) => {
                proof {
                    let k = choose|k: int|
                        0 <= k < self.tokens().len() && self.tokens()[k].0.0@ == access_token.0@;
                    assert(self.tokens()[i as int].0.0@ == access_token.0@);
                    if k != i {
                        assert(false);
                    }
                }
                Ok(Some(self.tokens[i].1))
            },
            None => Ok(None),
        }
    }
}

} // verus!
