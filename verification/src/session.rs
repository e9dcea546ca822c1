//! The session registry: which user stands behind a session token.

use vstd::prelude::*;
use vstd::hash_map::StringHashMap;
use crate::db_auth::{User, UserView};
use crate::error::ServiceError;

verus! {

/// The mapping from session tokens to the users who logged in with them.
///
/// A snapshot is a copy taken at login: later changes of the accounts do not
/// reach it.
pub struct Sessions {
    user_map: StringHashMap<User>,
}

impl View for Sessions {
    type V = Map<Seq<char>, UserView>;

    closed spec fn view(&self) -> Map<Seq<char>, UserView> {
        self.user_map@.map_values(|user: User| user@)
    }
}

impl Sessions {
    /// A registry without sessions.
    pub fn new() -> (sessions: Self)
        ensures
            sessions@ == Map::<Seq<char>, UserView>::empty(),
    {
        Sessions { user_map: StringHashMap::new() }
    }

    /// Binds `token` to `user`, in place of what it was bound to before.
    pub fn establish(&mut self, token: String, user: User)
        ensures
            final(self)@ == old(self)@.insert(token@, user@),
    {
        self.user_map.insert(token, user);
    }

    /// The user bound to `token`.
    pub fn resolve(&self, token: &str) -> (res: Result<User, ServiceError>)
        ensures
            match res {
                Ok(user) => self@.contains_key(token@) && user@ == self@[token@],
                Err(e) => !self@.contains_key(token@) && e == ServiceError::Unauthenticated,
            },
    {
        match self.user_map.get(token) {
            Some(user) => Ok(user.clone()),
            None => Err(ServiceError::Unauthenticated),
        }
    }

    /// Removes the binding of `token`, if there is one.
    pub fn revoke(&mut self, token: &str)
        ensures
            final(self)@ == old(self)@.remove(token@),
    {
        self.user_map.remove(token);
    }
}

} // verus!
