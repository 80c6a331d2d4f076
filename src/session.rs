//! The identity that resolution hands to the request layer.

use vstd::prelude::*;

verus! {

/// A resolved identity: the account, the bearer token it is cached under,
/// its feature flags and, for OAuth sessions, the provider's token.
pub struct Session {
    pub id: u64,
    pub name: String,
    pub email: String,
    pub token: String,
    pub flags: u32,
    pub oauth_token: String,
}

impl Session {
    /// A session for `id` with no profile, token or flags yet.
    pub fn new(id: u64) -> (r: Session)
        ensures
            r.id == id,
            r.name@ == Seq::<char>::empty(),
            r.email@ == Seq::<char>::empty(),
            r.token@ == Seq::<char>::empty(),
            r.flags == 0,
            r.oauth_token@ == Seq::<char>::empty(),
    {
        Session {
            id,
            name: String::new(),
            email: String::new(),
            token: String::new(),
            flags: 0,
            oauth_token: String::new(),
        }
    }

    /// A field-for-field copy.
    pub fn duplicate(&self) -> (r: Session)
        ensures
            r == *self,
    {
        Session {
            id: self.id,
            name: self.name.clone(),
            email: self.email.clone(),
            token: self.token.clone(),
            flags: self.flags,
            oauth_token: self.oauth_token.clone(),
        }
    }
}

} // verus!
