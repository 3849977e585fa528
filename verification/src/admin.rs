//! The admin registry: a single administrator identity, set once at
//! initialization and replaceable only by itself.
use vstd::prelude::*;

use crate::contract::NonFungibleToken;
use crate::storage_types::{Error, Identity, Signature};

verus! {

impl NonFungibleToken {
    /// What checking the administrator against `signer` yields: a not-found
    /// fault before initialization, an authorization fault for anyone but
    /// the current administrator, nothing for the administrator itself.
    pub open spec fn admin_outcome(self, signer: Identity) -> Option<Error> {
        match self.admin {
            None => Some(Error::NotInitialized),
            Some(a) => if signer != a {
                Some(Error::NotAuthorizedByAdmin)
            } else {
                None
            },
        }
    }

    /// Whether an administrator has been set.
    pub fn has_administrator(&self) -> (r: bool)
        ensures
            r == self.initialized(),
    {
        self.admin.is_some()
    }

    /// The current administrator; fails before `initialize`.
    pub fn read_administrator(&self) -> (r: Result<Identity, Error>)
        ensures
            match r {
                Ok(a) => self.admin == Some(a),
                Err(e) => self.admin is None && e == Error::NotInitialized,
            },
    {
        match self.admin {
            Some(a) => Ok(a),
            None => Err(Error::NotInitialized),
        }
    }

    /// Unconditionally record `id` as the administrator.
    pub fn write_administrator(&mut self, id: Identity)
        ensures
            final(self).admin == Some(id),
            *final(self) == (NonFungibleToken { admin: final(self).admin, ..*old(self) }),
    {
        self.admin = Some(id);
    }

    /// Fails unless `auth` was signed by the current administrator.
    pub fn check_admin(&self, auth: &Signature) -> (r: Result<(), Error>)
        ensures
            match r {
                Ok(()) => self.admin_outcome(auth.signer()) is None,
                Err(e) => self.admin_outcome(auth.signer()) == Some(e),
            },
    {
        let auth_id = auth.identifier();
        match self.read_administrator() {
            Err(e) => Err(e),
            Ok(a) => if auth_id == a {
                Ok(())
            } else {
                Err(Error::NotAuthorizedByAdmin)
            },
        }
    }
}

} // verus!
