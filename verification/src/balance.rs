//! The balance ledger, the supply counter and the self-mint guard.
use vstd::prelude::*;

use crate::contract::NonFungibleToken;
use crate::interface::WriteType;
use crate::storage_types::{Error, Identity};

verus! {

broadcast use vstd::std_specs::hash::group_hash_axioms;

impl NonFungibleToken {
    /// The number of tokens `owner` holds; 0 if none were ever recorded.
    pub fn read_balance(&self, owner: Identity) -> (r: i128)
        ensures
            r as int == self.balance_of(owner),
    {
        match self.balances.get(&owner) {
            Some(b) => *b,
            None => 0,
        }
    }

    /// Adjust `owner`'s balance by one in the given direction. Each call is
    /// paired with exactly one owner-record mutation by the operations that
    /// use it; on its own it says nothing about the global invariant.
    pub fn write_balance(&mut self, owner: Identity, write_type: WriteType)
        requires
            match write_type {
                WriteType::Add => old(self).balance_of(owner) < i128::MAX as int,
                WriteType::Remove => (i128::MIN as int) < old(self).balance_of(owner),
            },
        ensures
            final(self).balance_of(owner) == old(self).balance_of(owner) + (match write_type {
                WriteType::Add => 1int,
                WriteType::Remove => -1int,
            }),
            forall|j: Identity| j != owner ==> final(self).balance_of(j) == old(self).balance_of(j),
            *final(self) == (NonFungibleToken { balances: final(self).balances, ..*old(self) }),
    {
        let balance = self.read_balance(owner);
        match write_type {
            WriteType::Add => {
                self.balances.insert(owner, balance + 1);
            },
            WriteType::Remove => {
                self.balances.insert(owner, balance - 1);
            },
        }
    }

    /// The count of successful mints so far.
    pub fn read_supply(&self) -> (r: i128)
        ensures
            r == self.supply,
    {
        self.supply
    }

    /// Count one more successful mint.
    pub fn increment_supply(&mut self)
        requires
            old(self).supply < i128::MAX,
        ensures
            final(self).supply == old(self).supply + 1,
            *final(self) == (NonFungibleToken { supply: final(self).supply, ..*old(self) }),
    {
        self.supply = self.supply + 1;
    }

    /// Whether `owner` has already used the self-mint path.
    pub fn read_minted(&self, owner: Identity) -> (r: bool)
        ensures
            r == self.minted_flag(owner),
    {
        match self.minted.get(&owner) {
            Some(m) => *m,
            None => false,
        }
    }

    /// Record that `owner` has used the self-mint path.
    pub fn write_minted(&mut self, owner: Identity)
        ensures
            final(self).minted_flag(owner),
            forall|j: Identity| j != owner ==> final(self).minted_flag(j) == old(self).minted_flag(j),
            *final(self) == (NonFungibleToken { minted: final(self).minted, ..*old(self) }),
    {
        self.minted.insert(owner, true);
    }

    /// Fails if `owner` has already used the self-mint path.
    pub fn check_minted(&self, owner: Identity) -> (r: Result<(), Error>)
        ensures
            match r {
                Ok(()) => !self.minted_flag(owner),
                Err(e) => self.minted_flag(owner) && e == Error::AlreadyMinted,
            },
    {
        if self.read_minted(owner) {
            Err(Error::AlreadyMinted)
        } else {
            Ok(())
        }
    }
}

} // verus!
