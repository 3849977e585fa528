//! The approval ledger: one single-token operator per token, and standing
//! owner-to-operator "approve all" delegations.
use vstd::prelude::*;

use crate::contract::NonFungibleToken;
use crate::storage_types::Identity;
use crate::storage_types::TokenId;

verus! {

broadcast use vstd::std_specs::hash::group_hash_axioms;

/// Key of an approve-all record: the (owner, operator) pair packed into one
/// 128-bit integer, owner in the high half, operator in the low half.
pub open spec fn pair_key(owner: Identity, operator: Identity) -> u128 {
    ((owner as u128) * 0x1_0000_0000_0000_0000 + (operator as u128)) as u128
}

/// Packing is injective: distinct pairs get distinct keys.
pub proof fn lemma_pair_key_injective(o1: Identity, p1: Identity, o2: Identity, p2: Identity)
    requires
        pair_key(o1, p1) == pair_key(o2, p2),
    ensures
        o1 == o2,
        p1 == p2,
{
    vstd::arithmetic::div_mod::lemma_fundamental_div_mod_converse(
        pair_key(o1, p1) as int,
        0x1_0000_0000_0000_0000,
        o1 as int,
        p1 as int,
    );
    vstd::arithmetic::div_mod::lemma_fundamental_div_mod_converse(
        pair_key(o2, p2) as int,
        0x1_0000_0000_0000_0000,
        o2 as int,
        p2 as int,
    );
}

impl NonFungibleToken {
    /// The operator currently approved for token `id`; the sentinel zero
    /// identity if none.
    pub fn read_approval(&self, id: TokenId) -> (r: Identity)
        ensures
            r == self.approval_of(id),
    {
        match self.approvals.get(&id) {
            Some(a) => *a,
            None => 0,
        }
    }

    /// Whether `owner` has a standing approve-all delegation to `operator`.
    pub fn read_approval_all(&self, owner: Identity, operator: Identity) -> (r: bool)
        ensures
            r == self.approved_all(owner, operator),
    {
        let key = pack_pair(owner, operator);
        match self.approvals_all.get(&key) {
            Some(b) => *b,
            None => false,
        }
    }

    /// Set (or, with the sentinel, clear) the single approval of token `id`.
    pub fn write_approval(&mut self, id: TokenId, operator: Identity)
        ensures
            final(self).approval_of(id) == operator,
            forall|t: TokenId| t != id ==> final(self).approval_of(t) == old(self).approval_of(t),
            *final(self) == (NonFungibleToken { approvals: final(self).approvals, ..*old(self) }),
    {
        self.approvals.insert(id, operator);
    }

    /// Set or clear the approve-all delegation from `owner` to `operator`.
    pub fn write_approval_all(&mut self, owner: Identity, operator: Identity, approved: bool)
        ensures
            final(self).approved_all(owner, operator) == approved,
            forall|o: Identity, p: Identity|
                o != owner || p != operator ==> #[trigger] final(self).approved_all(o, p) == old(
                    self,
                ).approved_all(o, p),
            *final(self) == (NonFungibleToken { approvals_all: final(self).approvals_all, ..*old(self) }),
    {
        let key = pack_pair(owner, operator);
        self.approvals_all.insert(key, approved);
        proof {
            assert forall|o: Identity, p: Identity| o != owner || p != operator implies #[trigger]
            self.approved_all(o, p) == old(self).approved_all(o, p) by {
                if pair_key(o, p) == pair_key(owner, operator) {
                    lemma_pair_key_injective(o, p, owner, operator);
                }
            }
        }
    }
}

/// The packed exec form of `pair_key`.
fn pack_pair(owner: Identity, operator: Identity) -> (r: u128)
    ensures
        r == pair_key(owner, operator),
{
    (owner as u128) * 0x1_0000_0000_0000_0000 + (operator as u128)
}

} // verus!
