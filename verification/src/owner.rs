//! The ownership ledger: which identity owns which token. Absence of a
//! record means "unowned" and is surfaced as the sentinel zero identity.
use vstd::prelude::*;

use crate::contract::NonFungibleToken;
use crate::storage_types::{Error, Identity, TokenId};

verus! {

broadcast use vstd::std_specs::hash::group_hash_axioms;

/// The sentinel identity standing for "no owner" / "no approval".
pub fn zero_address() -> (r: Identity)
    ensures
        r == 0,
{
    0
}

/// The tokens that `id` owns under the owner map `m`.
pub open spec fn owned_tokens(m: Map<TokenId, Identity>, id: Identity) -> Set<TokenId> {
    m.dom().filter(|t: TokenId| m[t] == id)
}

/// Owned-token sets are finite and no larger than the owner map itself.
pub proof fn lemma_owned_tokens_finite(m: Map<TokenId, Identity>, id: Identity)
    requires
        m.dom().finite(),
    ensures
        owned_tokens(m, id).finite(),
        owned_tokens(m, id).len() <= m.dom().len(),
{
    let f = |t: TokenId| m[t] == id;
    m.dom().lemma_len_filter(f);
    assert(owned_tokens(m, id) =~= m.dom().filter(f));
}

/// Reassigning token `t` to `o` moves `t` into `o`'s owned set and out of
/// every other identity's owned set, pointwise.
pub proof fn lemma_owned_tokens_insert(m: Map<TokenId, Identity>, t: TokenId, o: Identity)
    ensures
        owned_tokens(m.insert(t, o), o) == owned_tokens(m, o).insert(t),
        forall|id: Identity|
            id != o ==> #[trigger] owned_tokens(m.insert(t, o), id) == owned_tokens(m, id).remove(
                t,
            ),
{
    assert(owned_tokens(m.insert(t, o), o) =~= owned_tokens(m, o).insert(t));
    assert forall|id: Identity| id != o implies #[trigger] owned_tokens(m.insert(t, o), id)
        == owned_tokens(m, id).remove(t) by {
        assert(owned_tokens(m.insert(t, o), id) =~= owned_tokens(m, id).remove(t));
    }
}

/// How every owned-token count changes when token `t`, currently owned by
/// `m[t]`, is reassigned to a different identity `to`: `to` gains one, the
/// previous owner loses one, everyone else keeps their count, and the map's
/// domain keeps its size.
pub proof fn lemma_counts_after_transfer(m: Map<TokenId, Identity>, t: TokenId, to: Identity)
    requires
        m.dom().finite(),
        m.contains_key(t),
        m[t] != to,
    ensures
        owned_tokens(m.insert(t, to), to).len() == owned_tokens(m, to).len() + 1,
        owned_tokens(m.insert(t, to), m[t]).len() == owned_tokens(m, m[t]).len() - 1,
        forall|j: Identity|
            j != to && j != m[t] ==> #[trigger] owned_tokens(m.insert(t, to), j).len()
                == owned_tokens(m, j).len(),
        owned_tokens(m, to).len() + 1 <= m.dom().len(),
        1 <= owned_tokens(m, m[t]).len(),
        m.insert(t, to).dom().len() == m.dom().len(),
{
    let prev = m[t];
    lemma_owned_tokens_insert(m, t, to);
    lemma_owned_tokens_finite(m, to);
    lemma_owned_tokens_finite(m, prev);
    assert(!owned_tokens(m, to).contains(t));
    assert(owned_tokens(m, prev).contains(t));
    vstd::set::axiom_set_insert_len(owned_tokens(m, to), t);
    vstd::set::axiom_set_remove_len(owned_tokens(m, prev), t);
    assert forall|j: Identity| j != to && j != prev implies #[trigger] owned_tokens(
        m.insert(t, to),
        j,
    ).len() == owned_tokens(m, j).len() by {
        lemma_owned_tokens_finite(m, j);
        assert(!owned_tokens(m, j).contains(t));
        vstd::set::axiom_set_remove_len(owned_tokens(m, j), t);
    }
    assert(owned_tokens(m, to).subset_of(m.dom().remove(t)));
    vstd::set::axiom_set_remove_len(m.dom(), t);
    vstd::set_lib::lemma_len_subset(owned_tokens(m, to), m.dom().remove(t));
    assert(m.insert(t, to).dom() =~= m.dom());
}

/// Reassigning token `t` to its current owner changes no owned-token count
/// and keeps the map's domain.
pub proof fn lemma_counts_after_self_transfer(m: Map<TokenId, Identity>, t: TokenId)
    requires
        m.dom().finite(),
        m.contains_key(t),
    ensures
        forall|j: Identity| #[trigger]
            owned_tokens(m.insert(t, m[t]), j).len() == owned_tokens(m, j).len(),
        1 <= owned_tokens(m, m[t]).len(),
        m.insert(t, m[t]).dom().len() == m.dom().len(),
{
    assert(m.insert(t, m[t]) =~= m);
    lemma_owned_tokens_finite(m, m[t]);
    assert(owned_tokens(m, m[t]).contains(t));
    vstd::set::axiom_set_remove_len(owned_tokens(m, m[t]), t);
}

/// How every owned-token count changes when a fresh token `t` is assigned
/// to `to`: `to` gains one, everyone else keeps their count, and the map's
/// domain grows by one.
pub proof fn lemma_counts_after_mint(m: Map<TokenId, Identity>, t: TokenId, to: Identity)
    requires
        m.dom().finite(),
        !m.contains_key(t),
    ensures
        owned_tokens(m.insert(t, to), to).len() == owned_tokens(m, to).len() + 1,
        forall|j: Identity|
            j != to ==> #[trigger] owned_tokens(m.insert(t, to), j).len() == owned_tokens(
                m,
                j,
            ).len(),
        owned_tokens(m, to).len() <= m.dom().len(),
        m.insert(t, to).dom().len() == m.dom().len() + 1,
{
    lemma_owned_tokens_insert(m, t, to);
    lemma_owned_tokens_finite(m, to);
    assert(!owned_tokens(m, to).contains(t));
    vstd::set::axiom_set_insert_len(owned_tokens(m, to), t);
    assert forall|j: Identity| j != to implies #[trigger] owned_tokens(m.insert(t, to), j).len()
        == owned_tokens(m, j).len() by {
        lemma_owned_tokens_finite(m, j);
        assert(!owned_tokens(m, j).contains(t));
        vstd::set::axiom_set_remove_len(owned_tokens(m, j), t);
    }
    assert(m.insert(t, to).dom() =~= m.dom().insert(t));
    vstd::set::axiom_set_insert_len(m.dom(), t);
}

/// How every owned-token count changes when token `t` is deleted: its owner
/// loses one, everyone else keeps their count, and the map's domain shrinks
/// by one.
pub proof fn lemma_counts_after_burn(m: Map<TokenId, Identity>, t: TokenId)
    requires
        m.dom().finite(),
        m.contains_key(t),
    ensures
        owned_tokens(m.remove(t), m[t]).len() == owned_tokens(m, m[t]).len() - 1,
        1 <= owned_tokens(m, m[t]).len(),
        forall|j: Identity|
            j != m[t] ==> #[trigger] owned_tokens(m.remove(t), j).len() == owned_tokens(
                m,
                j,
            ).len(),
        m.remove(t).dom().len() == m.dom().len() - 1,
{
    let prev = m[t];
    lemma_owned_tokens_remove(m, t);
    lemma_owned_tokens_finite(m, prev);
    assert(owned_tokens(m, prev).contains(t));
    vstd::set::axiom_set_remove_len(owned_tokens(m, prev), t);
    assert forall|j: Identity| j != prev implies #[trigger] owned_tokens(m.remove(t), j).len()
        == owned_tokens(m, j).len() by {
        lemma_owned_tokens_finite(m, j);
        assert(!owned_tokens(m, j).contains(t));
        vstd::set::axiom_set_remove_len(owned_tokens(m, j), t);
    }
    assert(m.remove(t).dom() =~= m.dom().remove(t));
    vstd::set::axiom_set_remove_len(m.dom(), t);
}

/// Deleting token `t` removes it from every identity's owned set, pointwise.
pub proof fn lemma_owned_tokens_remove(m: Map<TokenId, Identity>, t: TokenId)
    ensures
        forall|id: Identity| #[trigger]
            owned_tokens(m.remove(t), id) == owned_tokens(m, id).remove(t),
{
    assert forall|id: Identity| #[trigger] owned_tokens(m.remove(t), id) == owned_tokens(
        m,
        id,
    ).remove(t) by {
        assert(owned_tokens(m.remove(t), id) =~= owned_tokens(m, id).remove(t));
    }
}

impl NonFungibleToken {
    /// The current owner of token `id`; the sentinel zero identity if the
    /// token was never minted or was burned.
    pub fn read_owner(&self, id: TokenId) -> (r: Identity)
        ensures
            r == self.owner_of(id),
    {
        match self.owners.get(&id) {
            Some(o) => *o,
            None => zero_address(),
        }
    }

    /// Unconditionally (re)assign token `id`. Writing the sentinel deletes
    /// the record, so that stored owners are always real identities.
    pub fn write_owner(&mut self, id: TokenId, owner: Identity)
        ensures
            final(self).owner_of(id) == owner,
            forall|t: TokenId| t != id ==> final(self).owner_of(t) == old(self).owner_of(t),
            owner != 0 ==> final(self).owners@ == old(self).owners@.insert(id, owner),
            owner == 0 ==> final(self).owners@ == old(self).owners@.remove(id),
            *final(self) == (NonFungibleToken { owners: final(self).owners, ..*old(self) }),
    {
        if owner == 0 {
            self.owners.remove(&id);
        } else {
            self.owners.insert(id, owner);
        }
    }

    /// Fails unless `auth` is the current owner of token `id`.
    pub fn check_owner(&self, auth: Identity, id: TokenId) -> (r: Result<(), Error>)
        ensures
            match r {
                Ok(()) => self.owner_of(id) == auth,
                Err(e) => self.owner_of(id) != auth && e == Error::NotOwner,
            },
    {
        if self.read_owner(id) == auth {
            Ok(())
        } else {
            Err(Error::NotOwner)
        }
    }
}

} // verus!
