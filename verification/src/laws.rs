//! Cross-cutting laws of the ledger, stated over the spec functions that the
//! operations' contracts use.
use vstd::prelude::*;

use crate::contract::NonFungibleToken;
use crate::owner::lemma_owned_tokens_finite;
use crate::storage_types::Identity;

verus! {

broadcast use vstd::std_specs::hash::group_hash_axioms;

/// Balance/ownership consistency: in every well-formed state, each
/// identity's balance equals the number of tokens it currently owns.
pub proof fn lemma_balance_matches_owned(s: NonFungibleToken, id: Identity)
    requires
        s.wf(),
    ensures
        s.balance_of(id) == s.owned_set(id).len() as int,
{
}

/// No identity's balance exceeds the supply counter: the owned tokens of
/// one identity are among all owned tokens, of which there are at most
/// `supply`.
pub proof fn lemma_balance_at_most_supply(s: NonFungibleToken, id: Identity)
    requires
        s.wf(),
    ensures
        0 <= s.balance_of(id),
        s.balance_of(id) <= s.supply as int,
{
    lemma_owned_tokens_finite(s.owners@, id);
}

/// Nonce monotonicity, one step at a time: a successful signed call moves
/// the signer's nonce to exactly one more than before and leaves every other
/// identity's nonce alone. Every state-changing operation ensures its final
/// nonce map equals `nonces_after` of its starting state, so starting from
/// the fresh ledger's all-zero nonces, the N-th successful signed call of an
/// identity claims nonce N-1 and leaves the nonce at N.
pub proof fn lemma_nonce_step(pre: NonFungibleToken, post: NonFungibleToken, id: Identity)
    requires
        pre.nonce_of(id) < i128::MAX as int,
        post.nonces@ == pre.nonces_after(crate::storage_types::Signature::Signed(id)),
    ensures
        post.nonce_of(id) == pre.nonce_of(id) + 1,
        forall|j: Identity| j != id ==> post.nonce_of(j) == pre.nonce_of(j),
{
}

/// Nonce monotonicity over a whole run: take the states a ledger passes
/// through under successive successful signed calls of one identity — every
/// state-changing operation ensures that its final nonce map equals
/// `nonces_after` of its starting state, which is what the step condition
/// below demands. If the identity's nonce starts at 0, then after N such
/// calls it is exactly N.
pub proof fn lemma_nonce_after_n_calls(trace: Seq<NonFungibleToken>, id: Identity)
    requires
        1 <= trace.len(),
        trace.len() <= i128::MAX as int,
        trace[0].nonce_of(id) == 0,
        forall|i: int|
            0 <= i < trace.len() - 1 ==> trace[i + 1].nonces@ == #[trigger] trace[i].nonces_after(
                crate::storage_types::Signature::Signed(id),
            ),
    ensures
        trace.last().nonce_of(id) == trace.len() - 1,
    decreases trace.len(),
{
    if trace.len() > 1 {
        let prefix = trace.drop_last();
        assert forall|i: int|
            0 <= i < prefix.len() - 1 implies prefix[i + 1].nonces@ == #[trigger] prefix[i].nonces_after(
            crate::storage_types::Signature::Signed(id),
        ) by {
            assert(trace[i + 1].nonces@ == trace[i].nonces_after(
                crate::storage_types::Signature::Signed(id),
            ));
        }
        lemma_nonce_after_n_calls(prefix, id);
        let n = trace.len() - 1;
        assert(trace[n].nonces@ == trace[n - 1].nonces_after(
            crate::storage_types::Signature::Signed(id),
        ));
        assert(trace[n - 1] == prefix.last());
        lemma_nonce_step(trace[n - 1], trace[n], id);
    }
}

/// Whoever owns a token holds a positive balance: owning even one token is
/// visible in the balance ledger.
pub proof fn lemma_owner_has_positive_balance(s: NonFungibleToken, t: crate::storage_types::TokenId)
    requires
        s.wf(),
        s.owner_of(t) != 0,
    ensures
        1 <= s.balance_of(s.owner_of(t)),
{
    let id = s.owner_of(t);
    lemma_owned_tokens_finite(s.owners@, id);
    assert(s.owned_set(id).contains(t));
    vstd::set::axiom_set_contains_len(s.owned_set(id), t);
}

} // verus!
