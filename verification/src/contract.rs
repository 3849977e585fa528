//! The token operation engine: the ledger-state aggregate, its global
//! invariant, replay protection, and the public operation surface.
use std::collections::HashMap;
use vstd::prelude::*;

use crate::event::Event;
use crate::interface::WriteType;
use crate::owner::{owned_tokens, zero_address};
use crate::storage_types::{Error, Identity, Signature, TokenId};

verus! {

broadcast use vstd::std_specs::hash::group_hash_axioms;

/// The whole ledger state, carried as one explicit aggregate. The host's
/// durable key-value substrate (out of scope here) is modelled by these
/// maps; each public operation is one atomic transaction over them: it
/// either fully commits or leaves the state untouched.
pub struct NonFungibleToken {
    /// The single administrator; `None` until `initialize`.
    pub admin: Option<Identity>,
    /// Collection name, immutable after `initialize`.
    pub name: Option<Vec<u8>>,
    /// Collection symbol, immutable after `initialize`.
    pub symbol: Option<Vec<u8>>,
    /// Per-identity replay-protection counters; absent means 0.
    pub nonces: HashMap<Identity, i128>,
    /// Per-identity owned-token counts; absent means 0.
    pub balances: HashMap<Identity, i128>,
    /// Identities that have used the one-shot self-mint path.
    pub minted: HashMap<Identity, bool>,
    /// Token id to current owner; absent means unowned (sentinel).
    pub owners: HashMap<TokenId, Identity>,
    /// Token id to the single approved operator; absent means none.
    pub approvals: HashMap<TokenId, Identity>,
    /// Packed (owner, operator) pair to approve-all flag.
    pub approvals_all: HashMap<u128, bool>,
    /// Count of successful mints; never decremented.
    pub supply: i128,
    /// Token id to its URI, written at mint time.
    pub uris: HashMap<TokenId, Vec<u8>>,
    /// Log of notifications, one per successful state-changing operation.
    pub events: Vec<Event>,
}

impl NonFungibleToken {
    /// Whether `initialize` has run.
    pub open spec fn initialized(self) -> bool {
        self.admin is Some
    }

    /// The current nonce of `id`, 0 if it never made an authorized call.
    pub open spec fn nonce_of(self, id: Identity) -> int {
        if self.nonces@.contains_key(id) {
            self.nonces@[id] as int
        } else {
            0
        }
    }

    /// The number of tokens `id` owns, 0 if none were ever recorded.
    pub open spec fn balance_of(self, id: Identity) -> int {
        if self.balances@.contains_key(id) {
            self.balances@[id] as int
        } else {
            0
        }
    }

    /// The owner of token `t`; the sentinel 0 when unowned.
    pub open spec fn owner_of(self, t: TokenId) -> Identity {
        if self.owners@.contains_key(t) {
            self.owners@[t]
        } else {
            0
        }
    }

    /// The single approved operator of token `t`; the sentinel 0 when none.
    pub open spec fn approval_of(self, t: TokenId) -> Identity {
        if self.approvals@.contains_key(t) {
            self.approvals@[t]
        } else {
            0
        }
    }

    /// Whether `owner` has a standing approve-all delegation to `operator`.
    pub open spec fn approved_all(self, owner: Identity, operator: Identity) -> bool {
        let k = crate::approval::pair_key(owner, operator);
        self.approvals_all@.contains_key(k) && self.approvals_all@[k]
    }

    /// Whether `id` has used the one-shot self-mint path.
    pub open spec fn minted_flag(self, id: Identity) -> bool {
        self.minted@.contains_key(id) && self.minted@[id]
    }

    /// The URI recorded for token `t`, if any.
    pub open spec fn uri_of(self, t: TokenId) -> Option<Seq<u8>> {
        if self.uris@.contains_key(t) {
            Some(self.uris@[t]@)
        } else {
            None
        }
    }

    /// The collection name, if `initialize` has run.
    pub open spec fn name_of(self) -> Option<Seq<u8>> {
        match self.name {
            Some(n) => Some(n@),
            None => None,
        }
    }

    /// The collection symbol, if `initialize` has run.
    pub open spec fn symbol_of(self) -> Option<Seq<u8>> {
        match self.symbol {
            Some(s) => Some(s@),
            None => None,
        }
    }

    /// The set of tokens currently owned by `id`.
    pub open spec fn owned_set(self, id: Identity) -> Set<TokenId> {
        owned_tokens(self.owners@, id)
    }

    /// The global invariant, established by `new` and preserved by every
    /// public operation:
    /// - the supply counter is non-negative and bounds the number of
    ///   currently owned tokens;
    /// - recorded owners are real identities, never the sentinel;
    /// - every identity's balance equals the number of tokens it owns;
    /// - nonces are non-negative;
    /// - name and symbol exist exactly when the administrator does, and the
    ///   administrator is a real identity.
    pub open spec fn wf(self) -> bool {
        &&& 0 <= self.supply
        &&& self.owners@.dom().len() as int <= self.supply as int
        &&& forall|t: TokenId| #[trigger] self.owners@.contains_key(t) ==> self.owners@[t] != 0
        &&& forall|id: Identity| #[trigger] self.balance_of(id) == self.owned_set(id).len() as int
        &&& forall|id: Identity|
            self.nonces@.contains_key(id) ==> 0 <= #[trigger] self.nonces@[id]
        &&& (self.name is Some) == (self.admin is Some)
        &&& (self.symbol is Some) == (self.admin is Some)
        &&& (match self.admin {
            Some(a) => a != 0,
            None => true,
        })
    }

    /// A fresh, uninitialized ledger: no admin, no tokens, no balances, no
    /// nonces, no approvals, no events, supply 0.
    pub fn new() -> (r: NonFungibleToken)
        ensures
            r.wf(),
            !r.initialized(),
            r.admin is None,
            r.name_of() is None,
            r.symbol_of() is None,
            r.supply == 0,
            r.events@ =~= Seq::<Event>::empty(),
            forall|id: Identity| #[trigger] r.nonce_of(id) == 0,
            forall|id: Identity| #[trigger] r.balance_of(id) == 0,
            forall|t: TokenId| #[trigger] r.owner_of(t) == 0,
            forall|t: TokenId| #[trigger] r.approval_of(t) == 0,
            forall|o: Identity, p: Identity| !(#[trigger] r.approved_all(o, p)),
            forall|id: Identity| !(#[trigger] r.minted_flag(id)),
            forall|t: TokenId| #[trigger] r.uri_of(t) is None,
    {
        let r = NonFungibleToken {
            admin: None,
            name: None,
            symbol: None,
            nonces: HashMap::new(),
            balances: HashMap::new(),
            minted: HashMap::new(),
            owners: HashMap::new(),
            approvals: HashMap::new(),
            approvals_all: HashMap::new(),
            supply: 0,
            uris: HashMap::new(),
            events: Vec::new(),
        };
        proof {
            assert forall|id: Identity| #[trigger] r.balance_of(id) == r.owned_set(id).len()
                as int by {
                assert(r.owned_set(id) =~= Set::<TokenId>::empty());
            }
        }
        r
    }
}

/// Re-establishes the invariant when the token ledgers (owners, balances,
/// supply) are unchanged and the nonce map still holds only non-negative
/// values.
proof fn lemma_wf_same_token_ledgers(pre: NonFungibleToken, post: NonFungibleToken)
    requires
        pre.wf(),
        post.owners == pre.owners,
        post.balances == pre.balances,
        post.supply == pre.supply,
        forall|id: Identity| post.nonces@.contains_key(id) ==> 0 <= #[trigger] post.nonces@[id],
        (post.name is Some) == (post.admin is Some),
        (post.symbol is Some) == (post.admin is Some),
        match post.admin {
            Some(a) => a != 0,
            None => true,
        },
    ensures
        post.wf(),
{
    assert forall|id: Identity| #[trigger] post.balance_of(id) == post.owned_set(id).len()
        as int by {
        assert(pre.balance_of(id) == pre.owned_set(id).len() as int);
    }
    assert forall|t: TokenId| #[trigger] post.owners@.contains_key(t) implies post.owners@[t]
        != 0 by {
        assert(pre.owners@.contains_key(t) ==> pre.owners@[t] != 0);
    }
}

/// As above, when the nonce map is unchanged too.
proof fn lemma_wf_same_ledgers(pre: NonFungibleToken, post: NonFungibleToken)
    requires
        pre.wf(),
        post.owners == pre.owners,
        post.balances == pre.balances,
        post.nonces == pre.nonces,
        post.supply == pre.supply,
        (post.name is Some) == (post.admin is Some),
        (post.symbol is Some) == (post.admin is Some),
        match post.admin {
            Some(a) => a != 0,
            None => true,
        },
    ensures
        post.wf(),
{
    assert forall|id: Identity| post.nonces@.contains_key(id) implies 0 <= #[trigger] post.nonces@[id] by {
        assert(pre.nonces@.contains_key(id) ==> 0 <= pre.nonces@[id]);
    }
    lemma_wf_same_token_ledgers(pre, post);
}

impl NonFungibleToken {
    /// What the replay check yields for `auth` claiming `nonce`: a
    /// self-authenticated caller must claim exactly 0; a signer must claim
    /// exactly its current nonce.
    pub open spec fn nonce_outcome(self, auth: Signature, nonce: i128) -> Option<Error> {
        match auth {
            Signature::Invoker(_) => if nonce != 0 {
                Some(Error::NonceMustBeZero)
            } else {
                None
            },
            Signature::Signed(id) => if nonce as int != self.nonce_of(id) {
                Some(Error::IncorrectNonce)
            } else {
                None
            },
        }
    }

    /// The nonce map after a successful replay check for `auth`: unchanged
    /// for a self-authenticated caller, incremented once for a signer.
    pub open spec fn nonces_after(self, auth: Signature) -> Map<Identity, i128> {
        match auth {
            Signature::Invoker(_) => self.nonces@,
            Signature::Signed(id) => self.nonces@.insert(id, (self.nonce_of(id) + 1) as i128),
        }
    }

    /// The current nonce of `id`, 0 if it never made an authorized call.
    pub fn read_nonce(&self, id: Identity) -> (r: i128)
        ensures
            r as int == self.nonce_of(id),
    {
        match self.nonces.get(&id) {
            Some(n) => *n,
            None => 0,
        }
    }

    /// The sole replay-protection step, run exactly once by every
    /// state-changing operation after its semantic authorization checks and
    /// before any ledger mutation. A self-authenticated caller must claim
    /// nonce 0 and consumes nothing; a signer must claim its current nonce,
    /// which is then incremented.
    pub fn verify_and_consume_nonce(&mut self, auth: &Signature, expected_nonce: i128) -> (r:
        Result<(), Error>)
        requires
            old(self).wf(),
            expected_nonce < i128::MAX,
        ensures
            final(self).wf(),
            match r {
                Ok(()) => {
                    &&& old(self).nonce_outcome(*auth, expected_nonce) is None
                    &&& final(self).nonces@ == old(self).nonces_after(*auth)
                    &&& (auth.is_invoker() ==> *final(self) == *old(self))
                    &&& (!auth.is_invoker() ==> final(self).nonce_of(auth.signer()) == old(
                        self,
                    ).nonce_of(auth.signer()) + 1)
                    &&& forall|j: Identity|
                        j != auth.signer() ==> final(self).nonce_of(j) == old(self).nonce_of(j)
                    &&& *final(self) == (NonFungibleToken {
                        nonces: final(self).nonces,
                        ..*old(self)
                    })
                },
                Err(e) => {
                    &&& *final(self) == *old(self)
                    &&& old(self).nonce_outcome(*auth, expected_nonce) == Some(e)
                },
            },
    {
        match auth {
            Signature::Invoker(_) => {
                if expected_nonce != 0 {
                    return Err(Error::NonceMustBeZero);
                }
                return Ok(());
            },
            _ => {},
        }
        let id = auth.identifier();
        let nonce = self.read_nonce(id);
        if nonce != expected_nonce {
            return Err(Error::IncorrectNonce);
        }
        self.nonces.insert(id, nonce + 1);
        proof {
            let pre = *old(self);
            assert(pre.nonces@.contains_key(id) ==> 0 <= pre.nonces@[id]);
            assert forall|j: Identity|
                self.nonces@.contains_key(j) implies 0 <= #[trigger] self.nonces@[j] by {
                if j != id {
                    assert(pre.nonces@.contains_key(j));
                    assert(0 <= pre.nonces@[j]);
                }
            }
            lemma_wf_same_token_ledgers(pre, *self);
        }
        Ok(())
    }
}

impl NonFungibleToken {
    /// One-shot setup: record the administrator, name and symbol. Fails if
    /// an administrator already exists, in which case nothing changes.
    pub fn initialize(&mut self, admin: Identity, name: Vec<u8>, symbol: Vec<u8>) -> (r: Result<
        (),
        Error,
    >)
        requires
            old(self).wf(),
            admin != 0,
        ensures
            final(self).wf(),
            match r {
                Ok(()) => {
                    &&& !old(self).initialized()
                    &&& final(self).admin == Some(admin)
                    &&& final(self).name_of() == Some(name@)
                    &&& final(self).symbol_of() == Some(symbol@)
                    &&& *final(self) == (NonFungibleToken {
                        admin: final(self).admin,
                        name: final(self).name,
                        symbol: final(self).symbol,
                        ..*old(self)
                    })
                },
                Err(e) => {
                    &&& old(self).initialized()
                    &&& e == Error::AlreadyInitialized
                    &&& *final(self) == *old(self)
                },
            },
    {
        if self.has_administrator() {
            return Err(Error::AlreadyInitialized);
        }
        self.write_administrator(admin);
        self.write_name(name);
        self.write_symbol(symbol);
        proof {
            lemma_wf_same_ledgers(*old(self), *self);
        }
        Ok(())
    }

    /// The current nonce of `id`.
    pub fn nonce(&self, id: Identity) -> (r: i128)
        ensures
            r as int == self.nonce_of(id),
    {
        self.read_nonce(id)
    }

    /// The current administrator; fails before `initialize`.
    pub fn admin(&self) -> (r: Result<Identity, Error>)
        ensures
            match r {
                Ok(a) => self.admin == Some(a),
                Err(e) => self.admin is None && e == Error::NotInitialized,
            },
    {
        self.read_administrator()
    }

    /// What checking admin authorization and then the nonce yields.
    pub open spec fn set_admin_outcome(self, admin_sig: Signature, nonce: i128) -> Option<Error> {
        if self.admin_outcome(admin_sig.signer()) is Some {
            self.admin_outcome(admin_sig.signer())
        } else {
            self.nonce_outcome(admin_sig, nonce)
        }
    }

    /// Replace the administrator. Only the current administrator, with a
    /// matching nonce, may do so; on failure nothing changes.
    pub fn set_admin(&mut self, admin: Signature, nonce: i128, new_admin: Identity) -> (r: Result<
        (),
        Error,
    >)
        requires
            old(self).wf(),
            admin.signer() != 0,
            new_admin != 0,
            nonce < i128::MAX,
        ensures
            final(self).wf(),
            match r {
                Ok(()) => {
                    &&& old(self).set_admin_outcome(admin, nonce) is None
                    &&& final(self).admin == Some(new_admin)
                    &&& final(self).nonces@ == old(self).nonces_after(admin)
                    &&& final(self).events@ == old(self).events@.push(
                        Event::SetAdmin { admin: admin.signer(), new_admin },
                    )
                    &&& *final(self) == (NonFungibleToken {
                        admin: final(self).admin,
                        nonces: final(self).nonces,
                        events: final(self).events,
                        ..*old(self)
                    })
                },
                Err(e) => {
                    &&& *final(self) == *old(self)
                    &&& old(self).set_admin_outcome(admin, nonce) == Some(e)
                },
            },
    {
        if let Err(e) = self.check_admin(&admin) {
            return Err(e);
        }
        if let Err(e) = self.verify_and_consume_nonce(&admin, nonce) {
            return Err(e);
        }
        let ghost s1 = *self;
        let admin_id = admin.identifier();
        self.write_administrator(new_admin);
        crate::event::set_admin(&mut self.events, admin_id, new_admin);
        proof {
            lemma_wf_same_ledgers(s1, *self);
        }
        Ok(())
    }

    /// The collection name; fails before `initialize`.
    pub fn name(&self) -> (r: Result<Vec<u8>, Error>)
        ensures
            match r {
                Ok(n) => self.name_of() == Some(n@),
                Err(e) => self.name_of() is None && e == Error::NotInitialized,
            },
    {
        self.read_name()
    }

    /// The collection symbol; fails before `initialize`.
    pub fn symbol(&self) -> (r: Result<Vec<u8>, Error>)
        ensures
            match r {
                Ok(s) => self.symbol_of() == Some(s@),
                Err(e) => self.symbol_of() is None && e == Error::NotInitialized,
            },
    {
        self.read_symbol()
    }

    /// The URI of token `id`; fails if none was ever recorded.
    pub fn token_uri(&self, id: TokenId) -> (r: Result<Vec<u8>, Error>)
        ensures
            match r {
                Ok(u) => self.uri_of(id) == Some(u@),
                Err(e) => self.uri_of(id) is None && e == Error::NoSuchToken,
            },
    {
        self.read_token_uri(id)
    }

    /// The operator approved for token `id`; the sentinel if none.
    pub fn get_appr(&self, id: TokenId) -> (r: Identity)
        ensures
            r == self.approval_of(id),
    {
        self.read_approval(id)
    }

    /// Whether `operator` may manage all of `owner`'s tokens.
    pub fn is_appr(&self, owner: Identity, operator: Identity) -> (r: bool)
        ensures
            r == self.approved_all(owner, operator),
    {
        self.read_approval_all(owner, operator)
    }

    /// The number of tokens `owner` holds.
    pub fn balance(&self, owner: Identity) -> (r: i128)
        ensures
            r as int == self.balance_of(owner),
    {
        self.read_balance(owner)
    }

    /// The owner of token `id`; the sentinel if unowned.
    pub fn owner(&self, id: TokenId) -> (r: Identity)
        ensures
            r == self.owner_of(id),
    {
        self.read_owner(id)
    }

    /// What checking token ownership and then the nonce yields, for the
    /// operations (approval and owner-initiated transfer) that only the
    /// token's current owner may perform.
    pub open spec fn owner_op_outcome(self, owner_sig: Signature, nonce: i128, id: TokenId) -> Option<
        Error,
    > {
        if self.owner_of(id) != owner_sig.signer() {
            Some(Error::NotOwner)
        } else {
            self.nonce_outcome(owner_sig, nonce)
        }
    }

    /// Let `operator` manage token `id`. Only the token's current owner,
    /// with a matching nonce, may do so; an owner may overwrite any prior
    /// approval unconditionally, and the sentinel clears it. On failure
    /// nothing changes.
    pub fn appr(&mut self, owner: Signature, nonce: i128, operator: Identity, id: TokenId) -> (r:
        Result<(), Error>)
        requires
            old(self).wf(),
            owner.signer() != 0,
            nonce < i128::MAX,
        ensures
            final(self).wf(),
            match r {
                Ok(()) => {
                    &&& old(self).owner_op_outcome(owner, nonce, id) is None
                    &&& final(self).approval_of(id) == operator
                    &&& forall|t: TokenId|
                        t != id ==> final(self).approval_of(t) == old(self).approval_of(t)
                    &&& final(self).nonces@ == old(self).nonces_after(owner)
                    &&& final(self).events@ == old(self).events@.push(
                        Event::Approve { operator, id },
                    )
                    &&& *final(self) == (NonFungibleToken {
                        approvals: final(self).approvals,
                        nonces: final(self).nonces,
                        events: final(self).events,
                        ..*old(self)
                    })
                },
                Err(e) => {
                    &&& *final(self) == *old(self)
                    &&& old(self).owner_op_outcome(owner, nonce, id) == Some(e)
                },
            },
    {
        let owner_id = owner.identifier();
        if let Err(e) = self.check_owner(owner_id, id) {
            return Err(e);
        }
        if let Err(e) = self.verify_and_consume_nonce(&owner, nonce) {
            return Err(e);
        }
        let ghost s1 = *self;
        self.write_approval(id, operator);
        let ghost s2 = *self;
        crate::event::approve(&mut self.events, operator, id);
        proof {
            lemma_wf_same_ledgers(s1, *self);
            assert forall|t: TokenId| t != id implies self.approval_of(t) == old(
                self,
            ).approval_of(t) by {
                assert(s2.approval_of(t) == s1.approval_of(t));
                assert(self.approval_of(t) == s2.approval_of(t));
                assert(s1.approval_of(t) == old(self).approval_of(t));
            }
        }
        Ok(())
    }

    /// Grant or revoke `operator`'s standing right to manage all of the
    /// signer's tokens. Requires only caller authenticity and a matching
    /// nonce; on failure nothing changes.
    pub fn appr_all(&mut self, owner: Signature, nonce: i128, operator: Identity, approved: bool)
        -> (r: Result<(), Error>)
        requires
            old(self).wf(),
            owner.signer() != 0,
            nonce < i128::MAX,
        ensures
            final(self).wf(),
            match r {
                Ok(()) => {
                    &&& old(self).nonce_outcome(owner, nonce) is None
                    &&& final(self).approved_all(owner.signer(), operator) == approved
                    &&& forall|o: Identity, p: Identity|
                        o != owner.signer() || p != operator ==> #[trigger] final(self).approved_all(
                            o,
                            p,
                        ) == old(self).approved_all(o, p)
                    &&& final(self).nonces@ == old(self).nonces_after(owner)
                    &&& final(self).events@ == old(self).events@.push(
                        Event::ApproveAll { operator, owner: owner.signer() },
                    )
                    &&& *final(self) == (NonFungibleToken {
                        approvals_all: final(self).approvals_all,
                        nonces: final(self).nonces,
                        events: final(self).events,
                        ..*old(self)
                    })
                },
                Err(e) => {
                    &&& *final(self) == *old(self)
                    &&& old(self).nonce_outcome(owner, nonce) == Some(e)
                },
            },
    {
        if let Err(e) = self.verify_and_consume_nonce(&owner, nonce) {
            return Err(e);
        }
        let ghost s1 = *self;
        let owner_id = owner.identifier();
        self.write_approval_all(owner_id, operator, approved);
        let ghost s2 = *self;
        crate::event::approve_all(&mut self.events, operator, owner_id);
        proof {
            lemma_wf_same_ledgers(s1, *self);
            assert forall|o: Identity, p: Identity|
                o != owner.signer() || p != operator implies self.approved_all(o, p) == old(
                self,
            ).approved_all(o, p) by {
                assert(s2.approved_all(o, p) == s1.approved_all(o, p));
                assert(self.approved_all(o, p) == s2.approved_all(o, p));
                assert(s1.approved_all(o, p) == old(self).approved_all(o, p));
            }
        }
        Ok(())
    }

    /// Transfer token `id` from the signer to `to`. Only the token's current
    /// owner, with a matching nonce, may do so. The owner record moves and
    /// the two balances shift by one; the token's single approval is
    /// deliberately left untouched, since only the delegated-transfer path
    /// consumes it. On failure nothing changes.
    pub fn xfer(&mut self, from: Signature, nonce: i128, to: Identity, id: TokenId) -> (r: Result<
        (),
        Error,
    >)
        requires
            old(self).wf(),
            from.signer() != 0,
            to != 0,
            nonce < i128::MAX,
        ensures
            final(self).wf(),
            match r {
                Ok(()) => {
                    &&& old(self).owner_op_outcome(from, nonce, id) is None
                    &&& old(self).owner_of(id) == from.signer()
                    &&& final(self).owner_of(id) == to
                    &&& forall|t: TokenId|
                        t != id ==> final(self).owner_of(t) == old(self).owner_of(t)
                    &&& (to != from.signer() ==> final(self).balance_of(from.signer()) == old(
                        self,
                    ).balance_of(from.signer()) - 1)
                    &&& (to != from.signer() ==> final(self).balance_of(to) == old(self).balance_of(
                        to,
                    ) + 1)
                    &&& forall|j: Identity|
                        j != from.signer() && j != to ==> final(self).balance_of(j) == old(
                            self,
                        ).balance_of(j)
                    &&& (to == from.signer() ==> forall|j: Identity|
                        final(self).balance_of(j) == old(self).balance_of(j))
                    &&& forall|t: TokenId| final(self).approval_of(t) == old(self).approval_of(t)
                    &&& final(self).supply == old(self).supply
                    &&& final(self).nonces@ == old(self).nonces_after(from)
                    &&& final(self).events@ == old(self).events@.push(
                        Event::Transfer { from: from.signer(), to, id },
                    )
                    &&& *final(self) == (NonFungibleToken {
                        owners: final(self).owners,
                        balances: final(self).balances,
                        nonces: final(self).nonces,
                        events: final(self).events,
                        ..*old(self)
                    })
                },
                Err(e) => {
                    &&& *final(self) == *old(self)
                    &&& old(self).owner_op_outcome(from, nonce, id) == Some(e)
                },
            },
    {
        let from_id = from.identifier();
        if let Err(e) = self.check_owner(from_id, id) {
            return Err(e);
        }
        if let Err(e) = self.verify_and_consume_nonce(&from, nonce) {
            return Err(e);
        }
        let ghost s1 = *self;
        let ghost m0 = s1.owners@;
        proof {
            assert(s1.owner_of(id) == old(self).owner_of(id));
            assert(m0.contains_key(id) && m0[id] == from_id);
            if to != from_id {
                crate::owner::lemma_counts_after_transfer(m0, id, to);
            } else {
                crate::owner::lemma_counts_after_self_transfer(m0, id);
            }
            assert(s1.balance_of(from_id) == s1.owned_set(from_id).len() as int);
            assert(s1.balance_of(to) == s1.owned_set(to).len() as int);
            assert(1 <= s1.balance_of(from_id));
            if to != from_id {
                assert(s1.balance_of(to) + 1 <= m0.dom().len() as int);
                assert(m0.dom().len() as int <= s1.supply as int);
                assert(s1.balance_of(to) < i128::MAX as int);
            }
        }
        self.write_owner(id, to);
        let ghost s2 = *self;
        proof {
            assert(s2.balance_of(from_id) == s1.balance_of(from_id));
            assert(s2.balance_of(to) == s1.balance_of(to));
        }
        self.write_balance(from_id, WriteType::Remove);
        let ghost s3 = *self;
        proof {
            if to != from_id {
                assert(s3.balance_of(to) == s2.balance_of(to));
            } else {
                assert(s3.balance_of(to) == s2.balance_of(to) - 1);
            }
            assert(s3.balance_of(to) < i128::MAX as int);
        }
        self.write_balance(to, WriteType::Add);
        let ghost s4 = *self;
        crate::event::transfer(&mut self.events, from_id, to, id);
        proof {
            let post = *self;
            assert(post.owners@ == m0.insert(id, to));
            // every balance matches the new owned-token count
            assert forall|j: Identity| #[trigger] post.balance_of(j) == post.owned_set(j).len()
                as int by {
                assert(s1.balance_of(j) == s1.owned_set(j).len() as int);
                assert(post.balance_of(j) == s4.balance_of(j));
                if to == from_id {
                    if j == to {
                        assert(s4.balance_of(j) == s3.balance_of(j) + 1);
                        assert(s3.balance_of(j) == s2.balance_of(j) - 1);
                    } else {
                        assert(s4.balance_of(j) == s3.balance_of(j));
                        assert(s3.balance_of(j) == s2.balance_of(j));
                    }
                } else {
                    if j == to {
                        assert(s4.balance_of(j) == s3.balance_of(j) + 1);
                        assert(s3.balance_of(j) == s2.balance_of(j));
                    } else if j == from_id {
                        assert(s4.balance_of(j) == s3.balance_of(j));
                        assert(s3.balance_of(j) == s2.balance_of(j) - 1);
                    } else {
                        assert(s4.balance_of(j) == s3.balance_of(j));
                        assert(s3.balance_of(j) == s2.balance_of(j));
                    }
                }
                assert(s2.balance_of(j) == s1.balance_of(j));
            }
            // owners stay real identities
            assert forall|t: TokenId| #[trigger]
                post.owners@.contains_key(t) implies post.owners@[t] != 0 by {
                if t != id {
                    assert(m0.contains_key(t));
                    assert(m0[t] != 0);
                }
            }
            // nonces stay non-negative
            assert forall|j: Identity|
                post.nonces@.contains_key(j) implies 0 <= #[trigger] post.nonces@[j] by {
                assert(s1.nonces@.contains_key(j) ==> 0 <= s1.nonces@[j]);
            }
            assert(post.wf());
            // the contract's pointwise clauses, bridged across the steps
            assert forall|t: TokenId| t != id implies post.owner_of(t) == old(self).owner_of(
                t,
            ) by {
                assert(s2.owner_of(t) == s1.owner_of(t));
                assert(post.owner_of(t) == s2.owner_of(t));
                assert(s1.owner_of(t) == old(self).owner_of(t));
            }
            assert forall|t: TokenId| post.approval_of(t) == old(self).approval_of(t) by {
                assert(post.approvals == old(self).approvals);
            }
            assert forall|j: Identity|
                j != from_id && j != to implies post.balance_of(j) == old(self).balance_of(j) by {
                assert(post.balance_of(j) == s4.balance_of(j));
                assert(s4.balance_of(j) == s3.balance_of(j));
                assert(s3.balance_of(j) == s2.balance_of(j));
                assert(s2.balance_of(j) == s1.balance_of(j));
                assert(s1.balance_of(j) == old(self).balance_of(j));
            }
            if to == from_id {
                assert forall|j: Identity| post.balance_of(j) == old(self).balance_of(j) by {
                    assert(post.balance_of(j) == s4.balance_of(j));
                    if j == to {
                        assert(s4.balance_of(j) == s3.balance_of(j) + 1);
                        assert(s3.balance_of(j) == s2.balance_of(j) - 1);
                    } else {
                        assert(s4.balance_of(j) == s3.balance_of(j));
                        assert(s3.balance_of(j) == s2.balance_of(j));
                    }
                    assert(s2.balance_of(j) == s1.balance_of(j));
                    assert(s1.balance_of(j) == old(self).balance_of(j));
                }
            } else {
                assert(s1.balance_of(from_id) == old(self).balance_of(from_id));
                assert(s1.balance_of(to) == old(self).balance_of(to));
                assert(post.balance_of(from_id) == s4.balance_of(from_id));
                assert(s4.balance_of(from_id) == s3.balance_of(from_id));
                assert(post.balance_of(to) == s4.balance_of(to));
            }
        }
        Ok(())
    }

    /// Whether `spender` may move token `t` on behalf of `from`: it holds
    /// the token's single approval, or a standing approve-all delegation
    /// from `from`.
    pub open spec fn is_approved(self, spender: Identity, from: Identity, t: TokenId) -> bool {
        self.approval_of(t) == spender || self.approved_all(from, spender)
    }

    /// What the checks of a delegated transfer yield, in order: delegation,
    /// then ownership, then the nonce.
    pub open spec fn xfer_from_outcome(
        self,
        spender_sig: Signature,
        from: Identity,
        nonce: i128,
        id: TokenId,
    ) -> Option<Error> {
        if !self.is_approved(spender_sig.signer(), from, id) {
            Some(Error::NotApproved)
        } else if self.owner_of(id) != from {
            Some(Error::NotOwner)
        } else {
            self.nonce_outcome(spender_sig, nonce)
        }
    }

    /// Transfer token `id` from `from` to `to` on the authority of the
    /// spender's delegation, consuming the spender's nonce. The token's
    /// single approval is reset to the sentinel immediately, so it cannot
    /// be used twice; an approve-all delegation, if that is what let the
    /// spender in, stands. On failure nothing changes.
    pub fn xfer_from(
        &mut self,
        spender: Signature,
        from: Identity,
        to: Identity,
        nonce: i128,
        id: TokenId,
    ) -> (r: Result<(), Error>)
        requires
            old(self).wf(),
            spender.signer() != 0,
            from != 0,
            to != 0,
            nonce < i128::MAX,
        ensures
            final(self).wf(),
            match r {
                Ok(()) => {
                    &&& old(self).xfer_from_outcome(spender, from, nonce, id) is None
                    &&& old(self).owner_of(id) == from
                    &&& final(self).owner_of(id) == to
                    &&& forall|t: TokenId|
                        t != id ==> final(self).owner_of(t) == old(self).owner_of(t)
                    &&& final(self).approval_of(id) == 0
                    &&& forall|t: TokenId|
                        t != id ==> final(self).approval_of(t) == old(self).approval_of(t)
                    &&& forall|o: Identity, p: Identity| #[trigger]
                        final(self).approved_all(o, p) == old(self).approved_all(o, p)
                    &&& (to != from ==> final(self).balance_of(from) == old(self).balance_of(from)
                        - 1)
                    &&& (to != from ==> final(self).balance_of(to) == old(self).balance_of(to) + 1)
                    &&& forall|j: Identity|
                        j != from && j != to ==> final(self).balance_of(j) == old(self).balance_of(
                            j,
                        )
                    &&& (to == from ==> forall|j: Identity|
                        final(self).balance_of(j) == old(self).balance_of(j))
                    &&& final(self).supply == old(self).supply
                    &&& final(self).nonces@ == old(self).nonces_after(spender)
                    &&& final(self).events@ == old(self).events@.push(
                        Event::Transfer { from, to, id },
                    )
                    &&& *final(self) == (NonFungibleToken {
                        owners: final(self).owners,
                        balances: final(self).balances,
                        approvals: final(self).approvals,
                        nonces: final(self).nonces,
                        events: final(self).events,
                        ..*old(self)
                    })
                },
                Err(e) => {
                    &&& *final(self) == *old(self)
                    &&& old(self).xfer_from_outcome(spender, from, nonce, id) == Some(e)
                },
            },
    {
        let spender_id = spender.identifier();
        let single = self.read_approval(id);
        let approved = if single == spender_id {
            true
        } else {
            self.read_approval_all(from, spender_id)
        };
        if !approved {
            return Err(Error::NotApproved);
        }
        if let Err(e) = self.check_owner(from, id) {
            return Err(e);
        }
        if let Err(e) = self.verify_and_consume_nonce(&spender, nonce) {
            return Err(e);
        }
        let ghost s1 = *self;
        let ghost m0 = s1.owners@;
        proof {
            assert(s1.owner_of(id) == old(self).owner_of(id));
            assert(m0.contains_key(id) && m0[id] == from);
            if to != from {
                crate::owner::lemma_counts_after_transfer(m0, id, to);
            } else {
                crate::owner::lemma_counts_after_self_transfer(m0, id);
            }
            assert(s1.balance_of(from) == s1.owned_set(from).len() as int);
            assert(s1.balance_of(to) == s1.owned_set(to).len() as int);
            assert(1 <= s1.balance_of(from));
            if to != from {
                assert(s1.balance_of(to) + 1 <= m0.dom().len() as int);
                assert(m0.dom().len() as int <= s1.supply as int);
                assert(s1.balance_of(to) < i128::MAX as int);
            }
        }
        self.write_approval(id, zero_address());
        let ghost sa = *self;
        proof {
            assert(sa.balance_of(from) == s1.balance_of(from));
            assert(sa.balance_of(to) == s1.balance_of(to));
            assert(sa.owners@ == m0);
        }
        self.write_owner(id, to);
        let ghost s2 = *self;
        proof {
            assert(s2.balance_of(from) == sa.balance_of(from));
            assert(s2.balance_of(to) == sa.balance_of(to));
        }
        self.write_balance(from, WriteType::Remove);
        let ghost s3 = *self;
        proof {
            if to != from {
                assert(s3.balance_of(to) == s2.balance_of(to));
            } else {
                assert(s3.balance_of(to) == s2.balance_of(to) - 1);
            }
            assert(s3.balance_of(to) < i128::MAX as int);
        }
        self.write_balance(to, WriteType::Add);
        let ghost s4 = *self;
        crate::event::transfer(&mut self.events, from, to, id);
        proof {
            let post = *self;
            assert(post.owners@ == m0.insert(id, to));
            assert forall|j: Identity| #[trigger] post.balance_of(j) == post.owned_set(j).len()
                as int by {
                assert(s1.balance_of(j) == s1.owned_set(j).len() as int);
                assert(post.balance_of(j) == s4.balance_of(j));
                if to == from {
                    if j == to {
                        assert(s4.balance_of(j) == s3.balance_of(j) + 1);
                        assert(s3.balance_of(j) == s2.balance_of(j) - 1);
                    } else {
                        assert(s4.balance_of(j) == s3.balance_of(j));
                        assert(s3.balance_of(j) == s2.balance_of(j));
                    }
                } else {
                    if j == to {
                        assert(s4.balance_of(j) == s3.balance_of(j) + 1);
                        assert(s3.balance_of(j) == s2.balance_of(j));
                    } else if j == from {
                        assert(s4.balance_of(j) == s3.balance_of(j));
                        assert(s3.balance_of(j) == s2.balance_of(j) - 1);
                    } else {
                        assert(s4.balance_of(j) == s3.balance_of(j));
                        assert(s3.balance_of(j) == s2.balance_of(j));
                    }
                }
                assert(s2.balance_of(j) == sa.balance_of(j));
                assert(sa.balance_of(j) == s1.balance_of(j));
            }
            assert forall|t: TokenId| #[trigger]
                post.owners@.contains_key(t) implies post.owners@[t] != 0 by {
                if t != id {
                    assert(m0.contains_key(t));
                    assert(m0[t] != 0);
                }
            }
            assert forall|j: Identity|
                post.nonces@.contains_key(j) implies 0 <= #[trigger] post.nonces@[j] by {
                assert(s1.nonces@.contains_key(j) ==> 0 <= s1.nonces@[j]);
            }
            assert(post.wf());
            assert forall|t: TokenId| t != id implies post.owner_of(t) == old(self).owner_of(
                t,
            ) by {
                assert(s2.owner_of(t) == sa.owner_of(t));
                assert(post.owner_of(t) == s2.owner_of(t));
                assert(sa.owner_of(t) == old(self).owner_of(t));
            }
            assert forall|t: TokenId| t != id implies post.approval_of(t) == old(
                self,
            ).approval_of(t) by {
                assert(sa.approval_of(t) == s1.approval_of(t));
                assert(post.approval_of(t) == sa.approval_of(t));
                assert(s1.approval_of(t) == old(self).approval_of(t));
            }
            assert(post.approval_of(id) == 0) by {
                assert(sa.approval_of(id) == 0);
                assert(post.approval_of(id) == sa.approval_of(id));
            }
            assert forall|o: Identity, p: Identity| #[trigger]
                post.approved_all(o, p) == old(self).approved_all(o, p) by {
                assert(post.approvals_all == old(self).approvals_all);
            }
            assert forall|j: Identity|
                j != from && j != to implies post.balance_of(j) == old(self).balance_of(j) by {
                assert(post.balance_of(j) == s4.balance_of(j));
                assert(s4.balance_of(j) == s3.balance_of(j));
                assert(s3.balance_of(j) == s2.balance_of(j));
                assert(s2.balance_of(j) == s1.balance_of(j));
                assert(s1.balance_of(j) == old(self).balance_of(j));
            }
            if to == from {
                assert forall|j: Identity| post.balance_of(j) == old(self).balance_of(j) by {
                    assert(post.balance_of(j) == s4.balance_of(j));
                    if j == to {
                        assert(s4.balance_of(j) == s3.balance_of(j) + 1);
                        assert(s3.balance_of(j) == s2.balance_of(j) - 1);
                    } else {
                        assert(s4.balance_of(j) == s3.balance_of(j));
                        assert(s3.balance_of(j) == s2.balance_of(j));
                    }
                    assert(s2.balance_of(j) == s1.balance_of(j));
                    assert(s1.balance_of(j) == old(self).balance_of(j));
                }
            } else {
                assert(s1.balance_of(from) == old(self).balance_of(from));
                assert(s1.balance_of(to) == old(self).balance_of(to));
                assert(post.balance_of(from) == s4.balance_of(from));
                assert(s4.balance_of(from) == s3.balance_of(from));
                assert(post.balance_of(to) == s4.balance_of(to));
            }
        }
        Ok(())
    }

    /// What the checks of an admin mint yield, in order: admin
    /// authorization, then the currently-owned guard, then the nonce.
    pub open spec fn mint_outcome(self, admin_sig: Signature, nonce: i128, id: TokenId) -> Option<
        Error,
    > {
        if self.admin_outcome(admin_sig.signer()) is Some {
            self.admin_outcome(admin_sig.signer())
        } else if self.owner_of(id) != 0 {
            Some(Error::TokenExists)
        } else {
            self.nonce_outcome(admin_sig, nonce)
        }
    }

    /// Mint token `id` to `to` with the given URI. Only the administrator,
    /// with a matching nonce, may do so, and only for a token id that is not
    /// currently owned. On failure nothing changes.
    pub fn mint(
        &mut self,
        admin: Signature,
        nonce: i128,
        to: Identity,
        id: TokenId,
        uri: Vec<u8>,
    ) -> (r: Result<(), Error>)
        requires
            old(self).wf(),
            admin.signer() != 0,
            to != 0,
            nonce < i128::MAX,
            old(self).supply < i128::MAX,
        ensures
            final(self).wf(),
            match r {
                Ok(()) => {
                    &&& old(self).mint_outcome(admin, nonce, id) is None
                    &&& old(self).owner_of(id) == 0
                    &&& final(self).owner_of(id) == to
                    &&& forall|t: TokenId|
                        t != id ==> final(self).owner_of(t) == old(self).owner_of(t)
                    &&& final(self).balance_of(to) == old(self).balance_of(to) + 1
                    &&& forall|j: Identity|
                        j != to ==> final(self).balance_of(j) == old(self).balance_of(j)
                    &&& final(self).supply == old(self).supply + 1
                    &&& final(self).uri_of(id) == Some(uri@)
                    &&& forall|t: TokenId| t != id ==> final(self).uri_of(t) == old(self).uri_of(t)
                    &&& final(self).nonces@ == old(self).nonces_after(admin)
                    &&& final(self).events@ == old(self).events@.push(Event::Mint { to, id })
                    &&& *final(self) == (NonFungibleToken {
                        owners: final(self).owners,
                        balances: final(self).balances,
                        supply: final(self).supply,
                        uris: final(self).uris,
                        nonces: final(self).nonces,
                        events: final(self).events,
                        ..*old(self)
                    })
                },
                Err(e) => {
                    &&& *final(self) == *old(self)
                    &&& old(self).mint_outcome(admin, nonce, id) == Some(e)
                },
            },
    {
        if let Err(e) = self.check_admin(&admin) {
            return Err(e);
        }
        let owner_now = self.read_owner(id);
        if owner_now != 0 {
            return Err(Error::TokenExists);
        }
        if let Err(e) = self.verify_and_consume_nonce(&admin, nonce) {
            return Err(e);
        }
        let ghost s1 = *self;
        let ghost m0 = s1.owners@;
        proof {
            assert(s1.owner_of(id) == old(self).owner_of(id));
            assert(!m0.contains_key(id)) by {
                if m0.contains_key(id) {
                    assert(m0[id] != 0);
                }
            }
            crate::owner::lemma_counts_after_mint(m0, id, to);
            assert(s1.balance_of(to) == s1.owned_set(to).len() as int);
            assert(s1.balance_of(to) <= m0.dom().len() as int);
            assert(m0.dom().len() as int <= s1.supply as int);
            assert(s1.balance_of(to) < i128::MAX as int);
        }
        self.write_balance(to, WriteType::Add);
        let ghost s2 = *self;
        self.write_owner(id, to);
        let ghost s3 = *self;
        proof {
            assert(s3.supply == s1.supply);
        }
        self.increment_supply();
        let ghost s4 = *self;
        self.write_token_uri(id, uri);
        let ghost s5 = *self;
        crate::event::mint(&mut self.events, to, id);
        proof {
            let post = *self;
            assert(post.owners@ == m0.insert(id, to));
            assert forall|j: Identity| #[trigger] post.balance_of(j) == post.owned_set(j).len()
                as int by {
                assert(s1.balance_of(j) == s1.owned_set(j).len() as int);
                assert(post.balance_of(j) == s2.balance_of(j));
                if j == to {
                    assert(s2.balance_of(j) == s1.balance_of(j) + 1);
                } else {
                    assert(s2.balance_of(j) == s1.balance_of(j));
                }
            }
            assert forall|t: TokenId| #[trigger]
                post.owners@.contains_key(t) implies post.owners@[t] != 0 by {
                if t != id {
                    assert(m0.contains_key(t));
                    assert(m0[t] != 0);
                }
            }
            assert forall|j: Identity|
                post.nonces@.contains_key(j) implies 0 <= #[trigger] post.nonces@[j] by {
                assert(s1.nonces@.contains_key(j) ==> 0 <= s1.nonces@[j]);
            }
            assert(post.supply == s1.supply + 1);
            assert(post.owners@.dom().len() as int <= post.supply as int);
            assert(post.wf());
            assert forall|t: TokenId| t != id implies post.owner_of(t) == old(self).owner_of(
                t,
            ) by {
                assert(s3.owner_of(t) == s2.owner_of(t));
                assert(post.owner_of(t) == s3.owner_of(t));
                assert(s2.owner_of(t) == old(self).owner_of(t));
            }
            assert forall|j: Identity|
                j != to implies post.balance_of(j) == old(self).balance_of(j) by {
                assert(post.balance_of(j) == s2.balance_of(j));
                assert(s2.balance_of(j) == s1.balance_of(j));
                assert(s1.balance_of(j) == old(self).balance_of(j));
            }
            assert(post.balance_of(to) == s2.balance_of(to));
            assert(s1.balance_of(to) == old(self).balance_of(to));
            assert forall|t: TokenId| t != id implies post.uri_of(t) == old(self).uri_of(t) by {
                assert(s5.uri_of(t) == s4.uri_of(t));
                assert(post.uri_of(t) == s5.uri_of(t));
                assert(s4.uri_of(t) == old(self).uri_of(t));
            }
            assert(post.uri_of(id) == s5.uri_of(id));
        }
        Ok(())
    }

    /// What the checks of a self-mint yield, in order: the one-shot guard,
    /// then the currently-owned guard on the next token id. The self-mint
    /// path consumes no nonce.
    pub open spec fn mint_next_outcome(self, invoker: Identity) -> Option<Error> {
        if self.minted_flag(invoker) {
            Some(Error::AlreadyMinted)
        } else if self.owner_of((self.supply + 1) as i128) != 0 {
            Some(Error::TokenExists)
        } else {
            None
        }
    }

    /// One-time self-service mint: the invoking identity receives the token
    /// numbered one past the current supply. Guarded by a per-identity flag,
    /// so each identity can self-mint at most once, ever. On failure nothing
    /// changes.
    pub fn mint_next(&mut self, invoker: Identity, uri: Vec<u8>) -> (r: Result<(), Error>)
        requires
            old(self).wf(),
            invoker != 0,
            old(self).supply < i128::MAX,
        ensures
            final(self).wf(),
            match r {
                Ok(()) => {
                    &&& old(self).mint_next_outcome(invoker) is None
                    &&& !old(self).minted_flag(invoker)
                    &&& final(self).minted_flag(invoker)
                    &&& forall|j: Identity|
                        j != invoker ==> final(self).minted_flag(j) == old(self).minted_flag(j)
                    &&& final(self).owner_of((old(self).supply + 1) as i128) == invoker
                    &&& forall|t: TokenId|
                        t != (old(self).supply + 1) as i128 ==> final(self).owner_of(t) == old(
                            self,
                        ).owner_of(t)
                    &&& final(self).balance_of(invoker) == old(self).balance_of(invoker) + 1
                    &&& forall|j: Identity|
                        j != invoker ==> final(self).balance_of(j) == old(self).balance_of(j)
                    &&& final(self).supply == old(self).supply + 1
                    &&& final(self).uri_of((old(self).supply + 1) as i128) == Some(uri@)
                    &&& forall|t: TokenId|
                        t != (old(self).supply + 1) as i128 ==> final(self).uri_of(t) == old(
                            self,
                        ).uri_of(t)
                    &&& final(self).nonces == old(self).nonces
                    &&& final(self).events@ == old(self).events@.push(
                        Event::Mint { to: invoker, id: (old(self).supply + 1) as i128 },
                    )
                    &&& *final(self) == (NonFungibleToken {
                        minted: final(self).minted,
                        owners: final(self).owners,
                        balances: final(self).balances,
                        supply: final(self).supply,
                        uris: final(self).uris,
                        events: final(self).events,
                        ..*old(self)
                    })
                },
                Err(e) => {
                    &&& *final(self) == *old(self)
                    &&& old(self).mint_next_outcome(invoker) == Some(e)
                },
            },
    {
        if let Err(e) = self.check_minted(invoker) {
            return Err(e);
        }
        let next_id: i128 = self.read_supply() + 1;
        if self.read_owner(next_id) != 0 {
            return Err(Error::TokenExists);
        }
        let ghost s1 = *self;
        let ghost m0 = s1.owners@;
        self.write_minted(invoker);
        let ghost sm = *self;
        proof {
            assert(!m0.contains_key(next_id)) by {
                if m0.contains_key(next_id) {
                    assert(m0[next_id] != 0);
                }
            }
            crate::owner::lemma_counts_after_mint(m0, next_id, invoker);
            assert(s1.balance_of(invoker) == s1.owned_set(invoker).len() as int);
            assert(s1.balance_of(invoker) <= m0.dom().len() as int);
            assert(m0.dom().len() as int <= s1.supply as int);
            assert(sm.balance_of(invoker) == s1.balance_of(invoker));
            assert(sm.balance_of(invoker) < i128::MAX as int);
        }
        self.write_balance(invoker, WriteType::Add);
        let ghost s2 = *self;
        self.write_owner(next_id, invoker);
        let ghost s3 = *self;
        proof {
            assert(s3.supply == s1.supply);
        }
        self.increment_supply();
        let ghost s4 = *self;
        self.write_token_uri(next_id, uri);
        let ghost s5 = *self;
        crate::event::mint(&mut self.events, invoker, next_id);
        proof {
            let post = *self;
            assert(post.owners@ == m0.insert(next_id, invoker));
            assert forall|j: Identity| #[trigger] post.balance_of(j) == post.owned_set(j).len()
                as int by {
                assert(s1.balance_of(j) == s1.owned_set(j).len() as int);
                assert(post.balance_of(j) == s2.balance_of(j));
                assert(sm.balance_of(j) == s1.balance_of(j));
                if j == invoker {
                    assert(s2.balance_of(j) == sm.balance_of(j) + 1);
                } else {
                    assert(s2.balance_of(j) == sm.balance_of(j));
                }
            }
            assert forall|t: TokenId| #[trigger]
                post.owners@.contains_key(t) implies post.owners@[t] != 0 by {
                if t != next_id {
                    assert(m0.contains_key(t));
                    assert(m0[t] != 0);
                }
            }
            assert forall|j: Identity|
                post.nonces@.contains_key(j) implies 0 <= #[trigger] post.nonces@[j] by {
                assert(s1.nonces@.contains_key(j) ==> 0 <= s1.nonces@[j]);
            }
            assert(post.supply == s1.supply + 1);
            assert(post.owners@.dom().len() as int <= post.supply as int);
            assert(post.wf());
            assert forall|t: TokenId| t != next_id implies post.owner_of(t) == old(
                self,
            ).owner_of(t) by {
                assert(s3.owner_of(t) == s2.owner_of(t));
                assert(post.owner_of(t) == s3.owner_of(t));
                assert(s2.owner_of(t) == old(self).owner_of(t));
            }
            assert forall|j: Identity|
                j != invoker implies post.balance_of(j) == old(self).balance_of(j) by {
                assert(post.balance_of(j) == s2.balance_of(j));
                assert(s2.balance_of(j) == sm.balance_of(j));
                assert(sm.balance_of(j) == s1.balance_of(j));
                assert(s1.balance_of(j) == old(self).balance_of(j));
            }
            assert(post.balance_of(invoker) == s2.balance_of(invoker));
            assert(s1.balance_of(invoker) == old(self).balance_of(invoker));
            assert forall|j: Identity|
                j != invoker implies post.minted_flag(j) == old(self).minted_flag(j) by {
                assert(sm.minted_flag(j) == s1.minted_flag(j));
                assert(post.minted_flag(j) == sm.minted_flag(j));
                assert(s1.minted_flag(j) == old(self).minted_flag(j));
            }
            assert(post.minted_flag(invoker) == sm.minted_flag(invoker));
            assert forall|t: TokenId| t != next_id implies post.uri_of(t) == old(self).uri_of(
                t,
            ) by {
                assert(s5.uri_of(t) == s4.uri_of(t));
                assert(post.uri_of(t) == s5.uri_of(t));
                assert(s4.uri_of(t) == old(self).uri_of(t));
            }
            assert(post.uri_of(next_id) == s5.uri_of(next_id));
        }
        Ok(())
    }

    /// What the checks of a burn yield, in order: admin authorization, then
    /// the token-has-an-owner guard, then the nonce.
    pub open spec fn burn_outcome(self, admin_sig: Signature, nonce: i128, id: TokenId) -> Option<
        Error,
    > {
        if self.admin_outcome(admin_sig.signer()) is Some {
            self.admin_outcome(admin_sig.signer())
        } else if self.owner_of(id) == 0 {
            Some(Error::TokenUnowned)
        } else {
            self.nonce_outcome(admin_sig, nonce)
        }
    }

    /// Burn token `id`: its owner record is reset to the sentinel and the
    /// previous owner's balance drops by one. Only the administrator, with a
    /// matching nonce, may do so, and only for a currently owned token. The
    /// supply counter is deliberately not decremented, and a stale single
    /// approval is left in place until the next explicit approval write. On
    /// failure nothing changes.
    pub fn burn(&mut self, admin: Signature, nonce: i128, id: TokenId) -> (r: Result<(), Error>)
        requires
            old(self).wf(),
            admin.signer() != 0,
            nonce < i128::MAX,
        ensures
            final(self).wf(),
            match r {
                Ok(()) => {
                    &&& old(self).burn_outcome(admin, nonce, id) is None
                    &&& old(self).owner_of(id) != 0
                    &&& final(self).owner_of(id) == 0
                    &&& forall|t: TokenId|
                        t != id ==> final(self).owner_of(t) == old(self).owner_of(t)
                    &&& final(self).balance_of(old(self).owner_of(id)) == old(self).balance_of(
                        old(self).owner_of(id),
                    ) - 1
                    &&& forall|j: Identity|
                        j != old(self).owner_of(id) ==> final(self).balance_of(j) == old(
                            self,
                        ).balance_of(j)
                    &&& final(self).supply == old(self).supply
                    &&& forall|t: TokenId| final(self).approval_of(t) == old(self).approval_of(t)
                    &&& forall|t: TokenId| final(self).uri_of(t) == old(self).uri_of(t)
                    &&& final(self).nonces@ == old(self).nonces_after(admin)
                    &&& final(self).events@ == old(self).events@.push(
                        Event::Burn { from: old(self).owner_of(id), id },
                    )
                    &&& *final(self) == (NonFungibleToken {
                        owners: final(self).owners,
                        balances: final(self).balances,
                        nonces: final(self).nonces,
                        events: final(self).events,
                        ..*old(self)
                    })
                },
                Err(e) => {
                    &&& *final(self) == *old(self)
                    &&& old(self).burn_outcome(admin, nonce, id) == Some(e)
                },
            },
    {
        if let Err(e) = self.check_admin(&admin) {
            return Err(e);
        }
        let from = self.read_owner(id);
        if from == 0 {
            return Err(Error::TokenUnowned);
        }
        if let Err(e) = self.verify_and_consume_nonce(&admin, nonce) {
            return Err(e);
        }
        let ghost s1 = *self;
        let ghost m0 = s1.owners@;
        proof {
            assert(s1.owner_of(id) == old(self).owner_of(id));
            assert(m0.contains_key(id) && m0[id] == from);
            crate::owner::lemma_counts_after_burn(m0, id);
            assert(s1.balance_of(from) == s1.owned_set(from).len() as int);
            assert(1 <= s1.balance_of(from));
        }
        self.write_owner(id, 0);
        let ghost s2 = *self;
        proof {
            assert(s2.balance_of(from) == s1.balance_of(from));
        }
        self.write_balance(from, WriteType::Remove);
        let ghost s3 = *self;
        crate::event::burn(&mut self.events, from, id);
        proof {
            let post = *self;
            assert(post.owners@ == m0.remove(id));
            assert forall|j: Identity| #[trigger] post.balance_of(j) == post.owned_set(j).len()
                as int by {
                assert(s1.balance_of(j) == s1.owned_set(j).len() as int);
                assert(post.balance_of(j) == s3.balance_of(j));
                if j == from {
                    assert(s3.balance_of(j) == s2.balance_of(j) - 1);
                } else {
                    assert(s3.balance_of(j) == s2.balance_of(j));
                }
                assert(s2.balance_of(j) == s1.balance_of(j));
            }
            assert forall|t: TokenId| #[trigger]
                post.owners@.contains_key(t) implies post.owners@[t] != 0 by {
                assert(m0.contains_key(t));
                assert(m0[t] != 0);
            }
            assert forall|j: Identity|
                post.nonces@.contains_key(j) implies 0 <= #[trigger] post.nonces@[j] by {
                assert(s1.nonces@.contains_key(j) ==> 0 <= s1.nonces@[j]);
            }
            assert(post.owners@.dom().len() as int <= post.supply as int);
            assert(post.wf());
            assert forall|t: TokenId| t != id implies post.owner_of(t) == old(self).owner_of(
                t,
            ) by {
                assert(s2.owner_of(t) == s1.owner_of(t));
                assert(post.owner_of(t) == s2.owner_of(t));
                assert(s1.owner_of(t) == old(self).owner_of(t));
            }
            assert forall|t: TokenId| post.approval_of(t) == old(self).approval_of(t) by {
                assert(post.approvals == old(self).approvals);
            }
            assert forall|t: TokenId| post.uri_of(t) == old(self).uri_of(t) by {
                assert(post.uris == old(self).uris);
            }
            assert forall|j: Identity|
                j != from implies post.balance_of(j) == old(self).balance_of(j) by {
                assert(post.balance_of(j) == s3.balance_of(j));
                assert(s3.balance_of(j) == s2.balance_of(j));
                assert(s2.balance_of(j) == s1.balance_of(j));
                assert(s1.balance_of(j) == old(self).balance_of(j));
            }
            assert(post.balance_of(from) == s3.balance_of(from));
            assert(s1.balance_of(from) == old(self).balance_of(from));
        }
        Ok(())
    }
}

} // verus!
