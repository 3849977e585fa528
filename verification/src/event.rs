//! Notification records. Every successful state-changing operation appends
//! exactly one event to the ledger's log; the host's transport (out of scope
//! here) would forward them.
use vstd::prelude::*;

use crate::storage_types::{Identity, TokenId};

verus! {

/// One notification record, mirroring the `(eventName, indexedFields) -> payload`
/// shape of the public surface.
#[derive(Clone, Copy, Debug, PartialEq, Eq, Structural)]
pub enum Event {
    Transfer { from: Identity, to: Identity, id: TokenId },
    SetAdmin { admin: Identity, new_admin: Identity },
    Mint { to: Identity, id: TokenId },
    Burn { from: Identity, id: TokenId },
    Approve { operator: Identity, id: TokenId },
    ApproveAll { operator: Identity, owner: Identity },
}

pub(crate) fn transfer(log: &mut Vec<Event>, from: Identity, to: Identity, id: TokenId)
    ensures
        final(log)@ == old(log)@.push(Event::Transfer { from, to, id }),
{
    log.push(Event::Transfer { from, to, id });
}

pub(crate) fn set_admin(log: &mut Vec<Event>, admin: Identity, new_admin: Identity)
    ensures
        final(log)@ == old(log)@.push(Event::SetAdmin { admin, new_admin }),
{
    log.push(Event::SetAdmin { admin, new_admin });
}

pub(crate) fn mint(log: &mut Vec<Event>, to: Identity, id: TokenId)
    ensures
        final(log)@ == old(log)@.push(Event::Mint { to, id }),
{
    log.push(Event::Mint { to, id });
}

pub(crate) fn burn(log: &mut Vec<Event>, from: Identity, id: TokenId)
    ensures
        final(log)@ == old(log)@.push(Event::Burn { from, id }),
{
    log.push(Event::Burn { from, id });
}

pub(crate) fn approve(log: &mut Vec<Event>, operator: Identity, id: TokenId)
    ensures
        final(log)@ == old(log)@.push(Event::Approve { operator, id }),
{
    log.push(Event::Approve { operator, id });
}

pub(crate) fn approve_all(log: &mut Vec<Event>, operator: Identity, owner: Identity)
    ensures
        final(log)@ == old(log)@.push(Event::ApproveAll { operator, owner }),
{
    log.push(Event::ApproveAll { operator, owner });
}

} // verus!
