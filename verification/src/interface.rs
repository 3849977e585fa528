//! Shared pieces of the public operation surface.
use vstd::prelude::*;

verus! {

/// Direction of a balance adjustment: every mutation of an owner record is
/// paired with exactly one matching adjustment (+1 on the new owner, -1 on
/// the old one), which keeps the balance ledger consistent with the
/// ownership ledger.
pub enum WriteType {
    Add,
    Remove,
}

} // verus!
