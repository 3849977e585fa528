//! A verified non-fungible token ledger: ownership of uniquely identified
//! tokens, nonce-based replay protection, owner/admin authorization, and
//! approval delegation for transfers performed by a party other than the
//! owner.
//!
//! The ledger state is one explicit aggregate, [`contract::NonFungibleToken`];
//! every public operation is a total function over it that either fully
//! commits its mutation and appends one event, or returns an [`storage_types::Error`]
//! and leaves the state untouched. The host concerns — durable storage,
//! signature cryptography, event transport — sit outside this crate: a
//! [`storage_types::Signature`] value models the verification primitive's
//! attestation, and the event log models the notification stream.

pub mod admin;
pub mod approval;
pub mod balance;
pub mod contract;
pub mod event;
pub mod interface;
pub mod laws;
pub mod metadata;
pub mod owner;
pub mod storage_types;

pub use contract::NonFungibleToken;
pub use event::Event;
pub use interface::WriteType;
pub use storage_types::{Error, ErrorKind, Identity, Signature, TokenId};
