//! Core value types of the ledger: identities, token ids, signatures,
//! and the error taxonomy shared by every operation.
use vstd::prelude::*;

verus! {

/// An opaque principal. The host derives it from a public key or from the
/// invoking account; the ledger only ever compares identities for equality
/// and uses them as map keys. The value `0` is the reserved sentinel meaning
/// "no owner" / "no approval"; it is never a real principal.
pub type Identity = u64;

/// Unique handle of a token: a 128-bit signed integer.
pub type TokenId = i128;

/// Proof of authenticity for one call, as handed over by the host's
/// signature-verification primitive (out of scope here): a `Signature`
/// value attests that the call was authorized by the carried identity.
///
/// `Invoker` is the self-authenticated caller class (a direct invocation,
/// no explicit signature): it consumes no nonce and its claimed nonce must
/// be exactly zero. `Signed` is an explicit signature whose signer identity
/// the verification primitive has already established.
#[derive(Clone, Copy, Debug, PartialEq, Eq, Structural)]
pub enum Signature {
    Invoker(Identity),
    Signed(Identity),
}

impl Signature {
    /// The identity this signature proves.
    pub open spec fn signer(self) -> Identity {
        match self {
            Signature::Invoker(id) => id,
            Signature::Signed(id) => id,
        }
    }

    /// Whether this is the self-authenticated caller class.
    pub open spec fn is_invoker(self) -> bool {
        self matches Signature::Invoker(_)
    }

    /// Derive the signer's identity, once per operation.
    pub fn identifier(&self) -> (r: Identity)
        ensures
            r == self.signer(),
    {
        match self {
            Signature::Invoker(id) => *id,
            Signature::Signed(id) => *id,
        }
    }
}

/// The broad classes of failure an operation can surface.
#[derive(Clone, Copy, Debug, PartialEq, Eq, Structural)]
pub enum ErrorKind {
    /// Signature/identity mismatch, wrong nonce, not owner, not approved,
    /// not admin.
    Authorization,
    /// Re-initialization, minting twice via the self-mint path, minting a
    /// currently owned token id, burning an unowned token.
    State,
    /// Reading a required field (admin, name, symbol, a token's URI) that
    /// was never written.
    NotFound,
}

/// Every failure an operation can report. All errors are fatal to the
/// enclosing call: the operation has no observable effect when it returns
/// one of these.
#[derive(Clone, Copy, Debug, PartialEq, Eq, Structural)]
pub enum Error {
    /// A self-authenticated caller claimed a nonce other than zero.
    NonceMustBeZero,
    /// The claimed nonce differs from the signer's current nonce.
    IncorrectNonce,
    /// The signer is not the current administrator.
    NotAuthorizedByAdmin,
    /// The signer (or the stated `from`) is not the current owner of the token.
    NotOwner,
    /// The spender holds neither the token's single approval nor a standing
    /// approve-all delegation from the stated owner.
    NotApproved,
    /// `initialize` was called on a ledger that already has an administrator.
    AlreadyInitialized,
    /// The self-mint path was used a second time by the same identity.
    AlreadyMinted,
    /// The token id to be minted is currently owned.
    TokenExists,
    /// The token to be burned has no owner.
    TokenUnowned,
    /// The admin, name or symbol was read before `initialize`.
    NotInitialized,
    /// No URI record exists for the token.
    NoSuchToken,
}

impl Error {
    /// The class this error belongs to.
    pub open spec fn kind_spec(self) -> ErrorKind {
        match self {
            Error::NonceMustBeZero => ErrorKind::Authorization,
            Error::IncorrectNonce => ErrorKind::Authorization,
            Error::NotAuthorizedByAdmin => ErrorKind::Authorization,
            Error::NotOwner => ErrorKind::Authorization,
            Error::NotApproved => ErrorKind::Authorization,
            Error::AlreadyInitialized => ErrorKind::State,
            Error::AlreadyMinted => ErrorKind::State,
            Error::TokenExists => ErrorKind::State,
            Error::TokenUnowned => ErrorKind::State,
            Error::NotInitialized => ErrorKind::NotFound,
            Error::NoSuchToken => ErrorKind::NotFound,
        }
    }

    pub fn kind(&self) -> (r: ErrorKind)
        ensures
            r == self.kind_spec(),
    {
        match self {
            Error::NonceMustBeZero => ErrorKind::Authorization,
            Error::IncorrectNonce => ErrorKind::Authorization,
            Error::NotAuthorizedByAdmin => ErrorKind::Authorization,
            Error::NotOwner => ErrorKind::Authorization,
            Error::NotApproved => ErrorKind::Authorization,
            Error::AlreadyInitialized => ErrorKind::State,
            Error::AlreadyMinted => ErrorKind::State,
            Error::TokenExists => ErrorKind::State,
            Error::TokenUnowned => ErrorKind::State,
            Error::NotInitialized => ErrorKind::NotFound,
            Error::NoSuchToken => ErrorKind::NotFound,
        }
    }

    /// The stable, human-readable message surfaced to callers.
    pub fn message(&self) -> &'static str {
        match self {
            Error::NonceMustBeZero => "nonce should be zero for Invoker",
            Error::IncorrectNonce => "incorrect nonce",
            Error::NotAuthorizedByAdmin => "not authorized by admin",
            Error::NotOwner => "not the owner for token",
            Error::NotApproved => "not approved",
            Error::AlreadyInitialized => "already initialized",
            Error::AlreadyMinted => "already minted",
            Error::TokenExists => "token already owned",
            Error::TokenUnowned => "token has no owner",
            Error::NotInitialized => "not initialized",
            Error::NoSuchToken => "no uri for token",
        }
    }
}

} // verus!
