use nft_ledger::{Error, ErrorKind, Event, NonFungibleToken, Signature};

const ADMIN: u64 = 1;
const USER_B: u64 = 2;
const USER_C: u64 = 3;
const USER_D: u64 = 4;

fn fresh() -> NonFungibleToken {
    let mut c = NonFungibleToken::new();
    assert_eq!(c.initialize(ADMIN, b"Cats".to_vec(), b"CAT".to_vec()), Ok(()));
    c
}

#[test]
fn reads_fail_before_initialize() {
    let c = NonFungibleToken::new();
    assert_eq!(c.admin(), Err(Error::NotInitialized));
    assert_eq!(c.name(), Err(Error::NotInitialized));
    assert_eq!(c.symbol(), Err(Error::NotInitialized));
    assert_eq!(Error::NotInitialized.kind(), ErrorKind::NotFound);
}

#[test]
fn initialize_is_one_shot() {
    let mut c = fresh();
    assert_eq!(c.admin(), Ok(ADMIN));
    assert_eq!(c.name(), Ok(b"Cats".to_vec()));
    assert_eq!(c.symbol(), Ok(b"CAT".to_vec()));
    let r = c.initialize(USER_B, b"Dogs".to_vec(), b"DOG".to_vec());
    assert_eq!(r, Err(Error::AlreadyInitialized));
    assert_eq!(Error::AlreadyInitialized.kind(), ErrorKind::State);
    assert_eq!(c.admin(), Ok(ADMIN));
    assert_eq!(c.name(), Ok(b"Cats".to_vec()));
}

#[test]
fn nonce_counts_successful_calls() {
    let mut c = fresh();
    assert_eq!(c.nonce(ADMIN), 0);
    assert_eq!(c.set_admin(Signature::Signed(ADMIN), 0, ADMIN), Ok(()));
    assert_eq!(c.nonce(ADMIN), 1);
    assert_eq!(c.set_admin(Signature::Signed(ADMIN), 1, ADMIN), Ok(()));
    assert_eq!(c.nonce(ADMIN), 2);
    assert_eq!(c.set_admin(Signature::Signed(ADMIN), 2, ADMIN), Ok(()));
    assert_eq!(c.nonce(ADMIN), 3);
}

#[test]
fn wrong_nonce_fails_and_changes_nothing() {
    let mut c = fresh();
    assert_eq!(c.set_admin(Signature::Signed(ADMIN), 0, ADMIN), Ok(()));
    // lower than current
    assert_eq!(
        c.set_admin(Signature::Signed(ADMIN), 0, USER_B),
        Err(Error::IncorrectNonce)
    );
    // higher than current
    assert_eq!(
        c.set_admin(Signature::Signed(ADMIN), 5, USER_B),
        Err(Error::IncorrectNonce)
    );
    assert_eq!(Error::IncorrectNonce.kind(), ErrorKind::Authorization);
    assert_eq!(c.nonce(ADMIN), 1);
    assert_eq!(c.admin(), Ok(ADMIN));
}

#[test]
fn invoker_must_claim_nonce_zero() {
    let mut c = fresh();
    assert_eq!(c.appr_all(Signature::Invoker(USER_B), 0, USER_C, true), Ok(()));
    // the self-authenticated path consumes no nonce
    assert_eq!(c.nonce(USER_B), 0);
    assert_eq!(
        c.appr_all(Signature::Invoker(USER_B), 1, USER_C, true),
        Err(Error::NonceMustBeZero)
    );
    assert_eq!(Error::NonceMustBeZero.kind(), ErrorKind::Authorization);
}

#[test]
fn admin_gate_rejects_non_admin() {
    let mut c = fresh();
    assert_eq!(
        c.set_admin(Signature::Signed(USER_B), 0, USER_B),
        Err(Error::NotAuthorizedByAdmin)
    );
    assert_eq!(
        c.mint(Signature::Signed(USER_B), 0, USER_C, 1, b"u".to_vec()),
        Err(Error::NotAuthorizedByAdmin)
    );
    assert_eq!(
        c.burn(Signature::Signed(USER_B), 0, 1),
        Err(Error::NotAuthorizedByAdmin)
    );
    assert_eq!(Error::NotAuthorizedByAdmin.kind(), ErrorKind::Authorization);
    // no state mutation happened
    assert_eq!(c.admin(), Ok(ADMIN));
    assert_eq!(c.nonce(USER_B), 0);
    assert_eq!(c.owner(1), 0);
    assert_eq!(c.balance(USER_C), 0);
    assert_eq!(c.read_supply(), 0);
    assert!(c.events.is_empty());
}

#[test]
fn set_admin_hands_over_control() {
    let mut c = fresh();
    assert_eq!(c.set_admin(Signature::Signed(ADMIN), 0, USER_B), Ok(()));
    assert_eq!(c.admin(), Ok(USER_B));
    assert_eq!(
        c.events.last(),
        Some(&Event::SetAdmin { admin: ADMIN, new_admin: USER_B })
    );
    // the old admin is now rejected, the new one accepted
    assert_eq!(
        c.set_admin(Signature::Signed(ADMIN), 1, ADMIN),
        Err(Error::NotAuthorizedByAdmin)
    );
    assert_eq!(c.set_admin(Signature::Signed(USER_B), 0, ADMIN), Ok(()));
    assert_eq!(c.admin(), Ok(ADMIN));
}

#[test]
fn mint_requires_unowned_token_id() {
    let mut c = fresh();
    assert_eq!(c.mint(Signature::Signed(ADMIN), 0, USER_B, 7, b"a".to_vec()), Ok(()));
    assert_eq!(
        c.mint(Signature::Signed(ADMIN), 1, USER_C, 7, b"b".to_vec()),
        Err(Error::TokenExists)
    );
    assert_eq!(Error::TokenExists.kind(), ErrorKind::State);
    assert_eq!(c.owner(7), USER_B);
    assert_eq!(c.balance(USER_C), 0);
    assert_eq!(c.read_supply(), 1);
    assert_eq!(c.nonce(ADMIN), 1);
}

#[test]
fn burn_resets_owner_and_balance() {
    let mut c = fresh();
    assert_eq!(c.mint(Signature::Signed(ADMIN), 0, USER_B, 5, b"u".to_vec()), Ok(()));
    assert_eq!(c.burn(Signature::Signed(ADMIN), 1, 5), Ok(()));
    assert_eq!(c.owner(5), 0);
    assert_eq!(c.balance(USER_B), 0);
    // supply is never decremented by burn
    assert_eq!(c.read_supply(), 1);
    assert_eq!(c.events.last(), Some(&Event::Burn { from: USER_B, id: 5 }));
    // burning again fails: the token has no owner
    assert_eq!(c.burn(Signature::Signed(ADMIN), 2, 5), Err(Error::TokenUnowned));
    assert_eq!(Error::TokenUnowned.kind(), ErrorKind::State);
    // a burned id may be minted again
    assert_eq!(c.mint(Signature::Signed(ADMIN), 2, USER_C, 5, b"v".to_vec()), Ok(()));
    assert_eq!(c.owner(5), USER_C);
}

#[test]
fn owner_may_overwrite_or_clear_approval() {
    let mut c = fresh();
    assert_eq!(c.mint(Signature::Signed(ADMIN), 0, USER_B, 1, b"u".to_vec()), Ok(()));
    assert_eq!(c.appr(Signature::Signed(USER_B), 0, USER_C, 1), Ok(()));
    assert_eq!(c.get_appr(1), USER_C);
    assert_eq!(c.events.last(), Some(&Event::Approve { operator: USER_C, id: 1 }));
    // an owner overwrites any existing approval unconditionally
    assert_eq!(c.appr(Signature::Signed(USER_B), 1, USER_D, 1), Ok(()));
    assert_eq!(c.get_appr(1), USER_D);
    // the sentinel clears it
    assert_eq!(c.appr(Signature::Signed(USER_B), 2, 0, 1), Ok(()));
    assert_eq!(c.get_appr(1), 0);
}

#[test]
fn approval_requires_current_owner() {
    let mut c = fresh();
    assert_eq!(c.mint(Signature::Signed(ADMIN), 0, USER_B, 1, b"u".to_vec()), Ok(()));
    assert_eq!(
        c.appr(Signature::Signed(USER_C), 0, USER_D, 1),
        Err(Error::NotOwner)
    );
    assert_eq!(Error::NotOwner.kind(), ErrorKind::Authorization);
    assert_eq!(c.get_appr(1), 0);
}

#[test]
fn approve_all_is_per_pair_and_revocable() {
    let mut c = fresh();
    assert_eq!(c.appr_all(Signature::Signed(USER_B), 0, USER_C, true), Ok(()));
    assert!(c.is_appr(USER_B, USER_C));
    assert!(!c.is_appr(USER_B, USER_D));
    assert!(!c.is_appr(USER_C, USER_B));
    assert_eq!(
        c.events.last(),
        Some(&Event::ApproveAll { operator: USER_C, owner: USER_B })
    );
    assert_eq!(c.appr_all(Signature::Signed(USER_B), 1, USER_C, false), Ok(()));
    assert!(!c.is_appr(USER_B, USER_C));
}

#[test]
fn transfer_moves_token_and_balances() {
    let mut c = fresh();
    assert_eq!(c.mint(Signature::Signed(ADMIN), 0, USER_B, 1, b"u".to_vec()), Ok(()));
    assert_eq!(c.xfer(Signature::Signed(USER_B), 0, USER_C, 1), Ok(()));
    assert_eq!(c.owner(1), USER_C);
    assert_eq!(c.balance(USER_B), 0);
    assert_eq!(c.balance(USER_C), 1);
    assert_eq!(
        c.events.last(),
        Some(&Event::Transfer { from: USER_B, to: USER_C, id: 1 })
    );
    // the previous owner can no longer move it
    assert_eq!(
        c.xfer(Signature::Signed(USER_B), 1, USER_D, 1),
        Err(Error::NotOwner)
    );
}

#[test]
fn transfer_to_self_changes_nothing_but_nonce() {
    let mut c = fresh();
    assert_eq!(c.mint(Signature::Signed(ADMIN), 0, USER_B, 1, b"u".to_vec()), Ok(()));
    assert_eq!(c.xfer(Signature::Signed(USER_B), 0, USER_B, 1), Ok(()));
    assert_eq!(c.owner(1), USER_B);
    assert_eq!(c.balance(USER_B), 1);
    assert_eq!(c.nonce(USER_B), 1);
}

#[test]
fn owner_transfer_keeps_single_approval() {
    // an owner-initiated transfer deliberately leaves the per-token
    // approval untouched; only the delegated path clears it
    let mut c = fresh();
    assert_eq!(c.mint(Signature::Signed(ADMIN), 0, USER_B, 1, b"u".to_vec()), Ok(()));
    assert_eq!(c.appr(Signature::Signed(USER_B), 0, USER_D, 1), Ok(()));
    assert_eq!(c.xfer(Signature::Signed(USER_B), 1, USER_C, 1), Ok(()));
    assert_eq!(c.get_appr(1), USER_D);
}

#[test]
fn owner_transfer_keeps_approve_all() {
    let mut c = fresh();
    assert_eq!(c.mint(Signature::Signed(ADMIN), 0, USER_B, 1, b"u".to_vec()), Ok(()));
    assert_eq!(c.appr_all(Signature::Signed(USER_B), 0, USER_D, true), Ok(()));
    assert_eq!(c.xfer(Signature::Signed(USER_B), 1, USER_C, 1), Ok(()));
    assert!(c.is_appr(USER_B, USER_D));
}

#[test]
fn delegated_transfer_clears_single_approval() {
    let mut c = fresh();
    assert_eq!(c.mint(Signature::Signed(ADMIN), 0, USER_B, 1, b"u".to_vec()), Ok(()));
    assert_eq!(c.appr(Signature::Signed(USER_B), 0, USER_C, 1), Ok(()));
    assert_eq!(c.xfer_from(Signature::Signed(USER_C), USER_B, USER_D, 0, 1), Ok(()));
    assert_eq!(c.owner(1), USER_D);
    assert_eq!(c.get_appr(1), 0);
    assert_eq!(c.balance(USER_B), 0);
    assert_eq!(c.balance(USER_D), 1);
}

#[test]
fn delegated_transfer_by_approve_all_keeps_delegation() {
    let mut c = fresh();
    assert_eq!(c.mint(Signature::Signed(ADMIN), 0, USER_B, 1, b"u".to_vec()), Ok(()));
    assert_eq!(c.appr_all(Signature::Signed(USER_B), 0, USER_C, true), Ok(()));
    assert_eq!(c.xfer_from(Signature::Signed(USER_C), USER_B, USER_D, 0, 1), Ok(()));
    assert_eq!(c.owner(1), USER_D);
    // the standing delegation from USER_B survives the transfer
    assert!(c.is_appr(USER_B, USER_C));
}

#[test]
fn unapproved_spender_is_rejected() {
    let mut c = fresh();
    assert_eq!(c.mint(Signature::Signed(ADMIN), 0, USER_B, 1, b"u".to_vec()), Ok(()));
    assert_eq!(
        c.xfer_from(Signature::Signed(USER_C), USER_B, USER_D, 0, 1),
        Err(Error::NotApproved)
    );
    assert_eq!(Error::NotApproved.kind(), ErrorKind::Authorization);
    assert_eq!(c.owner(1), USER_B);
    assert_eq!(c.nonce(USER_C), 0);
}

#[test]
fn self_mint_is_one_per_identity() {
    let mut c = fresh();
    assert_eq!(c.mint_next(USER_B, b"self".to_vec()), Ok(()));
    assert_eq!(c.owner(1), USER_B);
    assert_eq!(c.balance(USER_B), 1);
    assert_eq!(c.read_supply(), 1);
    assert_eq!(c.token_uri(1), Ok(b"self".to_vec()));
    assert_eq!(c.events.last(), Some(&Event::Mint { to: USER_B, id: 1 }));
    // the second attempt fails and leaves supply and balance unchanged
    assert_eq!(c.mint_next(USER_B, b"again".to_vec()), Err(Error::AlreadyMinted));
    assert_eq!(Error::AlreadyMinted.kind(), ErrorKind::State);
    assert_eq!(c.read_supply(), 1);
    assert_eq!(c.balance(USER_B), 1);
    // another identity may still self-mint, and gets the next id
    assert_eq!(c.mint_next(USER_C, b"other".to_vec()), Ok(()));
    assert_eq!(c.owner(2), USER_C);
    assert_eq!(c.read_supply(), 2);
}

#[test]
fn self_mint_rejects_an_already_owned_next_id() {
    let mut c = fresh();
    // after this mint the supply is 1, so the next self-mint id would be 2,
    // which is exactly the token this mint occupies
    assert_eq!(c.mint(Signature::Signed(ADMIN), 0, USER_D, 2, b"v".to_vec()), Ok(()));
    assert_eq!(c.mint_next(USER_B, b"w".to_vec()), Err(Error::TokenExists));
    assert_eq!(c.owner(2), USER_D);
    assert_eq!(c.balance(USER_B), 0);
}

#[test]
fn token_uri_is_recorded_at_mint() {
    let mut c = fresh();
    assert_eq!(c.token_uri(9), Err(Error::NoSuchToken));
    assert_eq!(Error::NoSuchToken.kind(), ErrorKind::NotFound);
    assert_eq!(
        c.mint(Signature::Signed(ADMIN), 0, USER_B, 9, b"ipfs://9".to_vec()),
        Ok(())
    );
    assert_eq!(c.token_uri(9), Ok(b"ipfs://9".to_vec()));
    // the record outlives a burn
    assert_eq!(c.burn(Signature::Signed(ADMIN), 1, 9), Ok(()));
    assert_eq!(c.token_uri(9), Ok(b"ipfs://9".to_vec()));
}

#[test]
fn error_messages_are_stable() {
    assert_eq!(Error::IncorrectNonce.message(), "incorrect nonce");
    assert_eq!(Error::NotAuthorizedByAdmin.message(), "not authorized by admin");
    assert_eq!(Error::NotApproved.message(), "not approved");
    assert_eq!(Error::AlreadyInitialized.message(), "already initialized");
    assert_eq!(Error::AlreadyMinted.message(), "already minted");
    assert_eq!(Error::NonceMustBeZero.message(), "nonce should be zero for Invoker");
}

#[test]
fn token_id_zero_and_negative_ids_are_ordinary_ids() {
    let mut c = fresh();
    assert_eq!(c.mint(Signature::Signed(ADMIN), 0, USER_B, 0, b"z".to_vec()), Ok(()));
    assert_eq!(c.mint(Signature::Signed(ADMIN), 1, USER_B, -5, b"n".to_vec()), Ok(()));
    assert_eq!(c.owner(0), USER_B);
    assert_eq!(c.owner(-5), USER_B);
    assert_eq!(c.balance(USER_B), 2);
    assert_eq!(c.xfer(Signature::Signed(USER_B), 0, USER_C, -5), Ok(()));
    assert_eq!(c.owner(-5), USER_C);
    assert_eq!(c.balance(USER_B), 1);
}

#[test]
fn admin_check_precedes_nonce_check() {
    let mut c = fresh();
    // both the signer and the claimed nonce are wrong: the admin gate answers
    assert_eq!(
        c.set_admin(Signature::Signed(USER_B), 9, USER_C),
        Err(Error::NotAuthorizedByAdmin)
    );
    // the right signer with the wrong nonce reaches the replay check
    assert_eq!(
        c.set_admin(Signature::Signed(ADMIN), 9, USER_C),
        Err(Error::IncorrectNonce)
    );
}

#[test]
fn ownership_check_precedes_nonce_check() {
    let mut c = fresh();
    assert_eq!(c.mint(Signature::Signed(ADMIN), 0, USER_B, 1, b"u".to_vec()), Ok(()));
    assert_eq!(
        c.xfer(Signature::Signed(USER_C), 9, USER_D, 1),
        Err(Error::NotOwner)
    );
    assert_eq!(
        c.xfer(Signature::Signed(USER_B), 9, USER_D, 1),
        Err(Error::IncorrectNonce)
    );
    assert_eq!(c.owner(1), USER_B);
}

#[test]
fn delegation_check_precedes_ownership_and_nonce() {
    let mut c = fresh();
    assert_eq!(c.mint(Signature::Signed(ADMIN), 0, USER_B, 1, b"u".to_vec()), Ok(()));
    // wrong spender, wrong stated owner, wrong nonce: delegation answers first
    assert_eq!(
        c.xfer_from(Signature::Signed(USER_C), USER_D, USER_D, 9, 1),
        Err(Error::NotApproved)
    );
    // an approved spender with the wrong stated owner is told about ownership
    assert_eq!(c.appr(Signature::Signed(USER_B), 0, USER_C, 1), Ok(()));
    assert_eq!(
        c.xfer_from(Signature::Signed(USER_C), USER_D, USER_D, 9, 1),
        Err(Error::NotOwner)
    );
    // and with everything but the nonce right, the replay check answers
    assert_eq!(
        c.xfer_from(Signature::Signed(USER_C), USER_B, USER_D, 9, 1),
        Err(Error::IncorrectNonce)
    );
    assert_eq!(c.owner(1), USER_B);
    assert_eq!(c.get_appr(1), USER_C);
}

#[test]
fn balances_match_owned_counts_throughout() {
    let mut c = fresh();
    let ids: [i128; 4] = [1, 2, 3, 4];
    assert_eq!(c.mint(Signature::Signed(ADMIN), 0, USER_B, 1, b"a".to_vec()), Ok(()));
    assert_eq!(c.mint(Signature::Signed(ADMIN), 1, USER_B, 2, b"b".to_vec()), Ok(()));
    assert_eq!(c.mint(Signature::Signed(ADMIN), 2, USER_C, 3, b"c".to_vec()), Ok(()));
    assert_eq!(c.mint(Signature::Signed(ADMIN), 3, USER_C, 4, b"d".to_vec()), Ok(()));
    assert_eq!(c.xfer(Signature::Signed(USER_B), 0, USER_C, 2), Ok(()));
    assert_eq!(c.burn(Signature::Signed(ADMIN), 4, 3), Ok(()));
    for who in [ADMIN, USER_B, USER_C, USER_D] {
        let counted = ids.iter().filter(|&&t| c.owner(t) == who).count() as i128;
        assert_eq!(c.balance(who), counted);
    }
}
