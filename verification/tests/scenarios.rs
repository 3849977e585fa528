use nft_ledger::{Error, Event, NonFungibleToken, Signature};

const ADMIN_A: u64 = 1;
const USER_B: u64 = 2;
const USER_C: u64 = 3;
const USER_D: u64 = 4;
const USER_E: u64 = 5;

#[test]
fn mint_then_owner_transfer() {
    let mut c = NonFungibleToken::new();
    assert_eq!(c.initialize(ADMIN_A, b"Cats".to_vec(), b"CAT".to_vec()), Ok(()));
    assert_eq!(
        c.mint(Signature::Signed(ADMIN_A), 0, USER_B, 1, b"ipfs://1".to_vec()),
        Ok(())
    );
    assert_eq!(c.balance(USER_B), 1);
    assert_eq!(c.owner(1), USER_B);
    assert_eq!(c.events.last(), Some(&Event::Mint { to: USER_B, id: 1 }));

    assert_eq!(c.xfer(Signature::Signed(USER_B), 0, USER_C, 1), Ok(()));
    assert_eq!(c.owner(1), USER_C);
    assert_eq!(c.balance(USER_B), 0);
    assert_eq!(c.balance(USER_C), 1);
    assert_eq!(
        c.events.last(),
        Some(&Event::Transfer { from: USER_B, to: USER_C, id: 1 })
    );
}

#[test]
fn approve_then_delegated_transfer_consumes_approval() {
    // continue from the state the previous scenario leaves behind
    let mut c = NonFungibleToken::new();
    assert_eq!(c.initialize(ADMIN_A, b"Cats".to_vec(), b"CAT".to_vec()), Ok(()));
    assert_eq!(
        c.mint(Signature::Signed(ADMIN_A), 0, USER_B, 1, b"ipfs://1".to_vec()),
        Ok(())
    );
    assert_eq!(c.xfer(Signature::Signed(USER_B), 0, USER_C, 1), Ok(()));
    // one prior authorized call brings USER_C's nonce to 1
    assert_eq!(c.appr(Signature::Signed(USER_C), 0, 0, 1), Ok(()));
    assert_eq!(c.nonce(USER_C), 1);

    assert_eq!(c.appr(Signature::Signed(USER_C), 1, USER_D, 1), Ok(()));
    assert_eq!(c.xfer_from(Signature::Signed(USER_D), USER_C, USER_E, 0, 1), Ok(()));
    assert_eq!(c.owner(1), USER_E);
    assert_eq!(c.get_appr(1), 0);
    // the identical second call is refused: the approval was consumed
    assert_eq!(
        c.xfer_from(Signature::Signed(USER_D), USER_C, USER_E, 0, 1),
        Err(Error::NotApproved)
    );
    assert_eq!(Error::NotApproved.message(), "not approved");
    assert_eq!(c.owner(1), USER_E);
}

#[test]
fn event_log_records_one_event_per_mutation() {
    let mut c = NonFungibleToken::new();
    assert_eq!(c.initialize(ADMIN_A, b"Cats".to_vec(), b"CAT".to_vec()), Ok(()));
    assert!(c.events.is_empty());
    assert_eq!(c.mint(Signature::Signed(ADMIN_A), 0, USER_B, 1, b"u".to_vec()), Ok(()));
    assert_eq!(c.appr(Signature::Signed(USER_B), 0, USER_C, 1), Ok(()));
    assert_eq!(c.xfer_from(Signature::Signed(USER_C), USER_B, USER_D, 0, 1), Ok(()));
    assert_eq!(c.burn(Signature::Signed(ADMIN_A), 1, 1), Ok(()));
    // a failing call leaves no event behind
    assert_eq!(c.burn(Signature::Signed(ADMIN_A), 2, 1), Err(Error::TokenUnowned));
    assert_eq!(
        c.events,
        vec![
            Event::Mint { to: USER_B, id: 1 },
            Event::Approve { operator: USER_C, id: 1 },
            Event::Transfer { from: USER_B, to: USER_D, id: 1 },
            Event::Burn { from: USER_D, id: 1 },
        ]
    );
}

#[test]
fn invoker_class_works_for_owner_operations() {
    let mut c = NonFungibleToken::new();
    assert_eq!(c.initialize(ADMIN_A, b"Cats".to_vec(), b"CAT".to_vec()), Ok(()));
    assert_eq!(c.mint(Signature::Signed(ADMIN_A), 0, USER_B, 1, b"u".to_vec()), Ok(()));
    // a direct invocation authorizes with nonce 0 and consumes none
    assert_eq!(c.xfer(Signature::Invoker(USER_B), 0, USER_C, 1), Ok(()));
    assert_eq!(c.owner(1), USER_C);
    assert_eq!(c.nonce(USER_B), 0);
    assert_eq!(c.xfer(Signature::Invoker(USER_C), 0, USER_B, 1), Ok(()));
    assert_eq!(c.owner(1), USER_B);
}
