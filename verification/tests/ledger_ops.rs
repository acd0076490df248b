use sol_escrow::AccountOwner;
use sol_escrow::AuthProof;
use sol_escrow::Ledger;
use sol_escrow::TransferError;

fn funded_pair() -> Ledger {
    let mut led = Ledger::new();
    led.create_account(1, AccountOwner::User(10), 7, 500);
    led.create_account(2, AccountOwner::User(20), 7, 5);
    led
}

#[test]
fn transfer_moves_exactly_the_amount() {
    let mut led = funded_pair();
    let r = led.transfer(1, 2, 40, AuthProof::Signature(10));
    assert_eq!(r, Ok(()));
    assert_eq!(led.lookup(1).unwrap().amount, 460);
    assert_eq!(led.lookup(2).unwrap().amount, 45);
}

#[test]
fn transfer_to_self_is_refused() {
    let mut led = funded_pair();
    assert_eq!(led.transfer(1, 1, 1, AuthProof::Signature(10)), Err(TransferError::SameAccount));
}

#[test]
fn transfer_from_missing_account_is_refused() {
    let mut led = funded_pair();
    assert_eq!(
        led.transfer(9, 2, 1, AuthProof::Signature(10)),
        Err(TransferError::MissingAccount)
    );
    assert_eq!(
        led.transfer(1, 9, 1, AuthProof::Signature(10)),
        Err(TransferError::MissingAccount)
    );
}

#[test]
fn transfer_without_authority_is_refused() {
    let mut led = funded_pair();
    assert_eq!(
        led.transfer(1, 2, 1, AuthProof::Signature(20)),
        Err(TransferError::NotAuthorized)
    );
    assert_eq!(led.transfer(1, 2, 1, AuthProof::Derived(3)), Err(TransferError::NotAuthorized));
    assert_eq!(led.lookup(1).unwrap().amount, 500);
}

#[test]
fn transfer_across_asset_types_is_refused() {
    let mut led = funded_pair();
    led.create_account(3, AccountOwner::User(10), 8, 0);
    assert_eq!(led.transfer(1, 3, 1, AuthProof::Signature(10)), Err(TransferError::MintMismatch));
}

#[test]
fn overdraft_is_refused() {
    let mut led = funded_pair();
    assert_eq!(
        led.transfer(2, 1, 6, AuthProof::Signature(20)),
        Err(TransferError::InsufficientFunds)
    );
}

#[test]
fn overflowing_credit_is_refused() {
    let mut led = Ledger::new();
    led.create_account(1, AccountOwner::User(10), 7, 500);
    led.create_account(2, AccountOwner::User(20), 7, u64::MAX - 3);
    assert_eq!(
        led.transfer(1, 2, 40, AuthProof::Signature(10)),
        Err(TransferError::BalanceOverflow)
    );
    assert_eq!(led.lookup(1).unwrap().amount, 500);
    assert_eq!(led.lookup(2).unwrap().amount, u64::MAX - 3);
}

#[test]
fn program_authority_controls_reassigned_account() {
    let mut led = funded_pair();
    led.set_owner(1, AccountOwner::Program(9), AuthProof::Signature(10));
    assert_eq!(
        led.transfer(1, 2, 1, AuthProof::Signature(10)),
        Err(TransferError::NotAuthorized)
    );
    assert_eq!(led.transfer(1, 2, 1, AuthProof::Derived(9)), Ok(()));
}

#[test]
fn close_removes_emptied_account() {
    let mut led = funded_pair();
    let r = led.transfer(2, 1, 5, AuthProof::Signature(20));
    assert_eq!(r, Ok(()));
    led.close_account(2, AuthProof::Signature(20));
    assert!(led.lookup(2).is_none());
    assert_eq!(led.lookup(1).unwrap().amount, 505);
}
