use sol_escrow::cancel;
use sol_escrow::init_escrow;
use sol_escrow::process_exchange;
use sol_escrow::AccountOwner;
use sol_escrow::Cancel;
use sol_escrow::EscrowError;
use sol_escrow::EscrowState;
use sol_escrow::Exchange;
use sol_escrow::InitEscrow;
use sol_escrow::Ledger;

// Identities: Alice = 10, Bob = 20. Mints: X = 1, Y = 2.
// Accounts: 100 Alice-X, 101 Alice-Y, 200 Bob-Y, 201 Bob-X.
// Vault address 300, record address 400.

fn setup_with_bob_y(bob_y: u64) -> EscrowState {
    let mut led = Ledger::new();
    led.create_account(100, AccountOwner::User(10), 1, 1000);
    led.create_account(101, AccountOwner::User(10), 2, 0);
    led.create_account(200, AccountOwner::User(20), 2, bob_y);
    led.create_account(201, AccountOwner::User(20), 1, 0);
    EscrowState::new(led)
}

fn init_accounts() -> InitEscrow {
    InitEscrow {
        alice_account: 10,
        alice_token_x_account: 100,
        mint_x: 1,
        mint_y: 2,
        mint_x_vault: 300,
        escrow_account: 400,
    }
}

fn exchange_accounts() -> Exchange {
    Exchange {
        bob_account: 20,
        bob_token_y_account: 200,
        bob_token_x_account: 201,
        mint_x_vault: 300,
        alice_account: 10,
        alice_token_y_account: 101,
        escrow_account: 400,
    }
}

fn cancel_accounts() -> Cancel {
    Cancel {
        alice_account: 10,
        alice_token_x_account: 100,
        mint_x_vault: 300,
        escrow_account: 400,
    }
}

fn balance(state: &EscrowState, id: u64) -> u64 {
    state.ledger.lookup(id).expect("account should exist").amount
}

fn total_of_mint(state: &EscrowState, mint: u64) -> u128 {
    let mut total: u128 = 0;
    for a in state.ledger.accounts.iter() {
        if a.mint == mint {
            total += a.amount as u128;
        }
    }
    total
}

#[test]
fn init_moves_deposit_into_vault() {
    let mut state = setup_with_bob_y(60);
    let r = init_escrow(&mut state, &init_accounts(), 50, 100, 254);
    assert_eq!(r, Ok(()));
    assert_eq!(balance(&state, 100), 900);
    assert_eq!(balance(&state, 300), 100);
    let vault = state.ledger.lookup(300).unwrap();
    assert_eq!(vault.owner, AccountOwner::Program(254));
    assert_eq!(vault.mint, 1);
    assert_eq!(state.records.len(), 1);
    assert_eq!(state.records[0].address, 400);
    assert_eq!(state.records[0].escrow.alice_key, 10);
    assert_eq!(state.records[0].escrow.alice_amount_to_receive, 50);
    assert_eq!(state.records[0].escrow.bob_amount_to_receive, 100);
}

#[test]
fn underfunded_init_fails_and_creates_nothing() {
    let mut state = setup_with_bob_y(60);
    let r = init_escrow(&mut state, &init_accounts(), 50, 2000, 254);
    assert_eq!(r, Err(EscrowError::InsufficientFunds));
    assert_eq!(balance(&state, 100), 1000);
    assert!(state.ledger.lookup(300).is_none());
    assert_eq!(state.records.len(), 0);
}

#[test]
fn exchange_settles_both_legs() {
    let mut state = setup_with_bob_y(60);
    assert_eq!(init_escrow(&mut state, &init_accounts(), 50, 100, 254), Ok(()));
    let r = process_exchange(&mut state, &exchange_accounts());
    assert_eq!(r, Ok(()));
    assert_eq!(balance(&state, 101), 50);
    assert_eq!(balance(&state, 200), 10);
    assert_eq!(balance(&state, 201), 100);
    assert!(state.ledger.lookup(300).is_none());
    assert_eq!(state.records.len(), 0);
    assert_eq!(state.refund_log, vec![10]);
}

#[test]
fn exchange_conserves_both_assets() {
    let mut state = setup_with_bob_y(60);
    assert_eq!(init_escrow(&mut state, &init_accounts(), 50, 100, 254), Ok(()));
    let x_before = total_of_mint(&state, 1);
    let y_before = total_of_mint(&state, 2);
    assert_eq!(process_exchange(&mut state, &exchange_accounts()), Ok(()));
    assert_eq!(total_of_mint(&state, 1), x_before);
    assert_eq!(total_of_mint(&state, 2), y_before);
}

#[test]
fn cancel_restores_deposit() {
    let mut state = setup_with_bob_y(60);
    assert_eq!(init_escrow(&mut state, &init_accounts(), 50, 100, 254), Ok(()));
    assert_eq!(balance(&state, 100), 900);
    let r = cancel(&mut state, &cancel_accounts());
    assert_eq!(r, Ok(()));
    assert_eq!(balance(&state, 100), 1000);
    assert!(state.ledger.lookup(300).is_none());
    assert_eq!(state.records.len(), 0);
    assert_eq!(state.refund_log, vec![10]);
}

#[test]
fn cancel_by_other_identity_is_unauthorized() {
    let mut state = setup_with_bob_y(60);
    assert_eq!(init_escrow(&mut state, &init_accounts(), 50, 100, 254), Ok(()));
    let mut bad = cancel_accounts();
    bad.alice_account = 20;
    let r = cancel(&mut state, &bad);
    assert_eq!(r, Err(EscrowError::Unauthorized));
    // record and vault untouched: the real initiator can still cancel
    assert_eq!(balance(&state, 300), 100);
    assert_eq!(state.records.len(), 1);
    assert_eq!(cancel(&mut state, &cancel_accounts()), Ok(()));
}

#[test]
fn second_resolution_finds_no_record() {
    let mut state = setup_with_bob_y(60);
    assert_eq!(init_escrow(&mut state, &init_accounts(), 50, 100, 254), Ok(()));
    assert_eq!(process_exchange(&mut state, &exchange_accounts()), Ok(()));
    assert_eq!(cancel(&mut state, &cancel_accounts()), Err(EscrowError::RecordNotFound));
    assert_eq!(
        process_exchange(&mut state, &exchange_accounts()),
        Err(EscrowError::RecordNotFound)
    );

    let mut state2 = setup_with_bob_y(60);
    assert_eq!(init_escrow(&mut state2, &init_accounts(), 50, 100, 254), Ok(()));
    assert_eq!(cancel(&mut state2, &cancel_accounts()), Ok(()));
    assert_eq!(
        process_exchange(&mut state2, &exchange_accounts()),
        Err(EscrowError::RecordNotFound)
    );
    assert_eq!(cancel(&mut state2, &cancel_accounts()), Err(EscrowError::RecordNotFound));
}

#[test]
fn underfunded_exchange_changes_nothing() {
    let mut state = setup_with_bob_y(40);
    assert_eq!(init_escrow(&mut state, &init_accounts(), 50, 100, 254), Ok(()));
    let r = process_exchange(&mut state, &exchange_accounts());
    assert_eq!(r, Err(EscrowError::InsufficientFunds));
    assert_eq!(balance(&state, 200), 40);
    assert_eq!(balance(&state, 101), 0);
    assert_eq!(balance(&state, 201), 0);
    assert_eq!(balance(&state, 300), 100);
    assert_eq!(state.records.len(), 1);
}

#[test]
fn failure_at_vault_payout_rolls_back_first_transfer() {
    let mut state = setup_with_bob_y(60);
    // an extra Bob account of the wrong asset type for the payout destination
    state.ledger.create_account(202, AccountOwner::User(20), 2, 0);
    assert_eq!(init_escrow(&mut state, &init_accounts(), 50, 100, 254), Ok(()));
    let mut a = exchange_accounts();
    a.bob_token_x_account = 202;
    let r = process_exchange(&mut state, &a);
    assert_eq!(r, Err(EscrowError::AccountMismatch));
    // the first transfer (Bob's Y payment) must have been rolled back too
    assert_eq!(balance(&state, 200), 60);
    assert_eq!(balance(&state, 101), 0);
    assert_eq!(balance(&state, 202), 0);
    assert_eq!(balance(&state, 300), 100);
    assert_eq!(state.records.len(), 1);
}

#[test]
fn exchange_with_wrong_initiator_binding_mismatches() {
    let mut state = setup_with_bob_y(60);
    assert_eq!(init_escrow(&mut state, &init_accounts(), 50, 100, 254), Ok(()));
    let mut a = exchange_accounts();
    a.alice_account = 30;
    assert_eq!(process_exchange(&mut state, &a), Err(EscrowError::AccountMismatch));
    let mut b = exchange_accounts();
    b.mint_x_vault = 301;
    assert_eq!(process_exchange(&mut state, &b), Err(EscrowError::AccountMismatch));
    // a receiving account not owned by the recorded initiator is refused
    let mut c = exchange_accounts();
    c.alice_token_y_account = 200;
    assert_eq!(process_exchange(&mut state, &c), Err(EscrowError::AccountMismatch));
    assert_eq!(balance(&state, 300), 100);
    assert_eq!(state.records.len(), 1);
}
