//! The escrow state machine: `init_escrow`, `process_exchange`, `cancel`.
//!
//! A deal is a persistent [`Escrow`] record bound to a custody vault on the
//! ledger. `init_escrow` creates both and moves the deposit into custody under
//! the program authority; `process_exchange` and `cancel` are the two mutually
//! exclusive resolutions, each consuming the record and the vault in one
//! atomic step. Every operation either commits completely or leaves the state
//! exactly as it was.

use vstd::prelude::*;

use crate::ledger::AccountOwner;
use crate::ledger::AuthProof;
use crate::ledger::Ledger;
use crate::ledger::TokenAccount;
use crate::ledger::mint_total;

verus! {

/// One active deal: the terms and the identities bound at creation.
/// Write-once; destroyed by whichever of the two resolutions runs first.
#[derive(Clone, Copy, PartialEq, Eq, Structural, Debug)]
pub struct Escrow {
    /// Identity of the initiator (party A, the depositor).
    pub alice_key: u64,
    /// Address of the custody vault holding the deposited asset.
    pub mint_x_vault: u64,
    /// Asset type the initiator expects to receive.
    pub mint_y: u64,
    /// Quantity of `mint_y` the initiator must receive to complete the swap.
    pub alice_amount_to_receive: u64,
    /// Quantity deposited in the vault, owed to the responder on completion.
    pub bob_amount_to_receive: u64,
    /// Seed tag from which the vault's program authority is re-derived.
    pub bump: u8,
}

/// A record stored at its own address.
#[derive(Clone, Copy, PartialEq, Eq, Structural, Debug)]
pub struct RecordEntry {
    pub address: u64,
    pub escrow: Escrow,
}

/// Why an escrow operation was refused. A refused operation has no effect.
#[derive(Clone, Copy, PartialEq, Eq, Structural, Debug)]
pub enum EscrowError {
    /// A balance is short of the amount about to be debited.
    InsufficientFunds,
    /// A supplied account does not match the identity bound in the record
    /// for its role.
    AccountMismatch,
    /// The caller is not the identity the operation is restricted to.
    Unauthorized,
    /// The record was already consumed, or never existed.
    RecordNotFound,
}

/// The accounts party A supplies to `init_escrow`.
#[derive(Clone, Copy, PartialEq, Eq, Structural, Debug)]
pub struct InitEscrow {
    /// The initiator's identity (a signer, validated by the host).
    pub alice_account: u64,
    /// The initiator's account holding the asset to deposit.
    pub alice_token_x_account: u64,
    /// Asset type being deposited.
    pub mint_x: u64,
    /// Asset type expected in return.
    pub mint_y: u64,
    /// Fresh address for the custody vault.
    pub mint_x_vault: u64,
    /// Fresh address for the escrow record.
    pub escrow_account: u64,
}

/// The accounts party B supplies to `process_exchange`.
#[derive(Clone, Copy, PartialEq, Eq, Structural, Debug)]
pub struct Exchange {
    /// The responder's identity (a signer, validated by the host).
    pub bob_account: u64,
    /// The responder's account paying the expected asset.
    pub bob_token_y_account: u64,
    /// The responder's account receiving the deposited asset.
    pub bob_token_x_account: u64,
    /// The custody vault named in the record.
    pub mint_x_vault: u64,
    /// The initiator's identity as bound in the record.
    pub alice_account: u64,
    /// The initiator's account receiving the expected asset.
    pub alice_token_y_account: u64,
    /// Address of the escrow record.
    pub escrow_account: u64,
}

/// The accounts party A supplies to `cancel`.
#[derive(Clone, Copy, PartialEq, Eq, Structural, Debug)]
pub struct Cancel {
    /// The caller's identity (a signer, validated by the host).
    pub alice_account: u64,
    /// The account the deposit is returned to.
    pub alice_token_x_account: u64,
    /// The custody vault named in the record.
    pub mint_x_vault: u64,
    /// Address of the escrow record.
    pub escrow_account: u64,
}

pub open spec fn rec_ids_unique(s: Seq<RecordEntry>) -> bool {
    forall|i: int, j: int| 0 <= i < j < s.len() ==> s[i].address != s[j].address
}

pub open spec fn rec_vaults_unique(s: Seq<RecordEntry>) -> bool {
    forall|i: int, j: int|
        0 <= i < j < s.len() ==> s[i].escrow.mint_x_vault != s[j].escrow.mint_x_vault
}

/// The record sequence read as a map from record address to terms.
pub open spec fn rec_as_map(s: Seq<RecordEntry>) -> Map<u64, Escrow>
    decreases s.len(),
{
    if s.len() == 0 {
        Map::empty()
    } else {
        rec_as_map(s.drop_last()).insert(s.last().address, s.last().escrow)
    }
}

pub proof fn lemma_rec_map_index(s: Seq<RecordEntry>, i: int)
    requires
        rec_ids_unique(s),
        0 <= i < s.len(),
    ensures
        rec_as_map(s).dom().contains(s[i].address),
        rec_as_map(s)[s[i].address] == s[i].escrow,
    decreases s.len(),
{
    if i == s.len() - 1 {
    } else {
        lemma_rec_map_index(s.drop_last(), i);
        assert(s.drop_last()[i] == s[i]);
        assert(s.last().address != s[i].address);
    }
}

pub proof fn lemma_rec_map_absent(s: Seq<RecordEntry>, addr: u64)
    requires
        forall|k: int| 0 <= k < s.len() ==> s[k].address != addr,
    ensures
        !rec_as_map(s).dom().contains(addr),
    decreases s.len(),
{
    if s.len() > 0 {
        assert(forall|k: int|
            0 <= k < s.drop_last().len() ==> s.drop_last()[k].address != addr);
        lemma_rec_map_absent(s.drop_last(), addr);
        assert(s.last().address != addr);
    }
}

pub proof fn lemma_rec_map_remove(s: Seq<RecordEntry>, i: int)
    requires
        rec_ids_unique(s),
        0 <= i < s.len(),
    ensures
        rec_as_map(s.remove(i)) =~= rec_as_map(s).remove(s[i].address),
        rec_ids_unique(s.remove(i)),
    decreases s.len(),
{
    let t = s.remove(i);
    assert(forall|k: int| 0 <= k < t.len() ==> t[k] == (if k < i {
        s[k]
    } else {
        s[k + 1]
    }));
    if i == s.len() - 1 {
        assert(t =~= s.drop_last());
        assert(forall|k: int|
            0 <= k < s.drop_last().len() ==> s.drop_last()[k].address != s[i].address);
        lemma_rec_map_absent(s.drop_last(), s[i].address);
    } else {
        assert(t.drop_last() =~= s.drop_last().remove(i));
        assert(t.last() == s.last());
        lemma_rec_map_remove(s.drop_last(), i);
        assert(s.last().address != s[i].address);
        assert(s.drop_last()[i] == s[i]);
    }
}

/// A record exists if and only if its vault exists, holds exactly the
/// deposited amount, and is controlled by the program authority for the
/// record's seed tag — never by either party directly.
pub open spec fn record_ok(led: Map<u64, TokenAccount>, e: Escrow) -> bool {
    &&& led.dom().contains(e.mint_x_vault)
    &&& led[e.mint_x_vault].owner == AccountOwner::Program(e.bump)
    &&& led[e.mint_x_vault].amount == e.bob_amount_to_receive
    &&& e.alice_amount_to_receive > 0
    &&& e.bob_amount_to_receive > 0
}

/// The whole escrow system: the ledger, the live records, and a log of who
/// received the storage refund of each consumed record.
pub struct EscrowState {
    pub ledger: Ledger,
    pub records: Vec<RecordEntry>,
    pub refund_log: Vec<u64>,
}

impl EscrowState {
    /// System invariant: established by `new`, preserved by every operation.
    pub open spec fn wf(self) -> bool {
        &&& self.ledger.wf()
        &&& rec_ids_unique(self.records@)
        &&& rec_vaults_unique(self.records@)
        &&& forall|i: int|
            0 <= i < self.records@.len() ==> record_ok(
                self.ledger.accounts_map(),
                self.records@[i].escrow,
            )
    }

    pub fn new(ledger: Ledger) -> (r: EscrowState)
        requires
            ledger.wf(),
        ensures
            r.wf(),
            r.ledger.accounts@ == ledger.accounts@,
            r.records@ =~= Seq::<RecordEntry>::empty(),
            r.refund_log@ =~= Seq::<u64>::empty(),
    {
        EscrowState { ledger, records: Vec::new(), refund_log: Vec::new() }
    }
}

/// The record stored at `addr`, if one is live.
pub open spec fn find_record(s: EscrowState, addr: u64) -> Option<Escrow> {
    if rec_as_map(s.records@).dom().contains(addr) {
        Some(rec_as_map(s.records@)[addr])
    } else {
        None
    }
}

/// Two states that agree observably.
pub open spec fn same_state(x: EscrowState, y: EscrowState) -> bool {
    &&& x.ledger.accounts@ == y.ledger.accounts@
    &&& x.records@ == y.records@
    &&& x.refund_log@ == y.refund_log@
}

fn find_record_index(records: &Vec<RecordEntry>, addr: u64) -> (r: Option<usize>)
    ensures
        match r {
            Some(i) => i < records@.len() && records@[i as int].address == addr,
            None => forall|k: int| 0 <= k < records@.len() ==> records@[k].address != addr,
        },
{
    let n = records.len();
    let mut i: usize = 0;
    while i < n
        invariant
            i <= n,
            n == records@.len(),
            forall|k: int| 0 <= k < i ==> records@[k].address != addr,
        decreases n - i,
    {
        if records[i].address == addr {
            return Some(i);
        }
        i = i + 1;
    }
    None
}

/// The decision `init_escrow` makes: every error, and the inputs on which it
/// comes. Checks run in the authorization order: account bindings first, then
/// balance sufficiency.
pub open spec fn init_result(s: EscrowState, a: InitEscrow, bob_amount_to_receive: u64) -> Result<
    (),
    EscrowError,
> {
    let led = s.ledger;
    let src = a.alice_token_x_account;
    if !led.contains(src) || led.get(src).owner != AccountOwner::User(a.alice_account)
        || led.get(src).mint != a.mint_x {
        Err(EscrowError::AccountMismatch)
    } else if led.get(src).amount < bob_amount_to_receive {
        Err(EscrowError::InsufficientFunds)
    } else {
        Ok(())
    }
}

/// What a successful `init_escrow` leaves behind: the deposit moved from the
/// initiator's source into a fresh vault controlled by the program authority,
/// the record persisted, and no asset's total supply changed.
pub open spec fn init_post(
    pre: EscrowState,
    post: EscrowState,
    a: InitEscrow,
    alice_amount_to_receive: u64,
    bob_amount_to_receive: u64,
    bump: u8,
) -> bool {
    let src = a.alice_token_x_account;
    let vault = a.mint_x_vault;
    let esc = (Escrow {
        alice_key: a.alice_account,
        mint_x_vault: a.mint_x_vault,
        mint_y: a.mint_y,
        alice_amount_to_receive,
        bob_amount_to_receive,
        bump,
    });
    &&& post.ledger.accounts_map() == pre.ledger.accounts_map().insert(
        src,
        (TokenAccount {
            id: src,
            owner: pre.ledger.get(src).owner,
            mint: pre.ledger.get(src).mint,
            amount: (pre.ledger.get(src).amount - bob_amount_to_receive) as u64,
        }),
    ).insert(
        vault,
        (TokenAccount {
            id: vault,
            owner: AccountOwner::Program(bump),
            mint: a.mint_x,
            amount: bob_amount_to_receive,
        }),
    )
    &&& post.records@ == pre.records@.push(
        (RecordEntry { address: a.escrow_account, escrow: esc }),
    )
    &&& post.refund_log@ == pre.refund_log@
    &&& forall|m: u64|
        mint_total(post.ledger.accounts@, m) == mint_total(pre.ledger.accounts@, m)
}

/// Open a deal: bind the terms, create the custody vault, and move the
/// deposit into it, all before any record of the deal becomes visible.
/// The caller (the host runtime) supplies fresh, unused addresses for the
/// vault and the record, and positive amounts on both legs of the deal.
pub fn init_escrow(
    state: &mut EscrowState,
    a: &InitEscrow,
    alice_amount_to_receive: u64,
    bob_amount_to_receive: u64,
    bump: u8,
) -> (r: Result<(), EscrowError>)
    requires
        old(state).wf(),
        alice_amount_to_receive > 0,
        bob_amount_to_receive > 0,
        !old(state).ledger.contains(a.mint_x_vault),
        find_record(*old(state), a.escrow_account) is None,
    ensures
        final(state).wf(),
        r == init_result(*old(state), *a, bob_amount_to_receive),
        r is Err ==> same_state(*final(state), *old(state)),
        r is Ok ==> init_post(
            *old(state),
            *final(state),
            *a,
            alice_amount_to_receive,
            bob_amount_to_receive,
            bump,
        ),
{
    let ghost pre = *old(state);
    let src = match state.ledger.lookup(a.alice_token_x_account) {
        Some(x) => x,
        None => {
            return Err(EscrowError::AccountMismatch);
        },
    };
    if src.owner != AccountOwner::User(a.alice_account) || src.mint != a.mint_x {
        return Err(EscrowError::AccountMismatch);
    }
    if src.amount < bob_amount_to_receive {
        return Err(EscrowError::InsufficientFunds);
    }
    proof {
        // the vault address is fresh, so it differs from the funded source
        assert(a.alice_token_x_account != a.mint_x_vault);
    }
    state.ledger.create_account(
        a.mint_x_vault,
        AccountOwner::User(a.alice_account),
        a.mint_x,
        0,
    );
    state.ledger.transfer_exact(
        a.alice_token_x_account,
        a.mint_x_vault,
        bob_amount_to_receive,
        AuthProof::Signature(a.alice_account),
    );
    state.ledger.set_owner(
        a.mint_x_vault,
        AccountOwner::Program(bump),
        AuthProof::Signature(a.alice_account),
    );
    let esc = Escrow {
        alice_key: a.alice_account,
        mint_x_vault: a.mint_x_vault,
        mint_y: a.mint_y,
        alice_amount_to_receive,
        bob_amount_to_receive,
        bump,
    };
    let ghost recs0 = state.records@;
    state.records.push(RecordEntry { address: a.escrow_account, escrow: esc });
    proof {
        let prem = pre.ledger.accounts_map();
        let postm = state.ledger.accounts_map();
        let src_id = a.alice_token_x_account;
        let vault = a.mint_x_vault;
        assert(postm =~= prem.insert(
            src_id,
            (TokenAccount {
                id: src_id,
                owner: pre.ledger.get(src_id).owner,
                mint: pre.ledger.get(src_id).mint,
                amount: (pre.ledger.get(src_id).amount - bob_amount_to_receive) as u64,
            }),
        ).insert(
            vault,
            (TokenAccount {
                id: vault,
                owner: AccountOwner::Program(bump),
                mint: a.mint_x,
                amount: bob_amount_to_receive,
            }),
        ));
        // record addresses stay unique: the new one was not live
        assert(forall|k: int| 0 <= k < recs0.len() ==> recs0[k].address != a.escrow_account)
            by {
            assert forall|k: int|
                0 <= k < recs0.len() implies recs0[k].address != a.escrow_account by {
                lemma_rec_map_index(recs0, k);
            }
        }
        // vault references stay unique: every live record's vault is a ledger
        // account, and the new vault's address was unused
        assert(forall|k: int| 0 <= k < recs0.len() ==> recs0[k].escrow.mint_x_vault != vault);
        // the untouched records keep their vaults: those are program-owned,
        // so they differ from the initiator's source account
        assert forall|i: int|
            0 <= i < state.records@.len() implies record_ok(postm, state.records@[i].escrow) by {
            if i < recs0.len() {
                assert(state.records@[i] == recs0[i]);
                assert(record_ok(prem, recs0[i].escrow));
                assert(recs0[i].escrow.mint_x_vault != src_id);
            } else {
                assert(state.records@[i].escrow == esc);
            }
        }
    }
    Ok(())
}

/// Whether the supplied return account can receive the deposit back: it must
/// exist, belong to the recorded initiator, and hold the vault's asset type.
pub open spec fn cancel_dest_ok(led: Ledger, a: Cancel, rec: Escrow) -> bool {
    &&& led.contains(a.alice_token_x_account)
    &&& led.get(a.alice_token_x_account).owner == AccountOwner::User(rec.alice_key)
    &&& led.get(a.alice_token_x_account).mint == led.get(rec.mint_x_vault).mint
}

/// The decision `cancel` makes. The caller check comes first: any identity
/// other than the recorded initiator is refused outright.
pub open spec fn cancel_result(s: EscrowState, a: Cancel) -> Result<(), EscrowError> {
    match find_record(s, a.escrow_account) {
        None => Err(EscrowError::RecordNotFound),
        Some(rec) => if a.alice_account != rec.alice_key {
            Err(EscrowError::Unauthorized)
        } else if a.mint_x_vault != rec.mint_x_vault {
            Err(EscrowError::AccountMismatch)
        } else if !cancel_dest_ok(s.ledger, a, rec) {
            Err(EscrowError::AccountMismatch)
        } else {
            Ok(())
        },
    }
}

/// Machine-limit bound: if the cancellation would go through, returning the
/// deposit must not overflow the destination balance.
pub open spec fn cancel_no_overflow(s: EscrowState, a: Cancel) -> bool {
    cancel_result(s, a) is Ok ==> {
        let rec = rec_as_map(s.records@)[a.escrow_account];
        s.ledger.get(a.alice_token_x_account).amount + rec.bob_amount_to_receive <= u64::MAX
    }
}

/// What a successful `cancel` leaves behind: the deposit back with the
/// initiator, vault and record gone, the storage refund logged to the
/// initiator, and no asset's total supply changed.
pub open spec fn cancel_post(pre: EscrowState, post: EscrowState, a: Cancel) -> bool {
    let rec = rec_as_map(pre.records@)[a.escrow_account];
    let dest = a.alice_token_x_account;
    &&& post.ledger.accounts_map() == pre.ledger.accounts_map().insert(
        dest,
        (TokenAccount {
            id: dest,
            owner: pre.ledger.get(dest).owner,
            mint: pre.ledger.get(dest).mint,
            amount: (pre.ledger.get(dest).amount + rec.bob_amount_to_receive) as u64,
        }),
    ).remove(rec.mint_x_vault)
    &&& rec_as_map(post.records@) == rec_as_map(pre.records@).remove(a.escrow_account)
    &&& post.records@.len() == pre.records@.len() - 1
    &&& post.refund_log@ == pre.refund_log@.push(rec.alice_key)
    &&& forall|m: u64|
        mint_total(post.ledger.accounts@, m) == mint_total(pre.ledger.accounts@, m)
}

/// Withdraw a deal: only the recorded initiator may do this, at any time
/// before the exchange. The deposit goes back to them, authorized by the
/// re-derived program authority, and the record and vault are destroyed in
/// the same step.
pub fn cancel(state: &mut EscrowState, a: &Cancel) -> (r: Result<(), EscrowError>)
    requires
        old(state).wf(),
        cancel_no_overflow(*old(state), *a),
    ensures
        final(state).wf(),
        r == cancel_result(*old(state), *a),
        r is Err ==> same_state(*final(state), *old(state)),
        r is Ok ==> cancel_post(*old(state), *final(state), *a),
{
    let ghost pre = *old(state);
    let k = match find_record_index(&state.records, a.escrow_account) {
        Some(k) => k,
        None => {
            proof {
                lemma_rec_map_absent(state.records@, a.escrow_account);
            }
            return Err(EscrowError::RecordNotFound);
        },
    };
    let rec = state.records[k].escrow;
    proof {
        lemma_rec_map_index(state.records@, k as int);
        assert(record_ok(state.ledger.accounts_map(), rec));
    }
    if a.alice_account != rec.alice_key {
        return Err(EscrowError::Unauthorized);
    }
    if a.mint_x_vault != rec.mint_x_vault {
        return Err(EscrowError::AccountMismatch);
    }
    let dest = match state.ledger.lookup(a.alice_token_x_account) {
        Some(x) => x,
        None => {
            return Err(EscrowError::AccountMismatch);
        },
    };
    if dest.owner != AccountOwner::User(rec.alice_key) {
        return Err(EscrowError::AccountMismatch);
    }
    let vault = match state.ledger.lookup(rec.mint_x_vault) {
        Some(x) => x,
        None => {
            return Err(EscrowError::AccountMismatch);
        },
    };
    if dest.mint != vault.mint {
        return Err(EscrowError::AccountMismatch);
    }
    proof {
        // the return account is user-owned, the vault program-owned
        assert(a.alice_token_x_account != rec.mint_x_vault);
    }
    state.ledger.transfer_exact(
        rec.mint_x_vault,
        a.alice_token_x_account,
        rec.bob_amount_to_receive,
        AuthProof::Derived(rec.bump),
    );
    state.ledger.close_account(rec.mint_x_vault, AuthProof::Derived(rec.bump));
    let ghost recs0 = state.records@;
    state.records.remove(k);
    proof {
        lemma_rec_map_remove(recs0, k as int);
    }
    state.refund_log.push(rec.alice_key);
    proof {
        let prem = pre.ledger.accounts_map();
        let postm = state.ledger.accounts_map();
        let dest_id = a.alice_token_x_account;
        assert(postm =~= prem.insert(
            dest_id,
            (TokenAccount {
                id: dest_id,
                owner: pre.ledger.get(dest_id).owner,
                mint: pre.ledger.get(dest_id).mint,
                amount: (pre.ledger.get(dest_id).amount + rec.bob_amount_to_receive) as u64,
            }),
        ).remove(rec.mint_x_vault));
        assert(forall|p: int, q: int|
            0 <= p < q < state.records@.len() ==> state.records@[p].escrow.mint_x_vault
                != state.records@[q].escrow.mint_x_vault) by {
            assert(forall|t: int| 0 <= t < state.records@.len() ==> state.records@[t] == (if t
                < k as int {
                recs0[t]
            } else {
                recs0[t + 1]
            }));
        }
        // untouched records keep their program-owned vaults, which differ from
        // both the consumed vault and the user-owned return account
        assert forall|i: int|
            0 <= i < state.records@.len() implies record_ok(postm, state.records@[i].escrow) by {
            let j: int = if i < k as int {
                i
            } else {
                i + 1
            };
            assert(state.records@[i] == recs0[j]);
            let e = recs0[j].escrow;
            assert(record_ok(prem, e));
            if j < k as int {
                assert(recs0[j].escrow.mint_x_vault != recs0[k as int].escrow.mint_x_vault);
            } else {
                assert(recs0[k as int].escrow.mint_x_vault != recs0[j].escrow.mint_x_vault);
            }
            assert(e.mint_x_vault != dest_id);
        }
    }
    Ok(())
}

/// Whether the initiator's receiving account matches the record: it must
/// exist, belong to the recorded initiator, and hold the expected asset type.
pub open spec fn exchange_alice_dest_ok(led: Ledger, a: Exchange, rec: Escrow) -> bool {
    &&& led.contains(a.alice_token_y_account)
    &&& led.get(a.alice_token_y_account).owner == AccountOwner::User(rec.alice_key)
    &&& led.get(a.alice_token_y_account).mint == rec.mint_y
}

/// Whether the responder's paying account can fund the swap: it must exist,
/// belong to the responder, hold the expected asset type, and be distinct
/// from the initiator's receiving account.
pub open spec fn exchange_bob_src_ok(led: Ledger, a: Exchange, rec: Escrow) -> bool {
    &&& led.contains(a.bob_token_y_account)
    &&& led.get(a.bob_token_y_account).owner == AccountOwner::User(a.bob_account)
    &&& led.get(a.bob_token_y_account).mint == rec.mint_y
    &&& a.bob_token_y_account != a.alice_token_y_account
}

/// Whether the responder's receiving account can take the deposit: it must
/// exist, belong to the responder, and play no other role in this swap.
/// Its asset type is checked by the vault payout itself.
pub open spec fn exchange_bob_dest_ok(led: Ledger, a: Exchange, rec: Escrow) -> bool {
    &&& led.contains(a.bob_token_x_account)
    &&& led.get(a.bob_token_x_account).owner == AccountOwner::User(a.bob_account)
    &&& a.bob_token_x_account != a.alice_token_y_account
    &&& a.bob_token_x_account != a.bob_token_y_account
}

/// The decision `process_exchange` makes. Bindings are checked against the
/// record before balances; the asset type of the responder's receiving
/// account is only discovered when the vault payout runs, and a mismatch
/// there aborts the whole exchange with the first transfer rolled back.
pub open spec fn exchange_result(s: EscrowState, a: Exchange) -> Result<(), EscrowError> {
    let led = s.ledger;
    match find_record(s, a.escrow_account) {
        None => Err(EscrowError::RecordNotFound),
        Some(rec) => if rec.alice_key != a.alice_account || rec.mint_x_vault != a.mint_x_vault {
            Err(EscrowError::AccountMismatch)
        } else if !exchange_alice_dest_ok(led, a, rec) || !exchange_bob_src_ok(led, a, rec) {
            Err(EscrowError::AccountMismatch)
        } else if led.get(a.bob_token_y_account).amount < rec.alice_amount_to_receive {
            Err(EscrowError::InsufficientFunds)
        } else if !exchange_bob_dest_ok(led, a, rec) {
            Err(EscrowError::AccountMismatch)
        } else if led.get(a.bob_token_x_account).mint != led.get(rec.mint_x_vault).mint {
            Err(EscrowError::AccountMismatch)
        } else {
            Ok(())
        },
    }
}

/// All checks up to the two transfers.
pub open spec fn exchange_checks_pass(s: EscrowState, a: Exchange) -> bool {
    let led = s.ledger;
    &&& rec_as_map(s.records@).dom().contains(a.escrow_account)
    &&& {
        let rec = rec_as_map(s.records@)[a.escrow_account];
        &&& rec.alice_key == a.alice_account
        &&& rec.mint_x_vault == a.mint_x_vault
        &&& exchange_alice_dest_ok(led, a, rec)
        &&& exchange_bob_src_ok(led, a, rec)
        &&& led.get(a.bob_token_y_account).amount >= rec.alice_amount_to_receive
        &&& exchange_bob_dest_ok(led, a, rec)
    }
}

/// Machine-limit bound: neither credited balance may overflow.
pub open spec fn exchange_no_overflow(s: EscrowState, a: Exchange) -> bool {
    exchange_checks_pass(s, a) ==> {
        let led = s.ledger;
        let rec = rec_as_map(s.records@)[a.escrow_account];
        &&& led.get(a.alice_token_y_account).amount + rec.alice_amount_to_receive <= u64::MAX
        &&& (led.get(a.bob_token_x_account).mint == led.get(rec.mint_x_vault).mint
            ==> led.get(a.bob_token_x_account).amount + rec.bob_amount_to_receive <= u64::MAX)
    }
}

/// What a successful `process_exchange` leaves behind: the expected asset
/// with the initiator, the deposit with the responder, vault and record gone,
/// the storage refund logged to the initiator, and no asset's total supply
/// changed (conservation: only ownership moves).
pub open spec fn exchange_post(pre: EscrowState, post: EscrowState, a: Exchange) -> bool {
    let rec = rec_as_map(pre.records@)[a.escrow_account];
    let led = pre.ledger;
    let pay = rec.alice_amount_to_receive;
    let dep = rec.bob_amount_to_receive;
    &&& post.ledger.accounts_map() == led.accounts_map().insert(
        a.bob_token_y_account,
        (TokenAccount {
            id: a.bob_token_y_account,
            owner: led.get(a.bob_token_y_account).owner,
            mint: led.get(a.bob_token_y_account).mint,
            amount: (led.get(a.bob_token_y_account).amount - pay) as u64,
        }),
    ).insert(
        a.alice_token_y_account,
        (TokenAccount {
            id: a.alice_token_y_account,
            owner: led.get(a.alice_token_y_account).owner,
            mint: led.get(a.alice_token_y_account).mint,
            amount: (led.get(a.alice_token_y_account).amount + pay) as u64,
        }),
    ).insert(
        a.bob_token_x_account,
        (TokenAccount {
            id: a.bob_token_x_account,
            owner: led.get(a.bob_token_x_account).owner,
            mint: led.get(a.bob_token_x_account).mint,
            amount: (led.get(a.bob_token_x_account).amount + dep) as u64,
        }),
    ).remove(rec.mint_x_vault)
    &&& rec_as_map(post.records@) == rec_as_map(pre.records@).remove(a.escrow_account)
    &&& post.records@.len() == pre.records@.len() - 1
    &&& post.refund_log@ == pre.refund_log@.push(rec.alice_key)
    &&& forall|m: u64|
        mint_total(post.ledger.accounts@, m) == mint_total(pre.ledger.accounts@, m)
}

/// Complete a deal: the responder pays the initiator the expected amount and
/// takes the custodied deposit, authorized by the re-derived program
/// authority; vault and record are destroyed in the same step. The two
/// transfers are staged on a scratch ledger and committed together, so a
/// failure at the second leaves no trace of the first.
pub fn process_exchange(state: &mut EscrowState, a: &Exchange) -> (r: Result<(), EscrowError>)
    requires
        old(state).wf(),
        exchange_no_overflow(*old(state), *a),
    ensures
        final(state).wf(),
        r == exchange_result(*old(state), *a),
        r is Err ==> same_state(*final(state), *old(state)),
        r is Ok ==> exchange_post(*old(state), *final(state), *a),
{
    let ghost pre = *old(state);
    let k = match find_record_index(&state.records, a.escrow_account) {
        Some(k) => k,
        None => {
            proof {
                lemma_rec_map_absent(state.records@, a.escrow_account);
            }
            return Err(EscrowError::RecordNotFound);
        },
    };
    let rec = state.records[k].escrow;
    proof {
        lemma_rec_map_index(state.records@, k as int);
        assert(record_ok(state.ledger.accounts_map(), rec));
    }
    if rec.alice_key != a.alice_account || rec.mint_x_vault != a.mint_x_vault {
        return Err(EscrowError::AccountMismatch);
    }
    let ay = match state.ledger.lookup(a.alice_token_y_account) {
        Some(x) => x,
        None => {
            return Err(EscrowError::AccountMismatch);
        },
    };
    if ay.owner != AccountOwner::User(rec.alice_key) || ay.mint != rec.mint_y {
        return Err(EscrowError::AccountMismatch);
    }
    let by = match state.ledger.lookup(a.bob_token_y_account) {
        Some(x) => x,
        None => {
            return Err(EscrowError::AccountMismatch);
        },
    };
    if by.owner != AccountOwner::User(a.bob_account) || by.mint != rec.mint_y
        || a.bob_token_y_account == a.alice_token_y_account {
        return Err(EscrowError::AccountMismatch);
    }
    if by.amount < rec.alice_amount_to_receive {
        return Err(EscrowError::InsufficientFunds);
    }
    let bx = match state.ledger.lookup(a.bob_token_x_account) {
        Some(x) => x,
        None => {
            return Err(EscrowError::AccountMismatch);
        },
    };
    if bx.owner != AccountOwner::User(a.bob_account) || a.bob_token_x_account
        == a.alice_token_y_account || a.bob_token_x_account == a.bob_token_y_account {
        return Err(EscrowError::AccountMismatch);
    }
    proof {
        // party accounts are user-owned, the vault program-owned
        assert(a.bob_token_y_account != rec.mint_x_vault);
        assert(a.alice_token_y_account != rec.mint_x_vault);
        assert(a.bob_token_x_account != rec.mint_x_vault);
        assert(exchange_checks_pass(pre, *a));
    }
    // stage both transfers on a copy; commit only if both go through
    let mut led = state.ledger.duplicate();
    led.transfer_exact(
        a.bob_token_y_account,
        a.alice_token_y_account,
        rec.alice_amount_to_receive,
        AuthProof::Signature(a.bob_account),
    );
    match led.transfer(
        rec.mint_x_vault,
        a.bob_token_x_account,
        rec.bob_amount_to_receive,
        AuthProof::Derived(rec.bump),
    ) {
        Ok(()) => {},
        Err(_) => {
            // only an asset-type mismatch on the payout destination gets here;
            // the staged first transfer is discarded untouched
            return Err(EscrowError::AccountMismatch);
        },
    }
    led.close_account(rec.mint_x_vault, AuthProof::Derived(rec.bump));
    state.ledger = led;
    let ghost recs0 = state.records@;
    state.records.remove(k);
    proof {
        lemma_rec_map_remove(recs0, k as int);
    }
    state.refund_log.push(rec.alice_key);
    proof {
        let prem = pre.ledger.accounts_map();
        let postm = state.ledger.accounts_map();
        let pay = rec.alice_amount_to_receive;
        let dep = rec.bob_amount_to_receive;
        assert(postm =~= prem.insert(
            a.bob_token_y_account,
            (TokenAccount {
                id: a.bob_token_y_account,
                owner: pre.ledger.get(a.bob_token_y_account).owner,
                mint: pre.ledger.get(a.bob_token_y_account).mint,
                amount: (pre.ledger.get(a.bob_token_y_account).amount - pay) as u64,
            }),
        ).insert(
            a.alice_token_y_account,
            (TokenAccount {
                id: a.alice_token_y_account,
                owner: pre.ledger.get(a.alice_token_y_account).owner,
                mint: pre.ledger.get(a.alice_token_y_account).mint,
                amount: (pre.ledger.get(a.alice_token_y_account).amount + pay) as u64,
            }),
        ).insert(
            a.bob_token_x_account,
            (TokenAccount {
                id: a.bob_token_x_account,
                owner: pre.ledger.get(a.bob_token_x_account).owner,
                mint: pre.ledger.get(a.bob_token_x_account).mint,
                amount: (pre.ledger.get(a.bob_token_x_account).amount + dep) as u64,
            }),
        ).remove(rec.mint_x_vault));
        assert(forall|p: int, q: int|
            0 <= p < q < state.records@.len() ==> state.records@[p].escrow.mint_x_vault
                != state.records@[q].escrow.mint_x_vault) by {
            assert(forall|t: int| 0 <= t < state.records@.len() ==> state.records@[t] == (if t
                < k as int {
                recs0[t]
            } else {
                recs0[t + 1]
            }));
        }
        // untouched records keep their program-owned vaults, which differ
        // from the consumed vault and from the three user-owned party accounts
        assert forall|i: int|
            0 <= i < state.records@.len() implies record_ok(postm, state.records@[i].escrow) by {
            let j: int = if i < k as int {
                i
            } else {
                i + 1
            };
            assert(state.records@[i] == recs0[j]);
            let e = recs0[j].escrow;
            assert(record_ok(prem, e));
            if j < k as int {
                assert(recs0[j].escrow.mint_x_vault != recs0[k as int].escrow.mint_x_vault);
            } else {
                assert(recs0[k as int].escrow.mint_x_vault != recs0[j].escrow.mint_x_vault);
            }
            assert(e.mint_x_vault != a.bob_token_y_account);
            assert(e.mint_x_vault != a.alice_token_y_account);
            assert(e.mint_x_vault != a.bob_token_x_account);
        }
    }
    Ok(())
}

/// Exclusivity: once an exchange has consumed a record, every later
/// `process_exchange` or `cancel` against the same record address fails with
/// `RecordNotFound`. At most one of the two resolutions ever succeeds.
pub proof fn lemma_exclusivity_after_exchange(
    pre: EscrowState,
    post: EscrowState,
    a: Exchange,
    b: Exchange,
    c: Cancel,
)
    requires
        exchange_result(pre, a) is Ok,
        exchange_post(pre, post, a),
        b.escrow_account == a.escrow_account,
        c.escrow_account == a.escrow_account,
    ensures
        exchange_result(post, b) == Err::<(), EscrowError>(EscrowError::RecordNotFound),
        cancel_result(post, c) == Err::<(), EscrowError>(EscrowError::RecordNotFound),
{
    assert(!rec_as_map(post.records@).dom().contains(a.escrow_account));
}

/// Exclusivity: once a cancellation has consumed a record, every later
/// `process_exchange` or `cancel` against the same record address fails with
/// `RecordNotFound`. At most one of the two resolutions ever succeeds.
pub proof fn lemma_exclusivity_after_cancel(
    pre: EscrowState,
    post: EscrowState,
    a: Cancel,
    b: Exchange,
    c: Cancel,
)
    requires
        cancel_result(pre, a) is Ok,
        cancel_post(pre, post, a),
        b.escrow_account == a.escrow_account,
        c.escrow_account == a.escrow_account,
    ensures
        exchange_result(post, b) == Err::<(), EscrowError>(EscrowError::RecordNotFound),
        cancel_result(post, c) == Err::<(), EscrowError>(EscrowError::RecordNotFound),
{
    assert(!rec_as_map(post.records@).dom().contains(a.escrow_account));
}

/// Authorization: a cancellation of a live record by any identity other than
/// the recorded initiator is refused as `Unauthorized` — and `cancel`'s own
/// contract then guarantees the record, vault and every balance untouched.
pub proof fn lemma_cancel_requires_initiator(s: EscrowState, a: Cancel, rec: Escrow)
    requires
        find_record(s, a.escrow_account) == Some(rec),
        a.alice_account != rec.alice_key,
    ensures
        cancel_result(s, a) == Err::<(), EscrowError>(EscrowError::Unauthorized),
{
}

} // verus!
