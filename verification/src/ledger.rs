//! The ledger model: balance-holding token accounts keyed by address.
//!
//! Every escrow operation is a sequence of ledger primitives (`create_account`,
//! `transfer`, `set_owner`, `close_account`). Each primitive is verified: its
//! contract pins down the new account map pointwise and states that no
//! asset's total supply changes (transfers move ownership only).

use vstd::prelude::*;

verus! {

/// Who controls an account: a keyed user identity, or the program's derived
/// authority for a seed tag. No private key exists for the latter; it can only
/// be exercised by the escrow logic itself.
#[derive(Clone, Copy, PartialEq, Eq, Structural, Debug)]
pub enum AccountOwner {
    User(u64),
    Program(u8),
}

/// Evidence presented to authorize a debit: the holder's signature (validated
/// by the host before the call reaches this library) or the re-derived program
/// authority for a seed tag.
#[derive(Clone, Copy, PartialEq, Eq, Structural, Debug)]
pub enum AuthProof {
    Signature(u64),
    Derived(u8),
}

/// One ledger entry: a balance of a single asset type (`mint`), held at
/// address `id` under `owner`'s exclusive control.
#[derive(Clone, Copy, PartialEq, Eq, Structural, Debug)]
pub struct TokenAccount {
    pub id: u64,
    pub owner: AccountOwner,
    pub mint: u64,
    pub amount: u64,
}

/// Why a checked transfer was refused. A refused transfer has no effect.
#[derive(Clone, Copy, PartialEq, Eq, Structural, Debug)]
pub enum TransferError {
    SameAccount,
    MissingAccount,
    NotAuthorized,
    MintMismatch,
    InsufficientFunds,
    BalanceOverflow,
}

/// Whether `auth` is valid evidence of control over an account owned by `owner`.
pub open spec fn authorizes(owner: AccountOwner, auth: AuthProof) -> bool {
    match (owner, auth) {
        (AccountOwner::User(k), AuthProof::Signature(s)) => k == s,
        (AccountOwner::Program(t), AuthProof::Derived(d)) => t == d,
        _ => false,
    }
}

/// Exec mirror of `authorizes`.
pub fn check_authorized(owner: AccountOwner, auth: AuthProof) -> (r: bool)
    ensures
        r == authorizes(owner, auth),
{
    match (owner, auth) {
        (AccountOwner::User(k), AuthProof::Signature(s)) => k == s,
        (AccountOwner::Program(t), AuthProof::Derived(d)) => t == d,
        _ => false,
    }
}

pub open spec fn ids_unique(s: Seq<TokenAccount>) -> bool {
    forall|i: int, j: int| 0 <= i < j < s.len() ==> s[i].id != s[j].id
}

/// The account sequence read as a map from address to account.
pub open spec fn as_map(s: Seq<TokenAccount>) -> Map<u64, TokenAccount>
    decreases s.len(),
{
    if s.len() == 0 {
        Map::empty()
    } else {
        as_map(s.drop_last()).insert(s.last().id, s.last())
    }
}

pub open spec fn acct_contrib(a: TokenAccount, mint: u64) -> int {
    if a.mint == mint {
        a.amount as int
    } else {
        0
    }
}

/// Total supply of one asset type across every account of the ledger.
pub open spec fn mint_total(s: Seq<TokenAccount>, mint: u64) -> int
    decreases s.len(),
{
    if s.len() == 0 {
        0
    } else {
        mint_total(s.drop_last(), mint) + acct_contrib(s.last(), mint)
    }
}

pub proof fn lemma_as_map_index(s: Seq<TokenAccount>, i: int)
    requires
        ids_unique(s),
        0 <= i < s.len(),
    ensures
        as_map(s).dom().contains(s[i].id),
        as_map(s)[s[i].id] == s[i],
    decreases s.len(),
{
    if i == s.len() - 1 {
    } else {
        lemma_as_map_index(s.drop_last(), i);
        assert(s.drop_last()[i] == s[i]);
        assert(s.last().id != s[i].id);
    }
}

pub proof fn lemma_as_map_absent(s: Seq<TokenAccount>, id: u64)
    requires
        forall|k: int| 0 <= k < s.len() ==> s[k].id != id,
    ensures
        !as_map(s).dom().contains(id),
    decreases s.len(),
{
    if s.len() > 0 {
        assert(forall|k: int| 0 <= k < s.drop_last().len() ==> s.drop_last()[k].id != id);
        lemma_as_map_absent(s.drop_last(), id);
        assert(s.last().id != id);
    }
}

pub proof fn lemma_as_map_update(s: Seq<TokenAccount>, i: int, v: TokenAccount)
    requires
        ids_unique(s),
        0 <= i < s.len(),
        v.id == s[i].id,
    ensures
        as_map(s.update(i, v)) =~= as_map(s).insert(v.id, v),
        ids_unique(s.update(i, v)),
    decreases s.len(),
{
    let t = s.update(i, v);
    assert(forall|k: int| 0 <= k < s.len() ==> t[k].id == s[k].id);
    if i == s.len() - 1 {
        assert(t.drop_last() =~= s.drop_last());
        assert(t.last() == v);
    } else {
        assert(t.drop_last() =~= s.drop_last().update(i, v));
        lemma_as_map_update(s.drop_last(), i, v);
        assert(t.last() == s.last());
        assert(s.last().id != v.id);
    }
}

pub proof fn lemma_as_map_remove(s: Seq<TokenAccount>, i: int)
    requires
        ids_unique(s),
        0 <= i < s.len(),
    ensures
        as_map(s.remove(i)) =~= as_map(s).remove(s[i].id),
        ids_unique(s.remove(i)),
    decreases s.len(),
{
    let t = s.remove(i);
    assert(forall|k: int| 0 <= k < t.len() ==> t[k] == (if k < i {
        s[k]
    } else {
        s[k + 1]
    }));
    if i == s.len() - 1 {
        assert(t =~= s.drop_last());
        assert(forall|k: int| 0 <= k < s.drop_last().len() ==> s.drop_last()[k].id != s[i].id);
        lemma_as_map_absent(s.drop_last(), s[i].id);
    } else {
        assert(t.drop_last() =~= s.drop_last().remove(i));
        assert(t.last() == s.last());
        lemma_as_map_remove(s.drop_last(), i);
        assert(s.last().id != s[i].id);
        assert(s.drop_last()[i] == s[i]);
    }
}

pub proof fn lemma_mint_total_update(s: Seq<TokenAccount>, i: int, v: TokenAccount, mint: u64)
    requires
        0 <= i < s.len(),
    ensures
        mint_total(s.update(i, v), mint) == mint_total(s, mint) - acct_contrib(s[i], mint)
            + acct_contrib(v, mint),
    decreases s.len(),
{
    let t = s.update(i, v);
    if i == s.len() - 1 {
        assert(t.drop_last() =~= s.drop_last());
        assert(t.last() == v);
    } else {
        assert(t.drop_last() =~= s.drop_last().update(i, v));
        lemma_mint_total_update(s.drop_last(), i, v, mint);
        assert(t.last() == s.last());
        assert(s.drop_last()[i] == s[i]);
    }
}

pub proof fn lemma_mint_total_remove(s: Seq<TokenAccount>, i: int, mint: u64)
    requires
        0 <= i < s.len(),
    ensures
        mint_total(s.remove(i), mint) == mint_total(s, mint) - acct_contrib(s[i], mint),
    decreases s.len(),
{
    let t = s.remove(i);
    if i == s.len() - 1 {
        assert(t =~= s.drop_last());
    } else {
        assert(t.drop_last() =~= s.drop_last().remove(i));
        assert(t.last() == s.last());
        lemma_mint_total_remove(s.drop_last(), i, mint);
        assert(s.drop_last()[i] == s[i]);
    }
}

/// The ledger: the set of live token accounts, addresses unique.
pub struct Ledger {
    pub accounts: Vec<TokenAccount>,
}

impl Ledger {
    pub open spec fn wf(self) -> bool {
        ids_unique(self.accounts@)
    }

    /// The ledger read as a map from address to account.
    pub open spec fn accounts_map(self) -> Map<u64, TokenAccount> {
        as_map(self.accounts@)
    }

    pub open spec fn contains(self, id: u64) -> bool {
        self.accounts_map().dom().contains(id)
    }

    pub open spec fn get(self, id: u64) -> TokenAccount {
        self.accounts_map()[id]
    }

    pub fn new() -> (r: Ledger)
        ensures
            r.wf(),
            r.accounts@ =~= Seq::<TokenAccount>::empty(),
            r.accounts_map() =~= Map::<u64, TokenAccount>::empty(),
    {
        Ledger { accounts: Vec::new() }
    }

    fn index_of(&self, id: u64) -> (r: Option<usize>)
        ensures
            match r {
                Some(i) => i < self.accounts@.len() && self.accounts@[i as int].id == id,
                None => forall|k: int| 0 <= k < self.accounts@.len() ==> self.accounts@[k].id != id,
            },
    {
        let n = self.accounts.len();
        let mut i: usize = 0;
        while i < n
            invariant
                i <= n,
                n == self.accounts@.len(),
                forall|k: int| 0 <= k < i ==> self.accounts@[k].id != id,
            decreases n - i,
        {
            if self.accounts[i].id == id {
                return Some(i);
            }
            i = i + 1;
        }
        None
    }

    /// Read one account.
    pub fn lookup(&self, id: u64) -> (r: Option<TokenAccount>)
        requires
            self.wf(),
        ensures
            r == if self.contains(id) {
                Some(self.get(id))
            } else {
                None::<TokenAccount>
            },
    {
        match self.index_of(id) {
            Some(i) => {
                proof {
                    lemma_as_map_index(self.accounts@, i as int);
                }
                Some(self.accounts[i])
            },
            None => {
                proof {
                    lemma_as_map_absent(self.accounts@, id);
                }
                None
            },
        }
    }

    /// An exact copy of the ledger, used to stage a multi-step operation that
    /// must commit all of its steps or none of them.
    pub fn duplicate(&self) -> (r: Ledger)
        ensures
            r.accounts@ =~= self.accounts@,
    {
        let n = self.accounts.len();
        let mut v: Vec<TokenAccount> = Vec::new();
        let mut i: usize = 0;
        while i < n
            invariant
                i <= n,
                n == self.accounts@.len(),
                v@ =~= self.accounts@.subrange(0, i as int),
            decreases n - i,
        {
            v.push(self.accounts[i]);
            i = i + 1;
        }
        Ledger { accounts: v }
    }

    /// Create a fresh account at an unused address, with its starting balance.
    /// A nonzero starting balance mints new supply of the asset.
    pub fn create_account(&mut self, id: u64, owner: AccountOwner, mint: u64, amount: u64)
        requires
            old(self).wf(),
            !old(self).contains(id),
        ensures
            final(self).wf(),
            final(self).accounts_map() == old(self).accounts_map().insert(
                id,
                (TokenAccount { id, owner, mint, amount }),
            ),
            final(self).accounts@.len() == old(self).accounts@.len() + 1,
            forall|m: u64|
                mint_total(final(self).accounts@, m) == mint_total(old(self).accounts@, m)
                    + acct_contrib((TokenAccount { id, owner, mint, amount }), m),
    {
        let a = TokenAccount { id, owner, mint, amount };
        proof {
            if exists|k: int| 0 <= k < self.accounts@.len() && self.accounts@[k].id == id {
                let k = choose|k: int|
                    0 <= k < self.accounts@.len() && self.accounts@[k].id == id;
                lemma_as_map_index(self.accounts@, k);
            }
        }
        self.accounts.push(a);
        proof {
            let s = self.accounts@;
            assert(s.drop_last() =~= old(self).accounts@);
            assert(forall|i: int, j: int| 0 <= i < j < s.len() ==> s[i].id != s[j].id) by {
                assert(forall|i: int| 0 <= i < s.len() - 1 ==> s[i].id != id);
            }
        }
    }

    /// Move `amount` between two distinct accounts of the same asset, with
    /// valid authority over the source. All preconditions checked by the
    /// caller; the balances change by exactly `amount` and nothing else moves.
    pub fn transfer_exact(&mut self, from: u64, to: u64, amount: u64, auth: AuthProof)
        requires
            old(self).wf(),
            from != to,
            old(self).contains(from),
            old(self).contains(to),
            old(self).get(from).mint == old(self).get(to).mint,
            authorizes(old(self).get(from).owner, auth),
            old(self).get(from).amount >= amount,
            old(self).get(to).amount + amount <= u64::MAX,
        ensures
            final(self).wf(),
            final(self).accounts_map() == old(self).accounts_map().insert(
                from,
                (TokenAccount {
                    id: from,
                    owner: old(self).get(from).owner,
                    mint: old(self).get(from).mint,
                    amount: (old(self).get(from).amount - amount) as u64,
                }),
            ).insert(
                to,
                (TokenAccount {
                    id: to,
                    owner: old(self).get(to).owner,
                    mint: old(self).get(to).mint,
                    amount: (old(self).get(to).amount + amount) as u64,
                }),
            ),
            final(self).accounts@.len() == old(self).accounts@.len(),
            forall|m: u64|
                mint_total(final(self).accounts@, m) == mint_total(old(self).accounts@, m),
    {
        let i = match self.index_of(from) {
            Some(i) => i,
            None => {
                proof {
                    lemma_as_map_absent(self.accounts@, from);
                }
                return ;
            },
        };
        let j = match self.index_of(to) {
            Some(j) => j,
            None => {
                proof {
                    lemma_as_map_absent(self.accounts@, to);
                }
                return ;
            },
        };
        proof {
            lemma_as_map_index(self.accounts@, i as int);
            lemma_as_map_index(self.accounts@, j as int);
        }
        let src = self.accounts[i];
        let dst = self.accounts[j];
        let new_src = TokenAccount { amount: src.amount - amount, ..src };
        let new_dst = TokenAccount { amount: dst.amount + amount, ..dst };
        let ghost s0 = self.accounts@;
        self.accounts.set(i, new_src);
        proof {
            lemma_as_map_update(s0, i as int, new_src);
            lemma_mint_total_update(s0, i as int, new_src, src.mint);
            assert(forall|m: u64| m != src.mint ==> mint_total(s0.update(i as int, new_src), m)
                == mint_total(s0, m)) by {
                assert forall|m: u64| m != src.mint implies mint_total(
                    s0.update(i as int, new_src),
                    m,
                ) == mint_total(s0, m) by {
                    lemma_mint_total_update(s0, i as int, new_src, m);
                }
            }
        }
        let ghost s1 = self.accounts@;
        self.accounts.set(j, new_dst);
        proof {
            assert(s1[j as int] == dst);
            lemma_as_map_update(s1, j as int, new_dst);
            lemma_mint_total_update(s1, j as int, new_dst, dst.mint);
            assert forall|m: u64| m != dst.mint implies mint_total(
                s1.update(j as int, new_dst),
                m,
            ) == mint_total(s1, m) by {
                lemma_mint_total_update(s1, j as int, new_dst, m);
            }
            lemma_as_map_index(s0, i as int);
            lemma_as_map_index(s0, j as int);
            assert(self.accounts_map() =~= old(self).accounts_map().insert(from, new_src).insert(
                to,
                new_dst,
            ));
        }
    }

    /// Change who controls an account, with valid authority from the current
    /// controller. Balances do not move.
    pub fn set_owner(&mut self, id: u64, new_owner: AccountOwner, auth: AuthProof)
        requires
            old(self).wf(),
            old(self).contains(id),
            authorizes(old(self).get(id).owner, auth),
        ensures
            final(self).wf(),
            final(self).accounts_map() == old(self).accounts_map().insert(
                id,
                (TokenAccount {
                    id,
                    owner: new_owner,
                    mint: old(self).get(id).mint,
                    amount: old(self).get(id).amount,
                }),
            ),
            final(self).accounts@.len() == old(self).accounts@.len(),
            forall|m: u64|
                mint_total(final(self).accounts@, m) == mint_total(old(self).accounts@, m),
    {
        let i = match self.index_of(id) {
            Some(i) => i,
            None => {
                proof {
                    lemma_as_map_absent(self.accounts@, id);
                }
                return ;
            },
        };
        proof {
            lemma_as_map_index(self.accounts@, i as int);
        }
        let a = self.accounts[i];
        let b = TokenAccount { owner: new_owner, ..a };
        let ghost s0 = self.accounts@;
        self.accounts.set(i, b);
        proof {
            lemma_as_map_update(s0, i as int, b);
            assert forall|m: u64| mint_total(s0.update(i as int, b), m) == mint_total(s0, m) by {
                lemma_mint_total_update(s0, i as int, b, m);
            }
        }
    }

    /// Remove an emptied account from the ledger, with valid authority from
    /// its controller. Its storage reservation goes back to a recipient the
    /// caller names; balances are untouched (the account holds none).
    pub fn close_account(&mut self, id: u64, auth: AuthProof)
        requires
            old(self).wf(),
            old(self).contains(id),
            old(self).get(id).amount == 0,
            authorizes(old(self).get(id).owner, auth),
        ensures
            final(self).wf(),
            final(self).accounts_map() == old(self).accounts_map().remove(id),
            final(self).accounts@.len() == old(self).accounts@.len() - 1,
            forall|m: u64|
                mint_total(final(self).accounts@, m) == mint_total(old(self).accounts@, m),
    {
        let i = match self.index_of(id) {
            Some(i) => i,
            None => {
                proof {
                    lemma_as_map_absent(self.accounts@, id);
                }
                return ;
            },
        };
        proof {
            lemma_as_map_index(self.accounts@, i as int);
        }
        let ghost s0 = self.accounts@;
        self.accounts.remove(i);
        proof {
            lemma_as_map_remove(s0, i as int);
            assert forall|m: u64| mint_total(s0.remove(i as int), m) == mint_total(s0, m) by {
                lemma_mint_total_remove(s0, i as int, m);
            }
        }
    }

    /// Checked transfer: the ledger-facing form of the atomic move primitive.
    /// Exactly one error is reported for each way the move can be refused, and
    /// a refused move leaves every balance as it was.
    pub fn transfer(&mut self, from: u64, to: u64, amount: u64, auth: AuthProof) -> (r: Result<
        (),
        TransferError,
    >)
        requires
            old(self).wf(),
        ensures
            final(self).wf(),
            r == transfer_check(*old(self), from, to, amount, auth),
            r is Err ==> final(self).accounts@ == old(self).accounts@,
            r is Ok ==> final(self).accounts_map() == old(self).accounts_map().insert(
                from,
                (TokenAccount {
                    id: from,
                    owner: old(self).get(from).owner,
                    mint: old(self).get(from).mint,
                    amount: (old(self).get(from).amount - amount) as u64,
                }),
            ).insert(
                to,
                (TokenAccount {
                    id: to,
                    owner: old(self).get(to).owner,
                    mint: old(self).get(to).mint,
                    amount: (old(self).get(to).amount + amount) as u64,
                }),
            ),
            r is Ok ==> final(self).accounts@.len() == old(self).accounts@.len(),
            forall|m: u64|
                mint_total(final(self).accounts@, m) == mint_total(old(self).accounts@, m),
    {
        if from == to {
            return Err(TransferError::SameAccount);
        }
        let src = match self.lookup(from) {
            Some(a) => a,
            None => {
                return Err(TransferError::MissingAccount);
            },
        };
        let dst = match self.lookup(to) {
            Some(a) => a,
            None => {
                return Err(TransferError::MissingAccount);
            },
        };
        if !check_authorized(src.owner, auth) {
            return Err(TransferError::NotAuthorized);
        }
        if src.mint != dst.mint {
            return Err(TransferError::MintMismatch);
        }
        if src.amount < amount {
            return Err(TransferError::InsufficientFunds);
        }
        match dst.amount.checked_add(amount) {
            None => Err(TransferError::BalanceOverflow),
            Some(_) => {
                self.transfer_exact(from, to, amount, auth);
                Ok(())
            },
        }
    }
}

/// The decision the checked transfer makes, as a single spec-level rule.
pub open spec fn transfer_check(
    l: Ledger,
    from: u64,
    to: u64,
    amount: u64,
    auth: AuthProof,
) -> Result<(), TransferError> {
    if from == to {
        Err(TransferError::SameAccount)
    } else if !l.contains(from) || !l.contains(to) {
        Err(TransferError::MissingAccount)
    } else if !authorizes(l.get(from).owner, auth) {
        Err(TransferError::NotAuthorized)
    } else if l.get(from).mint != l.get(to).mint {
        Err(TransferError::MintMismatch)
    } else if l.get(from).amount < amount {
        Err(TransferError::InsufficientFunds)
    } else if l.get(to).amount + amount > u64::MAX {
        Err(TransferError::BalanceOverflow)
    } else {
        Ok(())
    }
}

} // verus!
