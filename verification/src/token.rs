//! A minimal asset ledger: the mock stable token the lottery pool moves.
//!
//! Accounts are plain `u64` identifiers. The embedding contract
//! authenticates callers and passes that fact in as a plain value.

use vstd::prelude::*;
use vstd::string::StringExecFns;
use crate::errors::TokenError;

verus! {

/// One account's holding.
#[derive(Clone, Copy, Debug, PartialEq, Eq)]
pub struct AccountBalance {
    /// The holder.
    pub account: u64,
    /// The held amount.
    pub amount: i128,
}

/// Index of an account's record in the ledger, or -1 if it has none.
pub open spec fn account_index(s: Seq<AccountBalance>, account: u64) -> int
    decreases s.len(),
{
    if s.len() == 0 {
        -1
    } else if s[0].account == account {
        0
    } else {
        let rest = account_index(s.subrange(1, s.len() as int), account);
        if rest == -1 {
            -1
        } else {
            rest + 1
        }
    }
}

/// An account's balance: its recorded amount, or 0 without a record.
pub open spec fn balance_of(s: Seq<AccountBalance>, account: u64) -> i128 {
    if account_index(s, account) >= 0 {
        s[account_index(s, account)].amount
    } else {
        0
    }
}

/// `account_index` finds the first occurrence: it is in range, it addresses
/// the account's record, nothing before it is one, and -1 means the account
/// has no record at all.
pub proof fn lemma_account_index(s: Seq<AccountBalance>, account: u64)
    ensures
        -1 <= account_index(s, account) < s.len(),
        account_index(s, account) >= 0 ==> s[account_index(s, account)].account == account,
        forall|k: int| 0 <= k < account_index(s, account) ==> s[k].account != account,
        account_index(s, account) == -1 ==> forall|k: int|
            0 <= k < s.len() ==> s[k].account != account,
    decreases s.len(),
{
    if s.len() == 0 {
    } else if s[0].account == account {
    } else {
        let t = s.subrange(1, s.len() as int);
        lemma_account_index(t, account);
        assert forall|k: int| 0 <= k < account_index(s, account) implies s[k].account
            != account by {
            if k > 0 {
                assert(t[k - 1] == s[k]);
                assert(t[k - 1].account != account);
            }
        };
        if account_index(s, account) == -1 {
            assert forall|k: int| 0 <= k < s.len() implies s[k].account != account by {
                if k > 0 {
                    assert(t[k - 1] == s[k]);
                    assert(t[k - 1].account != account);
                }
            };
        }
    }
}

/// The first occurrence is pinned: a match with no earlier match is the index.
pub proof fn lemma_account_index_is_first(s: Seq<AccountBalance>, account: u64, i: int)
    requires
        0 <= i < s.len(),
        s[i].account == account,
        forall|k: int| 0 <= k < i ==> s[k].account != account,
    ensures
        account_index(s, account) == i,
{
    lemma_account_index(s, account);
    let r = account_index(s, account);
    if r < i {
        assert(s[r].account == account);
    }
    if r > i {
        assert(s[i].account != account);
    }
}

/// Lookup ignores an update that keeps the account of the updated record.
pub proof fn lemma_account_index_update_same_account(
    s: Seq<AccountBalance>,
    j: int,
    b: AccountBalance,
    account: u64,
)
    requires
        0 <= j < s.len(),
        b.account == s[j].account,
    ensures
        account_index(s.update(j, b), account) == account_index(s, account),
{
    let s2 = s.update(j, b);
    lemma_account_index(s, account);
    lemma_account_index(s2, account);
    let r = account_index(s, account);
    if r >= 0 {
        assert(s2[r].account == account);
        assert(forall|k: int| 0 <= k < r ==> s2[k].account != account);
        lemma_account_index_is_first(s2, account, r);
    } else {
        assert(forall|k: int| 0 <= k < s2.len() ==> s2[k].account != account);
        if account_index(s2, account) >= 0 {
            assert(s2[account_index(s2, account)].account == account);
        }
    }
}

/// Lookup is unmoved by appending another account's record, and an appended
/// record is found at the end if the account had none before.
pub proof fn lemma_account_index_push(s: Seq<AccountBalance>, b: AccountBalance, account: u64)
    ensures
        b.account != account && account_index(s, account) >= 0 ==> account_index(
            s.push(b),
            account,
        ) == account_index(s, account),
        b.account != account && account_index(s, account) == -1 ==> account_index(
            s.push(b),
            account,
        ) == -1,
        b.account == account && account_index(s, account) == -1 ==> account_index(
            s.push(b),
            account,
        ) == s.len(),
{
    let s2 = s.push(b);
    lemma_account_index(s, account);
    lemma_account_index(s2, account);
    let r = account_index(s, account);
    if b.account != account {
        if r >= 0 {
            assert(s2[r].account == account);
            assert(forall|k: int| 0 <= k < r ==> s2[k].account != account);
            lemma_account_index_is_first(s2, account, r);
        } else {
            assert(forall|k: int| 0 <= k < s2.len() ==> s2[k].account != account);
            if account_index(s2, account) >= 0 {
                assert(s2[account_index(s2, account)].account == account);
            }
        }
    } else if r == -1 {
        assert(s2[s.len() as int].account == account);
        assert(forall|k: int| 0 <= k < s.len() ==> s2[k].account != account);
        lemma_account_index_is_first(s2, account, s.len() as int);
    }
}

/// The mock token contract's whole persisted state.
pub struct MockUSDC {
    /// Whether `initialize` has run.
    pub initialized: bool,
    /// The minting authority; meaningless before initialization.
    pub admin: u64,
    /// Running total of minted amounts.
    pub total_supply: i128,
    /// One record per account that was ever credited.
    pub balances: Vec<AccountBalance>,
}

impl MockUSDC {
    /// Well-formedness: each account holds at most one record.
    pub open spec fn wf(self) -> bool {
        forall|j: int, k: int|
            0 <= j < k < self.balances@.len() ==> self.balances@[j].account
                != self.balances@[k].account
    }

    /// The balance of `account` in this ledger.
    pub open spec fn spec_balance(self, account: u64) -> i128 {
        balance_of(self.balances@, account)
    }

    /// An empty, uninitialized token.
    pub fn new() -> (r: Self)
        ensures
            r.wf(),
            !r.initialized,
            r.total_supply == 0,
            r.balances@.len() == 0,
    {
        MockUSDC { initialized: false, admin: 0, total_supply: 0, balances: Vec::new() }
    }

    /// Writes an account's balance, creating its record if none exists.
    #[verifier::loop_isolation(false)]
    fn set_balance(&mut self, account: u64, amount: i128)
        requires
            old(self).wf(),
            old(self).balances@.len() < usize::MAX,
        ensures
            final(self).wf(),
            final(self).spec_balance(account) == amount,
            forall|a: u64|
                a != account ==> final(self).spec_balance(a) == old(self).spec_balance(a),
            final(self).initialized == old(self).initialized,
            final(self).admin == old(self).admin,
            final(self).total_supply == old(self).total_supply,
            final(self).balances@.len() <= old(self).balances@.len() + 1,
    {
        let ghost gs = self.balances@;
        let n = self.balances.len();
        let mut i: usize = 0;
        while i < n
            invariant
                i <= n,
                *self == *old(self),
                forall|k: int| 0 <= k < i ==> gs[k].account != account,
            decreases n - i,
        {
            if self.balances[i].account == account {
                proof {
                    lemma_account_index_is_first(gs, account, i as int);
                }
                self.balances[i].amount = amount;
                proof {
                    let b2 = AccountBalance { account, amount };
                    let ns = self.balances@;
                    assert(ns == gs.update(i as int, b2));
                    assert forall|a: u64| a != account implies self.spec_balance(a) == old(
                        self,
                    ).spec_balance(a) by {
                        lemma_account_index_update_same_account(gs, i as int, b2, a);
                        lemma_account_index(gs, a);
                        if account_index(gs, a) >= 0 {
                            assert(ns[account_index(ns, a)] == gs[account_index(gs, a)]);
                        }
                    };
                    lemma_account_index_update_same_account(gs, i as int, b2, account);
                    assert forall|j: int, k: int|
                        0 <= j < k < ns.len() implies ns[j].account != ns[k].account by {
                        assert(gs[j].account != gs[k].account);
                        assert(ns[j].account == gs[j].account);
                        assert(ns[k].account == gs[k].account);
                    };
                }
                return;
            }
            i = i + 1;
        }
        self.balances.push(AccountBalance { account, amount });
        proof {
            let b = AccountBalance { account, amount };
            let ns = self.balances@;
            lemma_account_index(gs, account);
            if account_index(gs, account) >= 0 {
                assert(gs[account_index(gs, account)].account == account);
            }
            lemma_account_index_push(gs, b, account);
            assert(self.spec_balance(account) == amount);
            assert forall|a: u64| a != account implies self.spec_balance(a) == old(
                self,
            ).spec_balance(a) by {
                lemma_account_index_push(gs, b, a);
                lemma_account_index(gs, a);
                if account_index(gs, a) >= 0 {
                    assert(ns[account_index(ns, a)] == gs[account_index(gs, a)]);
                }
            };
            assert forall|j: int, k: int|
                0 <= j < k < ns.len() implies ns[j].account != ns[k].account by {
                if k < gs.len() {
                    assert(ns[j] == gs[j]);
                    assert(ns[k] == gs[k]);
                    assert(gs[j].account != gs[k].account);
                } else {
                    assert(ns[k] == b);
                    assert(ns[j] == gs[j]);
                    assert(gs[j].account != account);
                }
            };
        }
    }

    /// An account's balance; zero for an account never credited.
    #[verifier::loop_isolation(false)]
    pub fn balance(&self, account: u64) -> (r: i128)
        requires
            self.wf(),
        ensures
            r == self.spec_balance(account),
    {
        let ghost gs = self.balances@;
        let n = self.balances.len();
        let mut i: usize = 0;
        while i < n
            invariant
                i <= n,
                forall|k: int| 0 <= k < i ==> gs[k].account != account,
            decreases n - i,
        {
            if self.balances[i].account == account {
                proof {
                    lemma_account_index_is_first(gs, account, i as int);
                }
                return self.balances[i].amount;
            }
            i = i + 1;
        }
        proof {
            lemma_account_index(gs, account);
            if account_index(gs, account) >= 0 {
                assert(gs[account_index(gs, account)].account == account);
            }
        }
        0
    }

    /// Records the minting authority. The caller must prove control of
    /// `admin`; the embedding contract passes that fact in.
    pub fn initialize(&mut self, admin: u64, authorized: bool) -> (r: Result<(), TokenError>)
        requires
            old(self).wf(),
        ensures
            final(self).wf(),
            r is Ok <==> authorized,
            !authorized ==> r == Err::<(), TokenError>(TokenError::Unauthorized) && *final(self)
                == *old(self),
            authorized ==> {
                &&& r == Ok::<(), TokenError>(())
                &&& final(self).initialized
                &&& final(self).admin == admin
                &&& final(self).total_supply == 0
                &&& final(self).balances@ == old(self).balances@
            },
    {
        if !authorized {
            return Err(TokenError::Unauthorized);
        }
        self.admin = admin;
        self.total_supply = 0;
        self.initialized = true;
        Ok(())
    }

    /// Credits freshly minted units to an account. `authorized` says the
    /// caller proved control of the admin account.
    pub fn mint(&mut self, to: u64, amount: i128, authorized: bool) -> (r: Result<(), TokenError>)
        requires
            old(self).wf(),
            old(self).initialized && authorized ==> {
                &&& i128::MIN <= old(self).spec_balance(to) + amount <= i128::MAX
                &&& i128::MIN <= old(self).total_supply + amount <= i128::MAX
                &&& old(self).balances@.len() < usize::MAX
            },
        ensures
            final(self).wf(),
            r is Ok <==> old(self).initialized && authorized,
            !old(self).initialized ==> r == Err::<(), TokenError>(TokenError::NotInitialized)
                && *final(self) == *old(self),
            old(self).initialized && !authorized ==> r == Err::<(), TokenError>(
                TokenError::Unauthorized,
            ) && *final(self) == *old(self),
            old(self).initialized && authorized ==> {
                &&& r == Ok::<(), TokenError>(())
                &&& final(self).spec_balance(to) == old(self).spec_balance(to) + amount
                &&& forall|a: u64|
                    a != to ==> final(self).spec_balance(a) == old(self).spec_balance(a)
                &&& final(self).total_supply == old(self).total_supply + amount
                &&& final(self).initialized && final(self).admin == old(self).admin
            },
    {
        if !self.initialized {
            return Err(TokenError::NotInitialized);
        }
        if !authorized {
            return Err(TokenError::Unauthorized);
        }
        let bal = self.balance(to);
        self.set_balance(to, bal + amount);
        self.total_supply = self.total_supply + amount;
        Ok(())
    }

    /// Moves `amount` from one account to another. `authorized` says the
    /// caller proved control of `from`. The paying account must hold at
    /// least the amount; a transfer to oneself changes nothing.
    pub fn transfer(&mut self, from: u64, to: u64, amount: i128, authorized: bool) -> (r: Result<
        (),
        TokenError,
    >)
        requires
            old(self).wf(),
            authorized && old(self).spec_balance(from) >= amount ==> {
                &&& old(self).spec_balance(from) - amount <= i128::MAX
                &&& from != to ==> i128::MIN <= old(self).spec_balance(to) + amount <= i128::MAX
                &&& old(self).balances@.len() + 2 < usize::MAX
            },
        ensures
            final(self).wf(),
            r is Ok <==> authorized && old(self).spec_balance(from) >= amount,
            !authorized ==> r == Err::<(), TokenError>(TokenError::Unauthorized) && *final(self)
                == *old(self),
            authorized && old(self).spec_balance(from) < amount ==> r == Err::<(), TokenError>(
                TokenError::InsufficientBalance,
            ) && *final(self) == *old(self),
            authorized && old(self).spec_balance(from) >= amount ==> {
                &&& r == Ok::<(), TokenError>(())
                &&& from != to ==> {
                    &&& final(self).spec_balance(from) == old(self).spec_balance(from) - amount
                    &&& final(self).spec_balance(to) == old(self).spec_balance(to) + amount
                }
                &&& from == to ==> final(self).spec_balance(from) == old(self).spec_balance(from)
                &&& forall|a: u64|
                    a != from && a != to ==> final(self).spec_balance(a) == old(
                        self,
                    ).spec_balance(a)
                &&& final(self).total_supply == old(self).total_supply
                &&& final(self).initialized == old(self).initialized
                &&& final(self).admin == old(self).admin
            },
    {
        if !authorized {
            return Err(TokenError::Unauthorized);
        }
        let from_balance = self.balance(from);
        if from_balance < amount {
            return Err(TokenError::InsufficientBalance);
        }
        self.set_balance(from, from_balance - amount);
        let to_balance = self.balance(to);
        self.set_balance(to, to_balance + amount);
        Ok(())
    }

    /// The token's fixed-point precision.
    pub fn decimals(&self) -> (r: u32)
        ensures
            r == 7,
    {
        7
    }

    /// The token's display name.
    pub fn name(&self) -> (r: String)
        ensures
            r@ == "Mock USDC"@,
    {
        String::from_str("Mock USDC")
    }

    /// The token's ticker symbol.
    pub fn symbol(&self) -> (r: String)
        ensures
            r@ == "USDC"@,
    {
        String::from_str("USDC")
    }
}

} // verus!
