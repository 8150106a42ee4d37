//! The currency ledger: one balance per identity, and the value transfer
//! the rental operation pays through. The registry core never creates or
//! destroys currency; a transfer either moves the full amount or fails with
//! no change.

use vstd::prelude::*;
use crate::errors::ErrorCode;

verus! {

/// One identity's balance, in the ledger's smallest currency unit.
#[derive(Clone, Copy, Debug)]
pub struct BalanceEntry {
    /// The identity that holds the balance.
    pub key: [u8; 32],
    /// What it holds.
    pub lamports: u64,
}

/// The balance of `k` in `s`: the amount of the first entry keyed by `k`,
/// or zero when no entry is.
pub open spec fn bal(s: Seq<BalanceEntry>, k: Seq<u8>) -> u64
    decreases s.len(),
{
    if s.len() == 0 {
        0u64
    } else if s[0].key@ == k {
        s[0].lamports
    } else {
        bal(s.drop_first(), k)
    }
}

/// Well-formedness of the balance store: at most one entry per identity.
pub open spec fn balances_wf(s: Seq<BalanceEntry>) -> bool {
    forall|i: int, j: int|
        0 <= i < s.len() && 0 <= j < s.len() && i != j ==> s[i].key@ != s[j].key@
}

/// The balance of `k` is read off the first entry keyed by `k`.
pub proof fn lemma_bal_first_match(s: Seq<BalanceEntry>, k: Seq<u8>, i: int)
    requires
        0 <= i < s.len(),
        s[i].key@ == k,
        forall|j: int| 0 <= j < i ==> s[j].key@ != k,
    ensures
        bal(s, k) == s[i].lamports,
    decreases i,
{
    if i > 0 {
        assert(s.drop_first()[i - 1] == s[i]);
        assert(forall|j: int| 0 <= j < i - 1 ==> s.drop_first()[j] == s[j + 1]);
        lemma_bal_first_match(s.drop_first(), k, i - 1);
    }
}

/// An identity with no entry holds nothing.
pub proof fn lemma_bal_absent(s: Seq<BalanceEntry>, k: Seq<u8>)
    requires
        forall|j: int| 0 <= j < s.len() ==> s[j].key@ != k,
    ensures
        bal(s, k) == 0,
    decreases s.len(),
{
    if s.len() > 0 {
        assert(forall|j: int| 0 <= j < s.len() - 1 ==> s.drop_first()[j] == s[j + 1]);
        lemma_bal_absent(s.drop_first(), k);
    }
}

/// Replacing the entry at `i` by one with the same key moves only that
/// key's balance.
pub proof fn lemma_bal_update(s: Seq<BalanceEntry>, i: int, e: BalanceEntry)
    requires
        balances_wf(s),
        0 <= i < s.len(),
        e.key@ == s[i].key@,
    ensures
        forall|k: Seq<u8>|
            bal(s.update(i, e), k) == if k == e.key@ { e.lamports } else { bal(s, k) },
        balances_wf(s.update(i, e)),
{
    let t = s.update(i, e);
    assert forall|k: Seq<u8>|
        bal(t, k) == if k == e.key@ { e.lamports } else { bal(s, k) } by {
        if k == e.key@ {
            assert(forall|j: int| 0 <= j < i ==> t[j].key@ != k);
            lemma_bal_first_match(t, k, i);
        } else {
            if exists|m: int| 0 <= m < s.len() && s[m].key@ == k {
                let m = choose|m: int| 0 <= m < s.len() && s[m].key@ == k;
                assert(forall|j: int| 0 <= j < m ==> t[j].key@ != k);
                lemma_bal_first_match(s, k, m);
                lemma_bal_first_match(t, k, m);
            } else {
                assert(forall|j: int| 0 <= j < s.len() ==> s[j].key@ != k);
                assert(forall|j: int| 0 <= j < t.len() ==> t[j].key@ != k);
                lemma_bal_absent(s, k);
                lemma_bal_absent(t, k);
            }
        }
    }
}

/// Appending an entry for an identity with no entry yet gives it that
/// balance and moves no other.
pub proof fn lemma_bal_push(s: Seq<BalanceEntry>, e: BalanceEntry)
    requires
        balances_wf(s),
        forall|j: int| 0 <= j < s.len() ==> s[j].key@ != e.key@,
    ensures
        forall|k: Seq<u8>|
            bal(s.push(e), k) == if k == e.key@ { e.lamports } else { bal(s, k) },
        balances_wf(s.push(e)),
{
    let t = s.push(e);
    assert forall|k: Seq<u8>|
        bal(t, k) == if k == e.key@ { e.lamports } else { bal(s, k) } by {
        if k == e.key@ {
            lemma_bal_first_match(t, k, s.len() as int);
            lemma_bal_absent(s, k);
        } else {
            if exists|m: int| 0 <= m < s.len() && s[m].key@ == k {
                let m = choose|m: int| 0 <= m < s.len() && s[m].key@ == k;
                assert(forall|j: int| 0 <= j < m ==> t[j].key@ != k);
                lemma_bal_first_match(s, k, m);
                lemma_bal_first_match(t, k, m);
            } else {
                assert(forall|j: int| 0 <= j < t.len() ==> t[j].key@ != k);
                lemma_bal_absent(s, k);
                lemma_bal_absent(t, k);
            }
        }
    }
}

/// The currency balances of all identities.
pub struct Bank {
    /// The balance entries; at most one per identity.
    pub accounts: Vec<BalanceEntry>,
}

impl Bank {
    /// At most one entry per identity.
    pub open spec fn wf(self) -> bool {
        balances_wf(self.accounts@)
    }

    /// The balance of identity `k`.
    pub open spec fn spec_balance(self, k: Seq<u8>) -> u64 {
        bal(self.accounts@, k)
    }

    /// A bank in which every identity holds nothing.
    pub fn new() -> (r: Bank)
        ensures
            r.wf(),
            forall|k: Seq<u8>| r.spec_balance(k) == 0,
    {
        let b = Bank { accounts: Vec::new() };
        proof {
            assert forall|k: Seq<u8>| b.spec_balance(k) == 0 by {
                lemma_bal_absent(b.accounts@, k);
            }
        }
        b
    }

    /// The position of the entry for `key`, if one stands in the store.
    fn find_index(&self, key: &[u8; 32]) -> (r: Option<usize>)
        ensures
            match r {
                Some(i) => i < self.accounts@.len() && self.accounts@[i as int].key@ == key@
                    && forall|j: int| 0 <= j < i ==> self.accounts@[j].key@ != key@,
                None => forall|j: int| 0 <= j < self.accounts@.len()
                    ==> self.accounts@[j].key@ != key@,
            },
    {
        let n = self.accounts.len();
        let mut i: usize = 0;
        while i < n
            invariant
                n == self.accounts@.len(),
                i <= n,
                forall|j: int| 0 <= j < i ==> self.accounts@[j].key@ != key@,
            decreases n - i,
        {
            if crate::records::bytes32_eq(&self.accounts[i].key, key) {
                return Some(i);
            }
            i = i + 1;
        }
        None
    }

    /// The balance of identity `key`.
    pub fn balance_of(&self, key: &[u8; 32]) -> (r: u64)
        ensures
            r == self.spec_balance(key@),
    {
        match self.find_index(key) {
            Some(i) => {
                proof {
                    lemma_bal_first_match(self.accounts@, key@, i as int);
                }
                self.accounts[i].lamports
            },
            None => {
                proof {
                    lemma_bal_absent(self.accounts@, key@);
                }
                0
            },
        }
    }

    /// Move `amount` units from `from` to `to`, or fail with no change:
    /// with `InsufficientFunds` when `from` holds less than `amount`, and
    /// with `MathOverflow` when the credit would exceed the representable
    /// range. A transfer to oneself moves nothing but still demands the
    /// funds.
    pub fn transfer(&mut self, from: &[u8; 32], to: &[u8; 32], amount: u64) -> (r: Result<
        (),
        ErrorCode,
    >)
        requires
            old(self).wf(),
        ensures
            final(self).wf(),
            r is Ok <==> old(self).spec_balance(from@) >= amount && (from@ == to@
                || old(self).spec_balance(to@) + amount <= u64::MAX),
            r == Err::<(), ErrorCode>(ErrorCode::InsufficientFunds) <==> old(self).spec_balance(
                from@,
            ) < amount,
            r == Err::<(), ErrorCode>(ErrorCode::MathOverflow) <==> old(self).spec_balance(from@)
                >= amount && from@ != to@ && old(self).spec_balance(to@) + amount > u64::MAX,
            r is Err ==> final(self).accounts@ == old(self).accounts@,
            r is Ok ==> forall|k: Seq<u8>|
                final(self).spec_balance(k) == if from@ == to@ {
                    old(self).spec_balance(k)
                } else if k == from@ {
                    (old(self).spec_balance(from@) - amount) as u64
                } else if k == to@ {
                    (old(self).spec_balance(to@) + amount) as u64
                } else {
                    old(self).spec_balance(k)
                },
    {
        let from_idx = self.find_index(from);
        let from_bal = match from_idx {
            Some(i) => {
                proof {
                    lemma_bal_first_match(self.accounts@, from@, i as int);
                }
                self.accounts[i].lamports
            },
            None => {
                proof {
                    lemma_bal_absent(self.accounts@, from@);
                }
                0
            },
        };
        if from_bal < amount {
            return Err(ErrorCode::InsufficientFunds);
        }
        if crate::records::bytes32_eq(from, to) {
            return Ok(());
        }
        let to_idx = self.find_index(to);
        let to_bal = match to_idx {
            Some(i) => {
                proof {
                    lemma_bal_first_match(self.accounts@, to@, i as int);
                }
                self.accounts[i].lamports
            },
            None => {
                proof {
                    lemma_bal_absent(self.accounts@, to@);
                }
                0
            },
        };
        if to_bal > u64::MAX - amount {
            return Err(ErrorCode::MathOverflow);
        }
        let ghost s0 = self.accounts@;
        // Debit the sender. When it has no entry, `amount` is zero and
        // nothing is owed.
        match from_idx {
            Some(i) => {
                let debited = BalanceEntry { key: self.accounts[i].key, lamports: from_bal - amount };
                proof {
                    lemma_bal_update(self.accounts@, i as int, debited);
                }
                self.accounts.set(i, debited);
            },
            None => {},
        }
        let ghost s1 = self.accounts@;
        // Credit the receiver at its entry, or append one for it.
        match to_idx {
            Some(j) => {
                let credited = BalanceEntry { key: self.accounts[j].key, lamports: to_bal + amount };
                proof {
                    assert(s1[j as int].key@ == to@);
                    assert(forall|m: int| 0 <= m < j ==> s1[m].key@ != to@);
                    lemma_bal_update(s1, j as int, credited);
                }
                self.accounts.set(j, credited);
            },
            None => {
                let credited = BalanceEntry { key: *to, lamports: amount };
                proof {
                    assert(forall|m: int| 0 <= m < s1.len() ==> s1[m].key@ != to@);
                    lemma_bal_push(s1, credited);
                }
                self.accounts.push(credited);
            },
        }
        proof {
            if from_idx is None {
                assert(s1 == s0);
                lemma_bal_absent(s0, from@);
            }
        }
        Ok(())
    }
}

} // verus!
