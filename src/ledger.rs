use vstd::prelude::*;

use crate::account::AccountId;

verus! {

/// Sum of the balances recorded in `m` (zero for an infinite domain, which a
/// ledger never has).
pub open spec fn map_total(m: Map<AccountId, u128>) -> nat
    decreases m.dom().len() via map_total_decreases
{
    if m.dom().finite() && m.dom().len() > 0 {
        let k = m.dom().choose();
        (m[k] as nat) + map_total(m.remove(k))
    } else {
        0
    }
}

#[via_fn]
proof fn map_total_decreases(m: Map<AccountId, u128>) {
    if m.dom().finite() && m.dom().len() > 0 {
        let k = m.dom().choose();
        assert(m.remove(k).dom() =~= m.dom().remove(k));
    }
}

/// Balance recorded for `p` in `m`, zero where `p` has no entry.
pub open spec fn balance_in(m: Map<AccountId, u128>, p: AccountId) -> nat {
    if m.dom().contains(p) {
        m[p] as nat
    } else {
        0
    }
}

/// Taking any one entry out of the sum leaves the sum of the others.
pub proof fn lemma_total_remove(m: Map<AccountId, u128>, k: AccountId)
    requires
        m.dom().finite(),
        m.dom().contains(k),
    ensures
        map_total(m) == (m[k] as nat) + map_total(m.remove(k)),
    decreases m.dom().len(),
{
    let j = m.dom().choose();
    if j != k {
        lemma_total_remove(m.remove(j), k);
        lemma_total_remove(m.remove(k), j);
        assert(m.remove(j).remove(k) =~= m.remove(k).remove(j));
    }
}

/// Setting the entry of `k` to `v` changes the sum by the difference.
pub proof fn lemma_total_insert(m: Map<AccountId, u128>, k: AccountId, v: u128)
    requires
        m.dom().finite(),
    ensures
        map_total(m.insert(k, v)) + balance_in(m, k) == map_total(m) + v,
{
    let n = m.insert(k, v);
    lemma_total_remove(n, k);
    if m.dom().contains(k) {
        lemma_total_remove(m, k);
        assert(n.remove(k) =~= m.remove(k));
    } else {
        assert(n.remove(k) =~= m);
    }
}

/// No single balance exceeds the sum of all balances.
pub proof fn lemma_balance_le_total(m: Map<AccountId, u128>, k: AccountId)
    requires
        m.dom().finite(),
    ensures
        balance_in(m, k) <= map_total(m),
{
    if m.dom().contains(k) {
        lemma_total_remove(m, k);
    }
}

/// The one way an update of a balance can fail: the new balance does not fit
/// in an amount.
#[derive(Debug, Clone, Copy, PartialEq, Eq, Structural)]
pub enum AmountError {
    Overflow,
}

/// The withdrawable balances of all participants.
///
/// Entries are created on the first credit and are never removed: a balance
/// that was paid out stays in the ledger with the value zero.
pub struct Ledger {
    entries: Vec<(AccountId, u128)>,
    model: Ghost<Map<AccountId, u128>>,
}

impl View for Ledger {
    type V = Map<AccountId, u128>;

    closed spec fn view(&self) -> Map<AccountId, u128> {
        self.model@
    }
}

impl Ledger {
    /// The entries are keyed uniquely and agree with the ledger's view.
    pub closed spec fn wf(&self) -> bool {
        &&& self.model@.dom().finite()
        &&& forall|i: int, j: int|
            0 <= i < j < self.entries@.len() ==> self.entries@[i].0 != self.entries@[j].0
        &&& forall|i: int|
            0 <= i < self.entries@.len() ==> #[trigger] self.model@.contains_key(
                self.entries@[i].0,
            ) && self.model@[self.entries@[i].0] == self.entries@[i].1
        &&& forall|k: AccountId|
            #[trigger] self.model@.contains_key(k) ==> exists|i: int|
                0 <= i < self.entries@.len() && self.entries@[i].0 == k
        &&& self.model@.dom().len() == self.entries@.len()
    }

    /// Balance of `p`, zero where `p` has no entry.
    pub open spec fn balance(&self, p: AccountId) -> nat {
        balance_in(self@, p)
    }

    /// Sum of all balances.
    pub open spec fn total(&self) -> nat {
        map_total(self@)
    }

    /// An empty ledger.
    pub fn new() -> (r: Ledger)
        ensures
            r.wf(),
            r@ == Map::<AccountId, u128>::empty(),
    {
        Ledger { entries: Vec::new(), model: Ghost(Map::empty()) }
    }

    /// Number of participants that have an entry.
    pub fn len(&self) -> (r: usize)
        requires
            self.wf(),
        ensures
            r == self@.dom().len(),
    {
        self.entries.len()
    }

    /// Position of the entry of `p`, if there is one.
    fn find(&self, p: &AccountId) -> (r: Option<usize>)
        requires
            self.wf(),
        ensures
            match r {
                Some(i) => i < self.entries@.len() && self.entries@[i as int].0 == *p,
                None => !self@.contains_key(*p),
            },
    {
        let mut i: usize = 0;
        while i < self.entries.len()
            invariant
                self.wf(),
                i <= self.entries@.len(),
                forall|j: int| 0 <= j < i ==> self.entries@[j].0 != *p,
            decreases self.entries@.len() - i,
        {
            if self.entries[i].0 == *p {
                return Some(i);
            }
            i = i + 1;
        }
        None
    }

    /// Balance of `p`; zero where `p` has never been credited.
    pub fn balance_of(&self, p: &AccountId) -> (r: u128)
        requires
            self.wf(),
        ensures
            r == self.balance(*p),
    {
        match self.find(p) {
            Some(i) => self.entries[i].1,
            None => 0,
        }
    }

    /// Records `v` as the balance of `p`, creating the entry where there is none.
    fn set(&mut self, p: &AccountId, v: u128)
        requires
            old(self).wf(),
        ensures
            final(self).wf(),
            final(self)@ == old(self)@.insert(*p, v),
    {
        match self.find(p) {
            Some(i) => {
                self.entries.set(i, (*p, v));
                proof {
                    self.model@ = self.model@.insert(*p, v);
                    assert(self.model@.dom() =~= old(self).model@.dom());
                    assert forall|k: AccountId| #[trigger]
                        self.model@.contains_key(k) implies exists|j: int|
                        0 <= j < self.entries@.len() && self.entries@[j].0 == k by {
                        if k == *p {
                            assert(self.entries@[i as int].0 == k);
                        } else {
                            assert(old(self).model@.contains_key(k));
                            let j = choose|j: int|
                                0 <= j < old(self).entries@.len() && old(
                                    self,
                                ).entries@[j].0 == k;
                            assert(self.entries@[j].0 == k);
                        }
                    }
                }
            },
            None => {
                self.entries.push((*p, v));
                proof {
                    self.model@ = self.model@.insert(*p, v);
                    let n = self.entries@.len() - 1;
                    assert(self.entries@[n].0 == *p);
                    assert forall|j: int| 0 <= j < n implies self.entries@[j].0 != *p by {
                        assert(old(self).model@.contains_key(old(self).entries@[j].0));
                    }
                    assert(self.model@.dom() =~= old(self).model@.dom().insert(*p));
                    assert forall|k: AccountId| #[trigger]
                        self.model@.contains_key(k) implies exists|i: int|
                        0 <= i < self.entries@.len() && self.entries@[i].0 == k by {
                        if k != *p {
                            assert(old(self).model@.contains_key(k));
                            let i = choose|i: int|
                                0 <= i < old(self).entries@.len() && old(
                                    self,
                                ).entries@[i].0 == k;
                            assert(self.entries@[i].0 == k);
                        }
                    }
                }
            },
        }
    }

    /// Adds `amount` to the balance of `p`, creating the entry at zero first
    /// where there is none. Fails, changing nothing, where the new balance
    /// would not fit in an amount.
    pub fn credit(&mut self, p: &AccountId, amount: u128) -> (r: Result<(), AmountError>)
        requires
            old(self).wf(),
        ensures
            final(self).wf(),
            r is Ok <==> old(self).balance(*p) + amount <= u128::MAX,
            r is Ok ==> final(self)@ == old(self)@.insert(
                *p,
                (old(self).balance(*p) + amount) as u128,
            ),
            r is Ok ==> final(self).total() == old(self).total() + amount,
            r is Err ==> final(self)@ == old(self)@,
    {
        let cur = self.balance_of(p);
        match cur.checked_add(amount) {
            Some(v) => {
                proof {
                    lemma_total_insert(self@, *p, v);
                }
                self.set(p, v);
                Ok(())
            },
            None => Err(AmountError::Overflow),
        }
    }

    /// Sets the balance of `p` to zero and returns the balance it had. A
    /// participant without an entry gets none.
    pub fn zero(&mut self, p: &AccountId) -> (r: u128)
        requires
            old(self).wf(),
        ensures
            final(self).wf(),
            r == old(self).balance(*p),
            final(self)@ == (if old(self)@.contains_key(*p) {
                old(self)@.insert(*p, 0)
            } else {
                old(self)@
            }),
            final(self).total() + r == old(self).total(),
    {
        match self.find(p) {
            Some(i) => {
                let prior = self.entries[i].1;
                proof {
                    lemma_total_insert(self@, *p, 0);
                }
                self.set(p, 0);
                prior
            },
            None => 0,
        }
    }

    /// Adds back to the balance of `p` an amount that `zero` took out and that
    /// could not be paid out after all.
    pub fn restore(&mut self, p: &AccountId, amount: u128)
        requires
            old(self).wf(),
            old(self).balance(*p) + amount <= u128::MAX,
        ensures
            final(self).wf(),
            final(self)@ == old(self)@.insert(*p, (old(self).balance(*p) + amount) as u128),
            final(self).total() == old(self).total() + amount,
    {
        let v = self.balance_of(p) + amount;
        proof {
            lemma_total_insert(self@, *p, v);
        }
        self.set(p, v);
    }
}

} // verus!
