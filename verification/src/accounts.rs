//! Per-user records of the farming pool and the ordered whitelist.

use vstd::prelude::*;
use crate::common::Address;

verus! {

/// A time-locked position.
#[derive(Clone, Copy, Debug, PartialEq, Eq, Structural)]
pub struct Position {
    pub amount: i128,
    /// Ledger of the first lock.
    pub lock_ledger: u32,
    /// Ledger from which the position may be unlocked.
    pub unlock_ledger: u32,
    /// Ledger up to which credits have been folded into `total_credits`.
    pub checkpoint_ledger: u32,
    pub total_credits: i128,
    /// Credit rate in force since `checkpoint_ledger`.
    pub credit_rate: i128,
}

/// A flexible (boostable) stake.
#[derive(Clone, Copy, Debug, PartialEq, Eq, Structural)]
pub struct UserStake {
    pub amount: i128,
    /// Ledger of the last checkpoint.
    pub start_ledger: u32,
    pub credits_banked: i128,
    /// Credit rate snapshotted at the last checkpoint.
    pub credit_rate: i128,
    /// Global multiplier snapshotted at the last checkpoint.
    pub multiplier: u32,
}

/// Credits kept after a position or stake was closed, by staking system.
#[derive(Clone, Copy, Debug, PartialEq, Eq, Structural)]
pub struct BankedCreditTotals {
    pub position_credits: i128,
    pub stake_credits: i128,
}

/// A user's boost as seen through `get_boost_config`.
#[derive(Clone, Copy, Debug, PartialEq, Eq, Structural)]
pub struct BoostConfig {
    pub multiplier: u32,
    pub allocation_pct: u32,
}

/// Everything the pool keeps about one user. An address the pool never saw
/// has the empty account.
#[derive(Clone, Copy, Debug, PartialEq, Eq, Structural)]
pub struct Account {
    pub position: Option<Position>,
    pub stake: Option<UserStake>,
    /// The boost allocation, once one was set.
    pub boost: Option<u32>,
    pub banked: Option<BankedCreditTotals>,
    /// Lifetime credits banked for the user.
    pub earned: i128,
}

/// The account of a user the pool never saw.
pub open spec fn empty_account() -> Account {
    Account { position: None, stake: None, boost: None, banked: None, earned: 0 }
}

impl Account {
    /// The account of a user the pool never saw.
    pub fn empty() -> (r: Account)
        ensures
            r == empty_account(),
    {
        Account { position: None, stake: None, boost: None, banked: None, earned: 0 }
    }

    /// Whether the user holds a position or a stake.
    pub open spec fn is_staked(&self) -> bool {
        self.position is Some || self.stake is Some
    }
}

/// The account of `a` in `entries`: the last entry for `a`, or the empty
/// account.
pub open spec fn lookup(entries: Seq<(Address, Account)>, a: Address) -> Account
    decreases entries.len(),
{
    if entries.len() == 0 {
        empty_account()
    } else if entries.last().0 == a {
        entries.last().1
    } else {
        lookup(entries.drop_last(), a)
    }
}

proof fn lemma_lookup_push(entries: Seq<(Address, Account)>, a: Address, v: Account, b: Address)
    ensures
        lookup(entries.push((a, v)), b) == if b == a {
            v
        } else {
            lookup(entries, b)
        },
{
    assert(entries.push((a, v)).drop_last() =~= entries);
}

proof fn lemma_lookup_prefix(entries: Seq<(Address, Account)>, k: int, a: Address)
    requires
        0 <= k <= entries.len(),
        forall|j: int| k <= j < entries.len() ==> entries[j].0 != a,
    ensures
        lookup(entries, a) == lookup(entries.take(k), a),
    decreases entries.len() - k,
{
    if k < entries.len() {
        assert(entries.drop_last().take(k) =~= entries.take(k));
        lemma_lookup_prefix(entries.drop_last(), k, a);
    } else {
        assert(entries.take(k) =~= entries);
    }
}

proof fn lemma_lookup_update(entries: Seq<(Address, Account)>, i: int, a: Address, v: Account, b: Address)
    requires
        0 <= i < entries.len(),
        entries[i].0 == a,
        forall|j: int| i < j < entries.len() ==> entries[j].0 != a,
    ensures
        lookup(entries.update(i, (a, v)), b) == if b == a {
            v
        } else {
            lookup(entries, b)
        },
    decreases entries.len(),
{
    let u = entries.update(i, (a, v));
    if i == entries.len() - 1 {
        assert(u.drop_last() =~= entries.drop_last());
    } else {
        assert(u.drop_last() =~= entries.drop_last().update(i, (a, v)));
        lemma_lookup_update(entries.drop_last(), i, a, v, b);
    }
}

/// The locked amount of an account (zero without a position).
pub open spec fn locked_of(acct: Account) -> int {
    match acct.position {
        Some(p) => p.amount as int,
        None => 0,
    }
}

/// The staked amount of an account (zero without a stake).
pub open spec fn staked_of(acct: Account) -> int {
    match acct.stake {
        Some(s) => s.amount as int,
        None => 0,
    }
}

/// The sum of `f` over the accounts of `entries`.
pub open spec fn sum_of(entries: Seq<(Address, Account)>, f: spec_fn(Account) -> int) -> int
    decreases entries.len(),
{
    if entries.len() == 0 {
        0
    } else {
        sum_of(entries.drop_last(), f) + f(entries.last().1)
    }
}

proof fn lemma_sum_update(entries: Seq<(Address, Account)>, f: spec_fn(Account) -> int, i: int, x: (Address, Account))
    requires
        0 <= i < entries.len(),
    ensures
        sum_of(entries.update(i, x), f) == sum_of(entries, f) - f(entries[i].1) + f(x.1),
    decreases entries.len(),
{
    let u = entries.update(i, x);
    if i == entries.len() - 1 {
        assert(u.drop_last() =~= entries.drop_last());
    } else {
        assert(u.drop_last() =~= entries.drop_last().update(i, x));
        lemma_sum_update(entries.drop_last(), f, i, x);
    }
}

proof fn lemma_sum_push(entries: Seq<(Address, Account)>, f: spec_fn(Account) -> int, x: (Address, Account))
    ensures
        sum_of(entries.push(x), f) == sum_of(entries, f) + f(x.1),
{
    assert(entries.push(x).drop_last() =~= entries);
}

/// Whether no address has two entries.
pub open spec fn distinct_keys(entries: Seq<(Address, Account)>) -> bool {
    forall|i: int, j: int| 0 <= i < j < entries.len() ==> entries[i].0 != entries[j].0
}

/// The per-user records, as an association list.
#[derive(Clone, Debug)]
pub struct Accounts {
    pub entries: Vec<(Address, Account)>,
}

impl Accounts {
    /// The account of `a`.
    pub open spec fn get(&self, a: Address) -> Account {
        lookup(self.entries@, a)
    }

    /// Whether each user has at most one entry.
    pub open spec fn wf(&self) -> bool {
        distinct_keys(self.entries@)
    }

    /// The sum of all locked amounts.
    pub open spec fn sum_locked(&self) -> int {
        sum_of(self.entries@, |acct: Account| locked_of(acct))
    }

    /// The sum of all staked amounts.
    pub open spec fn sum_staked(&self) -> int {
        sum_of(self.entries@, |acct: Account| staked_of(acct))
    }

    /// No user has a record yet.
    pub fn new() -> (r: Accounts)
        ensures
            forall|a: Address| r.get(a) == empty_account(),
            r.wf(),
            r.entries@.len() == 0,
            r.sum_locked() == 0,
            r.sum_staked() == 0,
    {
        Accounts { entries: Vec::new() }
    }

    /// The account of `a`.
    pub fn account(&self, a: &Address) -> (r: Account)
        ensures
            r == self.get(*a),
    {
        let n: usize = self.entries.len();
        let mut i: usize = n;
        while i > 0
            invariant
                i <= n == self.entries.len(),
                forall|j: int| i <= j < n ==> self.entries@[j].0 != *a,
            decreases i,
        {
            let e = &self.entries[i - 1];
            if e.0 == *a {
                proof {
                    lemma_lookup_prefix(self.entries@, i as int, *a);
                    assert(self.entries@.take(i as int).drop_last() =~= self.entries@.take(i - 1));
                }
                return e.1;
            }
            i = i - 1;
        }
        proof {
            lemma_lookup_prefix(self.entries@, 0, *a);
        }
        Account::empty()
    }

    /// Make `v` the account of `a`.
    pub fn set(&mut self, a: Address, v: Account)
        requires
            old(self).wf(),
        ensures
            final(self).wf(),
            forall|b: Address| #[trigger] final(self).get(b) == if b == a {
                v
            } else {
                old(self).get(b)
            },
            final(self).sum_locked() == old(self).sum_locked() - locked_of(old(self).get(a)) + locked_of(v),
            final(self).sum_staked() == old(self).sum_staked() - staked_of(old(self).get(a)) + staked_of(v),
    {
        let n: usize = self.entries.len();
        let mut i: usize = n;
        while i > 0
            invariant
                i <= n == self.entries.len(),
                self.entries@ == old(self).entries@,
                distinct_keys(self.entries@),
                forall|j: int| i <= j < n ==> self.entries@[j].0 != a,
            decreases i,
        {
            if self.entries[i - 1].0 == a {
                let ghost before = self.entries@;
                proof {
                    lemma_lookup_prefix(before, i as int, a);
                    assert(before.take(i as int).drop_last() =~= before.take(i - 1));
                    assert(lookup(before, a) == before[i - 1].1);
                    lemma_sum_update(before, |acct: Account| locked_of(acct), i - 1, (a, v));
                    lemma_sum_update(before, |acct: Account| staked_of(acct), i - 1, (a, v));
                }
                self.entries.set(i - 1, (a, v));
                proof {
                    assert forall|j: int| 0 <= j < n implies #[trigger] self.entries@[j].0
                        == before[j].0 by {}
                    assert forall|b: Address| #[trigger] lookup(self.entries@, b) == if b == a {
                        v
                    } else {
                        lookup(before, b)
                    } by {
                        if b == a {
                            lemma_lookup_prefix(self.entries@, i as int, a);
                            assert(self.entries@.take(i as int).last() == (a, v));
                        } else {
                            lemma_lookup_update(before, i - 1, a, v, b);
                        }
                    }
                }
                return;
            }
            i = i - 1;
        }
        let ghost before = self.entries@;
        proof {
            lemma_lookup_prefix(before, 0, a);
            assert(lookup(before, a) == empty_account());
            lemma_sum_push(before, |acct: Account| locked_of(acct), (a, v));
            lemma_sum_push(before, |acct: Account| staked_of(acct), (a, v));
        }
        self.entries.push((a, v));
        proof {
            assert forall|j: int| 0 <= j < n implies #[trigger] self.entries@[j] == before[j] by {}
            assert(self.entries@[n as int].0 == a);
            assert forall|b: Address| #[trigger] lookup(self.entries@, b) == if b == a {
                v
            } else {
                lookup(before, b)
            } by {
                lemma_lookup_push(before, a, v, b);
            }
        }
    }
}

/// The whitelist after adding `u`: unchanged if present, else `u` appended.
pub open spec fn list_add(list: Seq<Address>, u: Address) -> Seq<Address> {
    if list.contains(u) {
        list
    } else {
        list.push(u)
    }
}

/// The whitelist without any occurrence of `u`, order kept.
pub open spec fn list_remove(list: Seq<Address>, u: Address) -> Seq<Address>
    decreases list.len(),
{
    if list.len() == 0 {
        list
    } else if list.last() == u {
        list_remove(list.drop_last(), u)
    } else {
        list_remove(list.drop_last(), u).push(list.last())
    }
}

/// The whitelist after adding each of `users` in turn.
pub open spec fn list_add_all(list: Seq<Address>, users: Seq<Address>) -> Seq<Address>
    decreases users.len(),
{
    if users.len() == 0 {
        list
    } else {
        list_add(list_add_all(list, users.drop_last()), users.last())
    }
}

/// The whitelist after removing each of `users` in turn.
pub open spec fn list_remove_all(list: Seq<Address>, users: Seq<Address>) -> Seq<Address>
    decreases users.len(),
{
    if users.len() == 0 {
        list
    } else {
        list_remove(list_remove_all(list, users.drop_last()), users.last())
    }
}

/// Whether `list` holds no address twice.
pub open spec fn no_duplicates(list: Seq<Address>) -> bool {
    forall|i: int, j: int| 0 <= i < j < list.len() ==> list[i] != list[j]
}

/// Removing keeps every other address and drops `u`.
pub proof fn lemma_list_remove(list: Seq<Address>, u: Address)
    ensures
        !list_remove(list, u).contains(u),
        forall|x: Address| x != u ==> (list_remove(list, u).contains(x) <==> list.contains(x)),
        list_remove(list, u).len() <= list.len(),
        no_duplicates(list) ==> no_duplicates(list_remove(list, u)),
        !list.contains(u) ==> list_remove(list, u) == list,
    decreases list.len(),
{
    if list.len() > 0 {
        let d = list.drop_last();
        lemma_list_remove(d, u);
        assert forall|x: Address| list.contains(x) <==> (d.contains(x) || x == list.last()) by {
            if list.contains(x) {
                let k = choose|k: int| 0 <= k < list.len() && list[k] == x;
                if k < list.len() - 1 {
                    assert(d[k] == x);
                }
            }
            if d.contains(x) {
                let k = choose|k: int| 0 <= k < d.len() && d[k] == x;
                assert(list[k] == x);
            }
            if x == list.last() {
                assert(list[list.len() - 1] == x);
            }
        }
        let r = list_remove(d, u);
        if list.last() != u {
            assert forall|x: Address| r.push(list.last()).contains(x) <==> (r.contains(x) || x
                == list.last()) by {
                if r.push(list.last()).contains(x) {
                    let k = choose|k: int| 0 <= k < r.len() + 1 && r.push(list.last())[k] == x;
                    if k < r.len() {
                        assert(r[k] == x);
                    }
                }
                if r.contains(x) {
                    let k = choose|k: int| 0 <= k < r.len() && r[k] == x;
                    assert(r.push(list.last())[k] == x);
                }
                if x == list.last() {
                    assert(r.push(list.last())[r.len() as int] == x);
                }
            }
            if no_duplicates(list) {
                assert(no_duplicates(d));
                assert(!d.contains(list.last())) by {
                    if d.contains(list.last()) {
                        let k = choose|k: int| 0 <= k < d.len() && d[k] == list.last();
                        assert(list[k] == list[list.len() - 1]);
                    }
                }
            }
        }
        if !list.contains(u) {
            assert(!d.contains(u));
            assert(list =~= d.push(list.last()));
        }
    }
}

/// Adding keeps every address, adds `u`, and never duplicates.
pub proof fn lemma_list_add(list: Seq<Address>, u: Address)
    ensures
        list_add(list, u).contains(u),
        forall|x: Address| x != u ==> (list_add(list, u).contains(x) <==> list.contains(x)),
        no_duplicates(list) ==> no_duplicates(list_add(list, u)),
{
    if !list.contains(u) {
        let r = list.push(u);
        assert(r[list.len() as int] == u);
        assert forall|x: Address| x != u implies (r.contains(x) <==> list.contains(x)) by {
            if r.contains(x) {
                let k = choose|k: int| 0 <= k < r.len() && r[k] == x;
                assert(list[k] == x);
            }
            if list.contains(x) {
                let k = choose|k: int| 0 <= k < list.len() && list[k] == x;
                assert(r[k] == x);
            }
        }
    }
}

/// Whether `u` is in `list`.
pub fn list_contains(list: &Vec<Address>, u: &Address) -> (r: bool)
    ensures
        r == list@.contains(*u),
{
    let mut i: usize = 0;
    while i < list.len()
        invariant
            i <= list.len(),
            forall|j: int| 0 <= j < i ==> list@[j] != *u,
        decreases list.len() - i,
    {
        if list[i] == *u {
            return true;
        }
        i = i + 1;
    }
    false
}

/// `list` without `u`.
pub fn list_without(list: &Vec<Address>, u: &Address) -> (r: Vec<Address>)
    ensures
        r@ == list_remove(list@, *u),
{
    let mut out: Vec<Address> = Vec::new();
    let mut i: usize = 0;
    while i < list.len()
        invariant
            i <= list.len(),
            out@ == list_remove(list@.take(i as int), *u),
        decreases list.len() - i,
    {
        assert(list@.take(i + 1).drop_last() =~= list@.take(i as int));
        if list[i] != *u {
            out.push(list[i]);
        }
        i = i + 1;
    }
    assert(list@.take(list.len() as int) =~= list@);
    out
}

} // verus!
