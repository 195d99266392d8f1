//! The factory: a registry of farming pools it deployed, with paging,
//! sorted and filtered listings, admin rotation, per-pool upgrades and an
//! incrementally maintained total value locked.
//!
//! Deploying a pool, querying a pool and invoking a pool's upgrade are done
//! by the host; their replies are passed in as arguments.

use vstd::prelude::*;
use crate::common::{Address, WasmHash, Fault, Receipt, Trap, fits_i128, i128_max, i128_min, single};

verus! {

/// Ledgers per day at the network's target of about five seconds a ledger.
pub const LEDGERS_PER_DAY: u128 = 17280u128;

/// The smallest minimum stake a pool may be created with.
pub const MIN_STAKE_AMOUNT: i128 = 1000000i128;

/// The shortest minimum lock period a pool may be created with.
pub const MIN_LOCK_PERIOD: u32 = 1u32;

/// The most pool IDs one call looks at.
pub const MAX_POOL_SCAN_PER_CALL: u32 = 50u32;

/// The most records one page returns.
pub const MAX_PAGE: u32 = 20u32;

/// Errors returned by the factory (numeric codes by `code`).
#[derive(Clone, Copy, Debug, PartialEq, Eq, Structural)]
pub enum FactoryError {
    AlreadyInitialized,
    PoolNotFound,
    Unauthorized,
    NotInitialized,
    InvalidCreditRate,
    MinLockPeriodOutOfRange,
    InvalidGlobalMultiplier,
    PoolCountOverflow,
    PoolAdminMismatch,
    PoolUpgradeFailed,
    InvalidAsset,
    InvalidMinStakeAmount,
    PoolCreationPaused,
    InvalidWasmHash,
    MinLockPeriodTooShort,
    InvalidAdmin,
    PoolQueryFailed,
}

impl FactoryError {
    /// The stable on-chain code of the error.
    pub fn code(&self) -> (r: u32)
        ensures
            *self == FactoryError::AlreadyInitialized ==> r == 1,
            *self == FactoryError::PoolNotFound ==> r == 2,
            *self == FactoryError::Unauthorized ==> r == 3,
            *self == FactoryError::NotInitialized ==> r == 4,
            *self == FactoryError::InvalidCreditRate ==> r == 5,
            *self == FactoryError::MinLockPeriodOutOfRange ==> r == 6,
            *self == FactoryError::InvalidGlobalMultiplier ==> r == 7,
            *self == FactoryError::PoolCountOverflow ==> r == 8,
            *self == FactoryError::PoolAdminMismatch ==> r == 9,
            *self == FactoryError::PoolUpgradeFailed ==> r == 10,
            *self == FactoryError::InvalidAsset ==> r == 11,
            *self == FactoryError::InvalidMinStakeAmount ==> r == 12,
            *self == FactoryError::PoolCreationPaused ==> r == 13,
            *self == FactoryError::InvalidWasmHash ==> r == 14,
            *self == FactoryError::MinLockPeriodTooShort ==> r == 15,
            *self == FactoryError::InvalidAdmin ==> r == 16,
            *self == FactoryError::PoolQueryFailed ==> r == 17,
    {
        match self {
            FactoryError::AlreadyInitialized => 1,
            FactoryError::PoolNotFound => 2,
            FactoryError::Unauthorized => 3,
            FactoryError::NotInitialized => 4,
            FactoryError::InvalidCreditRate => 5,
            FactoryError::MinLockPeriodOutOfRange => 6,
            FactoryError::InvalidGlobalMultiplier => 7,
            FactoryError::PoolCountOverflow => 8,
            FactoryError::PoolAdminMismatch => 9,
            FactoryError::PoolUpgradeFailed => 10,
            FactoryError::InvalidAsset => 11,
            FactoryError::InvalidMinStakeAmount => 12,
            FactoryError::PoolCreationPaused => 13,
            FactoryError::InvalidWasmHash => 14,
            FactoryError::MinLockPeriodTooShort => 15,
            FactoryError::InvalidAdmin => 16,
            FactoryError::PoolQueryFailed => 17,
        }
    }
}

/// The registry record of a deployed pool; its fields are the values the
/// pool was initialized with.
#[derive(Clone, Copy, Debug, PartialEq, Eq, Structural)]
pub struct PoolRecord {
    pub address: Address,
    pub asset: Address,
    pub credit_rate: i128,
    pub global_multiplier: u32,
    pub min_lock_period: u32,
    /// The daily rate asked for, before conversion to a per-ledger rate.
    pub daily_rate: u128,
    pub wasm_hash: WasmHash,
}

/// Sort keys of `list_pools_sorted`.
#[derive(Clone, Copy, Debug, PartialEq, Eq, Structural)]
pub enum PoolSort {
    PoolId,
    CreditRate,
    GlobalMultiplier,
    MinLockPeriod,
}

/// A page of the registry.
pub struct ListPoolsResponse {
    pub records: Vec<(u32, PoolRecord)>,
    /// Where the next page starts, or `total` when the registry is exhausted.
    pub next_start_id: u32,
    pub total: u32,
    pub has_more: bool,
}

/// Events published by the factory.
#[derive(Clone, Copy, Debug, PartialEq, Eq, Structural)]
pub enum FactoryEvent {
    /// `("factory", "pool_crtd")`.
    PoolCreated {
        pool_id: u32,
        pool_address: Address,
        asset: Address,
        credit_rate: i128,
        global_multiplier: u32,
        min_lock_period: u32,
    },
    /// `("factory", "adm_xfr")`.
    AdminTransferred { old_admin: Address, new_admin: Address },
    /// `("factory", "pool_upg")`.
    PoolUpgraded { pool_id: u32, pool_address: Address, new_wasm_hash: WasmHash },
    /// `("factory", "wasm_set")`.
    WasmHashSet { old_hash: WasmHash, new_hash: WasmHash },
    /// `("factory", "pause_cr")`.
    CreationPaused(Address),
    /// `("factory", "unps_cr")`.
    CreationUnpaused(Address),
    /// `("factory", "ttl_ref")`.
    TtlRefreshed { start_id: u32, end_id: u32 },
    /// `("factory", "tvl_sync")`.
    TvlSynced { pool_id: u32, previous: i128, live: i128 },
}

/// How the staking asset answered a `balance` query at pool creation.
#[derive(Clone, Copy, Debug, PartialEq, Eq, Structural)]
pub enum AssetProbe {
    /// It answered with a balance.
    Balance(i128),
    /// It answered with something that is not a balance.
    Unreadable,
    /// The query itself failed (the asset is accepted in that case).
    Failed,
}

/// What the host needs to deploy and initialize a new pool.
#[derive(Clone, Copy, Debug, PartialEq, Eq, Structural)]
pub struct PoolPlan {
    pub pool_id: u32,
    /// The deployment salt: the pool ID in the last four bytes.
    pub salt: WasmHash,
    pub wasm_hash: WasmHash,
    pub admin: Address,
    pub asset: Address,
    pub global_multiplier: u32,
    pub credit_rate: i128,
    pub min_lock_period: u32,
    pub min_stake_amount: i128,
}

/// A registered pool: its record, the factory admin that created it, and
/// the value locked it contributed at its last synchronization.
#[derive(Clone, Copy, Debug, PartialEq, Eq, Structural)]
pub struct PoolEntry {
    pub record: PoolRecord,
    pub creator: Address,
    pub synced_tvl: i128,
}

/// The factory's state. Pool IDs are indices into `pools`.
#[derive(Clone, Debug)]
pub struct Factory {
    /// `None` until the factory is initialized.
    pub admin: Option<Address>,
    pub wasm_hash: WasmHash,
    pub pools: Vec<PoolEntry>,
    pub creation_paused: bool,
    pub admin_transfer_count: u32,
    pub upgrade_count: u32,
    pub total_tvl: i128,
    /// The pools-by-code-hash index that upgrades keep, as `(hash, pool ID)`
    /// pairs in the order they were written: the list of a hash is the IDs
    /// paired with it, in that order (see `hash_pools`).
    pub upgraded_pools: Vec<(WasmHash, u32)>,
}

/// The result of a state-changing factory call.
pub type FactoryResult<T> = Result<Receipt<T, FactoryEvent>, Fault<FactoryError>>;

/// The IDs that `index` lists under `h`, in order.
pub open spec fn ids_under(index: Seq<(WasmHash, u32)>, h: WasmHash) -> Seq<u32>
    decreases index.len(),
{
    if index.len() == 0 {
        Seq::empty()
    } else if index.last().0 == h {
        ids_under(index.drop_last(), h).push(index.last().1)
    } else {
        ids_under(index.drop_last(), h)
    }
}

/// `ids` without any occurrence of `id`, the rest in order.
pub open spec fn without_id(ids: Seq<u32>, id: u32) -> Seq<u32>
    decreases ids.len(),
{
    if ids.len() == 0 {
        Seq::empty()
    } else if ids.last() == id {
        without_id(ids.drop_last(), id)
    } else {
        without_id(ids.drop_last(), id).push(ids.last())
    }
}

/// `index` without the pairs `(h, id)`, the rest in order.
pub open spec fn index_without(index: Seq<(WasmHash, u32)>, h: WasmHash, id: u32) -> Seq<(WasmHash, u32)>
    decreases index.len(),
{
    if index.len() == 0 {
        Seq::empty()
    } else if index.last() == (h, id) {
        index_without(index.drop_last(), h, id)
    } else {
        index_without(index.drop_last(), h, id).push(index.last())
    }
}

/// Dropping the pairs `(h0, id)` from an index drops `id` from the list of
/// `h0` and leaves every other list as it was.
proof fn lemma_index_without(index: Seq<(WasmHash, u32)>, h0: WasmHash, id: u32, h: WasmHash)
    ensures
        ids_under(index_without(index, h0, id), h) == if h == h0 {
            without_id(ids_under(index, h), id)
        } else {
            ids_under(index, h)
        },
    decreases index.len(),
{
    if index.len() > 0 {
        let p = index.drop_last();
        let l = index.last();
        lemma_index_without(p, h0, id, h);
        let w = index_without(p, h0, id);
        if l != (h0, id) {
            assert(w.push(l).drop_last() =~= w);
        }
        if l.0 == h {
            assert(ids_under(p, h).push(l.1).drop_last() =~= ids_under(p, h));
        }
    }
}

/// `without_id` leaves no occurrence of `id`.
proof fn lemma_without_id(ids: Seq<u32>, id: u32)
    ensures
        !without_id(ids, id).contains(id),
    decreases ids.len(),
{
    if ids.len() > 0 {
        lemma_without_id(ids.drop_last(), id);
        let rest = without_id(ids.drop_last(), id);
        if ids.last() != id {
            assert forall|k: int| 0 <= k < rest.push(ids.last()).len() implies rest.push(ids.last())[k] != id by {
                if k < rest.len() {
                    assert(rest.push(ids.last())[k] == rest[k]);
                }
            }
        }
    }
}

/// A call refused with `e`.
pub open spec fn refused<T>(e: FactoryError) -> FactoryResult<T> {
    Err(Fault::Error(e))
}

/// `daily_rate / LEDGERS_PER_DAY` rounded up.
pub open spec fn ceil_per_ledger(daily_rate: u128) -> int {
    (daily_rate + LEDGERS_PER_DAY - 1) / (LEDGERS_PER_DAY as int)
}

/// Convert credits per day into the pool's credits per ledger, rounding up
/// so that every positive daily rate gives a positive per-ledger rate.
/// Refused with `InvalidCreditRate` for a zero daily rate.
pub fn daily_rate_to_credit_rate(daily_rate: u128) -> (r: Result<i128, FactoryError>)
    ensures
        daily_rate == 0 ==> r == Err::<i128, FactoryError>(FactoryError::InvalidCreditRate),
        daily_rate > 0 ==> r == Ok::<i128, FactoryError>(ceil_per_ledger(daily_rate) as i128),
        daily_rate > 0 ==> r->Ok_0 >= 1,
{
    if daily_rate == 0 {
        return Err(FactoryError::InvalidCreditRate);
    }
    let q = daily_rate / LEDGERS_PER_DAY;
    let per_ledger: u128 = if daily_rate % LEDGERS_PER_DAY != 0 {
        q + 1
    } else {
        q
    };
    assert(per_ledger == ceil_per_ledger(daily_rate));
    if per_ledger > 170141183460469231731687303715884105727u128 {
        return Err(FactoryError::InvalidCreditRate);
    }
    Ok(per_ledger as i128)
}

/// The deployment salt of pool `pool_id`: 32 bytes, zero but for the pool
/// ID in big-endian order in the last four.
pub fn pool_salt(pool_id: u32) -> (r: WasmHash)
    ensures
        r == (WasmHash { w0: 0, w1: 0, w2: 0, w3: pool_id as u64 }),
{
    WasmHash { w0: 0, w1: 0, w2: 0, w3: pool_id as u64 }
}

/// `a + b` clamped to the `i128` range.
pub open spec fn clamp_i128(x: int) -> int {
    if x > i128_max() {
        i128_max()
    } else if x < i128_min() {
        i128_min()
    } else {
        x
    }
}

fn saturating_add_i128(a: i128, b: i128) -> (r: i128)
    ensures
        r == clamp_i128(a + b),
{
    match a.checked_add(b) {
        Some(v) => v,
        None => if b > 0 {
            i128::MAX
        } else {
            i128::MIN
        },
    }
}

fn saturating_sub_i128(a: i128, b: i128) -> (r: i128)
    ensures
        r == clamp_i128(a - b),
{
    match a.checked_sub(b) {
        Some(v) => v,
        None => if b < 0 {
            i128::MAX
        } else {
            i128::MIN
        },
    }
}

/// The sort key of a listed record.
pub open spec fn sort_key(sort: PoolSort, e: (u32, PoolRecord)) -> int {
    match sort {
        PoolSort::PoolId => e.0 as int,
        PoolSort::CreditRate => e.1.credit_rate as int,
        PoolSort::GlobalMultiplier => e.1.global_multiplier as int,
        PoolSort::MinLockPeriod => e.1.min_lock_period as int,
    }
}

/// Whether `a` comes before `b`: a smaller key, or an equal key and a
/// smaller pool ID.
pub open spec fn precedes(sort: PoolSort, a: (u32, PoolRecord), b: (u32, PoolRecord)) -> bool {
    sort_key(sort, a) < sort_key(sort, b) || (sort_key(sort, a) == sort_key(sort, b) && a.0 < b.0)
}

fn sort_precedes(sort: PoolSort, left: &(u32, PoolRecord), right: &(u32, PoolRecord)) -> (r: bool)
    ensures
        r == precedes(sort, *left, *right),
{
    match sort {
        PoolSort::PoolId => left.0 < right.0,
        PoolSort::CreditRate => left.1.credit_rate < right.1.credit_rate || (left.1.credit_rate
            == right.1.credit_rate && left.0 < right.0),
        PoolSort::GlobalMultiplier => left.1.global_multiplier < right.1.global_multiplier || (
        left.1.global_multiplier == right.1.global_multiplier && left.0 < right.0),
        PoolSort::MinLockPeriod => left.1.min_lock_period < right.1.min_lock_period || (
        left.1.min_lock_period == right.1.min_lock_period && left.0 < right.0),
    }
}

/// Whether `s` is in strictly increasing order under `precedes`.
pub open spec fn sorted_by(sort: PoolSort, s: Seq<(u32, PoolRecord)>) -> bool {
    forall|i: int, j: int| 0 <= i < j < s.len() ==> precedes(sort, #[trigger] s[i], #[trigger] s[j])
}

/// A sequence in strictly increasing order holds each record once.
proof fn lemma_sorted_no_duplicates(sort: PoolSort, s: Seq<(u32, PoolRecord)>)
    requires
        sorted_by(sort, s),
    ensures
        s.no_duplicates(),
{
    assert forall|i: int, j: int| 0 <= i < s.len() && 0 <= j < s.len() && i != j implies s[i] != s[j] by {
        if i < j {
            assert(precedes(sort, s[i], s[j]));
        } else {
            assert(precedes(sort, s[j], s[i]));
        }
    }
}

/// The listing entries of a range of IDs hold each record once.
proof fn lemma_entries_no_duplicates(pools: Seq<PoolEntry>, lo: int, hi: int)
    requires
        0 <= lo <= hi <= u32::MAX + 1,
    ensures
        Seq::new((hi - lo) as nat, |k: int| ((lo + k) as u32, pools[lo + k].record)).no_duplicates(),
{
    let e = Seq::new((hi - lo) as nat, |k: int| ((lo + k) as u32, pools[lo + k].record));
    assert forall|i: int, j: int| 0 <= i < e.len() && 0 <= j < e.len() && i != j implies e[i] != e[j] by {
        assert(e[i].0 == lo + i);
        assert(e[j].0 == lo + j);
    }
}

/// Two sequences without repeats and with the same members are
/// permutations of each other.
proof fn lemma_same_members_same_multiset(a: Seq<(u32, PoolRecord)>, b: Seq<(u32, PoolRecord)>)
    requires
        a.no_duplicates(),
        b.no_duplicates(),
        forall|x: (u32, PoolRecord)| a.contains(x) <==> b.contains(x),
    ensures
        a.to_multiset() == b.to_multiset(),
{
    broadcast use vstd::seq_lib::group_to_multiset_ensures;

    a.lemma_multiset_has_no_duplicates();
    b.lemma_multiset_has_no_duplicates();
    assert forall|x: (u32, PoolRecord)| a.to_multiset().count(x) == b.to_multiset().count(x) by {
        if a.contains(x) {
            assert(a.to_multiset().contains(x));
            assert(b.to_multiset().contains(x));
        } else {
            assert(!b.contains(x));
        }
    }
    assert(a.to_multiset() =~= b.to_multiset());
}

/// In a sequence sorted by pool ID, each ID lies at least `j - i` above
/// the one `j - i` places before it.
proof fn lemma_id_gaps(s: Seq<(u32, PoolRecord)>, i: int, j: int)
    requires
        sorted_by(PoolSort::PoolId, s),
        0 <= i <= j < s.len(),
    ensures
        s[j].0 >= s[i].0 + (j - i),
    decreases j - i,
{
    if i < j {
        lemma_id_gaps(s, i, j - 1);
        assert(precedes(PoolSort::PoolId, s[j - 1], s[j]));
    }
}

/// A sequence sorted by pool ID with exactly the members of the listing
/// entries of `lo..hi`, and as many, is those entries.
proof fn lemma_id_sorted_is_entries(s: Seq<(u32, PoolRecord)>, pools: Seq<PoolEntry>, lo: int, hi: int)
    requires
        0 <= lo <= hi <= u32::MAX + 1,
        sorted_by(PoolSort::PoolId, s),
        s.len() == hi - lo,
        forall|x: (u32, PoolRecord)| s.contains(x) <==> Seq::new(
            (hi - lo) as nat,
            |k: int| ((lo + k) as u32, pools[lo + k].record),
        ).contains(x),
    ensures
        s == Seq::new((hi - lo) as nat, |k: int| ((lo + k) as u32, pools[lo + k].record)),
{
    let e = Seq::new((hi - lo) as nat, |k: int| ((lo + k) as u32, pools[lo + k].record));
    assert forall|k: int| 0 <= k < s.len() implies #[trigger] s[k] == e[k] by {
        assert(s.contains(s[k]));
        let w = choose|w: int| 0 <= w < e.len() && e[w] == s[k];
        assert(e[w].0 == lo + w);
        assert(s.contains(s[0]));
        let w0 = choose|w0: int| 0 <= w0 < e.len() && e[w0] == s[0];
        assert(e[w0].0 == lo + w0);
        let last = s.len() - 1;
        assert(s.contains(s[last]));
        let wl = choose|wl: int| 0 <= wl < e.len() && e[wl] == s[last];
        assert(e[wl].0 == lo + wl);
        lemma_id_gaps(s, 0, k);
        lemma_id_gaps(s, k, last);
        assert(w == k);
    }
    assert(s =~= e);
}

/// The number of records of a page asked with `limit` (0 means the
/// maximum).
pub open spec fn page_cap(limit: u32) -> u32 {
    if limit == 0 || limit > MAX_PAGE {
        MAX_PAGE
    } else {
        limit
    }
}

/// `min(a + b, c)` with `a + b` stopping at `u32::MAX`.
pub open spec fn window_end(start: u32, width: u32, count: u32) -> u32 {
    let e = if start + width > u32::MAX {
        u32::MAX
    } else {
        (start + width) as u32
    };
    if e < count {
        e
    } else {
        count
    }
}

fn window_end_exec(start: u32, width: u32, count: u32) -> (r: u32)
    ensures
        r == window_end(start, width, count),
{
    let e = start.saturating_add(width);
    if e < count {
        e
    } else {
        count
    }
}

/// The IDs in `lo..hi` whose entry satisfies `pred`, in increasing order.
pub open spec fn ids_where(pred: spec_fn(int) -> bool, lo: int, hi: int) -> Seq<u32>
    decreases hi - lo,
{
    if hi <= lo {
        Seq::empty()
    } else if pred(hi - 1) {
        ids_where(pred, lo, hi - 1).push((hi - 1) as u32)
    } else {
        ids_where(pred, lo, hi - 1)
    }
}

/// The listing entries of the pools with IDs `ids`.
pub open spec fn id_entries(pools: Seq<PoolEntry>, ids: Seq<u32>) -> Seq<(u32, PoolRecord)> {
    Seq::new(ids.len(), |k: int| (ids[k], pools[ids[k] as int].record))
}

/// The IDs below `m` are a prefix of the IDs below `hi`, followed by `m`
/// itself when it qualifies.
pub(crate) proof fn lemma_ids_prefix(pred: spec_fn(int) -> bool, lo: int, m: int, hi: int)
    requires
        lo <= m <= hi,
    ensures
        ids_where(pred, lo, hi).len() >= ids_where(pred, lo, m).len(),
        ids_where(pred, lo, hi).take(ids_where(pred, lo, m).len() as int) == ids_where(pred, lo, m),
        m < hi && pred(m) ==> ids_where(pred, lo, hi).len() > ids_where(pred, lo, m).len()
            && ids_where(pred, lo, hi)[ids_where(pred, lo, m).len() as int] == m as u32,
    decreases hi - m,
{
    if m == hi {
        assert(ids_where(pred, lo, hi).take(ids_where(pred, lo, m).len() as int) =~= ids_where(pred, lo, m));
    } else {
        lemma_ids_prefix(pred, lo, m, hi - 1);
        let a = ids_where(pred, lo, hi - 1);
        let k = ids_where(pred, lo, m).len() as int;
        if pred(hi - 1) {
            assert(ids_where(pred, lo, hi) == a.push((hi - 1) as u32));
            assert(a.push((hi - 1) as u32).take(k) =~= a.take(k));
            if m == hi - 1 && pred(m) {
                if lo <= m {
                    assert(a == ids_where(pred, lo, m));
                }
            }
        }
        if m < hi - 1 && pred(m) {
            assert(a.len() > k);
        }
        if m == hi - 1 && pred(m) && !(lo <= m) {
        }
    }
}

/// The IDs of two adjoining ranges, one after the other, are the IDs of
/// the whole range.
pub(crate) proof fn lemma_ids_split(pred: spec_fn(int) -> bool, lo: int, mid: int, hi: int)
    requires
        lo <= mid <= hi,
    ensures
        ids_where(pred, lo, mid) + ids_where(pred, mid, hi) == ids_where(pred, lo, hi),
    decreases hi - mid,
{
    if hi == mid {
        assert(ids_where(pred, lo, mid) + ids_where(pred, mid, hi) =~= ids_where(pred, lo, mid));
    } else {
        lemma_ids_split(pred, lo, mid, hi - 1);
        let a = ids_where(pred, lo, mid);
        let b = ids_where(pred, mid, hi - 1);
        if pred(hi - 1) {
            assert(a + b.push((hi - 1) as u32) =~= (a + b).push((hi - 1) as u32));
        }
    }
}

/// Every ID of the range that satisfies `pred` is among its IDs.
pub(crate) proof fn lemma_ids_complete(pred: spec_fn(int) -> bool, lo: int, hi: int, id: int)
    requires
        lo <= id < hi,
        pred(id),
    ensures
        ids_where(pred, lo, hi).contains(id as u32),
    decreases hi - lo,
{
    let a = ids_where(pred, lo, hi - 1);
    if id == hi - 1 {
        assert(a.push(id as u32)[a.len() as int] == id as u32);
    } else {
        lemma_ids_complete(pred, lo, hi - 1, id);
        if pred(hi - 1) {
            let k = choose|k: int| 0 <= k < a.len() && a[k] == id as u32;
            assert(a.push((hi - 1) as u32)[k] == id as u32);
        }
    }
}

/// Membership and order facts of `ids_where`.
pub(crate) proof fn lemma_ids_where(pred: spec_fn(int) -> bool, lo: int, hi: int)
    requires
        0 <= lo,
        hi <= u32::MAX + 1,
    ensures
        forall|k: int| 0 <= k < ids_where(pred, lo, hi).len() ==> lo <= #[trigger] ids_where(pred, lo, hi)[k] < hi && pred(ids_where(pred, lo, hi)[k] as int),
        forall|i: int, j: int| 0 <= i < j < ids_where(pred, lo, hi).len() ==> #[trigger] ids_where(pred, lo, hi)[i] < #[trigger] ids_where(pred, lo, hi)[j],
        ids_where(pred, lo, hi).len() <= if hi > lo { hi - lo } else { 0 },
    decreases hi - lo,
{
    if hi > lo {
        lemma_ids_where(pred, lo, hi - 1);
    }
}

impl Factory {
    /// The invariant of the factory: pool IDs fit a `u32`, and a factory
    /// that was never initialized has no pools, no value locked, creation
    /// open and no admin transfer or upgrade behind it (and so an empty
    /// pools-by-code-hash index).
    pub open spec fn wf(&self) -> bool {
        &&& self.pools@.len() <= u32::MAX
        &&& self.admin is None ==> {
            &&& self.pools@.len() == 0
            &&& self.total_tvl == 0
            &&& !self.creation_paused
            &&& self.admin_transfer_count == 0
            &&& self.upgrade_count == 0
            &&& self.upgraded_pools@.len() == 0
        }
    }

    /// The number of registered pools.
    pub open spec fn count(&self) -> u32 {
        self.pools@.len() as u32
    }

    /// Whether the factory and `other` hold the same registry and the same
    /// pools-by-code-hash index.
    pub open spec fn same_pools(&self, other: &Factory) -> bool {
        &&& self.pools@ == other.pools@
        &&& self.upgraded_pools@ == other.upgraded_pools@
    }

    /// The list of pool IDs the pools-by-code-hash index holds for `h`.
    pub open spec fn hash_pools(&self, h: WasmHash) -> Seq<u32> {
        ids_under(self.upgraded_pools@, h)
    }

    /// The listing entries of pools `lo..hi`.
    pub open spec fn entries(&self, lo: int, hi: int) -> Seq<(u32, PoolRecord)> {
        Seq::new((hi - lo) as nat, |k: int| ((lo + k) as u32, self.pools@[lo + k].record))
    }

    /// An uninitialized factory.
    pub fn new() -> (r: Factory)
        ensures
            r.admin is None,
            r.wasm_hash == (WasmHash { w0: 0, w1: 0, w2: 0, w3: 0 }),
            r.pools@.len() == 0,
            !r.creation_paused,
            r.admin_transfer_count == 0,
            r.upgrade_count == 0,
            r.total_tvl == 0,
            r.upgraded_pools@.len() == 0,
            r.wf(),
    {
        Factory {
            admin: None,
            wasm_hash: WasmHash { w0: 0, w1: 0, w2: 0, w3: 0 },
            pools: Vec::new(),
            creation_paused: false,
            admin_transfer_count: 0,
            upgrade_count: 0,
            total_tvl: 0,
            upgraded_pools: Vec::new(),
        }
    }

    /// Initialize the factory. Refused with `AlreadyInitialized` on an
    /// initialized factory, with `InvalidAdmin` for the all-zero account and
    /// with `InvalidWasmHash` for an all-zero hash.
    pub fn initialize(&mut self, admin: Address, pool_wasm_hash: WasmHash) -> (r: FactoryResult<()>)
        requires
            old(self).wf(),
        ensures
            final(self).wf(),
            r is Err ==> *final(self) == *old(self),
            old(self).admin is Some ==> r == refused::<()>(FactoryError::AlreadyInitialized),
            old(self).admin is None ==> {
                if admin == crate::common::zero_account() {
                    r == refused::<()>(FactoryError::InvalidAdmin)
                } else if pool_wasm_hash == (WasmHash { w0: 0, w1: 0, w2: 0, w3: 0 }) {
                    r == refused::<()>(FactoryError::InvalidWasmHash)
                } else {
                    &&& r is Ok
                    &&& r.unwrap().auth is None
                    &&& r.unwrap().transfers@.len() == 0
                    &&& r.unwrap().events@.len() == 0
                    &&& final(self).admin == Some(admin)
                    &&& final(self).wasm_hash == pool_wasm_hash
                    &&& final(self).pools@.len() == 0
                    &&& !final(self).creation_paused
                    &&& final(self).total_tvl == 0
                    &&& final(self).admin_transfer_count == 0
                    &&& final(self).upgrade_count == 0
                    &&& final(self).upgraded_pools@.len() == 0
                }
            },
    {
        if self.admin.is_some() {
            return Err(Fault::Error(FactoryError::AlreadyInitialized));
        }
        if admin.is_zero_account() {
            return Err(Fault::Error(FactoryError::InvalidAdmin));
        }
        if pool_wasm_hash.is_zero() {
            return Err(Fault::Error(FactoryError::InvalidWasmHash));
        }
        self.admin = Some(admin);
        self.wasm_hash = pool_wasm_hash;
        Ok(Receipt::new((), None, Vec::new(), Vec::new()))
    }

    /// `Ok(v)` on an initialized factory, else `NotInitialized`.
    pub open spec fn read<T>(&self, v: T) -> Result<T, FactoryError> {
        if self.admin is Some {
            Ok(v)
        } else {
            Err(FactoryError::NotInitialized)
        }
    }

    /// The admin.
    pub fn admin(&self) -> (r: Result<Address, FactoryError>)
        ensures
            self.admin is None ==> r == Err::<Address, FactoryError>(FactoryError::NotInitialized),
            self.admin matches Some(a) ==> r == Ok::<Address, FactoryError>(a),
    {
        match self.admin {
            None => Err(FactoryError::NotInitialized),
            Some(a) => Ok(a),
        }
    }

    /// The WASM hash new pools are deployed from.
    pub fn pool_wasm_hash(&self) -> (r: Result<WasmHash, FactoryError>)
        ensures
            r == self.read(self.wasm_hash),
    {
        if self.admin.is_none() {
            return Err(FactoryError::NotInitialized);
        }
        Ok(self.wasm_hash)
    }

    /// The number of registered pools.
    pub fn pool_count(&self) -> (r: Result<u32, FactoryError>)
        requires
            self.wf(),
        ensures
            r == self.read(self.count()),
    {
        if self.admin.is_none() {
            return Err(FactoryError::NotInitialized);
        }
        Ok(self.pools.len() as u32)
    }

    /// The record of pool `pool_id`; `PoolNotFound` when no such pool.
    pub fn get_pool(&self, pool_id: u32) -> (r: Result<PoolRecord, FactoryError>)
        ensures
            self.admin is None ==> r == Err::<PoolRecord, FactoryError>(FactoryError::NotInitialized),
            self.admin is Some && pool_id >= self.pools@.len() ==> r == Err::<PoolRecord, FactoryError>(
                FactoryError::PoolNotFound,
            ),
            self.admin is Some && pool_id < self.pools@.len() ==> r == Ok::<PoolRecord, FactoryError>(
                self.pools@[pool_id as int].record,
            ),
    {
        if self.admin.is_none() {
            return Err(FactoryError::NotInitialized);
        }
        if (pool_id as usize) < self.pools.len() {
            Ok(self.pools[pool_id as usize].record)
        } else {
            Err(FactoryError::PoolNotFound)
        }
    }

    /// The entries of pools `lo..hi`, in ID order.
    fn collect(&self, lo: u32, hi: u32) -> (r: Vec<(u32, PoolRecord)>)
        requires
            lo <= hi <= self.pools@.len(),
        ensures
            r@ == self.entries(lo as int, hi as int),
    {
        let mut out: Vec<(u32, PoolRecord)> = Vec::new();
        let mut id = lo;
        while id < hi
            invariant
                lo <= id <= hi <= self.pools@.len(),
                out@ == self.entries(lo as int, id as int),
            decreases hi - id,
        {
            out.push((id, self.pools[id as usize].record));
            id = id + 1;
            assert(out@ =~= self.entries(lo as int, id as int));
        }
        out
    }

    /// Whether `r` is the page of pools from `start_id` of at most
    /// `page_cap(limit)` records.
    pub open spec fn is_page(&self, r: &ListPoolsResponse, start_id: u32, limit: u32) -> bool {
        let n = self.count();
        let end = window_end(start_id, page_cap(limit), n);
        if start_id >= n {
            &&& r.records@.len() == 0
            &&& r.next_start_id == n
            &&& r.total == n
            &&& !r.has_more
        } else {
            &&& r.next_start_id == end
            &&& r.total == n
            &&& r.has_more == (end < n)
        }
    }

    /// A page of the registry in ID order: up to `limit` records (0 or more
    /// than 20 means 20) from `start_id`.
    pub fn list_pools(&self, start_id: u32, limit: u32) -> (r: Result<ListPoolsResponse, FactoryError>)
        requires
            self.wf(),
        ensures
            self.admin is None ==> r is Err && r->Err_0 == FactoryError::NotInitialized,
            self.admin is Some ==> {
                &&& r is Ok
                &&& self.is_page(&r->Ok_0, start_id, limit)
                &&& start_id < self.count() ==> r->Ok_0.records@ == self.entries(
                    start_id as int,
                    window_end(start_id, page_cap(limit), self.count()) as int,
                )
            },
    {
        if self.admin.is_none() {
            return Err(FactoryError::NotInitialized);
        }
        let count = self.pools.len() as u32;
        if start_id >= count {
            return Ok(ListPoolsResponse { records: Vec::new(), next_start_id: count, total: count, has_more: false });
        }
        let capped = if limit == 0 || limit > MAX_PAGE {
            MAX_PAGE
        } else {
            limit
        };
        let end = window_end_exec(start_id, capped, count);
        let records = self.collect(start_id, end);
        Ok(ListPoolsResponse { records, next_start_id: end, total: count, has_more: end < count })
    }

    /// A page of the registry like `list_pools`, with the records of the
    /// page ordered by `sort` (ties by pool ID).
    pub fn list_pools_sorted(&self, start_id: u32, limit: u32, sort: PoolSort) -> (r: Result<ListPoolsResponse, FactoryError>)
        requires
            self.wf(),
        ensures
            self.admin is None ==> r is Err && r->Err_0 == FactoryError::NotInitialized,
            self.admin is Some ==> {
                let page = self.entries(
                    start_id as int,
                    window_end(start_id, page_cap(limit), self.count()) as int,
                );
                &&& r is Ok
                &&& self.is_page(&r->Ok_0, start_id, limit)
                &&& start_id < self.count() ==> {
                    &&& r->Ok_0.records@.len() == page.len()
                    &&& sorted_by(sort, r->Ok_0.records@)
                    &&& forall|x: (u32, PoolRecord)| r->Ok_0.records@.contains(x) <==> page.contains(x)
                    &&& r->Ok_0.records@.to_multiset() == page.to_multiset()
                    &&& sort == PoolSort::PoolId ==> r->Ok_0.records@ == page
                    &&& forall|i: int, j: int| 0 <= i < j < r->Ok_0.records@.len() ==> {
                        let a = #[trigger] r->Ok_0.records@[i];
                        let b = #[trigger] r->Ok_0.records@[j];
                        match sort {
                            PoolSort::PoolId => a.0 < b.0,
                            PoolSort::CreditRate => a.1.credit_rate < b.1.credit_rate || (a.1.credit_rate
                                == b.1.credit_rate && a.0 < b.0),
                            PoolSort::GlobalMultiplier => a.1.global_multiplier < b.1.global_multiplier || (
                            a.1.global_multiplier == b.1.global_multiplier && a.0 < b.0),
                            PoolSort::MinLockPeriod => a.1.min_lock_period < b.1.min_lock_period || (
                            a.1.min_lock_period == b.1.min_lock_period && a.0 < b.0),
                        }
                    }
                }
            },
    {
        if self.admin.is_none() {
            return Err(FactoryError::NotInitialized);
        }
        let count = self.pools.len() as u32;
        if start_id >= count {
            return Ok(ListPoolsResponse { records: Vec::new(), next_start_id: count, total: count, has_more: false });
        }
        let capped = if limit == 0 || limit > MAX_PAGE {
            MAX_PAGE
        } else {
            limit
        };
        let end = window_end_exec(start_id, capped, count);
        let ghost page = self.entries(start_id as int, end as int);
        let mut records: Vec<(u32, PoolRecord)> = Vec::new();
        let mut id = start_id;
        while id < end
            invariant
                start_id <= id <= end <= count == self.pools@.len(),
                page == self.entries(start_id as int, end as int),
                records@.len() == id - start_id,
                sorted_by(sort, records@),
                forall|k: int| 0 <= k < records@.len() ==> (#[trigger] records@[k]).0 < id,
                forall|x: (u32, PoolRecord)| records@.contains(x) <==> page.take(id - start_id).contains(x),
            decreases end - id,
        {
            let entry = (id, self.pools[id as usize].record);
            let ghost before = records@;
            let mut k: usize = 0;
            while k < records.len() && !sort_precedes(sort, &entry, &records[k])
                invariant
                    k <= records@.len(),
                    records@ == before,
                    forall|j: int| 0 <= j < k ==> !precedes(sort, entry, #[trigger] records@[j]),
                decreases records@.len() - k,
            {
                k = k + 1;
            }
            let at = k;
            proof {
                assert forall|j: int| 0 <= j < at implies precedes(sort, #[trigger] before[j], entry) by {
                    assert(!precedes(sort, entry, before[j]));
                    assert(before[j].0 < entry.0);
                }
                assert forall|j: int| at <= j < before.len() implies precedes(sort, entry, #[trigger] before[j]) by {
                    if at < before.len() {
                        assert(precedes(sort, entry, before[at as int]));
                        if j > at {
                            assert(precedes(sort, before[at as int], before[j]));
                        }
                    }
                }
            }
            records.insert(at, entry);
            proof {
                let s = records@;
                assert(s == before.insert(at as int, entry));
                assert forall|i: int, j: int| 0 <= i < j < s.len() implies precedes(sort, #[trigger] s[i], #[trigger] s[j]) by {
                    if j < at {
                        assert(s[i] == before[i] && s[j] == before[j]);
                    } else if j == at {
                        assert(s[i] == before[i]);
                    } else if i == at {
                        assert(s[j] == before[j - 1]);
                    } else if i < at {
                        assert(s[i] == before[i] && s[j] == before[j - 1]);
                        assert(precedes(sort, before[i], entry));
                        assert(precedes(sort, entry, before[j - 1]));
                    } else {
                        assert(s[i] == before[i - 1] && s[j] == before[j - 1]);
                    }
                }
                let prefix = page.take(id - start_id);
                let next_prefix = page.take(id + 1 - start_id);
                assert(next_prefix == prefix.push(entry));
                assert forall|x: (u32, PoolRecord)| s.contains(x) <==> next_prefix.contains(x) by {
                    if s.contains(x) {
                        let q = choose|q: int| 0 <= q < s.len() && s[q] == x;
                        if q < at {
                            assert(before[q] == x);
                            assert(before.contains(x));
                            assert(prefix.contains(x));
                            let w = choose|w: int| 0 <= w < prefix.len() && prefix[w] == x;
                            assert(next_prefix[w] == x);
                        } else if q == at {
                            assert(next_prefix[prefix.len() as int] == x);
                        } else {
                            assert(before[q - 1] == x);
                            assert(before.contains(x));
                            assert(prefix.contains(x));
                            let w = choose|w: int| 0 <= w < prefix.len() && prefix[w] == x;
                            assert(next_prefix[w] == x);
                        }
                    }
                    if next_prefix.contains(x) {
                        let w = choose|w: int| 0 <= w < next_prefix.len() && next_prefix[w] == x;
                        if w < prefix.len() {
                            assert(prefix[w] == x);
                            assert(before.contains(x));
                            let q = choose|q: int| 0 <= q < before.len() && before[q] == x;
                            if q < at {
                                assert(s[q] == x);
                            } else {
                                assert(s[q + 1] == x);
                            }
                        } else {
                            assert(s[at as int] == x);
                        }
                    }
                }
                assert forall|k2: int| 0 <= k2 < s.len() implies (#[trigger] s[k2]).0 < id + 1 by {
                    if k2 < at {
                        assert(s[k2] == before[k2]);
                    } else if k2 > at {
                        assert(s[k2] == before[k2 - 1]);
                    }
                }
            }
            id = id + 1;
        }
        assert(page.take(end - start_id) =~= page);
        proof {
            lemma_sorted_no_duplicates(sort, records@);
            lemma_entries_no_duplicates(self.pools@, start_id as int, end as int);
            lemma_same_members_same_multiset(records@, page);
            if sort == PoolSort::PoolId {
                lemma_id_sorted_is_entries(records@, self.pools@, start_id as int, end as int);
            }
            crate::properties::sorted_pages_follow_their_field(sort, records@);
        }
        Ok(ListPoolsResponse { records, next_start_id: end, total: count, has_more: end < count })
    }

    /// The IDs in `lo..hi` of pools whose staking asset is `asset`.
    pub open spec fn asset_ids(&self, asset: Address, lo: int, hi: int) -> Seq<u32> {
        ids_where(|i: int| self.pools@[i].record.asset == asset, lo, hi)
    }

    /// The end of the window of IDs that an asset scan from `start_id` with
    /// `scan_limit` looks at (0 or more than 50 means 50).
    pub open spec fn asset_scan_end(&self, start_id: u32, scan_limit: u32) -> u32 {
        let scan = if scan_limit == 0 || scan_limit > MAX_POOL_SCAN_PER_CALL {
            MAX_POOL_SCAN_PER_CALL
        } else {
            scan_limit
        };
        window_end(start_id, scan, self.count())
    }

    /// The IDs an asset page from `start_id` lists: the matching IDs of the
    /// scanned window, the first `page_cap(limit)` of them.
    pub open spec fn asset_page_ids(&self, asset: Address, start_id: u32, scan_limit: u32, limit: u32) -> Seq<u32> {
        let ids = self.asset_ids(asset, start_id as int, self.asset_scan_end(start_id, scan_limit) as int);
        if ids.len() > page_cap(limit) {
            ids.take(page_cap(limit) as int)
        } else {
            ids
        }
    }

    /// Where the asset page from `start_id` stops: the first matching ID
    /// left out when the page is full, else the end of the scanned window.
    pub open spec fn asset_page_next(&self, asset: Address, start_id: u32, scan_limit: u32, limit: u32) -> u32 {
        let ids = self.asset_ids(asset, start_id as int, self.asset_scan_end(start_id, scan_limit) as int);
        if ids.len() > page_cap(limit) {
            ids[page_cap(limit) as int]
        } else {
            self.asset_scan_end(start_id, scan_limit)
        }
    }

    /// The records that paging by asset lists from `start_id` on, asking
    /// each page with `scan_limit` and `limit`: the page at `start_id`, then,
    /// while a page reports more, the pages from each `next_start_id`.
    pub open spec fn asset_pages_from(&self, asset: Address, start_id: u32, scan_limit: u32, limit: u32) -> Seq<
        (u32, PoolRecord),
    >
        decreases self.count() - start_id,
    {
        if start_id >= self.count() {
            Seq::empty()
        } else {
            let next = self.asset_page_next(asset, start_id, scan_limit, limit);
            let page = id_entries(self.pools@, self.asset_page_ids(asset, start_id, scan_limit, limit));
            if start_id < next < self.count() {
                page + self.asset_pages_from(asset, next, scan_limit, limit)
            } else {
                page
            }
        }
    }

    /// The number of calls that paging by asset makes from `start_id` on,
    /// until a page reports no more.
    pub open spec fn asset_page_calls(&self, asset: Address, start_id: u32, scan_limit: u32, limit: u32) -> nat
        decreases self.count() - start_id,
    {
        if start_id >= self.count() {
            0
        } else {
            let next = self.asset_page_next(asset, start_id, scan_limit, limit);
            if start_id < next < self.count() {
                1 + self.asset_page_calls(asset, next, scan_limit, limit)
            } else {
                1
            }
        }
    }

    /// The IDs of pools created while `admin` was the factory admin.
    pub open spec fn admin_ids(&self, admin: Address) -> Seq<u32> {
        ids_where(|i: int| self.pools@[i].creator == admin, 0, self.pools@.len() as int)
    }

    /// A page of pools whose staking asset is `asset`, looking at the pool
    /// IDs from `start_id` on, at most `scan_limit` of them (0 or more than
    /// 50 means 50), and returning at most `limit` records (0 or more than
    /// 20 means 20). `next_start_id` is the first matching ID left out when
    /// the page is full, else the end of the scanned window.
    pub fn get_pools_by_asset_range(
        &self,
        asset: Address,
        start_id: u32,
        scan_limit: u32,
        limit: u32,
    ) -> (r: Result<ListPoolsResponse, FactoryError>)
        requires
            self.wf(),
        ensures
            self.admin is None ==> r is Err && r->Err_0 == FactoryError::NotInitialized,
            self.admin is Some ==> {
                let n = self.count();
                &&& r is Ok
                &&& r->Ok_0.total == n
                &&& if start_id >= n {
                    &&& r->Ok_0.records@.len() == 0
                    &&& r->Ok_0.next_start_id == n
                    &&& !r->Ok_0.has_more
                } else {
                    let next = self.asset_page_next(asset, start_id, scan_limit, limit);
                    &&& r->Ok_0.records@ == id_entries(
                        self.pools@,
                        self.asset_page_ids(asset, start_id, scan_limit, limit),
                    )
                    &&& r->Ok_0.next_start_id == next
                    &&& r->Ok_0.has_more == (next < n)
                }
            },
    {
        if self.admin.is_none() {
            return Err(FactoryError::NotInitialized);
        }
        let count = self.pools.len() as u32;
        if start_id >= count {
            return Ok(ListPoolsResponse { records: Vec::new(), next_start_id: count, total: count, has_more: false });
        }
        let capped = if limit == 0 || limit > MAX_PAGE {
            MAX_PAGE
        } else {
            limit
        };
        let scan = if scan_limit == 0 || scan_limit > MAX_POOL_SCAN_PER_CALL {
            MAX_POOL_SCAN_PER_CALL
        } else {
            scan_limit
        };
        let scan_end = window_end_exec(start_id, scan, count);
        let ghost pred = |i: int| self.pools@[i].record.asset == asset;
        let mut records: Vec<(u32, PoolRecord)> = Vec::new();
        let mut next_start_id = scan_end;
        let mut stopped = false;
        let mut id = start_id;
        while id < scan_end
            invariant
                start_id <= id <= scan_end <= count == self.pools@.len(),
                pred == (|i: int| self.pools@[i].record.asset == asset),
                1 <= capped <= MAX_PAGE,
                !stopped ==> {
                    &&& next_start_id == scan_end
                    &&& ids_where(pred, start_id as int, id as int).len() <= capped
                    &&& records@ == id_entries(self.pools@, ids_where(pred, start_id as int, id as int))
                },
                stopped ==> {
                    &&& id == scan_end
                    &&& start_id <= next_start_id < scan_end
                    &&& pred(next_start_id as int)
                    &&& ids_where(pred, start_id as int, next_start_id as int).len() == capped
                    &&& records@ == id_entries(self.pools@, ids_where(pred, start_id as int, next_start_id as int))
                },
            decreases scan_end - id,
        {
            let ghost before = ids_where(pred, start_id as int, id as int);
            if self.pools[id as usize].record.asset == asset {
                if records.len() >= capped as usize {
                    proof {
                        assert(records@.len() == before.len());
                        assert(pred(id as int));
                    }
                    next_start_id = id;
                    stopped = true;
                    id = scan_end;
                } else {
                    records.push((id, self.pools[id as usize].record));
                    proof {
                        assert(ids_where(pred, start_id as int, id + 1) == before.push(id));
                        assert(records@ =~= id_entries(self.pools@, ids_where(pred, start_id as int, id + 1)));
                    }
                    id = id + 1;
                }
            } else {
                proof {
                    assert(ids_where(pred, start_id as int, id + 1) == before);
                }
                id = id + 1;
            }
        }
        proof {
            let ids = ids_where(pred, start_id as int, scan_end as int);
            assert(ids == self.asset_ids(asset, start_id as int, scan_end as int));
            if stopped {
                lemma_ids_prefix(pred, start_id as int, next_start_id as int, scan_end as int);
                assert(ids.take(capped as int) == ids_where(pred, start_id as int, next_start_id as int));
                assert(records@ =~= id_entries(self.pools@, ids.take(capped as int)));
            } else {
                assert(records@ =~= id_entries(self.pools@, ids));
            }
        }
        Ok(ListPoolsResponse { records, next_start_id, total: count, has_more: next_start_id < count })
    }
}


/// The accumulator after a pool's contribution moves from `previous` to
/// `live`: `total + live - previous`, each step clamped to `i128`; unchanged
/// when the contribution did not move.
pub open spec fn synced_total(total: i128, previous: i128, live: i128) -> i128 {
    if live != previous {
        clamp_i128(clamp_i128(total + live) - previous) as i128
    } else {
        total
    }
}

/// The accumulator after synchronizing the pools from `start` with the
/// replies `replies` (a failed reply skips its pool).
pub open spec fn batch_total(pools: Seq<PoolEntry>, total: i128, start: int, replies: Seq<Option<i128>>) -> i128
    decreases replies.len(),
{
    if replies.len() == 0 {
        total
    } else {
        let before = batch_total(pools, total, start, replies.drop_last());
        let id = start + replies.len() - 1;
        match replies.last() {
            Some(live) => synced_total(before, pools[id].synced_tvl, live),
            None => before,
        }
    }
}

/// The events of synchronizing the pools from `start` with `replies`.
pub open spec fn batch_events(pools: Seq<PoolEntry>, start: int, replies: Seq<Option<i128>>) -> Seq<FactoryEvent>
    decreases replies.len(),
{
    if replies.len() == 0 {
        Seq::empty()
    } else {
        let before = batch_events(pools, start, replies.drop_last());
        let id = start + replies.len() - 1;
        match replies.last() {
            Some(live) => if live != pools[id].synced_tvl {
                before.push(
                    FactoryEvent::TvlSynced { pool_id: id as u32, previous: pools[id].synced_tvl, live },
                )
            } else {
                before
            },
            None => before,
        }
    }
}

/// The registry after synchronizing the pools from `start` with `replies`.
pub open spec fn batch_pools(pools: Seq<PoolEntry>, start: int, replies: Seq<Option<i128>>) -> Seq<PoolEntry> {
    Seq::new(
        pools.len(),
        |i: int|
            if start <= i < start + replies.len() && replies[i - start] is Some {
                PoolEntry { synced_tvl: replies[i - start].unwrap(), ..pools[i] }
            } else {
                pools[i]
            },
    )
}

/// Whether the asset's reply to the balance probe is acceptable: a
/// non-negative balance, or a probe that could not be made at all.
pub open spec fn asset_accepted(probe: AssetProbe) -> bool {
    match probe {
        AssetProbe::Balance(b) => b >= 0,
        AssetProbe::Unreadable => false,
        AssetProbe::Failed => true,
    }
}

impl Factory {
    /// Same as `get_pools_by_asset_range` scanning up to 50 pool IDs.
    pub fn get_pools_by_asset(&self, asset: Address, start_id: u32, limit: u32) -> (r: Result<ListPoolsResponse, FactoryError>)
        requires
            self.wf(),
        ensures
            self.admin is None ==> r is Err && r->Err_0 == FactoryError::NotInitialized,
            self.admin is Some ==> {
                let n = self.count();
                let scan_end = window_end(start_id, MAX_POOL_SCAN_PER_CALL, n);
                let cap = page_cap(limit);
                let ids = self.asset_ids(asset, start_id as int, scan_end as int);
                let taken = if ids.len() > cap { cap as int } else { ids.len() as int };
                &&& r is Ok
                &&& r->Ok_0.total == n
                &&& if start_id >= n {
                    &&& r->Ok_0.records@.len() == 0
                    &&& r->Ok_0.next_start_id == n
                    &&& !r->Ok_0.has_more
                } else {
                    let next = if ids.len() > cap {
                        ids[cap as int]
                    } else {
                        scan_end
                    };
                    &&& r->Ok_0.records@ == id_entries(self.pools@, ids.take(taken))
                    &&& r->Ok_0.next_start_id == next
                    &&& r->Ok_0.has_more == (next < n)
                }
            },
    {
        self.get_pools_by_asset_range(asset, start_id, MAX_POOL_SCAN_PER_CALL, limit)
    }

    /// The IDs of the pools created while `admin` was the factory admin, in
    /// creation order.
    pub fn get_pools_by_admin(&self, admin: Address) -> (r: Result<Vec<u32>, FactoryError>)
        requires
            self.wf(),
        ensures
            self.admin is None ==> r is Err && r->Err_0 == FactoryError::NotInitialized,
            self.admin is Some ==> r is Ok && r->Ok_0@ == self.admin_ids(admin),
    {
        if self.admin.is_none() {
            return Err(FactoryError::NotInitialized);
        }
        let ghost pred = |i: int| self.pools@[i].creator == admin;
        let mut out: Vec<u32> = Vec::new();
        let mut id: usize = 0;
        while id < self.pools.len()
            invariant
                id <= self.pools@.len() <= u32::MAX,
                pred == (|i: int| self.pools@[i].creator == admin),
                out@ == ids_where(pred, 0, id as int),
            decreases self.pools@.len() - id,
        {
            if self.pools[id].creator == admin {
                out.push(id as u32);
            }
            id = id + 1;
        }
        Ok(out)
    }

    /// The number of pools created while `admin` was the factory admin.
    pub fn get_admin_pool_count(&self, admin: Address) -> (r: Result<u32, FactoryError>)
        requires
            self.wf(),
        ensures
            self.admin is None ==> r == Err::<u32, FactoryError>(FactoryError::NotInitialized),
            self.admin is Some ==> r == Ok::<u32, FactoryError>(self.admin_ids(admin).len() as u32),
    {
        let ids = self.get_pools_by_admin(admin)?;
        proof {
            lemma_ids_where(|i: int| self.pools@[i].creator == admin, 0, self.pools@.len() as int);
        }
        Ok(ids.len() as u32)
    }

    /// Keep the records of pools `start_id..` (at most 20 of them) alive;
    /// permissionless. Returns nothing and changes no state; the event names
    /// the refreshed window.
    pub fn refresh_pool_ttls(&self, start_id: u32, limit: u32) -> (r: FactoryResult<()>)
        requires
            self.wf(),
        ensures
            self.admin is None ==> r == refused::<()>(FactoryError::NotInitialized),
            self.admin is Some ==> {
                &&& r is Ok
                &&& r.unwrap().auth is None
                &&& r.unwrap().transfers@.len() == 0
                &&& r.unwrap().events@ == seq![
                    FactoryEvent::TtlRefreshed {
                        start_id,
                        end_id: window_end(start_id, if limit > MAX_PAGE { MAX_PAGE } else { limit }, self.count()),
                    },
                ]
            },
    {
        if self.admin.is_none() {
            return Err(Fault::Error(FactoryError::NotInitialized));
        }
        let capped = if limit > MAX_PAGE {
            MAX_PAGE
        } else {
            limit
        };
        let end = window_end_exec(start_id, capped, self.pools.len() as u32);
        Ok(Receipt::new((), None, Vec::new(), single(FactoryEvent::TtlRefreshed { start_id, end_id: end })))
    }

    /// Hand the admin rights to `new_admin` (the current admin authorizes).
    /// Pools keep the admin they were created with.
    pub fn transfer_admin(&mut self, new_admin: Address) -> (r: FactoryResult<()>)
        requires
            old(self).wf(),
        ensures
            final(self).wf(),
            r is Err ==> *final(self) == *old(self),
            old(self).admin is None ==> r == refused::<()>(FactoryError::NotInitialized),
            old(self).admin matches Some(current) ==> {
                if old(self).admin_transfer_count == u32::MAX {
                    r == Err::<Receipt<(), FactoryEvent>, Fault<FactoryError>>(Fault::Trap(Trap::ArithmeticOverflow))
                } else {
                    &&& r is Ok
                    &&& r.unwrap().auth == Some(current)
                    &&& r.unwrap().transfers@.len() == 0
                    &&& r.unwrap().events@ == seq![
                        FactoryEvent::AdminTransferred { old_admin: current, new_admin },
                    ]
                    &&& final(self).admin == Some(new_admin)
                    &&& final(self).admin_transfer_count == old(self).admin_transfer_count + 1
                    &&& final(self).same_pools(old(self))
                    &&& final(self).wasm_hash == old(self).wasm_hash
                    &&& final(self).creation_paused == old(self).creation_paused
                    &&& final(self).upgrade_count == old(self).upgrade_count
                    &&& final(self).total_tvl == old(self).total_tvl
                }
            },
    {
        let current = match self.admin {
            None => {
                return Err(Fault::Error(FactoryError::NotInitialized));
            },
            Some(a) => a,
        };
        if self.admin_transfer_count == u32::MAX {
            return Err(Fault::Trap(Trap::ArithmeticOverflow));
        }
        self.admin = Some(new_admin);
        self.admin_transfer_count = self.admin_transfer_count + 1;
        Ok(
            Receipt::new(
                (),
                Some(current),
                Vec::new(),
                single(FactoryEvent::AdminTransferred { old_admin: current, new_admin }),
            ),
        )
    }

    /// The number of admin handoffs.
    pub fn admin_transfer_count(&self) -> (r: Result<u32, FactoryError>)
        ensures
            r == self.read(self.admin_transfer_count),
    {
        if self.admin.is_none() {
            return Err(FactoryError::NotInitialized);
        }
        Ok(self.admin_transfer_count)
    }

    /// Same as `admin_transfer_count`.
    pub fn get_admin_transfer_count(&self) -> (r: Result<u32, FactoryError>)
        ensures
            r == self.read(self.admin_transfer_count),
    {
        self.admin_transfer_count()
    }

    /// The checks of `upgrade_pool` up to the upgrade call itself, given the
    /// pool's reply to the `admin` query (`None` when it did not answer):
    /// the address to invoke `upgrade` on, or the error `upgrade_pool`
    /// returns without invoking it.
    pub open spec fn upgrade_check(&self, pool_id: u32, new_wasm_hash: WasmHash, pool_admin: Option<Address>) -> Result<Address, FactoryError> {
        match self.admin {
            None => Err(FactoryError::NotInitialized),
            Some(admin) => if pool_id >= self.pools@.len() {
                Err(FactoryError::PoolNotFound)
            } else {
                let rec = self.pools@[pool_id as int].record;
                match pool_admin {
                    None => Err(FactoryError::PoolUpgradeFailed),
                    Some(pa) => if pa != admin {
                        Err(FactoryError::PoolAdminMismatch)
                    } else if new_wasm_hash == rec.wasm_hash {
                        Err(FactoryError::PoolUpgradeFailed)
                    } else {
                        Ok(rec.address)
                    },
                }
            },
        }
    }

    /// `upgrade_check` as a call: which pool to invoke `upgrade` on.
    pub fn upgrade_target(&self, pool_id: u32, new_wasm_hash: WasmHash, pool_admin: Option<Address>) -> (r: Result<Address, FactoryError>)
        ensures
            r == self.upgrade_check(pool_id, new_wasm_hash, pool_admin),
    {
        let admin = match self.admin {
            None => {
                return Err(FactoryError::NotInitialized);
            },
            Some(a) => a,
        };
        if (pool_id as usize) >= self.pools.len() {
            return Err(FactoryError::PoolNotFound);
        }
        let rec = self.pools[pool_id as usize].record;
        match pool_admin {
            None => Err(FactoryError::PoolUpgradeFailed),
            Some(pa) => if pa != admin {
                Err(FactoryError::PoolAdminMismatch)
            } else if new_wasm_hash == rec.wasm_hash {
                Err(FactoryError::PoolUpgradeFailed)
            } else {
                Ok(rec.address)
            },
        }
    }

    /// Upgrade one registered pool to `new_wasm_hash` (the factory admin
    /// authorizes). `pool_admin` is the pool's reply to the `admin` query and
    /// `upgraded` whether its `upgrade` call succeeded. Refused as
    /// `upgrade_check` says, and with `PoolUpgradeFailed` when the upgrade
    /// call failed; otherwise the record takes the new hash.
    pub fn upgrade_pool(&mut self, pool_id: u32, new_wasm_hash: WasmHash, pool_admin: Option<Address>, upgraded: bool) -> (r: FactoryResult<()>)
        requires
            old(self).wf(),
        ensures
            final(self).wf(),
            r is Err ==> *final(self) == *old(self),
            old(self).upgrade_check(pool_id, new_wasm_hash, pool_admin) matches Err(e) ==> r == refused::<()>(e),
            old(self).upgrade_check(pool_id, new_wasm_hash, pool_admin) is Ok && !upgraded ==> r == refused::<()>(
                FactoryError::PoolUpgradeFailed,
            ),
            old(self).upgrade_check(pool_id, new_wasm_hash, pool_admin) is Ok && upgraded ==> {
                let e = old(self).pools@[pool_id as int];
                &&& r is Ok
                &&& r.unwrap().auth == old(self).admin
                &&& r.unwrap().transfers@.len() == 0
                &&& r.unwrap().events@ == seq![
                    FactoryEvent::PoolUpgraded { pool_id, pool_address: e.record.address, new_wasm_hash },
                ]
                &&& final(self).pools@ == old(self).pools@.update(
                    pool_id as int,
                    PoolEntry { record: PoolRecord { wasm_hash: new_wasm_hash, ..e.record }, ..e },
                )
                &&& final(self).upgraded_pools@ == index_without(
                    old(self).upgraded_pools@,
                    e.record.wasm_hash,
                    pool_id,
                ).push((new_wasm_hash, pool_id))
                &&& forall|h: WasmHash| #[trigger] final(self).hash_pools(h) == {
                    let kept = if h == e.record.wasm_hash {
                        without_id(old(self).hash_pools(h), pool_id)
                    } else {
                        old(self).hash_pools(h)
                    };
                    if h == new_wasm_hash {
                        kept.push(pool_id)
                    } else {
                        kept
                    }
                }
                &&& e.record.wasm_hash != new_wasm_hash ==> !final(self).hash_pools(e.record.wasm_hash).contains(
                    pool_id,
                )
                &&& final(self).upgrade_count == if old(self).upgrade_count < u32::MAX {
                    (old(self).upgrade_count + 1) as u32
                } else {
                    u32::MAX
                }
                &&& final(self).admin == old(self).admin
                &&& final(self).wasm_hash == old(self).wasm_hash
                &&& final(self).creation_paused == old(self).creation_paused
                &&& final(self).admin_transfer_count == old(self).admin_transfer_count
                &&& final(self).total_tvl == old(self).total_tvl
            },
    {
        let address = match self.upgrade_target(pool_id, new_wasm_hash, pool_admin) {
            Err(e) => {
                return Err(Fault::Error(e));
            },
            Ok(a) => a,
        };
        if !upgraded {
            return Err(Fault::Error(FactoryError::PoolUpgradeFailed));
        }
        let e = self.pools[pool_id as usize];
        let old_hash = e.record.wasm_hash;
        self.pools.set(
            pool_id as usize,
            PoolEntry { record: PoolRecord { wasm_hash: new_wasm_hash, ..e.record }, ..e },
        );
        let ghost before = self.upgraded_pools@;
        let mut index: Vec<(WasmHash, u32)> = Vec::new();
        let mut k: usize = 0;
        while k < self.upgraded_pools.len()
            invariant
                k <= self.upgraded_pools@.len(),
                self.upgraded_pools@ == before,
                index@ == index_without(before.take(k as int), old_hash, pool_id),
            decreases self.upgraded_pools@.len() - k,
        {
            let entry = self.upgraded_pools[k];
            assert(before.take(k + 1).drop_last() =~= before.take(k as int));
            if !(entry.0 == old_hash && entry.1 == pool_id) {
                index.push(entry);
            }
            k = k + 1;
        }
        assert(before.take(before.len() as int) =~= before);
        index.push((new_wasm_hash, pool_id));
        self.upgraded_pools = index;
        proof {
            let w = index_without(before, old_hash, pool_id);
            assert forall|h: WasmHash| #[trigger] ids_under(w.push((new_wasm_hash, pool_id)), h) == {
                let kept = if h == old_hash {
                    without_id(ids_under(before, h), pool_id)
                } else {
                    ids_under(before, h)
                };
                if h == new_wasm_hash {
                    kept.push(pool_id)
                } else {
                    kept
                }
            } by {
                lemma_index_without(before, old_hash, pool_id, h);
                assert(w.push((new_wasm_hash, pool_id)).drop_last() =~= w);
            }
            lemma_without_id(ids_under(before, old_hash), pool_id);
        }
        self.upgrade_count = self.upgrade_count.saturating_add(1);
        Ok(
            Receipt::new(
                (),
                self.admin,
                Vec::new(),
                single(FactoryEvent::PoolUpgraded { pool_id, pool_address: address, new_wasm_hash }),
            ),
        )
    }

    /// The number of successful pool upgrades.
    pub fn upgrade_count(&self) -> (r: Result<u32, FactoryError>)
        ensures
            r == self.read(self.upgrade_count),
    {
        if self.admin.is_none() {
            return Err(FactoryError::NotInitialized);
        }
        Ok(self.upgrade_count)
    }

    /// The total value locked across pools as of their last synchronizations.
    pub fn total_tvl(&self) -> (r: Result<i128, FactoryError>)
        ensures
            r == self.read(self.total_tvl),
    {
        if self.admin.is_none() {
            return Err(FactoryError::NotInitialized);
        }
        Ok(self.total_tvl)
    }

    /// The value pool `pool_id` contributes to `total_tvl`.
    pub fn pool_tvl_synced(&self, pool_id: u32) -> (r: Result<i128, FactoryError>)
        ensures
            self.admin is None ==> r == Err::<i128, FactoryError>(FactoryError::NotInitialized),
            self.admin is Some && pool_id >= self.pools@.len() ==> r == Err::<i128, FactoryError>(
                FactoryError::PoolNotFound,
            ),
            self.admin is Some && pool_id < self.pools@.len() ==> r == Ok::<i128, FactoryError>(
                self.pools@[pool_id as int].synced_tvl,
            ),
    {
        if self.admin.is_none() {
            return Err(FactoryError::NotInitialized);
        }
        if (pool_id as usize) < self.pools.len() {
            Ok(self.pools[pool_id as usize].synced_tvl)
        } else {
            Err(FactoryError::PoolNotFound)
        }
    }

    /// The live value locked in pool `pool_id`, given the pool's reply to the
    /// `total_staked` query (`None` when it did not answer).
    pub fn pool_tvl(&self, pool_id: u32, live: Option<i128>) -> (r: Result<i128, FactoryError>)
        ensures
            self.admin is None ==> r == Err::<i128, FactoryError>(FactoryError::NotInitialized),
            self.admin is Some && pool_id >= self.pools@.len() ==> r == Err::<i128, FactoryError>(
                FactoryError::PoolNotFound,
            ),
            self.admin is Some && pool_id < self.pools@.len() ==> r == match live {
                Some(v) => Ok::<i128, FactoryError>(v),
                None => Err::<i128, FactoryError>(FactoryError::PoolQueryFailed),
            },
    {
        if self.admin.is_none() {
            return Err(FactoryError::NotInitialized);
        }
        if (pool_id as usize) >= self.pools.len() {
            return Err(FactoryError::PoolNotFound);
        }
        match live {
            Some(v) => Ok(v),
            None => Err(FactoryError::PoolQueryFailed),
        }
    }

    /// Fold pool `pool_id`'s live value into the accumulator.
    fn apply_sync(&mut self, pool_id: usize, live: i128, events: &mut Vec<FactoryEvent>)
        requires
            pool_id < old(self).pools@.len(),
        ensures
            final(self).upgraded_pools@ == old(self).upgraded_pools@,
            final(self).pools@ == old(self).pools@.update(
                pool_id as int,
                PoolEntry { synced_tvl: live, ..old(self).pools@[pool_id as int] },
            ),
            final(self).total_tvl == synced_total(old(self).total_tvl, old(self).pools@[pool_id as int].synced_tvl, live),
            final(events)@ == if live != old(self).pools@[pool_id as int].synced_tvl {
                old(events)@.push(
                    FactoryEvent::TvlSynced {
                        pool_id: pool_id as u32,
                        previous: old(self).pools@[pool_id as int].synced_tvl,
                        live,
                    },
                )
            } else {
                old(events)@
            },
            final(self).admin == old(self).admin,
            final(self).wasm_hash == old(self).wasm_hash,
            final(self).creation_paused == old(self).creation_paused,
            final(self).admin_transfer_count == old(self).admin_transfer_count,
            final(self).upgrade_count == old(self).upgrade_count,
    {
        let e = self.pools[pool_id];
        let previous = e.synced_tvl;
        if live != previous {
            let t = saturating_add_i128(self.total_tvl, live);
            self.total_tvl = saturating_sub_i128(t, previous);
            events.push(FactoryEvent::TvlSynced { pool_id: pool_id as u32, previous, live });
        }
        self.pools.set(pool_id, PoolEntry { synced_tvl: live, ..e });
        assert(self.pools@ =~= old(self).pools@.update(
            pool_id as int,
            PoolEntry { synced_tvl: live, ..old(self).pools@[pool_id as int] },
        ));
    }

    /// Synchronize pool `pool_id`'s contribution to `total_tvl` with its live
    /// value `live` (the pool's reply to `total_staked`, `None` when it did
    /// not answer); permissionless. Returns the live value.
    pub fn sync_pool_tvl(&mut self, pool_id: u32, live: Option<i128>) -> (r: FactoryResult<i128>)
        requires
            old(self).wf(),
        ensures
            final(self).wf(),
            r is Err ==> *final(self) == *old(self),
            old(self).admin is None ==> r == refused::<i128>(FactoryError::NotInitialized),
            old(self).admin is Some && pool_id >= old(self).pools@.len() ==> r == refused::<i128>(
                FactoryError::PoolNotFound,
            ),
            old(self).admin is Some && pool_id < old(self).pools@.len() ==> match live {
                None => r == refused::<i128>(FactoryError::PoolQueryFailed),
                Some(v) => {
                    let prev = old(self).pools@[pool_id as int].synced_tvl;
                    &&& r is Ok
                    &&& r.unwrap().value == v
                    &&& r.unwrap().auth is None
                    &&& r.unwrap().transfers@.len() == 0
                    &&& r.unwrap().events@ == if v != prev {
                        seq![FactoryEvent::TvlSynced { pool_id, previous: prev, live: v }]
                    } else {
                        Seq::empty()
                    }
                    &&& final(self).upgraded_pools@ == old(self).upgraded_pools@
                    &&& final(self).pools@ == old(self).pools@.update(
                        pool_id as int,
                        PoolEntry { synced_tvl: v, ..old(self).pools@[pool_id as int] },
                    )
                    &&& final(self).total_tvl == synced_total(old(self).total_tvl, prev, v)
                    &&& final(self).admin == old(self).admin
                    &&& final(self).upgrade_count == old(self).upgrade_count
                },
            },
    {
        if self.admin.is_none() {
            return Err(Fault::Error(FactoryError::NotInitialized));
        }
        if (pool_id as usize) >= self.pools.len() {
            return Err(Fault::Error(FactoryError::PoolNotFound));
        }
        let v = match live {
            None => {
                return Err(Fault::Error(FactoryError::PoolQueryFailed));
            },
            Some(v) => v,
        };
        let mut events: Vec<FactoryEvent> = Vec::new();
        self.apply_sync(pool_id as usize, v, &mut events);
        Ok(Receipt::new(v, None, Vec::new(), events))
    }

    /// The pool IDs `sync_all_pool_tvls(start_id, limit, ..)` covers: from
    /// `start_id`, at most `min(limit, 50)` of them.
    pub fn tvl_sync_window(&self, start_id: u32, limit: u32) -> (r: (u32, u32))
        requires
            self.wf(),
        ensures
            r == (start_id, window_end(start_id, if limit > MAX_POOL_SCAN_PER_CALL { MAX_POOL_SCAN_PER_CALL } else { limit }, self.count())),
    {
        let window = if limit > MAX_POOL_SCAN_PER_CALL {
            MAX_POOL_SCAN_PER_CALL
        } else {
            limit
        };
        (start_id, window_end_exec(start_id, window, self.pools.len() as u32))
    }

    /// Synchronize the pools of `tvl_sync_window(start_id, limit)`, in ID
    /// order, with `replies` (one per pool; `None` skips a pool that did not
    /// answer); permissionless. Returns the end of the window.
    pub fn sync_all_pool_tvls(&mut self, start_id: u32, limit: u32, replies: &Vec<Option<i128>>) -> (r: FactoryResult<u32>)
        requires
            old(self).wf(),
            ({
                let end = window_end(start_id, if limit > MAX_POOL_SCAN_PER_CALL { MAX_POOL_SCAN_PER_CALL } else { limit }, old(self).count());
                old(self).admin is Some ==> replies@.len() == if end > start_id { end - start_id } else { 0 }
            }),
        ensures
            final(self).wf(),
            r is Err ==> *final(self) == *old(self),
            old(self).admin is None ==> r == refused::<u32>(FactoryError::NotInitialized),
            old(self).admin is Some ==> {
                let end = window_end(start_id, if limit > MAX_POOL_SCAN_PER_CALL { MAX_POOL_SCAN_PER_CALL } else { limit }, old(self).count());
                &&& r is Ok
                &&& r.unwrap().value == end
                &&& r.unwrap().auth is None
                &&& r.unwrap().transfers@.len() == 0
                &&& r.unwrap().events@ == batch_events(old(self).pools@, start_id as int, replies@)
                &&& final(self).upgraded_pools@ == old(self).upgraded_pools@
                &&& final(self).pools@ == batch_pools(old(self).pools@, start_id as int, replies@)
                &&& final(self).total_tvl == batch_total(old(self).pools@, old(self).total_tvl, start_id as int, replies@)
                &&& final(self).admin == old(self).admin
                &&& final(self).upgrade_count == old(self).upgrade_count
            },
    {
        if self.admin.is_none() {
            return Err(Fault::Error(FactoryError::NotInitialized));
        }
        let (_, end) = self.tvl_sync_window(start_id, limit);
        let ghost pools0 = self.pools@;
        let ghost total0 = self.total_tvl;
        let mut events: Vec<FactoryEvent> = Vec::new();
        let mut k: usize = 0;
        let n = replies.len();
        while k < n
            invariant
                n == replies@.len(),
                k <= n,
                n > 0 ==> start_id + n <= self.pools@.len(),
                self.pools@.len() == pools0.len(),
                pools0.len() <= u32::MAX,
                self.pools@ == batch_pools(pools0, start_id as int, replies@.take(k as int)),
                self.total_tvl == batch_total(pools0, total0, start_id as int, replies@.take(k as int)),
                events@ == batch_events(pools0, start_id as int, replies@.take(k as int)),
                self.admin == old(self).admin,
                self.upgrade_count == old(self).upgrade_count,
                self.wasm_hash == old(self).wasm_hash,
                self.upgraded_pools@ == old(self).upgraded_pools@,
            decreases n - k,
        {
            let ghost prefix = replies@.take(k as int);
            let ghost next = replies@.take(k + 1);
            assert(next.drop_last() =~= prefix);
            let id = start_id as usize + k;
            assert(self.pools@[id as int].synced_tvl == pools0[id as int].synced_tvl);
            match replies[k] {
                Some(v) => {
                    self.apply_sync(id, v, &mut events);
                },
                None => {},
            }
            assert(self.pools@ =~= batch_pools(pools0, start_id as int, next));
            k = k + 1;
        }
        assert(replies@.take(n as int) =~= replies@);
        Ok(Receipt::new(end, None, Vec::new(), events))
    }

    /// Point future pool deployments at `new_hash` (the admin authorizes).
    /// Refused with `InvalidWasmHash` for an all-zero hash.
    pub fn set_pool_wasm_hash(&mut self, new_hash: WasmHash) -> (r: FactoryResult<()>)
        requires
            old(self).wf(),
        ensures
            final(self).wf(),
            r is Err ==> *final(self) == *old(self),
            old(self).admin is None ==> r == refused::<()>(FactoryError::NotInitialized),
            old(self).admin matches Some(admin) ==> {
                if new_hash == (WasmHash { w0: 0, w1: 0, w2: 0, w3: 0 }) {
                    r == refused::<()>(FactoryError::InvalidWasmHash)
                } else {
                    &&& r is Ok
                    &&& r.unwrap().auth == Some(admin)
                    &&& r.unwrap().transfers@.len() == 0
                    &&& r.unwrap().events@ == seq![
                        FactoryEvent::WasmHashSet { old_hash: old(self).wasm_hash, new_hash },
                    ]
                    &&& final(self).wasm_hash == new_hash
                    &&& final(self).admin == old(self).admin
                    &&& final(self).same_pools(old(self))
                    &&& final(self).creation_paused == old(self).creation_paused
                    &&& final(self).total_tvl == old(self).total_tvl
                }
            },
    {
        let admin = match self.admin {
            None => {
                return Err(Fault::Error(FactoryError::NotInitialized));
            },
            Some(a) => a,
        };
        if new_hash.is_zero() {
            return Err(Fault::Error(FactoryError::InvalidWasmHash));
        }
        let old_hash = self.wasm_hash;
        self.wasm_hash = new_hash;
        Ok(Receipt::new((), Some(admin), Vec::new(), single(FactoryEvent::WasmHashSet { old_hash, new_hash })))
    }

    /// Set whether pool creation is paused (the admin authorizes).
    fn set_creation_paused(&mut self, paused: bool) -> (r: FactoryResult<()>)
        requires
            old(self).wf(),
        ensures
            final(self).wf(),
            r is Err ==> *final(self) == *old(self),
            old(self).admin is None ==> r == refused::<()>(FactoryError::NotInitialized),
            old(self).admin matches Some(admin) ==> {
                &&& r is Ok
                &&& r.unwrap().auth == Some(admin)
                &&& r.unwrap().transfers@.len() == 0
                &&& r.unwrap().events@ == seq![
                    if paused {
                        FactoryEvent::CreationPaused(admin)
                    } else {
                        FactoryEvent::CreationUnpaused(admin)
                    },
                ]
                &&& final(self).creation_paused == paused
                &&& final(self).admin == old(self).admin
                &&& final(self).wasm_hash == old(self).wasm_hash
                &&& final(self).same_pools(old(self))
                &&& final(self).total_tvl == old(self).total_tvl
            },
    {
        let admin = match self.admin {
            None => {
                return Err(Fault::Error(FactoryError::NotInitialized));
            },
            Some(a) => a,
        };
        self.creation_paused = paused;
        let event = if paused {
            FactoryEvent::CreationPaused(admin)
        } else {
            FactoryEvent::CreationUnpaused(admin)
        };
        Ok(Receipt::new((), Some(admin), Vec::new(), single(event)))
    }

    /// Pause pool creation (the admin authorizes).
    pub fn pause_pool_creation(&mut self) -> (r: FactoryResult<()>)
        requires
            old(self).wf(),
        ensures
            final(self).wf(),
            r is Err ==> *final(self) == *old(self),
            old(self).admin is None ==> r == refused::<()>(FactoryError::NotInitialized),
            old(self).admin matches Some(admin) ==> {
                &&& r is Ok
                &&& r.unwrap().auth == Some(admin)
                &&& r.unwrap().events@ == seq![FactoryEvent::CreationPaused(admin)]
                &&& final(self).creation_paused
                &&& final(self).admin == old(self).admin
                &&& final(self).same_pools(old(self))
            },
    {
        self.set_creation_paused(true)
    }

    /// Resume pool creation (the admin authorizes).
    pub fn unpause_pool_creation(&mut self) -> (r: FactoryResult<()>)
        requires
            old(self).wf(),
        ensures
            final(self).wf(),
            r is Err ==> *final(self) == *old(self),
            old(self).admin is None ==> r == refused::<()>(FactoryError::NotInitialized),
            old(self).admin matches Some(admin) ==> {
                &&& r is Ok
                &&& r.unwrap().auth == Some(admin)
                &&& r.unwrap().events@ == seq![FactoryEvent::CreationUnpaused(admin)]
                &&& !final(self).creation_paused
                &&& final(self).admin == old(self).admin
                &&& final(self).same_pools(old(self))
            },
    {
        self.set_creation_paused(false)
    }

    /// Whether pool creation is paused.
    pub fn is_pool_creation_paused(&self) -> (r: Result<bool, FactoryError>)
        ensures
            r == self.read(self.creation_paused),
    {
        if self.admin.is_none() {
            return Err(FactoryError::NotInitialized);
        }
        Ok(self.creation_paused)
    }

    /// The checks of `create_pool` and, when they pass, what the host needs
    /// to deploy and initialize the pool.
    pub open spec fn creation_plan(
        &self,
        asset: Address,
        daily_rate: u128,
        global_multiplier: u32,
        min_lock_period: u64,
        min_stake_amount: i128,
        probe: AssetProbe,
    ) -> Result<PoolPlan, FactoryError> {
        let min_stake = if min_stake_amount <= 0 {
            MIN_STAKE_AMOUNT
        } else {
            min_stake_amount
        };
        match self.admin {
            None => Err(FactoryError::NotInitialized),
            Some(admin) => if admin == crate::common::zero_account() {
                Err(FactoryError::InvalidAdmin)
            } else if self.creation_paused {
                Err(FactoryError::PoolCreationPaused)
            } else if !asset_accepted(probe) {
                Err(FactoryError::InvalidAsset)
            } else if global_multiplier < 1 {
                Err(FactoryError::InvalidGlobalMultiplier)
            } else if daily_rate == 0 {
                Err(FactoryError::InvalidCreditRate)
            } else if min_lock_period > u32::MAX {
                Err(FactoryError::MinLockPeriodOutOfRange)
            } else if min_lock_period < MIN_LOCK_PERIOD {
                Err(FactoryError::MinLockPeriodTooShort)
            } else if min_stake < MIN_STAKE_AMOUNT {
                Err(FactoryError::InvalidMinStakeAmount)
            } else if self.pools@.len() >= u32::MAX {
                Err(FactoryError::PoolCountOverflow)
            } else {
                Ok(
                    PoolPlan {
                        pool_id: self.pools@.len() as u32,
                        salt: WasmHash { w0: 0, w1: 0, w2: 0, w3: self.pools@.len() as u64 },
                        wasm_hash: self.wasm_hash,
                        admin,
                        asset,
                        global_multiplier,
                        credit_rate: ceil_per_ledger(daily_rate) as i128,
                        min_lock_period: min_lock_period as u32,
                        min_stake_amount: min_stake,
                    },
                )
            },
        }
    }

    /// `creation_plan` as a call.
    pub fn plan_create_pool(
        &self,
        asset: Address,
        daily_rate: u128,
        global_multiplier: u32,
        min_lock_period: u64,
        min_stake_amount: i128,
        probe: AssetProbe,
    ) -> (r: Result<PoolPlan, FactoryError>)
        requires
            self.wf(),
        ensures
            r == self.creation_plan(asset, daily_rate, global_multiplier, min_lock_period, min_stake_amount, probe),
    {
        let admin = match self.admin {
            None => {
                return Err(FactoryError::NotInitialized);
            },
            Some(a) => a,
        };
        if admin.is_zero_account() {
            return Err(FactoryError::InvalidAdmin);
        }
        if self.creation_paused {
            return Err(FactoryError::PoolCreationPaused);
        }
        let accepted = match probe {
            AssetProbe::Balance(b) => b >= 0,
            AssetProbe::Unreadable => false,
            AssetProbe::Failed => true,
        };
        if !accepted {
            return Err(FactoryError::InvalidAsset);
        }
        if global_multiplier < 1 {
            return Err(FactoryError::InvalidGlobalMultiplier);
        }
        let credit_rate = daily_rate_to_credit_rate(daily_rate)?;
        if min_lock_period > 4294967295u64 {
            return Err(FactoryError::MinLockPeriodOutOfRange);
        }
        let lock: u32 = min_lock_period as u32;
        if lock < MIN_LOCK_PERIOD {
            return Err(FactoryError::MinLockPeriodTooShort);
        }
        let min_stake = if min_stake_amount <= 0 {
            MIN_STAKE_AMOUNT
        } else {
            min_stake_amount
        };
        if min_stake < MIN_STAKE_AMOUNT {
            return Err(FactoryError::InvalidMinStakeAmount);
        }
        if self.pools.len() >= 4294967295usize {
            return Err(FactoryError::PoolCountOverflow);
        }
        let pool_id = self.pools.len() as u32;
        Ok(
            PoolPlan {
                pool_id,
                salt: pool_salt(pool_id),
                wasm_hash: self.wasm_hash,
                admin,
                asset,
                global_multiplier,
                credit_rate,
                min_lock_period: lock,
                min_stake_amount: min_stake,
            },
        )
    }

    /// Register a new pool (the admin authorizes), after the host deployed it
    /// at `pool_address` from `plan_create_pool`'s plan and initialized it
    /// with the plan's parameters. Refused as `creation_plan` says; otherwise
    /// the pool gets the next ID, a record mirroring its initialization and a
    /// zero value-locked contribution, and its ID is returned.
    pub fn create_pool(
        &mut self,
        asset: Address,
        daily_rate: u128,
        global_multiplier: u32,
        min_lock_period: u64,
        min_stake_amount: i128,
        probe: AssetProbe,
        pool_address: Address,
    ) -> (r: FactoryResult<u32>)
        requires
            old(self).wf(),
        ensures
            final(self).wf(),
            r is Err ==> *final(self) == *old(self),
            old(self).creation_plan(asset, daily_rate, global_multiplier, min_lock_period, min_stake_amount, probe) matches Err(e)
                ==> r == refused::<u32>(e),
            old(self).creation_plan(asset, daily_rate, global_multiplier, min_lock_period, min_stake_amount, probe) matches Ok(plan)
                ==> {
                let record = PoolRecord {
                    address: pool_address,
                    asset,
                    credit_rate: plan.credit_rate,
                    global_multiplier,
                    min_lock_period: plan.min_lock_period,
                    daily_rate,
                    wasm_hash: plan.wasm_hash,
                };
                &&& r is Ok
                &&& r.unwrap().value == plan.pool_id
                &&& plan.pool_id == old(self).pools@.len()
                &&& r.unwrap().auth == Some(plan.admin)
                &&& r.unwrap().transfers@.len() == 0
                &&& r.unwrap().events@ == seq![
                    FactoryEvent::PoolCreated {
                        pool_id: plan.pool_id,
                        pool_address,
                        asset,
                        credit_rate: plan.credit_rate,
                        global_multiplier,
                        min_lock_period: plan.min_lock_period,
                    },
                ]
                &&& final(self).upgraded_pools@ == old(self).upgraded_pools@
                &&& final(self).pools@ == old(self).pools@.push(
                    PoolEntry { record, creator: plan.admin, synced_tvl: 0 },
                )
                &&& final(self).admin == old(self).admin
                &&& final(self).wasm_hash == old(self).wasm_hash
                &&& final(self).creation_paused == old(self).creation_paused
                &&& final(self).total_tvl == old(self).total_tvl
                &&& final(self).upgrade_count == old(self).upgrade_count
                &&& final(self).admin_transfer_count == old(self).admin_transfer_count
            },
    {
        let plan = match self.plan_create_pool(
            asset,
            daily_rate,
            global_multiplier,
            min_lock_period,
            min_stake_amount,
            probe,
        ) {
            Err(e) => {
                return Err(Fault::Error(e));
            },
            Ok(p) => p,
        };
        let record = PoolRecord {
            address: pool_address,
            asset,
            credit_rate: plan.credit_rate,
            global_multiplier,
            min_lock_period: plan.min_lock_period,
            daily_rate,
            wasm_hash: plan.wasm_hash,
        };
        self.pools.push(PoolEntry { record, creator: plan.admin, synced_tvl: 0 });
        let event = FactoryEvent::PoolCreated {
            pool_id: plan.pool_id,
            pool_address,
            asset,
            credit_rate: plan.credit_rate,
            global_multiplier,
            min_lock_period: plan.min_lock_period,
        };
        Ok(Receipt::new(plan.pool_id, Some(plan.admin), Vec::new(), single(event)))
    }
}

} // verus!
