//! Properties that span several operations of the contracts: how vesting
//! evolves over time, how credits behave across checkpoints, rate and
//! multiplier changes, how the factory's value-locked total follows the
//! pools, and how paging by asset walks the registry.

use vstd::prelude::*;
use crate::common::{Address, fits_i128};
use crate::vesting::{VestingState, lemma_linear_share};
use crate::credits::{total_stake, credits, credits_fit, boosted_part};
use crate::accounts::{
    Account, Position, UserStake, list_add_all, list_remove_all, lemma_list_add, lemma_list_remove,
};
use crate::pool::{FarmingPool, PoolConfig};
use crate::pool_locks::{position_delta, checkpointed_position};
use crate::pool_stakes::{boost_pct, stake_delta, stake_checkpoint_fits};
use crate::factory::{
    Factory, PoolEntry, ceil_per_ledger, synced_total, page_cap, id_entries, ids_where, lemma_ids_prefix, lemma_ids_where,
    lemma_ids_split, lemma_ids_complete, PoolRecord, PoolSort, FactoryEvent, sorted_by, precedes, batch_pools,
    batch_events, batch_total, window_end,
};

verus! {

// ---------------------------------------------------------------- vesting

/// The vested amount never leaves `0..=total_amount` and never decreases
/// as ledgers pass.
pub proof fn vesting_is_bounded_and_monotone(s: VestingState, l1: u32, l2: u32)
    requires
        s.wf(),
        l1 <= l2,
    ensures
        0 <= s.vested_at(l1) <= s.vested_at(l2) <= s.total_amount,
{
    if !s.revoked {
        let d = (s.end_ledger - s.start_ledger) as int;
        if s.cliff_ledger <= l1 < s.end_ledger {
            let e1 = (l1 - s.start_ledger) as int;
            lemma_linear_share(s.total_amount as int, e1, d);
            if l2 < s.end_ledger {
                let e2 = (l2 - s.start_ledger) as int;
                lemma_linear_share(s.total_amount as int, e2, d);
                vstd::arithmetic::mul::lemma_mul_inequality(e1, e2, s.total_amount as int);
                vstd::arithmetic::mul::lemma_mul_is_commutative(e1, s.total_amount as int);
                vstd::arithmetic::mul::lemma_mul_is_commutative(e2, s.total_amount as int);
                vstd::arithmetic::div_mod::lemma_div_is_ordered(
                    s.total_amount * e1,
                    s.total_amount * e2,
                    d,
                );
            }
        } else if l1 < s.cliff_ledger && s.cliff_ledger <= l2 < s.end_ledger {
            lemma_linear_share(s.total_amount as int, (l2 - s.start_ledger) as int, d);
        }
    }
}

/// After a release at `ledger`, nothing more is releasable at `ledger`,
/// and the wallet stays well formed.
pub proof fn release_leaves_nothing_releasable(s: VestingState, ledger: u32)
    requires
        s.wf(),
    ensures
        s.released_through(ledger).wf(),
        s.released_through(ledger).vested_at(ledger) - s.released_through(ledger).released == 0,
{
    vesting_is_bounded_and_monotone(s, ledger, ledger);
}

/// A revocation freezes the vested amount: at every later ledger the
/// vested amount is the one at the revocation, and the part sent back is
/// the rest of the total.
pub proof fn revocation_freezes_vesting(s: VestingState, at: u32, later: u32)
    requires
        s.wf(),
        !s.revoked,
    ensures
        s.revoked_at(at).wf(),
        s.revoked_at(at).vested_at(later) == s.vested_at(at),
        0 <= s.total_amount - s.vested_at(at) <= s.total_amount,
{
    vesting_is_bounded_and_monotone(s, at, at);
}

/// A revocation splits the total exactly: what was released before, what
/// the beneficiary can still release afterwards, and the refund to the
/// funder add up to the total, none of them negative, provided releases
/// never ran ahead of the ledger of the revocation.
pub proof fn revocation_splits_the_total(s: VestingState, at: u32, later: u32)
    requires
        s.wf(),
        !s.revoked,
        s.released <= s.vested_at(at),
    ensures
        s.total_amount - s.vested_at(at) >= 0,
        s.revoked_at(at).vested_at(later) - s.revoked_at(at).released >= 0,
        s.released + (s.revoked_at(at).vested_at(later) - s.revoked_at(at).released) + (s.total_amount
            - s.vested_at(at)) == s.total_amount,
{
    vesting_is_bounded_and_monotone(s, at, at);
}

// ---------------------------------------------------------- boosted stake

/// Without a boost the effective stake is the amount itself; with the
/// whole stake boosted it is the amount times the multiplier. Credits of
/// an unboosted stake are the amount times the rate times the ledgers.
pub proof fn effective_stake_at_the_boost_extremes(amount: int, multiplier: int, rate: int, ledgers: int)
    ensures
        total_stake(amount, 0, multiplier) == amount,
        total_stake(amount, 100, multiplier) == amount * multiplier,
        credits(amount, 0, multiplier, rate, ledgers) == amount * rate * ledgers,
{
    assert(boosted_part(amount, 0) == 0);
    if amount >= 0 {
        vstd::arithmetic::div_mod::lemma_div_multiples_vanish(amount, 100);
    } else {
        vstd::arithmetic::div_mod::lemma_div_multiples_vanish(-amount, 100);
    }
    assert(boosted_part(amount, 100) == amount);
}

// -------------------------------------------------------- locked positions

/// Checkpointing a position at its own rate does not change the credits
/// it shows at any later ledger.
pub proof fn position_checkpoint_preserves_credits(p: Position, l1: u32, l2: u32)
    requires
        p.checkpoint_ledger <= l1 <= l2,
        fits_i128(p.total_credits + position_delta(p, l1)),
    ensures
        checkpointed_position(p, l1, p.credit_rate).total_credits + position_delta(
            checkpointed_position(p, l1, p.credit_rate),
            l2,
        ) == p.total_credits + position_delta(p, l2),
{
    let x = (l1 - p.checkpoint_ledger) as int;
    let y = (l2 - l1) as int;
    vstd::arithmetic::mul::lemma_mul_is_distributive_add(p.amount * p.credit_rate, x, y);
}

/// Unlocking `a` and then `b` in the same ledger leaves the position that
/// unlocking `a + b` at once leaves.
pub proof fn unlock_split_is_invariant(
    before: FarmingPool,
    after: FarmingPool,
    ledger: u32,
    user: Address,
    a: i128,
    b: i128,
)
    requires
        before.accounts.get(user).position is Some,
        0 < a,
        0 < b,
        a + b <= before.accounts.get(user).position.unwrap().amount,
        after.accounts.get(user).position == Some(before.unlocked_position(ledger, user, a)),
        after.config.credit_rate == before.config.credit_rate,
    ensures
        after.unlocked_position(ledger, user, b) == before.unlocked_position(ledger, user, (a + b) as i128),
{
    let first = before.unlocked_position(ledger, user, a);
    assert(position_delta(first, ledger) == 0) by {
        assert(first.checkpoint_ledger == ledger);
        vstd::arithmetic::mul::lemma_mul_basics(first.amount * first.credit_rate);
    }
}

// ---------------------------------------------------------- flexible stakes

/// A stake unstaked in the ledger it was opened earns nothing.
pub proof fn flash_stake_earns_nothing(pool: FarmingPool, ledger: u32, user: Address, amount: i128)
    requires
        pool.accounts.get(user).stake is None,
        credits_fit(
            amount as int,
            boost_pct(pool.accounts.get(user)) as int,
            pool.config.global_multiplier as int,
            pool.config.credit_rate as int,
            0,
        ),
    ensures
        pool.staked_stake(ledger, user, amount).credits_banked == 0,
        stake_delta(pool.config, pool.accounts.get(user), pool.staked_stake(ledger, user, amount), ledger)
            == Some(0int),
{
    let acct = pool.accounts.get(user);
    vstd::arithmetic::mul::lemma_mul_basics(
        total_stake(amount as int, boost_pct(acct) as int, pool.config.global_multiplier as int)
            * pool.config.credit_rate,
    );
}

/// What the credit views report for a stake at `ledger` is exactly what
/// unstaking at `ledger` banks and returns, and `get_stake` shows the
/// stake as a checkpoint at `ledger` would leave it.
pub proof fn stake_view_matches_unstake(pool: FarmingPool, ledger: u32, user: Address)
    requires
        pool.accounts.get(user).stake is Some,
        stake_checkpoint_fits(
            pool.config,
            pool.accounts.get(user),
            pool.accounts.get(user).stake.unwrap(),
            pool.totals,
            ledger,
        ),
    ensures
        pool.live_stake_credits(ledger, user) == Some(
            pool.stake_after_checkpoint(ledger, user).credits_banked as int,
        ),
        (UserStake {
            credits_banked: pool.stake_after_checkpoint(ledger, user).credits_banked,
            start_ledger: ledger,
            credit_rate: pool.config.credit_rate,
            multiplier: pool.config.global_multiplier,
            ..pool.accounts.get(user).stake.unwrap()
        }) == pool.stake_after_checkpoint(ledger, user),
{
}

/// Changing the credit rate does not change the credits any record shows
/// at any ledger: records keep the rate they were checkpointed with.
pub proof fn credit_rate_change_is_not_retroactive(
    before: FarmingPool,
    after: FarmingPool,
    ledger: u32,
    user: Address,
)
    requires
        after.same_records(&before),
        after.config == (PoolConfig { credit_rate: after.config.credit_rate, ..before.config }),
    ensures
        after.position_credits_at(ledger, user) == before.position_credits_at(ledger, user),
        after.stake_credits_at(ledger, user) == before.stake_credits_at(ledger, user),
        after.credits_at(ledger, user) == before.credits_at(ledger, user),
{
}

/// A change of the global multiplier at ledger `change` leaves the credits
/// a stake accrued up to `change` as they were, and from `change` on the
/// stake earns at the new multiplier without a checkpoint.
pub proof fn multiplier_change_applies_from_its_ledger(
    c: PoolConfig,
    acct: Account,
    s: UserStake,
    m: u32,
    change: u32,
    later: u32,
)
    requires
        s.start_ledger < change <= later,
        s.multiplier == c.global_multiplier,
        stake_delta(c, acct, s, change) is Some,
        credits_fit(s.amount as int, boost_pct(acct) as int, m as int, s.credit_rate as int, 0),
    ensures
        stake_delta(
            PoolConfig { global_multiplier: m, multiplier_change_ledger: change, ..c },
            acct,
            s,
            change,
        ) == stake_delta(c, acct, s, change),
        stake_delta(PoolConfig { global_multiplier: m, multiplier_change_ledger: change, ..c }, acct, s, later)
            matches Some(d) ==> d == credits(
            s.amount as int,
            boost_pct(acct) as int,
            s.multiplier as int,
            s.credit_rate as int,
            (change - s.start_ledger) as int,
        ) + credits(s.amount as int, boost_pct(acct) as int, m as int, s.credit_rate as int, (later - change) as int),
{
    let pct = boost_pct(acct) as int;
    let x = (change - s.start_ledger) as int;
    let y = (later - change) as int;
    vstd::arithmetic::mul::lemma_mul_basics(
        total_stake(s.amount as int, pct, m as int) * s.credit_rate,
    );
    vstd::arithmetic::mul::lemma_mul_is_distributive_add(
        total_stake(s.amount as int, pct, s.multiplier as int) * s.credit_rate,
        x,
        y,
    );
}

// ---------------------------------------------------------------- whitelist

/// After a batch addition every listed user is whitelisted, and every other
/// address is whitelisted exactly when it was before.
pub proof fn batch_add_admits_every_listed_user(list: Seq<Address>, users: Seq<Address>)
    ensures
        forall|u: Address| users.contains(u) ==> list_add_all(list, users).contains(u),
        forall|x: Address| !users.contains(x) ==> (list_add_all(list, users).contains(x) <==> list.contains(x)),
    decreases users.len(),
{
    if users.len() > 0 {
        let rest = users.drop_last();
        batch_add_admits_every_listed_user(list, rest);
        lemma_list_add(list_add_all(list, rest), users.last());
        assert(list_add_all(list, users) == crate::accounts::list_add(list_add_all(list, rest), users.last()));
        assert forall|u: Address| users.contains(u) implies list_add_all(list, users).contains(u) by {
            if u != users.last() {
                let k = choose|k: int| 0 <= k < users.len() && users[k] == u;
                assert(k < users.len() - 1);
                assert(rest[k] == u);
                assert(rest.contains(u));
            }
        }
        assert forall|x: Address| !users.contains(x) implies (list_add_all(list, users).contains(x)
            <==> list.contains(x)) by {
            assert(x != users[users.len() - 1]);
            if rest.contains(x) {
                let k = choose|k: int| 0 <= k < rest.len() && rest[k] == x;
                assert(users[k] == x);
            }
        }
    }
}

/// After a batch removal no listed user is whitelisted, and every other
/// address is whitelisted exactly when it was before: a batch removal
/// undoes a batch addition of the same users.
pub proof fn batch_remove_excludes_every_listed_user(list: Seq<Address>, users: Seq<Address>)
    ensures
        forall|u: Address| users.contains(u) ==> !list_remove_all(list, users).contains(u),
        forall|x: Address| !users.contains(x) ==> (list_remove_all(list, users).contains(x) <==> list.contains(x)),
    decreases users.len(),
{
    if users.len() > 0 {
        let rest = users.drop_last();
        batch_remove_excludes_every_listed_user(list, rest);
        lemma_list_remove(list_remove_all(list, rest), users.last());
        assert(list_remove_all(list, users) == crate::accounts::list_remove(
            list_remove_all(list, rest),
            users.last(),
        ));
        assert forall|u: Address| users.contains(u) implies !list_remove_all(list, users).contains(u) by {
            if u != users.last() {
                let k = choose|k: int| 0 <= k < users.len() && users[k] == u;
                assert(k < users.len() - 1);
                assert(rest[k] == u);
                assert(rest.contains(u));
            }
        }
        assert forall|x: Address| !users.contains(x) implies (list_remove_all(list, users).contains(x)
            <==> list.contains(x)) by {
            assert(x != users[users.len() - 1]);
            if rest.contains(x) {
                let k = choose|k: int| 0 <= k < rest.len() && rest[k] == x;
                assert(users[k] == x);
            }
        }
    }
}

// ------------------------------------------------------------------ factory

/// The per-ledger rate of a positive daily rate is the daily rate divided
/// by the ledgers of a day, rounded up: at least one, and the smallest
/// rate whose day's worth reaches the daily rate.
pub proof fn daily_rate_rounds_up(daily_rate: u128)
    requires
        daily_rate > 0,
    ensures
        ceil_per_ledger(daily_rate) >= 1,
        ceil_per_ledger(daily_rate) * 17280 >= daily_rate,
        (ceil_per_ledger(daily_rate) - 1) * 17280 < daily_rate,
{
    let n = daily_rate + 17279;
    vstd::arithmetic::div_mod::lemma_fundamental_div_mod(n, 17280);
}

/// The sum of the value-locked contributions of `pools`.
pub open spec fn synced_sum(pools: Seq<PoolEntry>) -> int
    decreases pools.len(),
{
    if pools.len() == 0 {
        0
    } else {
        synced_sum(pools.drop_last()) + pools.last().synced_tvl
    }
}

proof fn lemma_synced_sum_update(pools: Seq<PoolEntry>, id: int, e: PoolEntry)
    requires
        0 <= id < pools.len(),
    ensures
        synced_sum(pools.update(id, e)) == synced_sum(pools) - pools[id].synced_tvl + e.synced_tvl,
    decreases pools.len(),
{
    let u = pools.update(id, e);
    if id == pools.len() - 1 {
        assert(u.drop_last() =~= pools.drop_last());
    } else {
        assert(u.drop_last() =~= pools.drop_last().update(id, e));
        lemma_synced_sum_update(pools.drop_last(), id, e);
    }
}

/// While no step of the accumulator saturates, synchronizing a pool keeps
/// the factory's total equal to the sum of the pools' contributions.
pub proof fn tvl_sync_keeps_total_equal_to_sum(pools: Seq<PoolEntry>, total: i128, id: int, live: i128)
    requires
        0 <= id < pools.len(),
        total == synced_sum(pools),
        fits_i128(total + live),
        fits_i128(total + live - pools[id].synced_tvl),
    ensures
        synced_total(total, pools[id].synced_tvl, live) == synced_sum(
            pools.update(id, PoolEntry { synced_tvl: live, ..pools[id] }),
        ),
{
    lemma_synced_sum_update(pools, id, PoolEntry { synced_tvl: live, ..pools[id] });
}

/// The sum of the snapshots lies in `0..=len * bound` when each does.
proof fn lemma_synced_sum_bounds(pools: Seq<PoolEntry>)
    requires
        forall|i: int| 0 <= i < pools.len() ==> 0 <= #[trigger] pools[i].synced_tvl <= 0x400_0000_0000_0000_0000_0000,
    ensures
        0 <= synced_sum(pools) <= pools.len() * 0x400_0000_0000_0000_0000_0000,
    decreases pools.len(),
{
    if pools.len() > 0 {
        lemma_synced_sum_bounds(pools.drop_last());
    }
}

/// A batch synchronization keeps the factory's total equal to the sum of
/// the pools' snapshots when it was so before: each reply moves the total
/// by the difference between the reply and the snapshot of the pool it is
/// for. (Stated for snapshots and replies up to 2^90, where no step of the
/// accumulator saturates.)
pub proof fn batch_sync_keeps_total_equal_to_sum(
    pools: Seq<PoolEntry>,
    total: i128,
    start: int,
    replies: Seq<Option<i128>>,
)
    requires
        0 <= start,
        start + replies.len() <= pools.len() <= u32::MAX,
        total == synced_sum(pools),
        forall|i: int| 0 <= i < pools.len() ==> 0 <= #[trigger] pools[i].synced_tvl <= 0x400_0000_0000_0000_0000_0000,
        forall|k: int| 0 <= k < replies.len() && #[trigger] replies[k] is Some ==> 0 <= replies[k].unwrap()
            <= 0x400_0000_0000_0000_0000_0000,
    ensures
        batch_total(pools, total, start, replies) == synced_sum(batch_pools(pools, start, replies)),
    decreases replies.len(),
{
    let after = batch_pools(pools, start, replies);
    if replies.len() == 0 {
        assert(after =~= pools);
    } else {
        let rest = replies.drop_last();
        assert forall|k: int| 0 <= k < rest.len() && #[trigger] rest[k] is Some implies 0 <= rest[k].unwrap()
            <= 0x400_0000_0000_0000_0000_0000 by {
            assert(rest[k] == replies[k]);
        }
        batch_sync_keeps_total_equal_to_sum(pools, total, start, rest);
        let mid = batch_pools(pools, start, rest);
        let bt = batch_total(pools, total, start, rest);
        let id = start + replies.len() - 1;
        assert(mid[id] == pools[id]);
        assert forall|i: int| 0 <= i < mid.len() implies 0 <= #[trigger] mid[i].synced_tvl
            <= 0x400_0000_0000_0000_0000_0000 by {
            if start <= i < start + rest.len() && rest[i - start] is Some {
                assert(rest[i - start] == replies[i - start]);
            }
        }
        lemma_synced_sum_bounds(mid);
        match replies.last() {
            Some(v) => {
                let e = PoolEntry { synced_tvl: v, ..pools[id] };
                assert(replies[replies.len() - 1] is Some);
                assert forall|i: int| 0 <= i < after.len() implies after[i] == #[trigger] mid.update(id, e)[i] by {
                    if start <= i < start + rest.len() {
                        assert(rest[i - start] == replies[i - start]);
                    }
                }
                assert(after =~= mid.update(id, e));
                lemma_synced_sum_update(mid, id, e);
            },
            None => {
                assert forall|i: int| 0 <= i < after.len() implies after[i] == #[trigger] mid[i] by {
                    if start <= i < start + rest.len() {
                        assert(rest[i - start] == replies[i - start]);
                    }
                }
                assert(after =~= mid);
            },
        }
    }
}

/// A newly registered pool contributes nothing until it is synchronized.
pub proof fn new_pool_keeps_total_equal_to_sum(pools: Seq<PoolEntry>, e: PoolEntry)
    requires
        e.synced_tvl == 0,
    ensures
        synced_sum(pools.push(e)) == synced_sum(pools),
{
    assert(pools.push(e).drop_last() =~= pools);
}

// ------------------------------------------------------------ asset pages

/// An asset page asked from an ID below the pool count lists exactly the
/// matching pools from `start_id` up to its `next_start_id`, which lies
/// beyond `start_id` and not beyond the pool count: each call makes
/// progress and skips nothing.
pub proof fn asset_page_lists_its_range(f: Factory, asset: Address, start_id: u32, scan_limit: u32, limit: u32)
    requires
        f.wf(),
        start_id < f.count(),
    ensures
        start_id < f.asset_page_next(asset, start_id, scan_limit, limit) <= f.count(),
        f.asset_page_ids(asset, start_id, scan_limit, limit) == f.asset_ids(
            asset,
            start_id as int,
            f.asset_page_next(asset, start_id, scan_limit, limit) as int,
        ),
{
    let pred = |i: int| f.pools@[i].record.asset == asset;
    let end = f.asset_scan_end(start_id, scan_limit);
    let ids = f.asset_ids(asset, start_id as int, end as int);
    let cap = page_cap(limit);
    assert(ids == ids_where(pred, start_id as int, end as int));
    lemma_ids_where(pred, start_id as int, end as int);
    if ids.len() > cap {
        let next = ids[cap as int];
        assert(ids[0] < next);
        lemma_ids_prefix(pred, start_id as int, next as int, end as int);
        let k = ids_where(pred, start_id as int, next as int).len() as int;
        assert(ids[k] == next);
        if k < cap {
            assert(ids[k] < ids[cap as int]);
        } else if k > cap {
            assert(ids[cap as int] < ids[k]);
        }
        assert(ids.take(cap as int) == ids_where(pred, start_id as int, next as int));
        assert(f.asset_ids(asset, start_id as int, next as int) == ids_where(pred, start_id as int, next as int));
    }
}

/// The matching IDs of two adjoining ranges, one after the other, are the
/// matching IDs of the whole range; so pages that each start where the
/// previous one stopped list, together, the matching IDs from the first
/// start on.
pub proof fn asset_ranges_join(f: Factory, asset: Address, lo: int, mid: int, hi: int)
    requires
        lo <= mid <= hi,
    ensures
        f.asset_ids(asset, lo, mid) + f.asset_ids(asset, mid, hi) == f.asset_ids(asset, lo, hi),
{
    let pred = |i: int| f.pools@[i].record.asset == asset;
    lemma_ids_split(pred, lo, mid, hi);
    assert(f.asset_ids(asset, lo, mid) == ids_where(pred, lo, mid));
    assert(f.asset_ids(asset, mid, hi) == ids_where(pred, mid, hi));
    assert(f.asset_ids(asset, lo, hi) == ids_where(pred, lo, hi));
}

/// The matching IDs of `lo..hi` ascend strictly and are exactly the IDs
/// there of the pools whose staking asset is `asset`.
pub proof fn asset_ids_are_the_matching_pools(f: Factory, asset: Address, lo: int, hi: int)
    requires
        f.wf(),
        0 <= lo,
        hi <= f.pools@.len(),
    ensures
        forall|i: int, j: int| 0 <= i < j < f.asset_ids(asset, lo, hi).len() ==> #[trigger] f.asset_ids(
            asset,
            lo,
            hi,
        )[i] < #[trigger] f.asset_ids(asset, lo, hi)[j],
        forall|k: int| 0 <= k < f.asset_ids(asset, lo, hi).len() ==> lo <= #[trigger] f.asset_ids(
            asset,
            lo,
            hi,
        )[k] < hi,
        forall|id: int| lo <= id < hi ==> (f.asset_ids(asset, lo, hi).contains(id as u32) <==> #[trigger] f.pools@[id].record.asset == asset),
{
    let pred = |i: int| f.pools@[i].record.asset == asset;
    let ids = f.asset_ids(asset, lo, hi);
    assert(ids == ids_where(pred, lo, hi));
    lemma_ids_where(pred, lo, hi);
    assert forall|id: int| lo <= id < hi implies (ids.contains(id as u32) <==> #[trigger] f.pools@[id].record.asset == asset) by {
        if pred(id) {
            lemma_ids_complete(pred, lo, hi, id);
        }
        if ids.contains(id as u32) {
            let k = choose|k: int| 0 <= k < ids.len() && ids[k] == id as u32;
            assert(pred(ids[k] as int));
        }
    }
}

/// Paging by asset from `start_id` (not beyond the pool count) with any
/// `scan_limit` and `limit`: the pages together list exactly the matching
/// pools from `start_id` to the end of the registry, each once and in
/// ascending order, in at most as many calls as there are pool IDs left.
/// (Each page's `has_more` is false exactly when its `next_start_id` is
/// the pool count, so the last page ends there.)
pub proof fn paging_by_asset_lists_every_matching_pool_once(
    f: Factory,
    asset: Address,
    start_id: u32,
    scan_limit: u32,
    limit: u32,
)
    requires
        f.wf(),
        start_id <= f.count(),
    ensures
        f.asset_pages_from(asset, start_id, scan_limit, limit) == id_entries(
            f.pools@,
            f.asset_ids(asset, start_id as int, f.count() as int),
        ),
        f.asset_page_calls(asset, start_id, scan_limit, limit) <= f.count() - start_id,
    decreases f.count() - start_id,
{
    let n = f.count();
    if start_id >= n {
        assert(ids_where(|i: int| f.pools@[i].record.asset == asset, start_id as int, n as int).len() == 0);
        assert(id_entries(f.pools@, f.asset_ids(asset, start_id as int, n as int)) =~= Seq::empty());
    } else {
        let next = f.asset_page_next(asset, start_id, scan_limit, limit);
        asset_page_lists_its_range(f, asset, start_id, scan_limit, limit);
        let a = f.asset_ids(asset, start_id as int, next as int);
        if next < n {
            paging_by_asset_lists_every_matching_pool_once(f, asset, next, scan_limit, limit);
            let b = f.asset_ids(asset, next as int, n as int);
            asset_ranges_join(f, asset, start_id as int, next as int, n as int);
            assert(id_entries(f.pools@, a) + id_entries(f.pools@, b) =~= id_entries(f.pools@, a + b));
        }
    }
}

// ------------------------------------------------------------ the laws of each result

/// A page sorted by `sort` is ordered by that key's own field: pool ID, or
/// credit rate, global multiplier or minimum lock period with ties broken
/// by ascending pool ID.
pub proof fn sorted_pages_follow_their_field(sort: PoolSort, s: Seq<(u32, PoolRecord)>)
    requires
        sorted_by(sort, s),
    ensures
        forall|i: int, j: int| 0 <= i < j < s.len() ==> match sort {
            PoolSort::PoolId => #[trigger] s[i].0 < #[trigger] s[j].0,
            PoolSort::CreditRate => s[i].1.credit_rate < s[j].1.credit_rate || (s[i].1.credit_rate
                == s[j].1.credit_rate && s[i].0 < s[j].0),
            PoolSort::GlobalMultiplier => s[i].1.global_multiplier < s[j].1.global_multiplier || (
            s[i].1.global_multiplier == s[j].1.global_multiplier && s[i].0 < s[j].0),
            PoolSort::MinLockPeriod => s[i].1.min_lock_period < s[j].1.min_lock_period || (
            s[i].1.min_lock_period == s[j].1.min_lock_period && s[i].0 < s[j].0),
        },
{
    assert forall|i: int, j: int| 0 <= i < j < s.len() implies match sort {
        PoolSort::PoolId => #[trigger] s[i].0 < #[trigger] s[j].0,
        PoolSort::CreditRate => s[i].1.credit_rate < s[j].1.credit_rate || (s[i].1.credit_rate
            == s[j].1.credit_rate && s[i].0 < s[j].0),
        PoolSort::GlobalMultiplier => s[i].1.global_multiplier < s[j].1.global_multiplier || (
        s[i].1.global_multiplier == s[j].1.global_multiplier && s[i].0 < s[j].0),
        PoolSort::MinLockPeriod => s[i].1.min_lock_period < s[j].1.min_lock_period || (
        s[i].1.min_lock_period == s[j].1.min_lock_period && s[i].0 < s[j].0),
    } by {
        assert(precedes(sort, s[i], s[j]));
    }
}

/// The effective stake of `amount` with a boost allocation of
/// `allocation_pct` percent under `multiplier`: the amount plus
/// `multiplier - 1` times the boosted part, which is
/// `amount * allocation_pct / 100` rounded toward zero.
pub proof fn effective_stake_formula(amount: int, allocation_pct: int, multiplier: int)
    requires
        0 <= allocation_pct,
    ensures
        total_stake(amount, allocation_pct, multiplier) == amount + (multiplier - 1) * (if amount >= 0 {
            amount * allocation_pct / 100
        } else {
            -(((-amount) * allocation_pct) / 100)
        }),
{
    let q = if amount >= 0 {
        amount * allocation_pct / 100
    } else {
        -(((-amount) * allocation_pct) / 100)
    };
    if amount >= 0 {
        assert(amount * allocation_pct >= 0) by (nonlinear_arith)
            requires
                amount >= 0,
                allocation_pct >= 0,
        ;
    } else {
        assert(amount * allocation_pct <= 0) by (nonlinear_arith)
            requires
                amount < 0,
                allocation_pct >= 0,
        ;
        assert(-(amount * allocation_pct) == (-amount) * allocation_pct) by (nonlinear_arith);
        if amount * allocation_pct == 0 {
            assert((-amount) * allocation_pct == 0);
        }
    }
    assert(boosted_part(amount, allocation_pct) == q);
    assert((amount - q) + q * multiplier == amount + (multiplier - 1) * q) by (nonlinear_arith);
}

/// A batch synchronization from `start` writes the `k`-th reply, when
/// there is one, to the pool with ID `start + k`, and leaves every other
/// pool as it was.
pub proof fn batch_sync_writes_each_reply_to_its_pool(pools: Seq<PoolEntry>, start: int, replies: Seq<Option<i128>>)
    requires
        0 <= start,
        start + replies.len() <= pools.len(),
    ensures
        batch_pools(pools, start, replies).len() == pools.len(),
        forall|k: int| 0 <= k < replies.len() ==> batch_pools(pools, start, replies)[start + k] == match #[trigger] replies[k] {
            Some(v) => PoolEntry { synced_tvl: v, ..pools[start + k] },
            None => pools[start + k],
        },
        forall|i: int| 0 <= i < pools.len() && !(start <= i < start + replies.len()) ==> #[trigger] batch_pools(
            pools,
            start,
            replies,
        )[i] == pools[i],
{
    assert forall|k: int| 0 <= k < replies.len() implies batch_pools(pools, start, replies)[start + k] == match #[trigger] replies[k] {
        Some(v) => PoolEntry { synced_tvl: v, ..pools[start + k] },
        None => pools[start + k],
    } by {
        assert(start + k - start == k);
    }
}

/// The events of a batch synchronization from `start`: one `TvlSynced` for
/// each reply that differs from its pool's snapshot, naming the pool
/// `start + k`, its snapshot and the reply, in ascending pool order, and no
/// others.
pub proof fn batch_sync_events_name_each_changed_pool(pools: Seq<PoolEntry>, start: int, replies: Seq<Option<i128>>)
    requires
        0 <= start,
        start + replies.len() <= pools.len(),
        pools.len() <= u32::MAX,
    ensures
        forall|e: FactoryEvent| #[trigger] batch_events(pools, start, replies).contains(e) ==> {
            &&& e matches FactoryEvent::TvlSynced { pool_id, previous, live }
            &&& start <= pool_id < start + replies.len()
            &&& replies[pool_id - start] == Some(live)
            &&& previous == pools[pool_id as int].synced_tvl
            &&& live != previous
        },
        forall|k: int| 0 <= k < replies.len() && (#[trigger] replies[k] matches Some(v) && v != pools[start + k].synced_tvl) ==> batch_events(
            pools,
            start,
            replies,
        ).contains(
            FactoryEvent::TvlSynced {
                pool_id: (start + k) as u32,
                previous: pools[start + k].synced_tvl,
                live: replies[k].unwrap(),
            },
        ),
        forall|i: int, j: int| 0 <= i < j < batch_events(pools, start, replies).len() ==> (#[trigger] batch_events(
            pools,
            start,
            replies,
        )[i])->TvlSynced_pool_id < (#[trigger] batch_events(pools, start, replies)[j])->TvlSynced_pool_id,
    decreases replies.len(),
{
    if replies.len() > 0 {
        let rest = replies.drop_last();
        batch_sync_events_name_each_changed_pool(pools, start, rest);
        let before = batch_events(pools, start, rest);
        let id = start + replies.len() - 1;
        assert forall|k: int| 0 <= k < rest.len() implies #[trigger] rest[k] == replies[k] by {}
        match replies.last() {
            Some(live) => {
                if live != pools[id].synced_tvl {
                    let ev = FactoryEvent::TvlSynced { pool_id: id as u32, previous: pools[id].synced_tvl, live };
                    let after = before.push(ev);
                    assert forall|e: FactoryEvent| #[trigger] after.contains(e) implies {
                        &&& e matches FactoryEvent::TvlSynced { pool_id, previous, live }
                        &&& start <= pool_id < start + replies.len()
                        &&& replies[pool_id - start] == Some(live)
                        &&& previous == pools[pool_id as int].synced_tvl
                        &&& live != previous
                    } by {
                        if e != ev {
                            let w = choose|w: int| 0 <= w < after.len() && after[w] == e;
                            assert(before[w] == e);
                            assert(before.contains(e));
                        }
                    }
                    assert forall|k: int| 0 <= k < replies.len() && (#[trigger] replies[k] matches Some(v) && v
                        != pools[start + k].synced_tvl) implies after.contains(
                        FactoryEvent::TvlSynced {
                            pool_id: (start + k) as u32,
                            previous: pools[start + k].synced_tvl,
                            live: replies[k].unwrap(),
                        },
                    ) by {
                        if k < rest.len() {
                            assert(rest[k] == replies[k]);
                            let x = FactoryEvent::TvlSynced {
                                pool_id: (start + k) as u32,
                                previous: pools[start + k].synced_tvl,
                                live: replies[k].unwrap(),
                            };
                            assert(before.contains(x));
                            let w = choose|w: int| 0 <= w < before.len() && before[w] == x;
                            assert(after[w] == x);
                        } else {
                            assert(after[before.len() as int] == ev);
                        }
                    }
                    assert forall|i: int, j: int| 0 <= i < j < after.len() implies (#[trigger] after[i])->TvlSynced_pool_id
                        < (#[trigger] after[j])->TvlSynced_pool_id by {
                        if j == before.len() {
                            assert(before.contains(before[i]));
                        } else {
                            assert(after[i] == before[i] && after[j] == before[j]);
                        }
                    }
                } else {
                    assert forall|k: int| 0 <= k < replies.len() && (#[trigger] replies[k] matches Some(v) && v
                        != pools[start + k].synced_tvl) implies before.contains(
                        FactoryEvent::TvlSynced {
                            pool_id: (start + k) as u32,
                            previous: pools[start + k].synced_tvl,
                            live: replies[k].unwrap(),
                        },
                    ) by {
                        if k < rest.len() {
                            assert(rest[k] == replies[k]);
                        }
                    }
                }
            },
            None => {
                assert forall|k: int| 0 <= k < replies.len() && (#[trigger] replies[k] matches Some(v) && v
                    != pools[start + k].synced_tvl) implies before.contains(
                    FactoryEvent::TvlSynced {
                        pool_id: (start + k) as u32,
                        previous: pools[start + k].synced_tvl,
                        live: replies[k].unwrap(),
                    },
                ) by {
                    if k < rest.len() {
                        assert(rest[k] == replies[k]);
                    }
                }
            },
        }
    }
}

/// The position a partial unlock of `amount` at `ledger` leaves: `amount`
/// less, checkpointed at `ledger` with the credits accrued so far at the
/// position's own rate folded in, and accruing from then on at the pool's
/// current credit rate; its lock and unlock ledgers are kept.
pub proof fn unlock_leaves_position_at_current_rate(pool: FarmingPool, ledger: u32, user: Address, amount: i128)
    requires
        pool.unlock_allowed(ledger, user, amount),
    ensures
        ({
            let p = pool.accounts.get(user).position.unwrap();
            let rest = pool.unlocked_position(ledger, user, amount);
            &&& rest.amount == p.amount - amount
            &&& rest.credit_rate == pool.config.credit_rate
            &&& rest.checkpoint_ledger == ledger
            &&& rest.lock_ledger == p.lock_ledger
            &&& rest.unlock_ledger == p.unlock_ledger
            &&& ledger >= p.checkpoint_ledger && fits_i128(
                p.total_credits + p.amount * p.credit_rate * (ledger - p.checkpoint_ledger),
            ) ==> rest.total_credits == p.total_credits + p.amount * p.credit_rate * (ledger
                - p.checkpoint_ledger)
        }),
{
}

/// The credits of the flexible stake system at `ledger`, when they fit:
/// the stake credits banked for `user` plus, while a stake is held, the
/// credits banked on it and those it accrued since its checkpoint. The
/// banked position credits play no part.
pub proof fn stake_credits_count_only_the_stake_system(pool: FarmingPool, ledger: u32, user: Address)
    ensures
        pool.stake_credits_at(ledger, user) matches Some(v) ==> {
            let acct = pool.accounts.get(user);
            v == (match acct.banked {
                Some(b) => b.stake_credits as int,
                None => 0,
            }) + (match acct.stake {
                Some(s) => s.credits_banked + stake_delta(pool.config, acct, s, ledger).unwrap(),
                None => 0,
            })
        },
{
}

/// Credits of a flexible stake over `ledgers` ledgers at `rate`: its
/// effective stake (the amount plus `multiplier - 1` times
/// `amount * allocation_pct / 100`, rounded toward zero) times the rate
/// times the ledgers.
pub proof fn stake_credits_formula(amount: int, allocation_pct: int, multiplier: int, rate: int, ledgers: int)
    requires
        0 <= allocation_pct,
    ensures
        credits(amount, allocation_pct, multiplier, rate, ledgers) == (amount + (multiplier - 1) * (if amount
            >= 0 {
            amount * allocation_pct / 100
        } else {
            -(((-amount) * allocation_pct) / 100)
        })) * rate * ledgers,
{
    effective_stake_formula(amount, allocation_pct, multiplier);
}

/// The credits of a locked position at `ledger` (from its checkpoint on):
/// those folded in at the checkpoint plus its amount times its rate times
/// the ledgers since.
pub proof fn position_credits_grow_linearly(pool: FarmingPool, ledger: u32, user: Address)
    requires
        pool.accounts.get(user).position is Some,
        ledger >= pool.accounts.get(user).position.unwrap().checkpoint_ledger,
    ensures
        ({
            let p = pool.accounts.get(user).position.unwrap();
            pool.position_credits_at(ledger, user) == p.total_credits + p.amount * p.credit_rate * (ledger
                - p.checkpoint_ledger)
        }),
{
}

/// The vested amount of a schedule not revoked: nothing before the cliff,
/// the whole total from the end on, and in between the share of the total
/// that the ledgers since the start make of the schedule's length, rounded
/// down.
pub proof fn vesting_follows_the_schedule(s: VestingState, ledger: u32)
    requires
        !s.revoked,
    ensures
        ledger < s.cliff_ledger ==> s.vested_at(ledger) == 0,
        ledger >= s.end_ledger && ledger >= s.cliff_ledger ==> s.vested_at(ledger) == s.total_amount,
        s.cliff_ledger <= ledger < s.end_ledger ==> s.vested_at(ledger) == s.total_amount * (ledger
            - s.start_ledger) / (s.end_ledger - s.start_ledger),
{
}

/// A plain page from an ID below the pool count lists the pools from
/// `start_id` on, one ID after the other: twenty of them when `limit` is
/// 0 or above twenty, else `limit` of them, and never past the last pool.
pub proof fn plain_page_lists_consecutive_pools(f: Factory, start_id: u32, limit: u32)
    requires
        f.wf(),
        start_id < f.count(),
    ensures
        ({
            let page = f.entries(start_id as int, window_end(start_id, page_cap(limit), f.count()) as int);
            let want: int = if limit == 0 || limit > 20 {
                20
            } else {
                limit as int
            };
            &&& page.len() == if start_id + want <= f.count() {
                want
            } else {
                f.count() - start_id
            }
            &&& forall|k: int| 0 <= k < page.len() ==> #[trigger] page[k] == ((start_id + k) as u32, f.pools@[start_id
                + k].record)
        }),
{
}

} // verus!
