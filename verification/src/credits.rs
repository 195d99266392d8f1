//! Credit arithmetic of the farming pool: the boosted stake, credits over a
//! span of ledgers, and the accrual of a flexible stake across a change of
//! the global multiplier.
//!
//! Every computation comes in a checked form that reports overflow of the
//! `i128` intermediate results (where the contract traps) with `None`.

use vstd::prelude::*;
use crate::common::fits_i128;

verus! {

/// `a / b` rounded toward zero, as Rust's integer division does.
pub open spec fn div_toward_zero(a: int, b: int) -> int
    recommends
        b > 0,
{
    if a >= 0 {
        a / b
    } else {
        -((-a) / b)
    }
}

/// The boosted part of `amount`: `amount * allocation_pct / 100`.
pub open spec fn boosted_part(amount: int, allocation_pct: int) -> int {
    div_toward_zero(amount * allocation_pct, 100)
}

/// The effective stake: the unboosted principal plus the boosted part
/// weighted by `multiplier`.
pub open spec fn total_stake(amount: int, allocation_pct: int, multiplier: int) -> int {
    (amount - boosted_part(amount, allocation_pct)) + boosted_part(amount, allocation_pct)
        * multiplier
}

/// Whether every intermediate result of the effective stake fits an `i128`.
pub open spec fn total_stake_fits(amount: int, allocation_pct: int, multiplier: int) -> bool {
    let boosted = boosted_part(amount, allocation_pct);
    &&& fits_i128(amount * allocation_pct)
    &&& fits_i128(amount - boosted)
    &&& fits_i128(boosted * multiplier)
    &&& fits_i128(total_stake(amount, allocation_pct, multiplier))
}

/// Credits earned by the effective stake at `credit_rate` over
/// `ledgers_elapsed` ledgers.
pub open spec fn credits(
    amount: int,
    allocation_pct: int,
    multiplier: int,
    credit_rate: int,
    ledgers_elapsed: int,
) -> int {
    total_stake(amount, allocation_pct, multiplier) * credit_rate * ledgers_elapsed
}

/// Whether every intermediate result of `credits` fits an `i128`.
pub open spec fn credits_fit(
    amount: int,
    allocation_pct: int,
    multiplier: int,
    credit_rate: int,
    ledgers_elapsed: int,
) -> bool {
    &&& total_stake_fits(amount, allocation_pct, multiplier)
    &&& fits_i128(total_stake(amount, allocation_pct, multiplier) * credit_rate)
    &&& fits_i128(credits(amount, allocation_pct, multiplier, credit_rate, ledgers_elapsed))
}

/// `a - b` for ledgers, stopping at zero.
pub open spec fn sat_sub(a: u32, b: u32) -> u32 {
    if a >= b {
        (a - b) as u32
    } else {
        0
    }
}

/// The smaller of two ledger counts.
pub open spec fn min_u32(a: u32, b: u32) -> u32 {
    if a <= b {
        a
    } else {
        b
    }
}

/// The ledgers of a stake's accrual span that fall before and after a
/// change of the global multiplier at `change_ledger`.
pub open spec fn split_span(start: u32, change_ledger: u32, current: u32) -> (u32, u32) {
    let elapsed = sat_sub(current, start);
    let pre = min_u32(sat_sub(change_ledger, start), elapsed);
    let post = min_u32(sat_sub(current, change_ledger), sat_sub(elapsed, pre));
    (pre, post)
}

/// Whether a stake snapshotted at `start` with `snapshot_multiplier`
/// accrues in a single span at that multiplier: the multiplier did not
/// change, or it last changed no later than `start`.
pub open spec fn single_span(
    snapshot_multiplier: u32,
    current_multiplier: u32,
    change_ledger: u32,
    start: u32,
) -> bool {
    snapshot_multiplier == current_multiplier || change_ledger <= start
}

/// The accrual of a flexible stake of `amount` with boost `allocation_pct`,
/// snapshotted at ledger `start` with `snapshot_multiplier` and
/// `credit_rate`, up to ledger `current`, when the global multiplier is
/// `current_multiplier` and last changed at `change_ledger`. Ledgers before
/// the change earn at the snapshot multiplier, ledgers after it at the
/// current one. `None` when an intermediate result overflows.
pub open spec fn stake_accrual(
    amount: int,
    allocation_pct: u32,
    snapshot_multiplier: u32,
    current_multiplier: u32,
    change_ledger: u32,
    credit_rate: int,
    start: u32,
    current: u32,
) -> Option<int> {
    let elapsed = sat_sub(current, start);
    if single_span(snapshot_multiplier, current_multiplier, change_ledger, start) {
        if credits_fit(amount, allocation_pct as int, snapshot_multiplier as int, credit_rate, elapsed as int) {
            Some(credits(amount, allocation_pct as int, snapshot_multiplier as int, credit_rate, elapsed as int))
        } else {
            None
        }
    } else {
        let (pre, post) = split_span(start, change_ledger, current);
        let a = credits(amount, allocation_pct as int, snapshot_multiplier as int, credit_rate, pre as int);
        let b = credits(amount, allocation_pct as int, current_multiplier as int, credit_rate, post as int);
        if credits_fit(amount, allocation_pct as int, snapshot_multiplier as int, credit_rate, pre as int)
            && credits_fit(amount, allocation_pct as int, current_multiplier as int, credit_rate, post as int)
            && fits_i128(a + b) {
            Some(a + b)
        } else {
            None
        }
    }
}

/// `amount * allocation_pct / 100` in `i128`, or `None` on overflow.
fn checked_boosted(amount: i128, allocation_pct: u32) -> (r: Option<i128>)
    ensures
        r is Some <==> fits_i128(amount * allocation_pct),
        r matches Some(v) ==> v == boosted_part(amount as int, allocation_pct as int),
{
    match amount.checked_mul(allocation_pct as i128) {
        None => None,
        Some(p) => {
            if p >= 0 {
                Some(p / 100)
            } else {
                // rounds toward zero like Rust's signed division
                let q: i128 = (-(p + 1)) / 100;
                let r: i128 = (-(p + 1)) % 100;
                if r == 99 {
                    Some(-q - 1)
                } else {
                    Some(-q)
                }
            }
        },
    }
}

/// The effective stake, or `None` when an intermediate result overflows.
pub fn checked_total_stake(amount: i128, allocation_pct: u32, multiplier: u32) -> (r: Option<i128>)
    ensures
        r is Some <==> total_stake_fits(amount as int, allocation_pct as int, multiplier as int),
        r matches Some(v) ==> v == total_stake(amount as int, allocation_pct as int, multiplier as int),
{
    let boosted = match checked_boosted(amount, allocation_pct) {
        None => {
            return None;
        },
        Some(b) => b,
    };
    let principal = match amount.checked_sub(boosted) {
        None => {
            return None;
        },
        Some(p) => p,
    };
    let virtual_stake = match boosted.checked_mul(multiplier as i128) {
        None => {
            return None;
        },
        Some(v) => v,
    };
    principal.checked_add(virtual_stake)
}

/// Splits `amount` into a principal part and a boosted virtual part and
/// returns the effective stake:
/// `(amount - amount * allocation_pct / 100) + (amount * allocation_pct / 100) * multiplier`.
/// With no boost (`allocation_pct == 0`) it is `amount`.
pub fn compute_total_stake(amount: i128, allocation_pct: u32, multiplier: u32) -> (r: i128)
    requires
        total_stake_fits(amount as int, allocation_pct as int, multiplier as int),
    ensures
        r == total_stake(amount as int, allocation_pct as int, multiplier as int),
{
    checked_total_stake(amount, allocation_pct, multiplier).unwrap()
}

/// Credits over `ledgers_elapsed` ledgers, or `None` on overflow.
pub fn checked_credits(
    amount: i128,
    allocation_pct: u32,
    multiplier: u32,
    credit_rate: i128,
    ledgers_elapsed: u32,
) -> (r: Option<i128>)
    ensures
        r is Some <==> credits_fit(
            amount as int,
            allocation_pct as int,
            multiplier as int,
            credit_rate as int,
            ledgers_elapsed as int,
        ),
        r matches Some(v) ==> v == credits(
            amount as int,
            allocation_pct as int,
            multiplier as int,
            credit_rate as int,
            ledgers_elapsed as int,
        ),
{
    let stake = match checked_total_stake(amount, allocation_pct, multiplier) {
        None => {
            return None;
        },
        Some(s) => s,
    };
    let per_ledger = match stake.checked_mul(credit_rate) {
        None => {
            return None;
        },
        Some(p) => p,
    };
    per_ledger.checked_mul(ledgers_elapsed as i128)
}

/// Credits earned by the effective stake at `credit_rate` over
/// `ledgers_elapsed` ledgers.
pub fn compute_credits(
    amount: i128,
    allocation_pct: u32,
    multiplier: u32,
    credit_rate: i128,
    ledgers_elapsed: u32,
) -> (r: i128)
    requires
        credits_fit(
            amount as int,
            allocation_pct as int,
            multiplier as int,
            credit_rate as int,
            ledgers_elapsed as int,
        ),
    ensures
        r == credits(
            amount as int,
            allocation_pct as int,
            multiplier as int,
            credit_rate as int,
            ledgers_elapsed as int,
        ),
{
    checked_credits(amount, allocation_pct, multiplier, credit_rate, ledgers_elapsed).unwrap()
}

/// `a - b` stopping at zero.
pub fn saturating_sub_u32(a: u32, b: u32) -> (r: u32)
    ensures
        r == sat_sub(a, b),
{
    if a >= b {
        a - b
    } else {
        0
    }
}

/// The accrual of a flexible stake (see `stake_accrual`), or `None` on
/// overflow.
pub fn checked_stake_accrual(
    amount: i128,
    allocation_pct: u32,
    snapshot_multiplier: u32,
    current_multiplier: u32,
    change_ledger: u32,
    credit_rate: i128,
    start: u32,
    current: u32,
) -> (r: Option<i128>)
    ensures
        r is Some <==> stake_accrual(
            amount as int,
            allocation_pct,
            snapshot_multiplier,
            current_multiplier,
            change_ledger,
            credit_rate as int,
            start,
            current,
        ) is Some,
        r matches Some(v) ==> v == stake_accrual(
            amount as int,
            allocation_pct,
            snapshot_multiplier,
            current_multiplier,
            change_ledger,
            credit_rate as int,
            start,
            current,
        ).unwrap(),
{
    let elapsed = saturating_sub_u32(current, start);
    if snapshot_multiplier == current_multiplier || change_ledger <= start {
        return checked_credits(amount, allocation_pct, snapshot_multiplier, credit_rate, elapsed);
    }
    let since_start = saturating_sub_u32(change_ledger, start);
    let pre = if since_start <= elapsed {
        since_start
    } else {
        elapsed
    };
    let since_change = saturating_sub_u32(current, change_ledger);
    let rest = saturating_sub_u32(elapsed, pre);
    let post = if since_change <= rest {
        since_change
    } else {
        rest
    };
    let a = match checked_credits(amount, allocation_pct, snapshot_multiplier, credit_rate, pre) {
        None => {
            return None;
        },
        Some(a) => a,
    };
    let b = match checked_credits(amount, allocation_pct, current_multiplier, credit_rate, post) {
        None => {
            return None;
        },
        Some(b) => b,
    };
    a.checked_add(b)
}

/// Credits of a locked position of `amount` at `credit_rate` over
/// `elapsed` ledgers: `amount * credit_rate * elapsed`.
pub open spec fn position_accrual(amount: int, credit_rate: int, elapsed: int) -> int {
    amount * credit_rate * elapsed
}

/// Whether the intermediate results of `position_accrual` fit an `i128`.
pub open spec fn position_accrual_fits(amount: int, credit_rate: int, elapsed: int) -> bool {
    fits_i128(amount * credit_rate) && fits_i128(amount * credit_rate * elapsed)
}

/// `amount * credit_rate * elapsed`, or `None` on overflow.
pub fn checked_position_accrual(amount: i128, credit_rate: i128, elapsed: u32) -> (r: Option<i128>)
    ensures
        r is Some <==> position_accrual_fits(amount as int, credit_rate as int, elapsed as int),
        r matches Some(v) ==> v == position_accrual(amount as int, credit_rate as int, elapsed as int),
{
    match amount.checked_mul(credit_rate) {
        None => None,
        Some(p) => p.checked_mul(elapsed as i128),
    }
}

} // verus!
