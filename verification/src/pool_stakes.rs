//! The flexible stake system of the farming pool: staking, unstaking, the
//! boost allocation, and the credit views that combine both systems.

use vstd::prelude::*;
use crate::common::{Address, Fault, Receipt, Transfer, Trap, fits_i128, single};
use crate::accounts::{Account, UserStake, BoostConfig, list_contains};
use crate::credits::{stake_accrual, checked_stake_accrual, credits_fit};
use crate::pool::{net_inflow, lemma_net_inflow_single, FarmingPool, PoolConfig, PoolTotals, PoolEvent, PoolError, PoolResult, refused, trapped};
use crate::pool_locks::{credit_totals, credit_earned, commit_fits, commit_credits, checkpoint_events, inc_u32, dec_u32};

verus! {

/// The boost allocation of an account (zero when none was set).
pub open spec fn boost_pct(acct: Account) -> u32 {
    match acct.boost {
        Some(p) => p,
        None => 0,
    }
}

/// The credits stake `s` of an account has accrued by `current`, under the
/// pool configuration `c`; `None` on overflow.
pub open spec fn stake_delta(c: PoolConfig, acct: Account, s: UserStake, current: u32) -> Option<int> {
    stake_accrual(
        s.amount as int,
        boost_pct(acct),
        s.multiplier,
        c.global_multiplier,
        c.multiplier_change_ledger,
        s.credit_rate as int,
        s.start_ledger,
        current,
    )
}

/// The stake after banking `delta` credits at `current` and adopting the
/// pool's current rate and multiplier.
pub open spec fn checkpointed_stake(c: PoolConfig, s: UserStake, delta: int, current: u32) -> UserStake {
    UserStake {
        credits_banked: (s.credits_banked + delta) as i128,
        start_ledger: current,
        credit_rate: c.credit_rate,
        multiplier: c.global_multiplier,
        ..s
    }
}

/// Whether checkpointing stake `s` at `current` stays within `i128`.
pub open spec fn stake_checkpoint_fits(c: PoolConfig, acct: Account, s: UserStake, t: PoolTotals, current: u32) -> bool {
    &&& stake_delta(c, acct, s, current) is Some
    &&& commit_fits(s.credits_banked as int, acct.earned, t, stake_delta(c, acct, s, current).unwrap())
}

/// Checkpoint stake `s`: the new stake, lifetime credits, totals and the
/// banked credits, or `None` on overflow.
pub(crate) fn checkpoint_stake(c: &PoolConfig, acct: &Account, s: UserStake, t: PoolTotals, current: u32) -> (r: Option<(UserStake, i128, PoolTotals, i128)>)
    ensures
        r is Some <==> stake_checkpoint_fits(*c, *acct, s, t, current),
        r matches Some((ns, e, nt, d)) ==> {
            &&& d == stake_delta(*c, *acct, s, current).unwrap()
            &&& ns == checkpointed_stake(*c, s, d as int, current)
            &&& e == credit_earned(acct.earned, d as int)
            &&& nt == credit_totals(t, d as int)
        },
{
    let pct = match acct.boost {
        Some(p) => p,
        None => 0,
    };
    let delta = match checked_stake_accrual(
        s.amount,
        pct,
        s.multiplier,
        c.global_multiplier,
        c.multiplier_change_ledger,
        s.credit_rate,
        s.start_ledger,
        current,
    ) {
        None => {
            return None;
        },
        Some(d) => d,
    };
    match commit_credits(s.credits_banked, acct.earned, t, delta) {
        None => None,
        Some((banked, e, nt)) => Some(
            (
                UserStake {
                    credits_banked: banked,
                    start_ledger: current,
                    credit_rate: c.credit_rate,
                    multiplier: c.global_multiplier,
                    ..s
                },
                e,
                nt,
                delta,
            ),
        ),
    }
}

/// The events of a checkpoint that banked `delta` into a record holding
/// `total` afterwards.
fn stake_checkpoint_events(user: Address, delta: i128, total: i128) -> (r: Vec<PoolEvent>)
    ensures
        r@ == checkpoint_events(user, delta as int, total),
{
    if delta > 0 {
        single(PoolEvent::Checkpoint { user, accrued: delta, total })
    } else {
        Vec::new()
    }
}

impl FarmingPool {
    /// The credits a top-up's checkpoint banks (zero for a first stake).
    pub open spec fn stake_top_up_delta(&self, ledger: u32, user: Address) -> int {
        let acct = self.accounts.get(user);
        match acct.stake {
            Some(s) => stake_delta(self.config, acct, s, ledger).unwrap(),
            None => 0,
        }
    }

    /// The stake `user` holds after staking `amount` more at `ledger`: a
    /// first stake starts accruing now; a top-up is checkpointed first.
    pub open spec fn staked_stake(&self, ledger: u32, user: Address, amount: i128) -> UserStake {
        let acct = self.accounts.get(user);
        match acct.stake {
            Some(s) => {
                let c = checkpointed_stake(self.config, s, self.stake_top_up_delta(ledger, user), ledger);
                UserStake { amount: (s.amount + amount) as i128, ..c }
            },
            None => UserStake {
                amount,
                start_ledger: ledger,
                credits_banked: 0,
                credit_rate: self.config.credit_rate,
                multiplier: self.config.global_multiplier,
            },
        }
    }

    /// Whether every total touched by a stake stays within its type.
    pub open spec fn stake_fits(&self, ledger: u32, user: Address, amount: i128) -> bool {
        let acct = self.accounts.get(user);
        let t = credit_totals(self.totals, self.stake_top_up_delta(ledger, user));
        &&& acct.stake matches Some(s) ==> stake_checkpoint_fits(self.config, acct, s, self.totals, ledger)
            && fits_i128(s.amount + amount)
        &&& acct.stake is None ==> t.active_stake_count < u32::MAX
        &&& !acct.is_staked() ==> t.staked_user_count < u32::MAX
        &&& fits_i128(t.total_staked + amount)
        &&& fits_i128(t.total_deposits + amount)
    }

    /// Stake `amount` of the stake token for `from` at `ledger` (the user
    /// authorizes and the tokens move into the pool). A top-up first banks
    /// the credits accrued so far.
    ///
    /// Refused with `NotInitialized`, with `Paused` while staking is paused,
    /// with `NotWhitelisted` for a user the whitelist keeps out, and with
    /// `BelowMinimumStake` for an amount below the minimum stake; traps on
    /// overflow. The amount must be positive whenever the pool is
    /// initialized and open for staking.
    pub fn stake(&mut self, ledger: u32, from: Address, amount: i128) -> (r: PoolResult<()>)
        requires
            old(self).wf(),
            old(self).config.admin is Some && !old(self).staking_blocked() ==> amount > 0,
        ensures
            final(self).wf(),
            r is Err ==> *final(self) == *old(self),
            r is Ok ==> net_inflow(r.unwrap().transfers@) == final(self).totals.total_staked
                - old(self).totals.total_staked,
            r is Ok && credits_fit(
                old(self).staked_stake(ledger, from, amount).amount as int,
                boost_pct(old(self).accounts.get(from)) as int,
                old(self).config.global_multiplier as int,
                old(self).config.credit_rate as int,
                0,
            ) ==> final(self).credits_at(ledger, from) == old(self).credits_at(ledger, from),
            old(self).config.admin is None ==> r == refused::<()>(PoolError::NotInitialized),
            old(self).config.admin is Some ==> {
                let acct = old(self).accounts.get(from);
                let s = old(self).staked_stake(ledger, from, amount);
                let delta = old(self).stake_top_up_delta(ledger, from);
                let t = credit_totals(old(self).totals, delta);
                if old(self).staking_blocked() {
                    r == refused::<()>(PoolError::Paused)
                } else if !old(self).admitted(from) {
                    r == refused::<()>(PoolError::NotWhitelisted)
                } else if amount < old(self).config.min_stake_amount {
                    r == refused::<()>(PoolError::BelowMinimumStake)
                } else if !old(self).stake_fits(ledger, from, amount) {
                    r == trapped::<()>(Trap::ArithmeticOverflow)
                } else {
                    &&& r is Ok
                    &&& r.unwrap().auth == Some(from)
                    &&& r.unwrap().transfers@ == seq![
                        Transfer::In { token: old(self).config.stake_token, from, amount },
                    ]
                    &&& r.unwrap().events@ == checkpoint_events(from, delta, s.credits_banked).push(
                        PoolEvent::Staked { user: from, amount },
                    )
                    &&& final(self).config == old(self).config
                    &&& final(self).whitelist@ == old(self).whitelist@
                    &&& forall|a: Address| #[trigger] final(self).accounts.get(a) == if a == from {
                        Account { stake: Some(s), earned: credit_earned(acct.earned, delta), ..acct }
                    } else {
                        old(self).accounts.get(a)
                    }
                    &&& final(self).totals == PoolTotals {
                        active_stake_count: if acct.stake is None {
                            (t.active_stake_count + 1) as u32
                        } else {
                            t.active_stake_count
                        },
                        staked_user_count: if acct.is_staked() {
                            t.staked_user_count
                        } else {
                            (t.staked_user_count + 1) as u32
                        },
                        total_staked: (t.total_staked + amount) as i128,
                        total_deposits: (t.total_deposits + amount) as i128,
                        ..t
                    }
                }
            },
    {
        if self.config.admin.is_none() {
            return Err(Fault::Error(PoolError::NotInitialized));
        }
        if self.config.paused || self.config.paused_staking {
            return Err(Fault::Error(PoolError::Paused));
        }
        if self.config.whitelist_enabled && !list_contains(&self.whitelist, &from) {
            return Err(Fault::Error(PoolError::NotWhitelisted));
        }
        if amount < self.config.min_stake_amount {
            return Err(Fault::Error(PoolError::BelowMinimumStake));
        }
        let acct = self.accounts.account(&from);
        let (new_stake, earned, totals, delta) = match acct.stake {
            Some(s) => match checkpoint_stake(&self.config, &acct, s, self.totals, ledger) {
                None => {
                    return Err(Fault::Trap(Trap::ArithmeticOverflow));
                },
                Some((c, e, t, d)) => {
                    let topped = match c.amount.checked_add(amount) {
                        None => {
                            return Err(Fault::Trap(Trap::ArithmeticOverflow));
                        },
                        Some(v) => v,
                    };
                    (UserStake { amount: topped, ..c }, e, t, d)
                },
            },
            None => (
                UserStake {
                    amount,
                    start_ledger: ledger,
                    credits_banked: 0,
                    credit_rate: self.config.credit_rate,
                    multiplier: self.config.global_multiplier,
                },
                acct.earned,
                self.totals,
                0i128,
            ),
        };
        let active = if acct.stake.is_none() {
            match inc_u32(totals.active_stake_count) {
                None => {
                    return Err(Fault::Trap(Trap::ArithmeticOverflow));
                },
                Some(v) => v,
            }
        } else {
            totals.active_stake_count
        };
        let staked_users = if acct.position.is_some() || acct.stake.is_some() {
            totals.staked_user_count
        } else {
            match inc_u32(totals.staked_user_count) {
                None => {
                    return Err(Fault::Trap(Trap::ArithmeticOverflow));
                },
                Some(v) => v,
            }
        };
        let staked = match totals.total_staked.checked_add(amount) {
            None => {
                return Err(Fault::Trap(Trap::ArithmeticOverflow));
            },
            Some(v) => v,
        };
        let deposits = match totals.total_deposits.checked_add(amount) {
            None => {
                return Err(Fault::Trap(Trap::ArithmeticOverflow));
            },
            Some(v) => v,
        };
        self.accounts.set(from, Account { stake: Some(new_stake), earned, ..acct });
        self.totals = PoolTotals {
            active_stake_count: active,
            staked_user_count: staked_users,
            total_staked: staked,
            total_deposits: deposits,
            ..totals
        };
        let mut events = stake_checkpoint_events(from, delta, new_stake.credits_banked);
        events.push(PoolEvent::Staked { user: from, amount });
        proof {
            lemma_net_inflow_single(Transfer::In { token: self.config.stake_token, from, amount });
        }
        Ok(
            Receipt::new(
                (),
                Some(from),
                single(Transfer::In { token: self.config.stake_token, from, amount }),
                events,
            ),
        )
    }

    /// The stake of `user` after a checkpoint at `ledger`.
    pub open spec fn stake_after_checkpoint(&self, ledger: u32, user: Address) -> UserStake {
        let acct = self.accounts.get(user);
        let s = acct.stake.unwrap();
        checkpointed_stake(self.config, s, stake_delta(self.config, acct, s, ledger).unwrap(), ledger)
    }

    /// Whether every total touched by an unstake stays within its type.
    pub open spec fn unstake_fits(&self, ledger: u32, user: Address) -> bool {
        let acct = self.accounts.get(user);
        let s = acct.stake.unwrap();
        let c = self.stake_after_checkpoint(ledger, user);
        let t = credit_totals(self.totals, stake_delta(self.config, acct, s, ledger).unwrap());
        &&& stake_checkpoint_fits(self.config, acct, s, self.totals, ledger)
        &&& c.credits_banked > 0 ==> fits_i128(t.total_banked_credits - c.credits_banked)
        &&& t.unstake_count < u32::MAX
        &&& fits_i128(t.total_staked - s.amount)
        &&& fits_i128(t.total_withdrawals + s.amount)
    }

    /// Withdraw `from`'s whole flexible stake at `ledger` (the user
    /// authorizes and the tokens move back): the stake is checkpointed, its
    /// banked credits are returned and leave the pool's banked total, and
    /// the stake is closed.
    ///
    /// Refused with `NotInitialized` and with `Paused` while withdrawals are
    /// paused; traps on overflow. Once the pool is initialized and open for
    /// withdrawals, `from` must hold a stake.
    pub fn unstake(&mut self, ledger: u32, from: Address) -> (r: PoolResult<i128>)
        requires
            old(self).wf(),
            old(self).config.admin is Some && !old(self).withdrawals_blocked() ==> old(
                self,
            ).accounts.get(from).stake is Some,
        ensures
            final(self).wf(),
            r is Err ==> *final(self) == *old(self),
            r is Ok ==> net_inflow(r.unwrap().transfers@) == final(self).totals.total_staked
                - old(self).totals.total_staked,
            old(self).config.admin is None ==> r == refused::<i128>(PoolError::NotInitialized),
            old(self).config.admin is Some ==> {
                let acct = old(self).accounts.get(from);
                let s = acct.stake.unwrap();
                let delta = stake_delta(old(self).config, acct, s, ledger).unwrap();
                let c = old(self).stake_after_checkpoint(ledger, from);
                let t = credit_totals(old(self).totals, delta);
                if old(self).withdrawals_blocked() {
                    r == refused::<i128>(PoolError::Paused)
                } else if !old(self).unstake_fits(ledger, from) {
                    r == trapped::<i128>(Trap::ArithmeticOverflow)
                } else {
                    &&& r is Ok
                    &&& r.unwrap().value == c.credits_banked
                    &&& r.unwrap().auth == Some(from)
                    &&& r.unwrap().transfers@ == seq![
                        Transfer::Out { token: old(self).config.stake_token, to: from, amount: s.amount },
                    ]
                    &&& r.unwrap().events@ == checkpoint_events(from, delta, c.credits_banked).push(
                        PoolEvent::Unstaked { user: from, amount: s.amount, credits: c.credits_banked },
                    )
                    &&& final(self).config == old(self).config
                    &&& final(self).whitelist@ == old(self).whitelist@
                    &&& forall|a: Address| #[trigger] final(self).accounts.get(a) == if a == from {
                        Account { stake: None, earned: credit_earned(acct.earned, delta), ..acct }
                    } else {
                        old(self).accounts.get(a)
                    }
                    &&& final(self).totals == PoolTotals {
                        total_banked_credits: if c.credits_banked > 0 {
                            (t.total_banked_credits - c.credits_banked) as i128
                        } else {
                            t.total_banked_credits
                        },
                        active_stake_count: if t.active_stake_count > 0 {
                            (t.active_stake_count - 1) as u32
                        } else {
                            0
                        },
                        staked_user_count: if acct.position is None && t.staked_user_count > 0 {
                            (t.staked_user_count - 1) as u32
                        } else {
                            t.staked_user_count
                        },
                        unstake_count: (t.unstake_count + 1) as u32,
                        total_staked: (t.total_staked - s.amount) as i128,
                        total_withdrawals: (t.total_withdrawals + s.amount) as i128,
                        ..t
                    }
                }
            },
    {
        if self.config.admin.is_none() {
            return Err(Fault::Error(PoolError::NotInitialized));
        }
        if self.config.paused || self.config.paused_withdrawals {
            return Err(Fault::Error(PoolError::Paused));
        }
        let acct = self.accounts.account(&from);
        let s = acct.stake.unwrap();
        let (c, earned, totals, delta) = match checkpoint_stake(&self.config, &acct, s, self.totals, ledger) {
            None => {
                return Err(Fault::Trap(Trap::ArithmeticOverflow));
            },
            Some(x) => x,
        };
        let credits = c.credits_banked;
        let banked_total = if credits > 0 {
            match totals.total_banked_credits.checked_sub(credits) {
                None => {
                    return Err(Fault::Trap(Trap::ArithmeticOverflow));
                },
                Some(v) => v,
            }
        } else {
            totals.total_banked_credits
        };
        let staked_users = if acct.position.is_none() {
            dec_u32(totals.staked_user_count)
        } else {
            totals.staked_user_count
        };
        let unstakes = match inc_u32(totals.unstake_count) {
            None => {
                return Err(Fault::Trap(Trap::ArithmeticOverflow));
            },
            Some(v) => v,
        };
        let staked = match totals.total_staked.checked_sub(s.amount) {
            None => {
                return Err(Fault::Trap(Trap::ArithmeticOverflow));
            },
            Some(v) => v,
        };
        let withdrawals = match totals.total_withdrawals.checked_add(s.amount) {
            None => {
                return Err(Fault::Trap(Trap::ArithmeticOverflow));
            },
            Some(v) => v,
        };
        self.accounts.set(from, Account { stake: None, earned, ..acct });
        self.totals = PoolTotals {
            total_banked_credits: banked_total,
            active_stake_count: dec_u32(totals.active_stake_count),
            staked_user_count: staked_users,
            unstake_count: unstakes,
            total_staked: staked,
            total_withdrawals: withdrawals,
            ..totals
        };
        let mut events = stake_checkpoint_events(from, delta, credits);
        events.push(PoolEvent::Unstaked { user: from, amount: s.amount, credits });
        proof {
            lemma_net_inflow_single(Transfer::Out { token: self.config.stake_token, to: from, amount: s.amount });
        }
        Ok(
            Receipt::new(
                credits,
                Some(from),
                single(Transfer::Out { token: self.config.stake_token, to: from, amount: s.amount }),
                events,
            ),
        )
    }

    /// The pool's total boost allocation after `user` moves to
    /// `allocation_pct`.
    pub open spec fn new_boost_alloc(&self, user: Address, allocation_pct: u32) -> int {
        self.totals.total_boost_alloc + allocation_pct - boost_pct(self.accounts.get(user))
    }

    /// Whether every total touched by `set_boost` stays within its type.
    pub open spec fn boost_fits(&self, ledger: u32, user: Address, allocation_pct: u32) -> bool {
        let acct = self.accounts.get(user);
        let s = acct.stake.unwrap();
        let t = credit_totals(self.totals, stake_delta(self.config, acct, s, ledger).unwrap());
        &&& stake_checkpoint_fits(self.config, acct, s, self.totals, ledger)
        &&& boost_pct(acct) == 0 ==> t.boost_user_count < u32::MAX
        &&& 0 <= self.new_boost_alloc(user, allocation_pct) <= u64::MAX
        &&& acct.boost is None ==> t.boost_count < u32::MAX
    }

    /// Set `user`'s boost allocation to `allocation_pct` percent at `ledger`
    /// (the admin authorizes). The stake is checkpointed under the old
    /// allocation first.
    ///
    /// Refused with `NotInitialized`, with `Paused` while staking is paused,
    /// and with `NoActiveStake` without a stake; traps on overflow. The
    /// allocation must lie in `1..=100` whenever the pool is initialized and
    /// open for staking.
    pub fn set_boost(&mut self, ledger: u32, user: Address, allocation_pct: u32) -> (r: PoolResult<()>)
        requires
            old(self).wf(),
            old(self).config.admin is Some && !old(self).staking_blocked() ==> 1 <= allocation_pct <= 100,
        ensures
            final(self).wf(),
            r is Err ==> *final(self) == *old(self),
            r is Ok && credits_fit(
                old(self).accounts.get(user).stake.unwrap().amount as int,
                allocation_pct as int,
                old(self).config.global_multiplier as int,
                old(self).config.credit_rate as int,
                0,
            ) ==> final(self).credits_at(ledger, user) == old(self).credits_at(ledger, user),
            r is Ok ==> net_inflow(r.unwrap().transfers@) == final(self).totals.total_staked
                - old(self).totals.total_staked,
            old(self).config.admin is None ==> r == refused::<()>(PoolError::NotInitialized),
            old(self).config.admin matches Some(admin) ==> {
                let acct = old(self).accounts.get(user);
                let s = acct.stake.unwrap();
                let delta = stake_delta(old(self).config, acct, s, ledger).unwrap();
                let c = old(self).stake_after_checkpoint(ledger, user);
                let t = credit_totals(old(self).totals, delta);
                if old(self).staking_blocked() {
                    r == refused::<()>(PoolError::Paused)
                } else if acct.stake is None {
                    r == refused::<()>(PoolError::NoActiveStake)
                } else if !old(self).boost_fits(ledger, user, allocation_pct) {
                    r == trapped::<()>(Trap::ArithmeticOverflow)
                } else {
                    &&& r is Ok
                    &&& r.unwrap().auth == Some(admin)
                    &&& r.unwrap().transfers@.len() == 0
                    &&& r.unwrap().events@ == checkpoint_events(user, delta, c.credits_banked).push(
                        PoolEvent::BoostApplied {
                            user,
                            allocation_pct,
                            multiplier: old(self).config.global_multiplier,
                        },
                    )
                    &&& final(self).config == old(self).config
                    &&& final(self).whitelist@ == old(self).whitelist@
                    &&& forall|a: Address| #[trigger] final(self).accounts.get(a) == if a == user {
                        Account {
                            stake: Some(c),
                            boost: Some(allocation_pct),
                            earned: credit_earned(acct.earned, delta),
                            ..acct
                        }
                    } else {
                        old(self).accounts.get(a)
                    }
                    &&& final(self).totals == PoolTotals {
                        boost_user_count: if boost_pct(acct) == 0 {
                            (t.boost_user_count + 1) as u32
                        } else {
                            t.boost_user_count
                        },
                        total_boost_alloc: old(self).new_boost_alloc(user, allocation_pct) as u64,
                        boost_count: if acct.boost is None {
                            (t.boost_count + 1) as u32
                        } else {
                            t.boost_count
                        },
                        ..t
                    }
                }
            },
    {
        let admin = match self.config.admin {
            None => {
                return Err(Fault::Error(PoolError::NotInitialized));
            },
            Some(a) => a,
        };
        if self.config.paused || self.config.paused_staking {
            return Err(Fault::Error(PoolError::Paused));
        }
        let acct = self.accounts.account(&user);
        let s = match acct.stake {
            None => {
                return Err(Fault::Error(PoolError::NoActiveStake));
            },
            Some(s) => s,
        };
        let (c, earned, totals, delta) = match checkpoint_stake(&self.config, &acct, s, self.totals, ledger) {
            None => {
                return Err(Fault::Trap(Trap::ArithmeticOverflow));
            },
            Some(x) => x,
        };
        let old_alloc: u32 = match acct.boost {
            Some(p) => p,
            None => 0,
        };
        let boost_users = if old_alloc == 0 {
            match inc_u32(totals.boost_user_count) {
                None => {
                    return Err(Fault::Trap(Trap::ArithmeticOverflow));
                },
                Some(v) => v,
            }
        } else {
            totals.boost_user_count
        };
        let alloc: u64 = if allocation_pct >= old_alloc {
            match totals.total_boost_alloc.checked_add((allocation_pct - old_alloc) as u64) {
                None => {
                    return Err(Fault::Trap(Trap::ArithmeticOverflow));
                },
                Some(v) => v,
            }
        } else {
            match totals.total_boost_alloc.checked_sub((old_alloc - allocation_pct) as u64) {
                None => {
                    return Err(Fault::Trap(Trap::ArithmeticOverflow));
                },
                Some(v) => v,
            }
        };
        let boosts = if acct.boost.is_none() {
            match inc_u32(totals.boost_count) {
                None => {
                    return Err(Fault::Trap(Trap::ArithmeticOverflow));
                },
                Some(v) => v,
            }
        } else {
            totals.boost_count
        };
        self.accounts.set(user, Account { stake: Some(c), boost: Some(allocation_pct), earned, ..acct });
        self.totals = PoolTotals {
            boost_user_count: boost_users,
            total_boost_alloc: alloc,
            boost_count: boosts,
            ..totals
        };
        let mut events = stake_checkpoint_events(user, delta, c.credits_banked);
        events.push(
            PoolEvent::BoostApplied { user, allocation_pct, multiplier: self.config.global_multiplier },
        );
        Ok(Receipt::new((), Some(admin), Vec::new(), events))
    }

    /// The global multiplier and `user`'s allocation (zero when none).
    pub fn get_boost_config(&self, user: Address) -> (r: Result<Option<BoostConfig>, PoolError>)
        ensures
            r == self.read(
                Some(
                    BoostConfig {
                        multiplier: self.config.global_multiplier,
                        allocation_pct: boost_pct(self.accounts.get(user)),
                    },
                ),
            ),
    {
        if self.config.admin.is_none() {
            return Err(PoolError::NotInitialized);
        }
        let pct = match self.accounts.account(&user).boost {
            Some(p) => p,
            None => 0,
        };
        Ok(Some(BoostConfig { multiplier: self.config.global_multiplier, allocation_pct: pct }))
    }

    /// The live credits of `user`'s flexible stake at `ledger` (banked plus
    /// accrued; zero without a stake), or `None` on overflow.
    pub open spec fn live_stake_credits(&self, ledger: u32, user: Address) -> Option<int> {
        let acct = self.accounts.get(user);
        match acct.stake {
            None => Some(0),
            Some(s) => match stake_delta(self.config, acct, s, ledger) {
                None => None,
                Some(d) => if fits_i128(s.credits_banked + d) {
                    Some(s.credits_banked + d)
                } else {
                    None
                },
            },
        }
    }

    /// `live_stake_credits`, with a trap on overflow.
    fn live_stake_credits_exec(&self, ledger: u32, user: &Address) -> (r: Result<i128, Fault<PoolError>>)
        ensures
            self.live_stake_credits(ledger, *user) matches Some(v) ==> r == Ok::<i128, Fault<PoolError>>(v as i128),
            self.live_stake_credits(ledger, *user) is None ==> r == Err::<i128, Fault<PoolError>>(
                Fault::Trap(Trap::ArithmeticOverflow),
            ),
    {
        let acct = self.accounts.account(user);
        match acct.stake {
            None => Ok(0),
            Some(s) => {
                let pct = match acct.boost {
                    Some(p) => p,
                    None => 0,
                };
                match checked_stake_accrual(
                    s.amount,
                    pct,
                    s.multiplier,
                    self.config.global_multiplier,
                    self.config.multiplier_change_ledger,
                    s.credit_rate,
                    s.start_ledger,
                    ledger,
                ) {
                    None => Err(Fault::Trap(Trap::ArithmeticOverflow)),
                    Some(d) => match s.credits_banked.checked_add(d) {
                        None => Err(Fault::Trap(Trap::ArithmeticOverflow)),
                        Some(v) => Ok(v),
                    },
                }
            },
        }
    }

    /// The stake-system credits of `user` at `ledger`: banked stake credits
    /// plus the live stake credits, or `None` on overflow.
    pub open spec fn stake_credits_at(&self, ledger: u32, user: Address) -> Option<int> {
        match self.live_stake_credits(ledger, user) {
            None => None,
            Some(v) => if fits_i128(self.banked_of(user).stake_credits + v) {
                Some(self.banked_of(user).stake_credits + v)
            } else {
                None
            },
        }
    }

    /// Credits of `user`'s flexible stake system at `ledger`.
    pub fn get_stake_credits(&self, ledger: u32, user: Address) -> (r: Result<i128, Fault<PoolError>>)
        ensures
            self.config.admin is None ==> r == Err::<i128, Fault<PoolError>>(
                Fault::Error(PoolError::NotInitialized),
            ),
            self.config.admin is Some ==> match self.stake_credits_at(ledger, user) {
                Some(v) => r == Ok::<i128, Fault<PoolError>>(v as i128),
                None => r == Err::<i128, Fault<PoolError>>(Fault::Trap(Trap::ArithmeticOverflow)),
            },
    {
        if self.config.admin.is_none() {
            return Err(Fault::Error(PoolError::NotInitialized));
        }
        let banked = self.get_banked_credits_split(user).unwrap();
        let live = self.live_stake_credits_exec(ledger, &user)?;
        match banked.stake_credits.checked_add(live) {
            None => Err(Fault::Trap(Trap::ArithmeticOverflow)),
            Some(v) => Ok(v),
        }
    }

    /// All credits of `user` at `ledger`: banked credits of both systems,
    /// the live position credits and the live stake credits, or `None` on
    /// overflow.
    pub open spec fn credits_at(&self, ledger: u32, user: Address) -> Option<int> {
        let b = self.banked_of(user);
        let p = self.position_credits_at(ledger, user);
        if !self.position_credits_fit(ledger, user) {
            None
        } else {
            match self.live_stake_credits(ledger, user) {
                None => None,
                Some(s) => if fits_i128(b.position_credits + b.stake_credits) && fits_i128(
                    b.position_credits + b.stake_credits + p,
                ) && fits_i128(b.position_credits + b.stake_credits + p + s) {
                    Some(b.position_credits + b.stake_credits + p + s)
                } else {
                    None
                },
            }
        }
    }

    /// All credits of `user` at `ledger`, across both staking systems and
    /// the banked credits.
    pub fn get_credits(&self, ledger: u32, user: Address) -> (r: Result<i128, Fault<PoolError>>)
        ensures
            self.config.admin is None ==> r == Err::<i128, Fault<PoolError>>(
                Fault::Error(PoolError::NotInitialized),
            ),
            self.config.admin is Some ==> match self.credits_at(ledger, user) {
                Some(v) => r == Ok::<i128, Fault<PoolError>>(v as i128),
                None => r == Err::<i128, Fault<PoolError>>(Fault::Trap(Trap::ArithmeticOverflow)),
            },
    {
        if self.config.admin.is_none() {
            return Err(Fault::Error(PoolError::NotInitialized));
        }
        let b = self.get_banked_credits_split(user).unwrap();
        let p = self.calculate_credits(ledger, user)?;
        let s = self.live_stake_credits_exec(ledger, &user)?;
        let sum1 = match b.position_credits.checked_add(b.stake_credits) {
            None => {
                return Err(Fault::Trap(Trap::ArithmeticOverflow));
            },
            Some(v) => v,
        };
        let sum2 = match sum1.checked_add(p) {
            None => {
                return Err(Fault::Trap(Trap::ArithmeticOverflow));
            },
            Some(v) => v,
        };
        match sum2.checked_add(s) {
            None => Err(Fault::Trap(Trap::ArithmeticOverflow)),
            Some(v) => Ok(v),
        }
    }

    /// `user`'s stake as it would stand after a checkpoint at `ledger`
    /// (nothing is stored), or `None` without a stake.
    pub fn get_stake(&self, ledger: u32, user: Address) -> (r: Result<Option<UserStake>, Fault<PoolError>>)
        ensures
            self.config.admin is None ==> r == Err::<Option<UserStake>, Fault<PoolError>>(
                Fault::Error(PoolError::NotInitialized),
            ),
            self.config.admin is Some ==> match self.accounts.get(user).stake {
                None => r == Ok::<Option<UserStake>, Fault<PoolError>>(None),
                Some(s) => match self.live_stake_credits(ledger, user) {
                    Some(v) => r == Ok::<Option<UserStake>, Fault<PoolError>>(
                        Some(
                            UserStake {
                                credits_banked: v as i128,
                                start_ledger: ledger,
                                credit_rate: self.config.credit_rate,
                                multiplier: self.config.global_multiplier,
                                ..s
                            },
                        ),
                    ),
                    None => r == Err::<Option<UserStake>, Fault<PoolError>>(
                        Fault::Trap(Trap::ArithmeticOverflow),
                    ),
                },
            },
    {
        if self.config.admin.is_none() {
            return Err(Fault::Error(PoolError::NotInitialized));
        }
        match self.accounts.account(&user).stake {
            None => Ok(None),
            Some(s) => {
                let v = self.live_stake_credits_exec(ledger, &user)?;
                Ok(
                    Some(
                        UserStake {
                            credits_banked: v,
                            start_ledger: ledger,
                            credit_rate: self.config.credit_rate,
                            multiplier: self.config.global_multiplier,
                            ..s
                        },
                    ),
                )
            },
        }
    }

    /// The ledger of `user`'s last stake checkpoint, or `None` without a
    /// stake.
    pub fn last_checkpoint_ledger(&self, user: Address) -> (r: Option<u32>)
        ensures
            r == match self.accounts.get(user).stake {
                Some(s) => Some(s.start_ledger),
                None => None::<u32>,
            },
    {
        match self.accounts.account(&user).stake {
            Some(s) => Some(s.start_ledger),
            None => None,
        }
    }
}

} // verus!
