//! The time-locked position system of the farming pool: locking, unlocking,
//! the emergency exit, and the credit views of a position.

use vstd::prelude::*;
use crate::common::{Address, Fault, Receipt, Transfer, Trap, fits_i128, single};
use crate::accounts::{Account, Position, BankedCreditTotals, list_contains};
use crate::credits::{sat_sub, position_accrual, position_accrual_fits, checked_position_accrual, saturating_sub_u32};
use crate::pool::{net_inflow, lemma_net_inflow_single, lemma_net_inflow_append, FarmingPool, PoolTotals, PoolEvent, PoolError, PoolResult, refused, trapped};
use crate::pool_stakes::{stake_delta, stake_checkpoint_fits, checkpoint_stake};

verus! {

/// Credits a position has accrued since its checkpoint, at `current`.
pub open spec fn position_delta(p: Position, current: u32) -> int {
    position_accrual(p.amount as int, p.credit_rate as int, sat_sub(current, p.checkpoint_ledger) as int)
}

/// The position after folding its accrual into `total_credits` at
/// `current` and adopting `rate` for the ledgers to come.
pub open spec fn checkpointed_position(p: Position, current: u32, rate: i128) -> Position {
    Position {
        total_credits: (p.total_credits + position_delta(p, current)) as i128,
        checkpoint_ledger: current,
        credit_rate: rate,
        ..p
    }
}

/// Pool totals after `delta` credits are committed for a user: they count
/// toward the committed and distributed totals, and, when positive, toward
/// the banked total.
pub open spec fn credit_totals(t: PoolTotals, delta: int) -> PoolTotals {
    PoolTotals {
        total_credits: (t.total_credits + delta) as i128,
        total_distributed_credits: (t.total_distributed_credits + delta) as i128,
        total_banked_credits: if delta > 0 {
            (t.total_banked_credits + delta) as i128
        } else {
            t.total_banked_credits
        },
        ..t
    }
}

/// The user's lifetime credits after `delta` credits are committed.
pub open spec fn credit_earned(earned: i128, delta: int) -> i128 {
    if delta > 0 {
        (earned + delta) as i128
    } else {
        earned
    }
}

/// Whether committing `delta` credits to a record holding `record_total`
/// keeps every total within `i128`.
pub open spec fn commit_fits(record_total: int, earned: i128, t: PoolTotals, delta: int) -> bool {
    &&& fits_i128(record_total + delta)
    &&& fits_i128(t.total_credits + delta)
    &&& fits_i128(t.total_distributed_credits + delta)
    &&& delta > 0 ==> fits_i128(t.total_banked_credits + delta) && fits_i128(earned + delta)
}

/// Whether checkpointing position `p` at `current` stays within `i128`.
pub open spec fn position_checkpoint_fits(p: Position, earned: i128, t: PoolTotals, current: u32) -> bool {
    &&& position_accrual_fits(p.amount as int, p.credit_rate as int, sat_sub(current, p.checkpoint_ledger) as int)
    &&& commit_fits(p.total_credits as int, earned, t, position_delta(p, current))
}

/// The events a checkpoint publishes: one when it banked something.
pub open spec fn checkpoint_events(user: Address, delta: int, total: i128) -> Seq<PoolEvent> {
    if delta > 0 {
        seq![PoolEvent::Checkpoint { user, accrued: delta as i128, total }]
    } else {
        seq![]
    }
}

/// Commit `delta` credits: returns the new lifetime credits and totals, or
/// `None` when a total would leave `i128`.
pub fn commit_credits(record_total: i128, earned: i128, t: PoolTotals, delta: i128) -> (r: Option<(i128, i128, PoolTotals)>)
    ensures
        r is Some <==> commit_fits(record_total as int, earned, t, delta as int),
        r matches Some((rt, e, nt)) ==> {
            &&& rt == record_total + delta
            &&& e == credit_earned(earned, delta as int)
            &&& nt == credit_totals(t, delta as int)
        },
{
    let rt = match record_total.checked_add(delta) {
        None => {
            return None;
        },
        Some(v) => v,
    };
    let tc = match t.total_credits.checked_add(delta) {
        None => {
            return None;
        },
        Some(v) => v,
    };
    let td = match t.total_distributed_credits.checked_add(delta) {
        None => {
            return None;
        },
        Some(v) => v,
    };
    if delta > 0 {
        let tb = match t.total_banked_credits.checked_add(delta) {
            None => {
                return None;
            },
            Some(v) => v,
        };
        let e = match earned.checked_add(delta) {
            None => {
                return None;
            },
            Some(v) => v,
        };
        Some(
            (
                rt,
                e,
                PoolTotals {
                    total_credits: tc,
                    total_distributed_credits: td,
                    total_banked_credits: tb,
                    ..t
                },
            ),
        )
    } else {
        Some((rt, earned, PoolTotals { total_credits: tc, total_distributed_credits: td, ..t }))
    }
}

/// Checkpoint position `p` at `current`: returns the new position, the
/// user's new lifetime credits, the new totals and the accrued credits, or
/// `None` on overflow.
fn checkpoint_position(p: Position, earned: i128, t: PoolTotals, current: u32, rate: i128) -> (r: Option<(Position, i128, PoolTotals, i128)>)
    ensures
        r is Some <==> position_checkpoint_fits(p, earned, t, current),
        r matches Some((np, e, nt, d)) ==> {
            &&& d == position_delta(p, current)
            &&& np == checkpointed_position(p, current, rate)
            &&& e == credit_earned(earned, d as int)
            &&& nt == credit_totals(t, d as int)
        },
{
    let elapsed = saturating_sub_u32(current, p.checkpoint_ledger);
    let delta = match checked_position_accrual(p.amount, p.credit_rate, elapsed) {
        None => {
            return None;
        },
        Some(d) => d,
    };
    match commit_credits(p.total_credits, earned, t, delta) {
        None => None,
        Some((total, e, nt)) => Some(
            (
                Position { total_credits: total, checkpoint_ledger: current, credit_rate: rate, ..p },
                e,
                nt,
                delta,
            ),
        ),
    }
}

/// The events of a checkpoint that banked `delta` into a record holding
/// `total` afterwards.
fn checkpoint_event_list(user: Address, delta: i128, total: i128) -> (r: Vec<PoolEvent>)
    ensures
        r@ == checkpoint_events(user, delta as int, total),
{
    if delta > 0 {
        single(PoolEvent::Checkpoint { user, accrued: delta, total })
    } else {
        Vec::new()
    }
}

/// `x + 1`, or `None` at `u32::MAX`.
pub fn inc_u32(x: u32) -> (r: Option<u32>)
    ensures
        r is Some <==> x < u32::MAX,
        r matches Some(v) ==> v == x + 1,
{
    if x < u32::MAX {
        Some(x + 1)
    } else {
        None
    }
}

/// `x - 1`, stopping at zero.
pub fn dec_u32(x: u32) -> (r: u32)
    ensures
        r == if x > 0 {
            (x - 1) as u32
        } else {
            0
        },
{
    if x > 0 {
        x - 1
    } else {
        0
    }
}

/// `a + b` on ledgers, stopping at `u32::MAX`.
pub open spec fn sat_add(a: u32, b: u32) -> u32 {
    if a + b <= u32::MAX {
        (a + b) as u32
    } else {
        u32::MAX
    }
}

/// The larger of two ledgers.
pub open spec fn max_u32(a: u32, b: u32) -> u32 {
    if a >= b {
        a
    } else {
        b
    }
}

impl FarmingPool {
    /// The amount already locked by `user`.
    pub open spec fn locked_amount(&self, user: Address) -> int {
        match self.accounts.get(user).position {
            Some(p) => p.amount as int,
            None => 0,
        }
    }

    /// The position `user` holds after locking `amount` more at `ledger`,
    /// when the lock goes through: a new position starts accruing now and
    /// unlocks after the minimum lock period; a top-up is checkpointed
    /// first and unlocks at the later of its unlock ledger and a fresh
    /// period from now.
    pub open spec fn locked_position(&self, ledger: u32, user: Address, amount: i128) -> Position {
        let rate = self.config.credit_rate;
        let fresh_unlock = sat_add(ledger, self.config.min_lock_period);
        match self.accounts.get(user).position {
            Some(p) => {
                let c = checkpointed_position(p, ledger, rate);
                Position {
                    amount: (p.amount + amount) as i128,
                    unlock_ledger: max_u32(p.unlock_ledger, fresh_unlock),
                    ..c
                }
            },
            None => Position {
                amount,
                lock_ledger: ledger,
                unlock_ledger: fresh_unlock,
                checkpoint_ledger: ledger,
                total_credits: 0,
                credit_rate: rate,
            },
        }
    }

    /// The credits a top-up's checkpoint banks (zero for a new position).
    pub open spec fn lock_delta(&self, ledger: u32, user: Address) -> int {
        match self.accounts.get(user).position {
            Some(p) => position_delta(p, ledger),
            None => 0,
        }
    }

    /// Whether every total touched by a lock stays within its type.
    pub open spec fn lock_fits(&self, ledger: u32, user: Address, amount: i128) -> bool {
        let acct = self.accounts.get(user);
        let t = credit_totals(self.totals, self.lock_delta(ledger, user));
        &&& fits_i128(self.locked_amount(user) + amount)
        &&& acct.position matches Some(p) ==> position_checkpoint_fits(p, acct.earned, self.totals, ledger)
        &&& !acct.is_staked() ==> t.staked_user_count < u32::MAX
        &&& t.lock_count < u32::MAX
        &&& fits_i128(t.total_staked + amount)
        &&& fits_i128(t.total_locked + amount)
        &&& fits_i128(t.total_deposits + amount)
    }

    /// Whether `user` may deposit while the whitelist is in force.
    pub open spec fn admitted(&self, user: Address) -> bool {
        !self.config.whitelist_enabled || self.whitelist@.contains(user)
    }

    /// Lock `amount` of the stake token for `user` at `ledger` (the user
    /// authorizes and the tokens move into the pool).
    ///
    /// Refused with `NotInitialized`, with `Paused` while staking is paused,
    /// with `NotWhitelisted` for a user the whitelist keeps out, and with
    /// `BelowMinimumStake` when the resulting position would be below the
    /// minimum stake; traps on overflow. The amount must be positive
    /// whenever the pool is initialized and open for staking.
    pub fn lock_assets(&mut self, ledger: u32, user: Address, amount: i128) -> (r: PoolResult<()>)
        requires
            old(self).wf(),
            old(self).config.admin is Some && !old(self).staking_blocked() ==> amount > 0,
        ensures
            final(self).wf(),
            r is Err ==> *final(self) == *old(self),
            r is Ok && position_accrual_fits(
                old(self).locked_position(ledger, user, amount).amount as int,
                old(self).config.credit_rate as int,
                0,
            ) ==> final(self).credits_at(ledger, user) == old(self).credits_at(ledger, user),
            r is Ok ==> net_inflow(r.unwrap().transfers@) == final(self).totals.total_staked
                - old(self).totals.total_staked,
            old(self).config.admin is None ==> r == refused::<()>(PoolError::NotInitialized),
            old(self).config.admin is Some ==> {
                let acct = old(self).accounts.get(user);
                let pos = old(self).locked_position(ledger, user, amount);
                let delta = old(self).lock_delta(ledger, user);
                let t = credit_totals(old(self).totals, delta);
                if old(self).staking_blocked() {
                    r == refused::<()>(PoolError::Paused)
                } else if !old(self).admitted(user) {
                    r == refused::<()>(PoolError::NotWhitelisted)
                } else if old(self).locked_amount(user) + amount < old(self).config.min_stake_amount {
                    r == refused::<()>(PoolError::BelowMinimumStake)
                } else if !old(self).lock_fits(ledger, user, amount) {
                    r == trapped::<()>(Trap::ArithmeticOverflow)
                } else {
                    &&& r is Ok
                    &&& r.unwrap().auth == Some(user)
                    &&& r.unwrap().transfers@ == seq![
                        Transfer::In { token: old(self).config.stake_token, from: user, amount },
                    ]
                    &&& r.unwrap().events@ == checkpoint_events(user, delta, pos.total_credits).push(
                        PoolEvent::Locked { user, amount, total_position: pos.amount },
                    )
                    &&& final(self).config == old(self).config
                    &&& final(self).whitelist@ == old(self).whitelist@
                    &&& forall|a: Address| #[trigger] final(self).accounts.get(a) == if a == user {
                        Account {
                            position: Some(pos),
                            earned: credit_earned(acct.earned, delta),
                            ..acct
                        }
                    } else {
                        old(self).accounts.get(a)
                    }
                    &&& final(self).totals == PoolTotals {
                        staked_user_count: if acct.is_staked() {
                            t.staked_user_count
                        } else {
                            (t.staked_user_count + 1) as u32
                        },
                        lock_count: (t.lock_count + 1) as u32,
                        total_staked: (t.total_staked + amount) as i128,
                        total_locked: (t.total_locked + amount) as i128,
                        total_deposits: (t.total_deposits + amount) as i128,
                        ..t
                    }
                }
            },
    {
        if self.config.admin.is_none() {
            return Err(Fault::Error(PoolError::NotInitialized));
        }
        if self.config.paused || self.config.paused_staking {
            return Err(Fault::Error(PoolError::Paused));
        }
        if self.config.whitelist_enabled && !list_contains(&self.whitelist, &user) {
            return Err(Fault::Error(PoolError::NotWhitelisted));
        }
        let acct = self.accounts.account(&user);
        let existing: i128 = match acct.position {
            Some(p) => p.amount,
            None => 0,
        };
        let total_amount = match existing.checked_add(amount) {
            None => {
                return Err(Fault::Trap(Trap::ArithmeticOverflow));
            },
            Some(v) => v,
        };
        if total_amount < self.config.min_stake_amount {
            return Err(Fault::Error(PoolError::BelowMinimumStake));
        }
        let rate = self.config.credit_rate;
        let fresh_unlock: u32 = ledger.saturating_add(self.config.min_lock_period);
        let (position, earned, totals, delta) = match acct.position {
            Some(p) => {
                match checkpoint_position(p, acct.earned, self.totals, ledger, rate) {
                    None => {
                        return Err(Fault::Trap(Trap::ArithmeticOverflow));
                    },
                    Some((c, e, t, d)) => {
                        let unlock = if p.unlock_ledger >= fresh_unlock {
                            p.unlock_ledger
                        } else {
                            fresh_unlock
                        };
                        (Position { amount: total_amount, unlock_ledger: unlock, ..c }, e, t, d)
                    },
                }
            },
            None => (
                Position {
                    amount,
                    lock_ledger: ledger,
                    unlock_ledger: fresh_unlock,
                    checkpoint_ledger: ledger,
                    total_credits: 0,
                    credit_rate: rate,
                },
                acct.earned,
                self.totals,
                0i128,
            ),
        };
        let staked_users = if acct.position.is_some() || acct.stake.is_some() {
            totals.staked_user_count
        } else {
            match inc_u32(totals.staked_user_count) {
                None => {
                    return Err(Fault::Trap(Trap::ArithmeticOverflow));
                },
                Some(v) => v,
            }
        };
        let locks = match inc_u32(totals.lock_count) {
            None => {
                return Err(Fault::Trap(Trap::ArithmeticOverflow));
            },
            Some(v) => v,
        };
        let staked = match totals.total_staked.checked_add(amount) {
            None => {
                return Err(Fault::Trap(Trap::ArithmeticOverflow));
            },
            Some(v) => v,
        };
        let locked = match totals.total_locked.checked_add(amount) {
            None => {
                return Err(Fault::Trap(Trap::ArithmeticOverflow));
            },
            Some(v) => v,
        };
        let deposits = match totals.total_deposits.checked_add(amount) {
            None => {
                return Err(Fault::Trap(Trap::ArithmeticOverflow));
            },
            Some(v) => v,
        };
        self.accounts.set(user, Account { position: Some(position), earned, ..acct });
        self.totals = PoolTotals {
            staked_user_count: staked_users,
            lock_count: locks,
            total_staked: staked,
            total_locked: locked,
            total_deposits: deposits,
            ..totals
        };
        let mut events = checkpoint_event_list(user, delta, position.total_credits);
        events.push(PoolEvent::Locked { user, amount, total_position: position.amount });
        proof {
            lemma_net_inflow_single(Transfer::In { token: self.config.stake_token, from: user, amount });
        }
        Ok(
            Receipt::new(
                (),
                Some(user),
                single(Transfer::In { token: self.config.stake_token, from: user, amount }),
                events,
            ),
        )
    }

    /// The position left after unlocking `amount` at `ledger`
    /// (checkpointed, reduced by `amount`).
    pub open spec fn unlocked_position(&self, ledger: u32, user: Address, amount: i128) -> Position {
        let p = self.accounts.get(user).position.unwrap();
        let c = checkpointed_position(p, ledger, self.config.credit_rate);
        Position { amount: (c.amount - amount) as i128, ..c }
    }

    /// The banked credits of `user`, zero when nothing was banked.
    pub open spec fn banked_of(&self, user: Address) -> BankedCreditTotals {
        match self.accounts.get(user).banked {
            Some(b) => b,
            None => BankedCreditTotals { position_credits: 0, stake_credits: 0 },
        }
    }

    /// Whether `user` may unlock `amount` at `ledger`: the amount is
    /// positive, the user holds a position of at least that amount, and its
    /// unlock ledger has come.
    pub open spec fn unlock_allowed(&self, ledger: u32, user: Address, amount: i128) -> bool {
        &&& amount > 0
        &&& self.accounts.get(user).position matches Some(p)
        &&& amount <= p.amount
        &&& ledger >= p.unlock_ledger
    }

    /// Whether `unlock_assets` may be asked to unlock `amount` for `user`
    /// at `ledger` (see `unlock_allowed`): the check a caller makes first.
    pub fn may_unlock(&self, ledger: u32, user: Address, amount: i128) -> (r: bool)
        ensures
            r == self.unlock_allowed(ledger, user, amount),
    {
        if amount <= 0 {
            return false;
        }
        match self.accounts.account(&user).position {
            None => false,
            Some(p) => amount <= p.amount && ledger >= p.unlock_ledger,
        }
    }

    /// Whether every total touched by an unlock stays within its type.
    pub open spec fn unlock_fits(&self, ledger: u32, user: Address, amount: i128) -> bool {
        let acct = self.accounts.get(user);
        let p = acct.position.unwrap();
        let t = credit_totals(self.totals, position_delta(p, ledger));
        let rest = self.unlocked_position(ledger, user, amount);
        &&& position_checkpoint_fits(p, acct.earned, self.totals, ledger)
        &&& rest.amount == 0 ==> fits_i128(self.banked_of(user).position_credits + rest.total_credits)
        &&& fits_i128(t.total_staked - amount)
        &&& fits_i128(t.total_locked - amount)
        &&& fits_i128(t.total_withdrawals + amount)
    }

    /// Unlock `amount` of `user`'s position at `ledger` (the user
    /// authorizes and the tokens move back to the user). A position
    /// unlocked in full is closed and its credits are banked as position
    /// credits.
    ///
    /// Refused with `NotInitialized` and with `Paused` while withdrawals are
    /// paused; traps on overflow. Once the pool is initialized and open for
    /// withdrawals, the unlock must be one that `unlock_allowed` admits.
    pub fn unlock_assets(&mut self, ledger: u32, user: Address, amount: i128) -> (r: PoolResult<()>)
        requires
            old(self).wf(),
            old(self).config.admin is Some && !old(self).withdrawals_blocked() ==> old(
                self,
            ).unlock_allowed(ledger, user, amount),
        ensures
            final(self).wf(),
            r is Err ==> *final(self) == *old(self),
            r is Ok && final(self).accounts.get(user).position is Some ==> {
                let p = old(self).accounts.get(user).position.unwrap();
                let q = final(self).accounts.get(user).position.unwrap();
                &&& q.amount == p.amount - amount
                &&& q.credit_rate == old(self).config.credit_rate
                &&& q.checkpoint_ledger == ledger
            },
            r is Ok ==> forall|l: u32| #[trigger] final(self).stake_credits_at(l, user) == old(
                self,
            ).stake_credits_at(l, user),
            r is Ok ==> net_inflow(r.unwrap().transfers@) == final(self).totals.total_staked
                - old(self).totals.total_staked,
            old(self).config.admin is None ==> r == refused::<()>(PoolError::NotInitialized),
            old(self).config.admin is Some ==> {
                let acct = old(self).accounts.get(user);
                let p = acct.position.unwrap();
                let delta = position_delta(p, ledger);
                let rest = old(self).unlocked_position(ledger, user, amount);
                let t = credit_totals(old(self).totals, delta);
                let closed = rest.amount == 0;
                if old(self).withdrawals_blocked() {
                    r == refused::<()>(PoolError::Paused)
                } else if !old(self).unlock_fits(ledger, user, amount) {
                    r == trapped::<()>(Trap::ArithmeticOverflow)
                } else {
                    &&& r is Ok
                    &&& r.unwrap().auth == Some(user)
                    &&& r.unwrap().transfers@ == seq![
                        Transfer::Out { token: old(self).config.stake_token, to: user, amount },
                    ]
                    &&& r.unwrap().events@ == checkpoint_events(user, delta, rest.total_credits).push(
                        PoolEvent::Unlocked { user, amount, total_credits: rest.total_credits },
                    )
                    &&& final(self).config == old(self).config
                    &&& final(self).whitelist@ == old(self).whitelist@
                    &&& forall|a: Address| #[trigger] final(self).accounts.get(a) == if a == user {
                        Account {
                            position: if closed {
                                None
                            } else {
                                Some(rest)
                            },
                            banked: if closed {
                                Some(
                                    BankedCreditTotals {
                                        position_credits: (old(self).banked_of(user).position_credits
                                            + rest.total_credits) as i128,
                                        ..old(self).banked_of(user)
                                    },
                                )
                            } else {
                                acct.banked
                            },
                            earned: credit_earned(acct.earned, delta),
                            ..acct
                        }
                    } else {
                        old(self).accounts.get(a)
                    }
                    &&& final(self).totals == PoolTotals {
                        staked_user_count: if closed && acct.stake is None {
                            if t.staked_user_count > 0 {
                                (t.staked_user_count - 1) as u32
                            } else {
                                0
                            }
                        } else {
                            t.staked_user_count
                        },
                        total_staked: (t.total_staked - amount) as i128,
                        total_locked: (t.total_locked - amount) as i128,
                        total_withdrawals: (t.total_withdrawals + amount) as i128,
                        ..t
                    }
                }
            },
    {
        if self.config.admin.is_none() {
            return Err(Fault::Error(PoolError::NotInitialized));
        }
        if self.config.paused || self.config.paused_withdrawals {
            return Err(Fault::Error(PoolError::Paused));
        }
        let acct = self.accounts.account(&user);
        let p = acct.position.unwrap();
        let (c, earned, totals, delta) = match checkpoint_position(
            p,
            acct.earned,
            self.totals,
            ledger,
            self.config.credit_rate,
        ) {
            None => {
                return Err(Fault::Trap(Trap::ArithmeticOverflow));
            },
            Some(x) => x,
        };
        let total_credits = c.total_credits;
        let rest = Position { amount: c.amount - amount, ..c };
        let closed = rest.amount == 0;
        let banked = if closed {
            let b = match acct.banked {
                Some(b) => b,
                None => BankedCreditTotals { position_credits: 0, stake_credits: 0 },
            };
            let pc = match b.position_credits.checked_add(total_credits) {
                None => {
                    return Err(Fault::Trap(Trap::ArithmeticOverflow));
                },
                Some(v) => v,
            };
            Some(BankedCreditTotals { position_credits: pc, ..b })
        } else {
            acct.banked
        };
        let staked_users = if closed && acct.stake.is_none() {
            dec_u32(totals.staked_user_count)
        } else {
            totals.staked_user_count
        };
        let staked = match totals.total_staked.checked_sub(amount) {
            None => {
                return Err(Fault::Trap(Trap::ArithmeticOverflow));
            },
            Some(v) => v,
        };
        let locked = match totals.total_locked.checked_sub(amount) {
            None => {
                return Err(Fault::Trap(Trap::ArithmeticOverflow));
            },
            Some(v) => v,
        };
        let withdrawals = match totals.total_withdrawals.checked_add(amount) {
            None => {
                return Err(Fault::Trap(Trap::ArithmeticOverflow));
            },
            Some(v) => v,
        };
        let position = if closed {
            None
        } else {
            Some(rest)
        };
        self.accounts.set(user, Account { position, banked, earned, ..acct });
        self.totals = PoolTotals {
            staked_user_count: staked_users,
            total_staked: staked,
            total_locked: locked,
            total_withdrawals: withdrawals,
            ..totals
        };
        let mut events = checkpoint_event_list(user, delta, total_credits);
        events.push(PoolEvent::Unlocked { user, amount, total_credits });
        proof {
            lemma_net_inflow_single(Transfer::Out { token: self.config.stake_token, to: user, amount });
        }
        Ok(
            Receipt::new(
                (),
                Some(user),
                single(Transfer::Out { token: self.config.stake_token, to: user, amount }),
                events,
            ),
        )
    }

    /// The credits of `user`'s position at `ledger`, checkpointed ones plus
    /// those accrued since (zero without a position).
    pub open spec fn position_credits_at(&self, ledger: u32, user: Address) -> int {
        match self.accounts.get(user).position {
            None => 0,
            Some(p) => p.total_credits + position_delta(p, ledger),
        }
    }

    /// Whether `position_credits_at` can be computed within `i128`.
    pub open spec fn position_credits_fit(&self, ledger: u32, user: Address) -> bool {
        match self.accounts.get(user).position {
            None => true,
            Some(p) => position_accrual_fits(
                p.amount as int,
                p.credit_rate as int,
                sat_sub(ledger, p.checkpoint_ledger) as int,
            ) && fits_i128(p.total_credits + position_delta(p, ledger)),
        }
    }

    /// `position_credits_at`, or a trap on overflow.
    fn position_credits_exec(&self, ledger: u32, user: &Address) -> (r: Result<i128, Fault<PoolError>>)
        ensures
            self.position_credits_fit(ledger, *user) ==> r == Ok::<i128, Fault<PoolError>>(
                self.position_credits_at(ledger, *user) as i128,
            ),
            !self.position_credits_fit(ledger, *user) ==> r == Err::<i128, Fault<PoolError>>(
                Fault::Trap(Trap::ArithmeticOverflow),
            ),
    {
        match self.accounts.account(user).position {
            None => Ok(0),
            Some(p) => {
                let elapsed = saturating_sub_u32(ledger, p.checkpoint_ledger);
                match checked_position_accrual(p.amount, p.credit_rate, elapsed) {
                    None => Err(Fault::Trap(Trap::ArithmeticOverflow)),
                    Some(d) => match p.total_credits.checked_add(d) {
                        None => Err(Fault::Trap(Trap::ArithmeticOverflow)),
                        Some(v) => Ok(v),
                    },
                }
            },
        }
    }

    /// The current credits of `user`'s locked position at `ledger`.
    pub fn calculate_credits(&self, ledger: u32, user: Address) -> (r: Result<i128, Fault<PoolError>>)
        ensures
            self.config.admin is None ==> r == Err::<i128, Fault<PoolError>>(
                Fault::Error(PoolError::NotInitialized),
            ),
            self.config.admin is Some && self.position_credits_fit(ledger, user) ==> r == Ok::<
                i128,
                Fault<PoolError>,
            >(self.position_credits_at(ledger, user) as i128),
            self.config.admin is Some && !self.position_credits_fit(ledger, user) ==> r == Err::<
                i128,
                Fault<PoolError>,
            >(Fault::Trap(Trap::ArithmeticOverflow)),
    {
        if self.config.admin.is_none() {
            return Err(Fault::Error(PoolError::NotInitialized));
        }
        self.position_credits_exec(ledger, &user)
    }

    /// Same as `calculate_credits`.
    pub fn get_position_credits(&self, ledger: u32, user: Address) -> (r: Result<i128, Fault<PoolError>>)
        ensures
            self.config.admin is None ==> r == Err::<i128, Fault<PoolError>>(
                Fault::Error(PoolError::NotInitialized),
            ),
            self.config.admin is Some && self.position_credits_fit(ledger, user) ==> r == Ok::<
                i128,
                Fault<PoolError>,
            >(self.position_credits_at(ledger, user) as i128),
            self.config.admin is Some && !self.position_credits_fit(ledger, user) ==> r == Err::<
                i128,
                Fault<PoolError>,
            >(Fault::Trap(Trap::ArithmeticOverflow)),
    {
        self.calculate_credits(ledger, user)
    }

    /// `user`'s position as it would stand after a checkpoint at `ledger`
    /// (nothing is stored), or `None` without a position.
    pub fn get_user_position(&self, ledger: u32, user: Address) -> (r: Result<Option<Position>, Fault<PoolError>>)
        ensures
            self.config.admin is None ==> r == Err::<Option<Position>, Fault<PoolError>>(
                Fault::Error(PoolError::NotInitialized),
            ),
            self.config.admin is Some ==> match self.accounts.get(user).position {
                None => r == Ok::<Option<Position>, Fault<PoolError>>(None),
                Some(p) => if self.position_credits_fit(ledger, user) {
                    r == Ok::<Option<Position>, Fault<PoolError>>(
                        Some(checkpointed_position(p, ledger, self.config.credit_rate)),
                    )
                } else {
                    r == Err::<Option<Position>, Fault<PoolError>>(Fault::Trap(Trap::ArithmeticOverflow))
                },
            },
    {
        if self.config.admin.is_none() {
            return Err(Fault::Error(PoolError::NotInitialized));
        }
        match self.accounts.account(&user).position {
            None => Ok(None),
            Some(p) => {
                let total = self.position_credits_exec(ledger, &user)?;
                Ok(
                    Some(
                        Position {
                            total_credits: total,
                            checkpoint_ledger: ledger,
                            credit_rate: self.config.credit_rate,
                            ..p
                        },
                    ),
                )
            },
        }
    }

    /// Whether `user` holds a locked position.
    pub fn has_position(&self, user: Address) -> (r: Result<bool, PoolError>)
        ensures
            r == self.read(self.accounts.get(user).position is Some),
    {
        if self.config.admin.is_none() {
            return Err(PoolError::NotInitialized);
        }
        Ok(self.accounts.account(&user).position.is_some())
    }

    /// What an emergency exit returns to `user`: the locked amount plus the
    /// staked amount.
    pub open spec fn exit_amount(&self, user: Address) -> int {
        let acct = self.accounts.get(user);
        (match acct.position {
            Some(p) => p.amount as int,
            None => 0,
        }) + (match acct.stake {
            Some(s) => s.amount as int,
            None => 0,
        })
    }

    /// The credits `user`'s position has accrued since its checkpoint, at
    /// `ledger` (zero without a position).
    pub open spec fn exit_position_delta(&self, ledger: u32, user: Address) -> int {
        match self.accounts.get(user).position {
            Some(p) => position_delta(p, ledger),
            None => 0,
        }
    }

    /// The credits `user`'s stake has accrued since its checkpoint, at
    /// `ledger` (zero without a stake).
    pub open spec fn exit_stake_delta(&self, ledger: u32, user: Address) -> int {
        let acct = self.accounts.get(user);
        match acct.stake {
            Some(s) => stake_delta(self.config, acct, s, ledger).unwrap(),
            None => 0,
        }
    }

    /// `user`'s lifetime credits once an emergency exit at `ledger` has
    /// checkpointed the position and then the stake.
    pub open spec fn exit_earned(&self, ledger: u32, user: Address) -> i128 {
        credit_earned(
            credit_earned(self.accounts.get(user).earned, self.exit_position_delta(ledger, user)),
            self.exit_stake_delta(ledger, user),
        )
    }

    /// The pool totals once an emergency exit at `ledger` has checkpointed
    /// `user`'s position and then the stake (before anything is paid out).
    pub open spec fn exit_credit_totals(&self, ledger: u32, user: Address) -> PoolTotals {
        credit_totals(
            credit_totals(self.totals, self.exit_position_delta(ledger, user)),
            self.exit_stake_delta(ledger, user),
        )
    }

    /// The banked credits of `user` after an emergency exit at `ledger`: the
    /// credits banked before, plus the position's and the stake's credits
    /// checkpointed at `ledger`, each in its own system.
    pub open spec fn exit_banked(&self, ledger: u32, user: Address) -> BankedCreditTotals {
        let acct = self.accounts.get(user);
        let b = self.banked_of(user);
        BankedCreditTotals {
            position_credits: (b.position_credits + self.position_credits_at(ledger, user)) as i128,
            stake_credits: (b.stake_credits + (match acct.stake {
                Some(s) => s.credits_banked + self.exit_stake_delta(ledger, user),
                None => 0,
            })) as i128,
        }
    }

    /// Whether every total touched by an emergency exit at `ledger` stays
    /// within `i128`.
    pub open spec fn exit_fits(&self, ledger: u32, user: Address) -> bool {
        let acct = self.accounts.get(user);
        let b = self.banked_of(user);
        let locked = match acct.position {
            Some(p) => p.amount as int,
            None => 0,
        };
        let staked = match acct.stake {
            Some(s) => s.amount as int,
            None => 0,
        };
        let t1 = credit_totals(self.totals, self.exit_position_delta(ledger, user));
        let e1 = credit_earned(acct.earned, self.exit_position_delta(ledger, user));
        &&& acct.position matches Some(p) ==> position_checkpoint_fits(p, acct.earned, self.totals, ledger)
        &&& acct.stake matches Some(s) ==> stake_checkpoint_fits(
            self.config,
            Account { earned: e1, ..acct },
            s,
            t1,
            ledger,
        )
        &&& fits_i128(b.position_credits + self.position_credits_at(ledger, user))
        &&& acct.stake matches Some(s) ==> fits_i128(
            b.stake_credits + s.credits_banked + self.exit_stake_delta(ledger, user),
        )
        &&& fits_i128(self.exit_amount(user))
        &&& fits_i128(self.totals.total_staked - locked)
        &&& fits_i128(self.totals.total_locked - locked)
        &&& fits_i128(self.totals.total_staked - locked - staked)
        &&& fits_i128(self.totals.total_withdrawals + self.exit_amount(user))
    }

    /// Emergency exit at `ledger` while the pool is paused (the user
    /// authorizes): the position and the stake are checkpointed at `ledger`
    /// and closed, their amounts are paid out in full (position first), and
    /// their credits are added to the user's banked credits, each to its own
    /// system, so that no earned credit is lost. Returns the total paid.
    ///
    /// Refused with `NotInitialized`, with `NotPaused` unless the pool is
    /// paused, and with `NoActiveStake` when there is nothing to pay; traps
    /// on overflow.
    pub fn emergency_withdraw(&mut self, ledger: u32, user: Address) -> (r: PoolResult<i128>)
        requires
            old(self).wf(),
        ensures
            final(self).wf(),
            r is Err ==> *final(self) == *old(self),
            r is Ok ==> net_inflow(r.unwrap().transfers@) == final(self).totals.total_staked
                - old(self).totals.total_staked,
            r is Ok ==> final(self).banked_of(user).position_credits + final(self).banked_of(
                user,
            ).stake_credits == old(self).banked_of(user).position_credits + old(self).banked_of(
                user,
            ).stake_credits + old(self).position_credits_at(ledger, user) + old(
                self,
            ).live_stake_credits(ledger, user).unwrap(),
            r is Ok ==> (old(self).credits_at(ledger, user) matches Some(c) ==> final(self).banked_of(
                user,
            ).position_credits + final(self).banked_of(user).stake_credits == c),
            old(self).config.admin is None ==> r == refused::<i128>(PoolError::NotInitialized),
            old(self).config.admin matches Some(admin) ==> {
                let acct = old(self).accounts.get(user);
                let total = old(self).exit_amount(user);
                let token = old(self).config.stake_token;
                let t = old(self).exit_credit_totals(ledger, user);
                if !old(self).config.paused {
                    r == refused::<i128>(PoolError::NotPaused)
                } else if !old(self).exit_fits(ledger, user) {
                    r == trapped::<i128>(Trap::ArithmeticOverflow)
                } else if total == 0 {
                    r == refused::<i128>(PoolError::NoActiveStake)
                } else {
                    &&& r is Ok
                    &&& r.unwrap().value == total
                    &&& r.unwrap().auth == Some(user)
                    &&& r.unwrap().transfers@ == (match acct.position {
                        Some(p) => seq![Transfer::Out { token, to: user, amount: p.amount }],
                        None => Seq::<Transfer>::empty(),
                    }) + (match acct.stake {
                        Some(s) => seq![Transfer::Out { token, to: user, amount: s.amount }],
                        None => Seq::<Transfer>::empty(),
                    })
                    &&& r.unwrap().events@ == seq![
                        PoolEvent::EmergencyExit { admin, user, total_returned: total as i128 },
                    ]
                    &&& final(self).config == old(self).config
                    &&& final(self).whitelist@ == old(self).whitelist@
                    &&& forall|a: Address| #[trigger] final(self).accounts.get(a) == if a == user {
                        Account {
                            position: None,
                            stake: None,
                            banked: Some(old(self).exit_banked(ledger, user)),
                            earned: old(self).exit_earned(ledger, user),
                            ..acct
                        }
                    } else {
                        old(self).accounts.get(a)
                    }
                    &&& final(self).totals == PoolTotals {
                        total_staked: (t.total_staked - total) as i128,
                        total_locked: (t.total_locked - (match acct.position {
                            Some(p) => p.amount as int,
                            None => 0,
                        })) as i128,
                        total_withdrawals: (t.total_withdrawals + total) as i128,
                        active_stake_count: if acct.stake is Some && t.active_stake_count > 0 {
                            (t.active_stake_count - 1) as u32
                        } else {
                            t.active_stake_count
                        },
                        staked_user_count: if acct.is_staked() && t.staked_user_count > 0 {
                            (t.staked_user_count - 1) as u32
                        } else {
                            t.staked_user_count
                        },
                        emergency_withdrawal_count: if t.emergency_withdrawal_count < u32::MAX {
                            (t.emergency_withdrawal_count + 1) as u32
                        } else {
                            u32::MAX
                        },
                        ..t
                    }
                }
            },
    {
        let admin = match self.config.admin {
            None => {
                return Err(Fault::Error(PoolError::NotInitialized));
            },
            Some(a) => a,
        };
        if !self.config.paused {
            return Err(Fault::Error(PoolError::NotPaused));
        }
        let acct = self.accounts.account(&user);
        let before = self.banked_of_exec(&user);
        let token = self.config.stake_token;
        let mut transfers: Vec<Transfer> = Vec::new();
        let mut total_returned: i128 = 0;
        let mut totals = self.totals;
        let mut earned = acct.earned;
        let mut staked = self.totals.total_staked;
        let mut locked = self.totals.total_locked;
        let mut active = self.totals.active_stake_count;
        let mut position_credits: i128 = before.position_credits;
        let mut stake_credits: i128 = before.stake_credits;
        if let Some(p) = acct.position {
            let (np, e, nt, _d) = match checkpoint_position(p, earned, totals, ledger, self.config.credit_rate) {
                None => {
                    return Err(Fault::Trap(Trap::ArithmeticOverflow));
                },
                Some(x) => x,
            };
            earned = e;
            totals = nt;
            position_credits = match position_credits.checked_add(np.total_credits) {
                None => {
                    return Err(Fault::Trap(Trap::ArithmeticOverflow));
                },
                Some(v) => v,
            };
            transfers.push(Transfer::Out { token, to: user, amount: p.amount });
            total_returned = p.amount;
            staked = match staked.checked_sub(p.amount) {
                None => {
                    return Err(Fault::Trap(Trap::ArithmeticOverflow));
                },
                Some(v) => v,
            };
            locked = match locked.checked_sub(p.amount) {
                None => {
                    return Err(Fault::Trap(Trap::ArithmeticOverflow));
                },
                Some(v) => v,
            };
        }
        if let Some(s) = acct.stake {
            let (ns, e, nt, _d) = match checkpoint_stake(&self.config, &Account { earned, ..acct }, s, totals, ledger) {
                None => {
                    return Err(Fault::Trap(Trap::ArithmeticOverflow));
                },
                Some(x) => x,
            };
            earned = e;
            totals = nt;
            stake_credits = match stake_credits.checked_add(ns.credits_banked) {
                None => {
                    return Err(Fault::Trap(Trap::ArithmeticOverflow));
                },
                Some(v) => v,
            };
            transfers.push(Transfer::Out { token, to: user, amount: s.amount });
            total_returned = match total_returned.checked_add(s.amount) {
                None => {
                    return Err(Fault::Trap(Trap::ArithmeticOverflow));
                },
                Some(v) => v,
            };
            staked = match staked.checked_sub(s.amount) {
                None => {
                    return Err(Fault::Trap(Trap::ArithmeticOverflow));
                },
                Some(v) => v,
            };
            active = dec_u32(active);
        }
        let staked_users = if acct.position.is_some() || acct.stake.is_some() {
            dec_u32(self.totals.staked_user_count)
        } else {
            self.totals.staked_user_count
        };
        let withdrawals = match self.totals.total_withdrawals.checked_add(total_returned) {
            None => {
                return Err(Fault::Trap(Trap::ArithmeticOverflow));
            },
            Some(v) => v,
        };
        if total_returned == 0 {
            return Err(Fault::Error(PoolError::NoActiveStake));
        }
        let banked = BankedCreditTotals { position_credits, stake_credits };
        self.accounts.set(user, Account { position: None, stake: None, banked: Some(banked), earned, ..acct });
        self.totals = PoolTotals {
            total_staked: staked,
            total_locked: locked,
            total_withdrawals: withdrawals,
            active_stake_count: active,
            staked_user_count: staked_users,
            emergency_withdrawal_count: self.totals.emergency_withdrawal_count.saturating_add(1),
            ..totals
        };
        proof {
            let pt = match acct.position {
                Some(p) => seq![Transfer::Out { token, to: user, amount: p.amount }],
                None => Seq::<Transfer>::empty(),
            };
            let st = match acct.stake {
                Some(s) => seq![Transfer::Out { token, to: user, amount: s.amount }],
                None => Seq::<Transfer>::empty(),
            };
            lemma_net_inflow_append(pt, st);
            if let Some(p) = acct.position {
                lemma_net_inflow_single(Transfer::Out { token, to: user, amount: p.amount });
            }
            if let Some(s) = acct.stake {
                lemma_net_inflow_single(Transfer::Out { token, to: user, amount: s.amount });
            }
            assert(transfers@ =~= pt + st);
        }
        Ok(
            Receipt::new(
                total_returned,
                Some(user),
                transfers,
                single(PoolEvent::EmergencyExit { admin, user, total_returned }),
            ),
        )
    }

    /// `user`'s banked credits (zeros when none).
    fn banked_of_exec(&self, user: &Address) -> (r: BankedCreditTotals)
        ensures
            r == self.banked_of(*user),
    {
        match self.accounts.account(user).banked {
            Some(b) => b,
            None => BankedCreditTotals { position_credits: 0, stake_credits: 0 },
        }
    }

    /// `user`'s banked credits by staking system (zeros when none).
    pub fn get_banked_credits_split(&self, user: Address) -> (r: Result<BankedCreditTotals, PoolError>)
        ensures
            r == Ok::<BankedCreditTotals, PoolError>(self.banked_of(user)),
    {
        match self.accounts.account(&user).banked {
            Some(b) => Ok(b),
            None => Ok(BankedCreditTotals { position_credits: 0, stake_credits: 0 }),
        }
    }

    /// `user`'s banked credits of both systems together.
    pub fn get_banked_credits(&self, user: Address) -> (r: Result<i128, Fault<PoolError>>)
        ensures
            ({
                let b = self.banked_of(user);
                if fits_i128(b.position_credits + b.stake_credits) {
                    r == Ok::<i128, Fault<PoolError>>((b.position_credits + b.stake_credits) as i128)
                } else {
                    r == Err::<i128, Fault<PoolError>>(Fault::Trap(Trap::ArithmeticOverflow))
                }
            }),
    {
        let b = match self.accounts.account(&user).banked {
            Some(b) => b,
            None => BankedCreditTotals { position_credits: 0, stake_credits: 0 },
        };
        match b.position_credits.checked_add(b.stake_credits) {
            None => Err(Fault::Trap(Trap::ArithmeticOverflow)),
            Some(v) => Ok(v),
        }
    }

    /// Credits banked for `user` over its lifetime.
    pub fn total_credits_earned(&self, user: Address) -> (r: Result<i128, PoolError>)
        ensures
            r == self.read(self.accounts.get(user).earned),
    {
        if self.config.admin.is_none() {
            return Err(PoolError::NotInitialized);
        }
        Ok(self.accounts.account(&user).earned)
    }
}

} // verus!
