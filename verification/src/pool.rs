//! The farming pool: configuration, admin handoff, pausing, rates and the
//! read-only counters. Staking, locking and the whitelist live in the
//! sibling modules `pool_locks`, `pool_stakes` and `pool_whitelist`.

use vstd::prelude::*;
use crate::common::{Address, WasmHash, Fault, Receipt, Transfer, Trap, single};
use crate::accounts::{Accounts, no_duplicates};

verus! {

/// Ceiling on the global multiplier.
pub const MAX_GLOBAL_MULTIPLIER: u32 = 1000u32;

/// Ceiling on the per-ledger credit rate.
pub const MAX_CREDIT_RATE: i128 = 100000000i128;

/// Ceiling on the minimum stake amount.
pub const MAX_STAKE_AMOUNT: i128 = 1000000000000000000i128;

/// The schema version written by `initialize` and `migrate`.
pub const SCHEMA_VERSION: u32 = 1u32;

/// Ceiling on the number of addresses in one whitelist batch.
pub const MAX_BATCH: usize = 50usize;

/// Errors returned by the farming pool (numeric codes by `code`).
#[derive(Clone, Copy, Debug, PartialEq, Eq, Structural)]
pub enum PoolError {
    AlreadyInitialized,
    NotInitialized,
    Paused,
    NotPaused,
    NoActiveStake,
    BelowMinimumStake,
    NotWhitelisted,
    InvalidGlobalMultiplier,
    InvalidCreditRate,
    InvalidMinStakeAmount,
    NoPendingAdmin,
}

impl PoolError {
    /// The on-chain code of the error.
    pub fn code(&self) -> (r: u32)
        ensures
            *self == PoolError::AlreadyInitialized ==> r == 1,
            *self == PoolError::NotInitialized ==> r == 2,
            *self == PoolError::Paused ==> r == 3,
            *self == PoolError::NotPaused ==> r == 4,
            *self == PoolError::NoActiveStake ==> r == 5,
            *self == PoolError::BelowMinimumStake ==> r == 6,
            *self == PoolError::NotWhitelisted ==> r == 7,
            *self == PoolError::InvalidGlobalMultiplier ==> r == 8,
            *self == PoolError::InvalidCreditRate ==> r == 9,
            *self == PoolError::InvalidMinStakeAmount ==> r == 10,
            *self == PoolError::NoPendingAdmin ==> r == 11,
    {
        match self {
            PoolError::AlreadyInitialized => 1,
            PoolError::NotInitialized => 2,
            PoolError::Paused => 3,
            PoolError::NotPaused => 4,
            PoolError::NoActiveStake => 5,
            PoolError::BelowMinimumStake => 6,
            PoolError::NotWhitelisted => 7,
            PoolError::InvalidGlobalMultiplier => 8,
            PoolError::InvalidCreditRate => 9,
            PoolError::InvalidMinStakeAmount => 10,
            PoolError::NoPendingAdmin => 11,
        }
    }
}

/// Events published by the pool.
#[derive(Clone, Copy, Debug, PartialEq, Eq, Structural)]
pub enum PoolEvent {
    /// `("pool", "chkpt")`: `accrued` credits were banked, bringing the
    /// record's total to `total`.
    Checkpoint { user: Address, accrued: i128, total: i128 },
    /// `("pool", "adm_prop")`.
    AdminProposed { current: Address, proposed: Address },
    /// `("pool", "adm_xfr")`.
    AdminTransferred { old_admin: Address, new_admin: Address },
    /// `("pool", "migrated")`.
    Migrated { from: u32, to: u32 },
    /// `("pool", "upgraded")`.
    Upgraded(WasmHash),
    /// `("pool", "locked")`.
    Locked { user: Address, amount: i128, total_position: i128 },
    /// `("pool", "unlocked")`.
    Unlocked { user: Address, amount: i128, total_credits: i128 },
    /// `("pool", "paused")`.
    Paused,
    /// `("pool", "stg_pause")`.
    StakingPaused,
    /// `("pool", "wd_pause")`.
    WithdrawalsPaused,
    /// `("pool", "unpaused")`.
    Unpaused,
    /// `("pool", "stg_unps")`.
    StakingUnpaused,
    /// `("pool", "wd_unps")`.
    WithdrawalsUnpaused,
    /// `("pool", "emrg_exit")`.
    EmergencyExit { admin: Address, user: Address, total_returned: i128 },
    /// `("pool", "staked")`.
    Staked { user: Address, amount: i128 },
    /// `("pool", "unstaked")`.
    Unstaked { user: Address, amount: i128, credits: i128 },
    /// `("boost", "applied")`.
    BoostApplied { user: Address, allocation_pct: u32, multiplier: u32 },
    /// `("boost", "mult_set")`.
    MultiplierSet { old_multiplier: u32, new_multiplier: u32 },
    /// `("pool", "rate_set")`.
    CreditRateSet { old_rate: i128, new_rate: i128, ledger: u32 },
    /// `("pool", "lock_set")`.
    MinLockPeriodSet { old_period: u32, new_period: u32 },
    /// `("pool", "minst_set")`.
    MinStakeSet { old_amount: i128, new_amount: i128 },
}

/// The pool's settings and flags.
#[derive(Clone, Copy, Debug, PartialEq, Eq, Structural)]
pub struct PoolConfig {
    /// `None` until the pool is initialized.
    pub admin: Option<Address>,
    pub pending_admin: Option<Address>,
    pub stake_token: Address,
    pub global_multiplier: u32,
    pub credit_rate: i128,
    pub min_lock_period: u32,
    pub min_stake_amount: i128,
    pub schema_version: u32,
    /// Ledger of the last change of the global multiplier.
    pub multiplier_change_ledger: u32,
    pub paused: bool,
    pub paused_staking: bool,
    pub paused_withdrawals: bool,
    pub whitelist_enabled: bool,
}

/// Pool-wide running totals and counters.
#[derive(Clone, Copy, Debug, PartialEq, Eq, Structural)]
pub struct PoolTotals {
    pub total_staked: i128,
    pub total_locked: i128,
    pub total_credits: i128,
    pub total_banked_credits: i128,
    pub total_deposits: i128,
    pub total_withdrawals: i128,
    pub total_distributed_credits: i128,
    pub total_boost_alloc: u64,
    pub boost_count: u32,
    pub boost_user_count: u32,
    pub staked_user_count: u32,
    pub lock_count: u32,
    pub unstake_count: u32,
    pub active_stake_count: u32,
    pub credit_rate_change_count: u32,
    pub emergency_withdrawal_count: u32,
}

/// A page of the whitelist.
#[derive(Clone, Debug)]
pub struct ListWhitelistedResponse {
    pub users: Vec<Address>,
    pub total: u32,
}

/// The pool's whole state.
#[derive(Clone, Debug)]
pub struct FarmingPool {
    pub config: PoolConfig,
    pub totals: PoolTotals,
    pub accounts: Accounts,
    /// Whitelisted addresses in the order they were added.
    pub whitelist: Vec<Address>,
}

/// The result of a state-changing pool call.
pub type PoolResult<T> = Result<Receipt<T, PoolEvent>, Fault<PoolError>>;

/// A call refused with `e`.
pub open spec fn refused<T>(e: PoolError) -> PoolResult<T> {
    Err(Fault::Error(e))
}

/// A call that traps for `t`.
pub open spec fn trapped<T>(t: Trap) -> PoolResult<T> {
    Err(Fault::Trap(t))
}

/// Whether `r` succeeded with authorization by `who`, no token movement,
/// and exactly the events `events`.
pub open spec fn ok_quiet<T>(r: PoolResult<T>, who: Address, events: Seq<PoolEvent>) -> bool {
    &&& r is Ok
    &&& r.unwrap().auth == Some(who)
    &&& r.unwrap().transfers@.len() == 0
    &&& r.unwrap().events@ == events
}

/// The net amount that `transfers` move into the contract: what comes in
/// minus what goes out.
pub open spec fn net_inflow(transfers: Seq<Transfer>) -> int
    decreases transfers.len(),
{
    if transfers.len() == 0 {
        0
    } else {
        net_inflow(transfers.drop_last()) + inflow(transfers.last())
    }
}

/// The amount a single transfer moves into the contract.
pub open spec fn inflow(t: Transfer) -> int {
    match t {
        Transfer::In { amount, .. } => amount as int,
        Transfer::Out { amount, .. } => -amount,
    }
}

/// The net inflow of one transfer is its own inflow.
pub proof fn lemma_net_inflow_single(t: Transfer)
    ensures
        net_inflow(seq![t]) == inflow(t),
{
    let s = seq![t];
    assert(s.drop_last() =~= Seq::<Transfer>::empty());
    assert(s.last() == t);
    assert(net_inflow(s.drop_last()) == 0);
}

/// Net inflows add up over concatenation.
pub proof fn lemma_net_inflow_append(a: Seq<Transfer>, b: Seq<Transfer>)
    ensures
        net_inflow(a + b) == net_inflow(a) + net_inflow(b),
    decreases b.len(),
{
    if b.len() == 0 {
        assert(a + b =~= a);
    } else {
        assert((a + b).drop_last() =~= a + b.drop_last());
        lemma_net_inflow_append(a, b.drop_last());
    }
}

/// The configuration of a pool that was never initialized.
pub open spec fn default_config() -> PoolConfig {
    PoolConfig {
        admin: None,
        pending_admin: None,
        stake_token: Address { is_contract: false, k0: 0, k1: 0, k2: 0, k3: 0 },
        global_multiplier: 1,
        credit_rate: 1,
        min_lock_period: 0,
        min_stake_amount: 1,
        schema_version: SCHEMA_VERSION,
        multiplier_change_ledger: 0,
        paused: false,
        paused_staking: false,
        paused_withdrawals: false,
        whitelist_enabled: false,
    }
}

/// All totals and counters at zero.
pub open spec fn zero_totals() -> PoolTotals {
    PoolTotals {
        total_staked: 0,
        total_locked: 0,
        total_credits: 0,
        total_banked_credits: 0,
        total_deposits: 0,
        total_withdrawals: 0,
        total_distributed_credits: 0,
        total_boost_alloc: 0,
        boost_count: 0,
        boost_user_count: 0,
        staked_user_count: 0,
        lock_count: 0,
        unstake_count: 0,
        active_stake_count: 0,
        credit_rate_change_count: 0,
        emergency_withdrawal_count: 0,
    }
}

impl FarmingPool {
    /// The invariant of the pool's state: the whitelist holds each address
    /// once and its length fits a `u32`; each user has one record; the
    /// locked total is the sum of all positions, and the staked total the sum
    /// of all positions and flexible stakes; deposits minus withdrawals is
    /// the staked total; a pool that was never initialized has the default
    /// configuration, zero totals, an empty whitelist and no records.
    pub open spec fn wf(&self) -> bool {
        &&& no_duplicates(self.whitelist@)
        &&& self.whitelist@.len() <= u32::MAX
        &&& self.accounts.wf()
        &&& self.totals.total_locked == self.accounts.sum_locked()
        &&& self.totals.total_staked == self.accounts.sum_locked() + self.accounts.sum_staked()
        &&& self.totals.total_deposits - self.totals.total_withdrawals == self.totals.total_staked
        &&& self.config.admin is None ==> {
            &&& self.accounts.entries@.len() == 0
            &&& self.config == default_config()
            &&& self.totals == zero_totals()
            &&& self.whitelist@.len() == 0
        }
    }

    /// Whether the per-user records and the whitelist of `self` and `other`
    /// are the same.
    pub open spec fn same_records(&self, other: &FarmingPool) -> bool {
        &&& self.accounts.entries@ == other.accounts.entries@
        &&& self.whitelist@ == other.whitelist@
    }

    /// Whether staking and locking are paused.
    pub open spec fn staking_blocked(&self) -> bool {
        self.config.paused || self.config.paused_staking
    }

    /// Whether unstaking and unlocking are paused.
    pub open spec fn withdrawals_blocked(&self) -> bool {
        self.config.paused || self.config.paused_withdrawals
    }

    /// A pool that was never initialized.
    pub fn new() -> (r: FarmingPool)
        ensures
            r.config == default_config(),
            r.totals == zero_totals(),
            r.whitelist@.len() == 0,
            forall|a: Address| r.accounts.get(a) == crate::accounts::empty_account(),
            r.wf(),
    {
        FarmingPool {
            config: PoolConfig {
                admin: None,
                pending_admin: None,
                stake_token: Address { is_contract: false, k0: 0, k1: 0, k2: 0, k3: 0 },
                global_multiplier: 1,
                credit_rate: 1,
                min_lock_period: 0,
                min_stake_amount: 1,
                schema_version: SCHEMA_VERSION,
                multiplier_change_ledger: 0,
                paused: false,
                paused_staking: false,
                paused_withdrawals: false,
                whitelist_enabled: false,
            },
            totals: PoolTotals {
                total_staked: 0,
                total_locked: 0,
                total_credits: 0,
                total_banked_credits: 0,
                total_deposits: 0,
                total_withdrawals: 0,
                total_distributed_credits: 0,
                total_boost_alloc: 0,
                boost_count: 0,
                boost_user_count: 0,
                staked_user_count: 0,
                lock_count: 0,
                unstake_count: 0,
                active_stake_count: 0,
                credit_rate_change_count: 0,
                emergency_withdrawal_count: 0,
            },
            accounts: Accounts::new(),
            whitelist: Vec::new(),
        }
    }

    /// Initialize the pool. A non-positive `min_stake_amount` means 1.
    ///
    /// Refused with `AlreadyInitialized` on an initialized pool, with
    /// `InvalidGlobalMultiplier` for a multiplier outside
    /// `1..=MAX_GLOBAL_MULTIPLIER`, with `InvalidCreditRate` for a rate outside
    /// `1..=MAX_CREDIT_RATE`, and with `InvalidMinStakeAmount` for a minimum
    /// stake above `MAX_STAKE_AMOUNT`.
    pub fn initialize(
        &mut self,
        admin: Address,
        stake_token: Address,
        global_multiplier: u32,
        credit_rate: i128,
        min_lock_period: u32,
        min_stake_amount: i128,
    ) -> (r: PoolResult<()>)
        requires
            old(self).wf(),
        ensures
            final(self).wf(),
            r is Err ==> *final(self) == *old(self),
            old(self).config.admin is Some ==> r == refused::<()>(PoolError::AlreadyInitialized),
            old(self).config.admin is None ==> {
                let min_stake = if min_stake_amount <= 0 {
                    1
                } else {
                    min_stake_amount
                };
                if !(1 <= global_multiplier <= MAX_GLOBAL_MULTIPLIER) {
                    r == refused::<()>(PoolError::InvalidGlobalMultiplier)
                } else if !(0 < credit_rate <= MAX_CREDIT_RATE) {
                    r == refused::<()>(PoolError::InvalidCreditRate)
                } else if min_stake > MAX_STAKE_AMOUNT {
                    r == refused::<()>(PoolError::InvalidMinStakeAmount)
                } else {
                    &&& r is Ok
                    &&& r.unwrap().auth is None
                    &&& r.unwrap().transfers@.len() == 0
                    &&& r.unwrap().events@.len() == 0
                    &&& final(self).config == PoolConfig {
                        admin: Some(admin),
                        stake_token,
                        global_multiplier,
                        credit_rate,
                        min_lock_period,
                        min_stake_amount: min_stake,
                        ..default_config()
                    }
                    &&& final(self).totals == zero_totals()
                    &&& final(self).whitelist@.len() == 0
                    &&& final(self).accounts.entries@.len() == 0
                }
            },
    {
        if self.config.admin.is_some() {
            return Err(Fault::Error(PoolError::AlreadyInitialized));
        }
        if !(1 <= global_multiplier && global_multiplier <= MAX_GLOBAL_MULTIPLIER) {
            return Err(Fault::Error(PoolError::InvalidGlobalMultiplier));
        }
        if credit_rate <= 0 || credit_rate > MAX_CREDIT_RATE {
            return Err(Fault::Error(PoolError::InvalidCreditRate));
        }
        let min_stake = if min_stake_amount <= 0 {
            1i128
        } else {
            min_stake_amount
        };
        if min_stake > MAX_STAKE_AMOUNT {
            return Err(Fault::Error(PoolError::InvalidMinStakeAmount));
        }
        self.config = PoolConfig {
            admin: Some(admin),
            stake_token,
            global_multiplier,
            credit_rate,
            min_lock_period,
            min_stake_amount: min_stake,
            schema_version: SCHEMA_VERSION,
            ..self.config
        };
        self.totals = PoolTotals {
            total_staked: 0,
            total_locked: 0,
            total_credits: 0,
            total_banked_credits: 0,
            total_deposits: 0,
            total_withdrawals: 0,
            ..self.totals
        };
        Ok(Receipt::new((), None, Vec::new(), Vec::new()))
    }

    /// The admin, or `NotInitialized`.
    pub fn admin(&self) -> (r: Result<Address, PoolError>)
        ensures
            self.config.admin is None ==> r == Err::<Address, PoolError>(PoolError::NotInitialized),
            self.config.admin matches Some(a) ==> r == Ok::<Address, PoolError>(a),
    {
        match self.config.admin {
            None => Err(PoolError::NotInitialized),
            Some(a) => Ok(a),
        }
    }

    /// Propose `new_admin` as the next admin (the current admin authorizes).
    /// Proposing the current admin cancels a pending proposal; a new
    /// proposal replaces a pending one.
    pub fn propose_admin(&mut self, new_admin: Address) -> (r: PoolResult<()>)
        requires
            old(self).wf(),
        ensures
            final(self).wf(),
            r is Err ==> *final(self) == *old(self),
            old(self).config.admin is None ==> r == refused::<()>(PoolError::NotInitialized),
            old(self).config.admin matches Some(current) ==> {
                &&& ok_quiet(r, current, seq![PoolEvent::AdminProposed { current, proposed: new_admin }])
                &&& final(self).config == PoolConfig {
                    pending_admin: if new_admin == current {
                        None
                    } else {
                        Some(new_admin)
                    },
                    ..old(self).config
                }
                &&& final(self).totals == old(self).totals
                &&& final(self).same_records(old(self))
            },
    {
        let current = match self.config.admin {
            None => {
                return Err(Fault::Error(PoolError::NotInitialized));
            },
            Some(a) => a,
        };
        if new_admin == current {
            self.config.pending_admin = None;
        } else {
            self.config.pending_admin = Some(new_admin);
        }
        Ok(
            Receipt::new(
                (),
                Some(current),
                Vec::new(),
                single(PoolEvent::AdminProposed { current, proposed: new_admin }),
            ),
        )
    }

    /// Complete a pending admin handoff (the proposed admin authorizes).
    pub fn accept_admin(&mut self) -> (r: PoolResult<()>)
        requires
            old(self).wf(),
        ensures
            final(self).wf(),
            r is Err ==> *final(self) == *old(self),
            old(self).config.admin is None ==> r == refused::<()>(PoolError::NotInitialized),
            old(self).config.admin matches Some(current) ==> {
                match old(self).config.pending_admin {
                    None => r == refused::<()>(PoolError::NoPendingAdmin),
                    Some(pending) => {
                        &&& ok_quiet(
                            r,
                            pending,
                            seq![PoolEvent::AdminTransferred { old_admin: current, new_admin: pending }],
                        )
                        &&& final(self).config == PoolConfig {
                            admin: Some(pending),
                            pending_admin: None,
                            ..old(self).config
                        }
                        &&& final(self).totals == old(self).totals
                        &&& final(self).same_records(old(self))
                    },
                }
            },
    {
        let current = match self.config.admin {
            None => {
                return Err(Fault::Error(PoolError::NotInitialized));
            },
            Some(a) => a,
        };
        let pending = match self.config.pending_admin {
            None => {
                return Err(Fault::Error(PoolError::NoPendingAdmin));
            },
            Some(p) => p,
        };
        self.config.admin = Some(pending);
        self.config.pending_admin = None;
        Ok(
            Receipt::new(
                (),
                Some(pending),
                Vec::new(),
                single(PoolEvent::AdminTransferred { old_admin: current, new_admin: pending }),
            ),
        )
    }

    /// One-step admin handoff (the current admin authorizes); clears any
    /// pending proposal.
    pub fn transfer_admin(&mut self, new_admin: Address) -> (r: PoolResult<()>)
        requires
            old(self).wf(),
        ensures
            final(self).wf(),
            r is Err ==> *final(self) == *old(self),
            old(self).config.admin is None ==> r == refused::<()>(PoolError::NotInitialized),
            old(self).config.admin matches Some(current) ==> {
                &&& ok_quiet(
                    r,
                    current,
                    seq![PoolEvent::AdminTransferred { old_admin: current, new_admin }],
                )
                &&& final(self).config == PoolConfig {
                    admin: Some(new_admin),
                    pending_admin: None,
                    ..old(self).config
                }
                &&& final(self).totals == old(self).totals
                &&& final(self).same_records(old(self))
            },
    {
        let current = match self.config.admin {
            None => {
                return Err(Fault::Error(PoolError::NotInitialized));
            },
            Some(a) => a,
        };
        self.config.admin = Some(new_admin);
        self.config.pending_admin = None;
        Ok(
            Receipt::new(
                (),
                Some(current),
                Vec::new(),
                single(PoolEvent::AdminTransferred { old_admin: current, new_admin }),
            ),
        )
    }

    /// The stored schema version.
    pub fn schema_version(&self) -> (r: u32)
        ensures
            r == self.config.schema_version,
    {
        self.config.schema_version
    }

    /// Stamp the current schema version (the admin authorizes) and return
    /// the version found before.
    pub fn migrate(&mut self) -> (r: PoolResult<u32>)
        requires
            old(self).wf(),
        ensures
            final(self).wf(),
            r is Err ==> *final(self) == *old(self),
            old(self).config.admin is None ==> r == refused::<u32>(PoolError::NotInitialized),
            old(self).config.admin matches Some(admin) ==> {
                &&& ok_quiet(
                    r,
                    admin,
                    seq![PoolEvent::Migrated { from: old(self).config.schema_version, to: SCHEMA_VERSION }],
                )
                &&& r.unwrap().value == old(self).config.schema_version
                &&& final(self).config == PoolConfig {
                    schema_version: SCHEMA_VERSION,
                    ..old(self).config
                }
                &&& final(self).totals == old(self).totals
                &&& final(self).same_records(old(self))
            },
    {
        let admin = match self.config.admin {
            None => {
                return Err(Fault::Error(PoolError::NotInitialized));
            },
            Some(a) => a,
        };
        let current = self.config.schema_version;
        self.config.schema_version = SCHEMA_VERSION;
        Ok(
            Receipt::new(
                current,
                Some(admin),
                Vec::new(),
                single(PoolEvent::Migrated { from: current, to: SCHEMA_VERSION }),
            ),
        )
    }

    /// Replace the pool's code with `new_wasm_hash` (the admin authorizes).
    /// The returned value is the hash the host installs.
    pub fn upgrade(&mut self, new_wasm_hash: WasmHash) -> (r: PoolResult<WasmHash>)
        requires
            old(self).wf(),
        ensures
            final(self).wf(),
            *final(self) == *old(self),
            old(self).config.admin is None ==> r == refused::<WasmHash>(PoolError::NotInitialized),
            old(self).config.admin matches Some(admin) ==> {
                &&& ok_quiet(r, admin, seq![PoolEvent::Upgraded(new_wasm_hash)])
                &&& r.unwrap().value == new_wasm_hash
            },
    {
        let admin = match self.config.admin {
            None => {
                return Err(Fault::Error(PoolError::NotInitialized));
            },
            Some(a) => a,
        };
        Ok(Receipt::new(new_wasm_hash, Some(admin), Vec::new(), single(PoolEvent::Upgraded(new_wasm_hash))))
    }

    /// Set the three pause flags as given (the admin authorizes) and
    /// publish `event`.
    fn set_flags(&mut self, paused: bool, staking: bool, withdrawals: bool, event: PoolEvent) -> (r: PoolResult<()>)
        requires
            old(self).wf(),
        ensures
            final(self).wf(),
            r is Err ==> *final(self) == *old(self),
            old(self).config.admin is None ==> r == refused::<()>(PoolError::NotInitialized),
            old(self).config.admin matches Some(admin) ==> {
                &&& ok_quiet(r, admin, seq![event])
                &&& final(self).config == PoolConfig {
                    paused,
                    paused_staking: staking,
                    paused_withdrawals: withdrawals,
                    ..old(self).config
                }
                &&& final(self).totals == old(self).totals
                &&& final(self).same_records(old(self))
            },
    {
        let admin = match self.config.admin {
            None => {
                return Err(Fault::Error(PoolError::NotInitialized));
            },
            Some(a) => a,
        };
        self.config.paused = paused;
        self.config.paused_staking = staking;
        self.config.paused_withdrawals = withdrawals;
        Ok(Receipt::new((), Some(admin), Vec::new(), single(event)))
    }

    /// Pause everything (the admin authorizes).
    pub fn pause(&mut self) -> (r: PoolResult<()>)
        requires
            old(self).wf(),
        ensures
            final(self).wf(),
            r is Err ==> *final(self) == *old(self),
            old(self).config.admin is None ==> r == refused::<()>(PoolError::NotInitialized),
            old(self).config.admin matches Some(admin) ==> {
                &&& ok_quiet(r, admin, seq![PoolEvent::Paused])
                &&& final(self).config == PoolConfig {
                    paused: true,
                    paused_staking: true,
                    paused_withdrawals: true,
                    ..old(self).config
                }
                &&& final(self).totals == old(self).totals
                &&& final(self).same_records(old(self))
            },
    {
        self.set_flags(true, true, true, PoolEvent::Paused)
    }

    /// Pause new stakes and locks (the admin authorizes).
    pub fn pause_staking(&mut self) -> (r: PoolResult<()>)
        requires
            old(self).wf(),
        ensures
            final(self).wf(),
            r is Err ==> *final(self) == *old(self),
            old(self).config.admin is None ==> r == refused::<()>(PoolError::NotInitialized),
            old(self).config.admin matches Some(admin) ==> {
                &&& ok_quiet(r, admin, seq![PoolEvent::StakingPaused])
                &&& final(self).config == PoolConfig { paused_staking: true, ..old(self).config }
                &&& final(self).totals == old(self).totals
                &&& final(self).same_records(old(self))
            },
    {
        let (p, w) = (self.config.paused, self.config.paused_withdrawals);
        self.set_flags(p, true, w, PoolEvent::StakingPaused)
    }

    /// Pause unstakes and unlocks (the admin authorizes).
    pub fn pause_withdrawals(&mut self) -> (r: PoolResult<()>)
        requires
            old(self).wf(),
        ensures
            final(self).wf(),
            r is Err ==> *final(self) == *old(self),
            old(self).config.admin is None ==> r == refused::<()>(PoolError::NotInitialized),
            old(self).config.admin matches Some(admin) ==> {
                &&& ok_quiet(r, admin, seq![PoolEvent::WithdrawalsPaused])
                &&& final(self).config == PoolConfig { paused_withdrawals: true, ..old(self).config }
                &&& final(self).totals == old(self).totals
                &&& final(self).same_records(old(self))
            },
    {
        let (p, s) = (self.config.paused, self.config.paused_staking);
        self.set_flags(p, s, true, PoolEvent::WithdrawalsPaused)
    }

    /// Lift every pause (the admin authorizes).
    pub fn unpause(&mut self) -> (r: PoolResult<()>)
        requires
            old(self).wf(),
        ensures
            final(self).wf(),
            r is Err ==> *final(self) == *old(self),
            old(self).config.admin is None ==> r == refused::<()>(PoolError::NotInitialized),
            old(self).config.admin matches Some(admin) ==> {
                &&& ok_quiet(r, admin, seq![PoolEvent::Unpaused])
                &&& final(self).config == PoolConfig {
                    paused: false,
                    paused_staking: false,
                    paused_withdrawals: false,
                    ..old(self).config
                }
                &&& final(self).totals == old(self).totals
                &&& final(self).same_records(old(self))
            },
    {
        self.set_flags(false, false, false, PoolEvent::Unpaused)
    }

    /// Lift the staking pause (the admin authorizes).
    pub fn unpause_staking(&mut self) -> (r: PoolResult<()>)
        requires
            old(self).wf(),
        ensures
            final(self).wf(),
            r is Err ==> *final(self) == *old(self),
            old(self).config.admin is None ==> r == refused::<()>(PoolError::NotInitialized),
            old(self).config.admin matches Some(admin) ==> {
                &&& ok_quiet(r, admin, seq![PoolEvent::StakingUnpaused])
                &&& final(self).config == PoolConfig { paused_staking: false, ..old(self).config }
                &&& final(self).totals == old(self).totals
                &&& final(self).same_records(old(self))
            },
    {
        let (p, w) = (self.config.paused, self.config.paused_withdrawals);
        self.set_flags(p, false, w, PoolEvent::StakingUnpaused)
    }

    /// Lift the withdrawal pause (the admin authorizes).
    pub fn unpause_withdrawals(&mut self) -> (r: PoolResult<()>)
        requires
            old(self).wf(),
        ensures
            final(self).wf(),
            r is Err ==> *final(self) == *old(self),
            old(self).config.admin is None ==> r == refused::<()>(PoolError::NotInitialized),
            old(self).config.admin matches Some(admin) ==> {
                &&& ok_quiet(r, admin, seq![PoolEvent::WithdrawalsUnpaused])
                &&& final(self).config == PoolConfig { paused_withdrawals: false, ..old(self).config }
                &&& final(self).totals == old(self).totals
                &&& final(self).same_records(old(self))
            },
    {
        let (p, s) = (self.config.paused, self.config.paused_staking);
        self.set_flags(p, s, false, PoolEvent::WithdrawalsUnpaused)
    }

    /// Whether the pool is paused as a whole.
    pub fn is_paused(&self) -> (r: Result<bool, PoolError>)
        ensures
            r == self.read(self.config.paused),
    {
        self.checked_read(self.config.paused)
    }

    /// `Ok(v)` on an initialized pool, else `NotInitialized`.
    pub open spec fn read<T>(&self, v: T) -> Result<T, PoolError> {
        if self.config.admin is Some {
            Ok(v)
        } else {
            Err(PoolError::NotInitialized)
        }
    }

    /// `Ok(v)` on an initialized pool, else `NotInitialized`.
    fn checked_read<T>(&self, v: T) -> (r: Result<T, PoolError>)
        ensures
            r == self.read(v),
    {
        if self.config.admin.is_some() {
            Ok(v)
        } else {
            Err(PoolError::NotInitialized)
        }
    }

    /// Set the global multiplier at ledger `ledger` (the admin authorizes).
    /// Refused with `InvalidGlobalMultiplier` outside `1..=MAX_GLOBAL_MULTIPLIER`.
    pub fn set_global_multiplier(&mut self, ledger: u32, multiplier: u32) -> (r: PoolResult<()>)
        requires
            old(self).wf(),
        ensures
            final(self).wf(),
            r is Err ==> *final(self) == *old(self),
            old(self).config.admin is None ==> r == refused::<()>(PoolError::NotInitialized),
            old(self).config.admin matches Some(admin) ==> {
                if !(1 <= multiplier <= MAX_GLOBAL_MULTIPLIER) {
                    r == refused::<()>(PoolError::InvalidGlobalMultiplier)
                } else {
                    &&& ok_quiet(
                        r,
                        admin,
                        seq![
                            PoolEvent::MultiplierSet {
                                old_multiplier: old(self).config.global_multiplier,
                                new_multiplier: multiplier,
                            },
                        ],
                    )
                    &&& final(self).config == PoolConfig {
                        global_multiplier: multiplier,
                        multiplier_change_ledger: ledger,
                        ..old(self).config
                    }
                    &&& final(self).totals == old(self).totals
                    &&& final(self).same_records(old(self))
                }
            },
    {
        let admin = match self.config.admin {
            None => {
                return Err(Fault::Error(PoolError::NotInitialized));
            },
            Some(a) => a,
        };
        if !(1 <= multiplier && multiplier <= MAX_GLOBAL_MULTIPLIER) {
            return Err(Fault::Error(PoolError::InvalidGlobalMultiplier));
        }
        let old_multiplier = self.config.global_multiplier;
        self.config.global_multiplier = multiplier;
        self.config.multiplier_change_ledger = ledger;
        Ok(
            Receipt::new(
                (),
                Some(admin),
                Vec::new(),
                single(PoolEvent::MultiplierSet { old_multiplier, new_multiplier: multiplier }),
            ),
        )
    }

    /// Set the credit rate for future checkpoints at ledger `ledger` (the
    /// admin authorizes). Refused with `InvalidCreditRate` outside
    /// `1..=MAX_CREDIT_RATE`; traps when the change counter is exhausted.
    pub fn set_credit_rate(&mut self, ledger: u32, new_rate: i128) -> (r: PoolResult<()>)
        requires
            old(self).wf(),
        ensures
            final(self).wf(),
            r is Err ==> *final(self) == *old(self),
            old(self).config.admin is None ==> r == refused::<()>(PoolError::NotInitialized),
            old(self).config.admin matches Some(admin) ==> {
                if !(0 < new_rate <= MAX_CREDIT_RATE) {
                    r == refused::<()>(PoolError::InvalidCreditRate)
                } else if old(self).totals.credit_rate_change_count == u32::MAX {
                    r == trapped::<()>(Trap::ArithmeticOverflow)
                } else {
                    &&& ok_quiet(
                        r,
                        admin,
                        seq![
                            PoolEvent::CreditRateSet {
                                old_rate: old(self).config.credit_rate,
                                new_rate,
                                ledger,
                            },
                        ],
                    )
                    &&& final(self).config == PoolConfig { credit_rate: new_rate, ..old(self).config }
                    &&& final(self).totals == PoolTotals {
                        credit_rate_change_count: (old(self).totals.credit_rate_change_count + 1) as u32,
                        ..old(self).totals
                    }
                    &&& final(self).same_records(old(self))
                }
            },
    {
        let admin = match self.config.admin {
            None => {
                return Err(Fault::Error(PoolError::NotInitialized));
            },
            Some(a) => a,
        };
        if new_rate <= 0 || new_rate > MAX_CREDIT_RATE {
            return Err(Fault::Error(PoolError::InvalidCreditRate));
        }
        if self.totals.credit_rate_change_count == u32::MAX {
            return Err(Fault::Trap(Trap::ArithmeticOverflow));
        }
        let old_rate = self.config.credit_rate;
        self.config.credit_rate = new_rate;
        self.totals.credit_rate_change_count = self.totals.credit_rate_change_count + 1;
        Ok(
            Receipt::new(
                (),
                Some(admin),
                Vec::new(),
                single(PoolEvent::CreditRateSet { old_rate, new_rate, ledger }),
            ),
        )
    }

    /// Set the minimum lock period for new locks (the admin authorizes).
    pub fn set_min_lock_period(&mut self, new_period: u32) -> (r: PoolResult<()>)
        requires
            old(self).wf(),
        ensures
            final(self).wf(),
            r is Err ==> *final(self) == *old(self),
            old(self).config.admin is None ==> r == refused::<()>(PoolError::NotInitialized),
            old(self).config.admin matches Some(admin) ==> {
                &&& ok_quiet(
                    r,
                    admin,
                    seq![
                        PoolEvent::MinLockPeriodSet {
                            old_period: old(self).config.min_lock_period,
                            new_period,
                        },
                    ],
                )
                &&& final(self).config == PoolConfig { min_lock_period: new_period, ..old(self).config }
                &&& final(self).totals == old(self).totals
                &&& final(self).same_records(old(self))
            },
    {
        let admin = match self.config.admin {
            None => {
                return Err(Fault::Error(PoolError::NotInitialized));
            },
            Some(a) => a,
        };
        let old_period = self.config.min_lock_period;
        self.config.min_lock_period = new_period;
        Ok(
            Receipt::new(
                (),
                Some(admin),
                Vec::new(),
                single(PoolEvent::MinLockPeriodSet { old_period, new_period }),
            ),
        )
    }

    /// Set the minimum stake (the admin authorizes). Refused with
    /// `InvalidMinStakeAmount` outside `1..=MAX_STAKE_AMOUNT`.
    pub fn set_min_stake_amount(&mut self, amount: i128) -> (r: PoolResult<()>)
        requires
            old(self).wf(),
        ensures
            final(self).wf(),
            r is Err ==> *final(self) == *old(self),
            old(self).config.admin is None ==> r == refused::<()>(PoolError::NotInitialized),
            old(self).config.admin matches Some(admin) ==> {
                if !(0 < amount <= MAX_STAKE_AMOUNT) {
                    r == refused::<()>(PoolError::InvalidMinStakeAmount)
                } else {
                    &&& ok_quiet(
                        r,
                        admin,
                        seq![
                            PoolEvent::MinStakeSet {
                                old_amount: old(self).config.min_stake_amount,
                                new_amount: amount,
                            },
                        ],
                    )
                    &&& final(self).config == PoolConfig { min_stake_amount: amount, ..old(self).config }
                    &&& final(self).totals == old(self).totals
                    &&& final(self).same_records(old(self))
                }
            },
    {
        let admin = match self.config.admin {
            None => {
                return Err(Fault::Error(PoolError::NotInitialized));
            },
            Some(a) => a,
        };
        if amount <= 0 || amount > MAX_STAKE_AMOUNT {
            return Err(Fault::Error(PoolError::InvalidMinStakeAmount));
        }
        let old_amount = self.config.min_stake_amount;
        self.config.min_stake_amount = amount;
        Ok(
            Receipt::new(
                (),
                Some(admin),
                Vec::new(),
                single(PoolEvent::MinStakeSet { old_amount, new_amount: amount }),
            ),
        )
    }

    /// The minimum stake.
    pub fn get_min_stake_amount(&self) -> (r: Result<i128, PoolError>)
        ensures
            r == self.read(self.config.min_stake_amount),
    {
        self.checked_read(self.config.min_stake_amount)
    }

    /// The credit rate for new checkpoints.
    pub fn credit_rate(&self) -> (r: Result<i128, PoolError>)
        ensures
            r == self.read(self.config.credit_rate),
    {
        self.checked_read(self.config.credit_rate)
    }

    /// Same as `credit_rate`.
    pub fn get_credit_rate(&self) -> (r: Result<i128, PoolError>)
        ensures
            r == self.read(self.config.credit_rate),
    {
        self.credit_rate()
    }

    /// The minimum lock period in ledgers.
    pub fn min_lock_period(&self) -> (r: Result<u32, PoolError>)
        ensures
            r == self.read(self.config.min_lock_period),
    {
        self.checked_read(self.config.min_lock_period)
    }

    /// Same as `min_lock_period`.
    pub fn get_min_lock_period(&self) -> (r: Result<u32, PoolError>)
        ensures
            r == self.read(self.config.min_lock_period),
    {
        self.min_lock_period()
    }

    /// The minimum lock period in seconds, at five seconds per ledger.
    pub fn min_lock_period_seconds(&self) -> (r: Result<u64, PoolError>)
        ensures
            r == self.read((self.config.min_lock_period * 5) as u64),
    {
        let ledgers = self.min_lock_period()?;
        Ok((ledgers as u64) * 5)
    }

    /// Same as `min_lock_period_seconds`.
    pub fn get_min_lock_period_seconds(&self) -> (r: Result<u64, PoolError>)
        ensures
            r == self.read((self.config.min_lock_period * 5) as u64),
    {
        self.min_lock_period_seconds()
    }

    /// Sum of all flexible stakes and locked positions.
    pub fn total_staked(&self) -> (r: Result<i128, PoolError>)
        ensures
            r == self.read(self.totals.total_staked),
    {
        self.checked_read(self.totals.total_staked)
    }

    /// Sum of all locked positions.
    pub fn total_locked(&self) -> (r: Result<i128, PoolError>)
        ensures
            r == self.read(self.totals.total_locked),
    {
        self.checked_read(self.totals.total_locked)
    }

    /// Same as `total_locked`.
    pub fn get_total_locked(&self) -> (r: Result<i128, PoolError>)
        ensures
            r == self.read(self.totals.total_locked),
    {
        self.total_locked()
    }

    /// Credits committed at checkpoints since initialization.
    pub fn total_credits(&self) -> (r: Result<i128, PoolError>)
        ensures
            r == self.read(self.totals.total_credits),
    {
        self.checked_read(self.totals.total_credits)
    }

    /// Credits distributed to all users since initialization.
    pub fn total_distributed_credits(&self) -> (r: Result<i128, PoolError>)
        ensures
            r == self.read(self.totals.total_distributed_credits),
    {
        self.checked_read(self.totals.total_distributed_credits)
    }

    /// Credits currently banked across users.
    pub fn total_banked_credits(&self) -> (r: Result<i128, PoolError>)
        ensures
            r == self.read(self.totals.total_banked_credits),
    {
        self.checked_read(self.totals.total_banked_credits)
    }

    /// Tokens deposited by stakes and locks, cumulatively.
    pub fn total_deposits(&self) -> (r: Result<i128, PoolError>)
        ensures
            r == self.read(self.totals.total_deposits),
    {
        self.checked_read(self.totals.total_deposits)
    }

    /// Tokens paid out by unstakes, unlocks and emergency exits, cumulatively.
    pub fn total_withdrawals(&self) -> (r: Result<i128, PoolError>)
        ensures
            r == self.read(self.totals.total_withdrawals),
    {
        self.checked_read(self.totals.total_withdrawals)
    }

    /// Users holding a position or a stake.
    pub fn staked_user_count(&self) -> (r: Result<u32, PoolError>)
        ensures
            r == self.read(self.totals.staked_user_count),
    {
        self.checked_read(self.totals.staked_user_count)
    }

    /// Same as `staked_user_count`.
    pub fn get_staked_user_count(&self) -> (r: Result<u32, PoolError>)
        ensures
            r == self.read(self.totals.staked_user_count),
    {
        self.staked_user_count()
    }

    /// Lock operations performed.
    pub fn lock_count(&self) -> (r: Result<u32, PoolError>)
        ensures
            r == self.read(self.totals.lock_count),
    {
        self.checked_read(self.totals.lock_count)
    }

    /// Same as `lock_count`.
    pub fn get_lock_count(&self) -> (r: Result<u32, PoolError>)
        ensures
            r == self.read(self.totals.lock_count),
    {
        self.lock_count()
    }

    /// Unstake operations performed.
    pub fn unstake_count(&self) -> (r: Result<u32, PoolError>)
        ensures
            r == self.read(self.totals.unstake_count),
    {
        self.checked_read(self.totals.unstake_count)
    }

    /// Same as `unstake_count`.
    pub fn get_unstake_count(&self) -> (r: Result<u32, PoolError>)
        ensures
            r == self.read(self.totals.unstake_count),
    {
        self.unstake_count()
    }

    /// Users that ever had a boost configured.
    pub fn boost_count(&self) -> (r: Result<u32, PoolError>)
        ensures
            r == self.read(self.totals.boost_count),
    {
        self.checked_read(self.totals.boost_count)
    }

    /// Same as `boost_count`.
    pub fn get_boost_count(&self) -> (r: Result<u32, PoolError>)
        ensures
            r == self.read(self.totals.boost_count),
    {
        self.boost_count()
    }

    /// Currently active flexible stakes.
    pub fn active_stake_count(&self) -> (r: Result<u32, PoolError>)
        ensures
            r == self.read(self.totals.active_stake_count),
    {
        self.checked_read(self.totals.active_stake_count)
    }

    /// Same as `active_stake_count`.
    pub fn get_active_stake_count(&self) -> (r: Result<u32, PoolError>)
        ensures
            r == self.read(self.totals.active_stake_count),
    {
        self.active_stake_count()
    }

    /// Credit rate changes performed.
    pub fn credit_rate_change_count(&self) -> (r: Result<u32, PoolError>)
        ensures
            r == self.read(self.totals.credit_rate_change_count),
    {
        self.checked_read(self.totals.credit_rate_change_count)
    }

    /// Same as `credit_rate_change_count`.
    pub fn get_credit_rate_change_count(&self) -> (r: Result<u32, PoolError>)
        ensures
            r == self.read(self.totals.credit_rate_change_count),
    {
        self.credit_rate_change_count()
    }

    /// Successful emergency withdrawals since initialization.
    pub fn emergency_withdrawal_count(&self) -> (r: u32)
        ensures
            r == self.totals.emergency_withdrawal_count,
    {
        self.totals.emergency_withdrawal_count
    }
}

} // verus!
