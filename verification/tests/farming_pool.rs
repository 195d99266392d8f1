use smartdrop::accounts::{BankedCreditTotals, BoostConfig, Position, UserStake};
use smartdrop::common::{Address, Fault, Receipt, Transfer, Trap, WasmHash};
use smartdrop::credits::compute_total_stake;
use smartdrop::pool::{FarmingPool, ListWhitelistedResponse, PoolError, PoolEvent, MAX_CREDIT_RATE, MAX_GLOBAL_MULTIPLIER, SCHEMA_VERSION};

// ── A small host: ledger, token balances, authorizations and events ─────────

/// Why an invocation failed.
#[derive(Debug, PartialEq)]
enum CallError {
    Contract(PoolError),
    Trap(Trap),
    Auth,
    Host(&'static str),
}

struct Host {
    ledger: u32,
    next_id: u64,
    balances: Vec<(Address, i128)>,
    /// Events of the most recent invocation only.
    events: Vec<PoolEvent>,
    /// `None`: every authorization is granted; otherwise only these sign.
    signers: Option<Vec<Address>>,
    /// How the stake token behaves when asked to move tokens.
    token_mode: TokenMode,
    /// Whether the token tried to call back into the pool and was refused.
    reentry_rejected: bool,
}

/// The stake token's behaviour during a transfer.
#[derive(Clone, Copy, PartialEq)]
enum TokenMode {
    /// An ordinary token that keeps balances.
    Standard,
    /// A token that tries to call back into the pool, is refused by the
    /// host, ignores the refusal and completes the transfer.
    Reentrant,
    /// A token that tries to call back into the pool and does not handle the
    /// refusal, so the transfer traps.
    NaiveReentrant,
}

impl Host {
    fn new() -> Host {
        Host {
            ledger: 0,
            next_id: 1,
            balances: Vec::new(),
            events: Vec::new(),
            signers: None,
            token_mode: TokenMode::Standard,
            reentry_rejected: false,
        }
    }

    fn generate(&mut self) -> Address {
        let id = self.next_id;
        self.next_id += 1;
        Address::account(0xfa4d, id, id.wrapping_mul(131), 3)
    }

    fn generate_contract(&mut self) -> Address {
        let id = self.next_id;
        self.next_id += 1;
        Address::contract(0xc0de, id, 0, 2)
    }

    fn balance(&self, a: &Address) -> i128 {
        self.balances.iter().find(|(x, _)| x == a).map(|(_, b)| *b).unwrap_or(0)
    }

    fn mint(&mut self, a: &Address, amount: i128) {
        let b = self.balance(a) + amount;
        set_balance(&mut self.balances, a, b);
    }

    fn settle<T>(&mut self, contract: &Address, r: Result<Receipt<T, PoolEvent>, Fault<PoolError>>) -> Result<T, CallError> {
        let receipt = match r {
            Ok(receipt) => receipt,
            Err(Fault::Error(e)) => return Err(CallError::Contract(e)),
            Err(Fault::Trap(t)) => return Err(CallError::Trap(t)),
        };
        if let (Some(who), Some(signers)) = (receipt.auth, &self.signers) {
            if !signers.contains(&who) {
                return Err(CallError::Auth);
            }
        }
        if !receipt.transfers.is_empty() {
            match self.token_mode {
                TokenMode::Standard => {}
                TokenMode::Reentrant => {
                    self.reentry_rejected = true;
                    self.events = receipt.events;
                    return Ok(receipt.value);
                }
                TokenMode::NaiveReentrant => return Err(CallError::Host("Contract re-entry is not allowed")),
            }
        }
        let mut balances = self.balances.clone();
        for t in receipt.transfers.iter() {
            let (from, to, amount) = match *t {
                Transfer::In { from, amount, .. } => (from, *contract, amount),
                Transfer::Out { to, amount, .. } => (*contract, to, amount),
            };
            if amount < 0 {
                return Err(CallError::Host("negative amount is not allowed"));
            }
            let fb = balances.iter().find(|(x, _)| *x == from).map(|(_, b)| *b).unwrap_or(0);
            if fb < amount {
                return Err(CallError::Host("balance is not sufficient to spend"));
            }
            set_balance(&mut balances, &from, fb - amount);
            let tb = balances.iter().find(|(x, _)| *x == to).map(|(_, b)| *b).unwrap_or(0);
            set_balance(&mut balances, &to, tb + amount);
        }
        self.balances = balances;
        self.events = receipt.events;
        Ok(receipt.value)
    }
}

fn set_balance(balances: &mut Vec<(Address, i128)>, a: &Address, b: i128) {
    match balances.iter_mut().find(|(x, _)| x == a) {
        Some(entry) => entry.1 = b,
        None => balances.push((*a, b)),
    }
}

fn trap_message(t: Trap) -> &'static str {
    match t {
        Trap::ArithmeticOverflow => "arithmetic overflow",
    }
}

fn must<T>(r: Result<T, CallError>) -> T {
    match r {
        Ok(v) => v,
        Err(CallError::Contract(e)) => panic!("Error(Contract, #{})", e.code()),
        Err(CallError::Trap(t)) => panic!("{}", trap_message(t)),
        Err(CallError::Auth) => panic!("Error(Auth, InvalidAction)"),
        Err(CallError::Host(m)) => panic!("{}", m),
    }
}

fn fault(f: Fault<PoolError>) -> CallError {
    match f {
        Fault::Error(e) => CallError::Contract(e),
        Fault::Trap(t) => CallError::Trap(t),
    }
}

/// A deployed pool, its stake token, and the host it runs on.
struct TestEnv {
    host: Host,
    pool: FarmingPool,
    contract_id: Address,
    token: Address,
    admin: Address,
    user: Address,
}

impl TestEnv {
    fn uninitialized() -> TestEnv {
        let mut host = Host::new();
        let contract_id = host.generate_contract();
        let token = host.generate_contract();
        let admin = host.generate();
        let user = host.generate();
        TestEnv { host, pool: FarmingPool::new(), contract_id, token, admin, user }
    }

    fn generate(&mut self) -> Address {
        self.host.generate()
    }

    fn mint(&mut self, a: &Address, amount: i128) {
        self.host.mint(a, amount);
    }

    fn balance(&self, a: &Address) -> i128 {
        self.host.balance(a)
    }

    fn advance_ledgers(&mut self, by: u32) {
        self.host.ledger += by;
    }

    /// Run a state-changing call; a failed call leaves everything as it was.
    fn run<T>(&mut self, f: impl FnOnce(&mut FarmingPool, u32) -> Result<Receipt<T, PoolEvent>, Fault<PoolError>>) -> Result<T, CallError> {
        let snapshot = self.pool.clone();
        self.host.events.clear();
        let ledger = self.host.ledger;
        let r = f(&mut self.pool, ledger);
        let c = self.contract_id;
        let out = self.host.settle(&c, r);
        if out.is_err() {
            self.pool = snapshot;
        }
        out
    }

    fn view<T>(&mut self, f: impl FnOnce(&FarmingPool, u32) -> Result<T, PoolError>) -> Result<T, CallError> {
        self.host.events.clear();
        f(&self.pool, self.host.ledger).map_err(CallError::Contract)
    }

    fn view_f<T>(&mut self, f: impl FnOnce(&FarmingPool, u32) -> Result<T, Fault<PoolError>>) -> Result<T, CallError> {
        self.host.events.clear();
        f(&self.pool, self.host.ledger).map_err(fault)
    }

    fn try_initialize(&mut self, admin: &Address, token: &Address, m: u32, rate: i128, lock: u32, min_stake: i128) -> Result<(), CallError> {
        let (a, tk) = (*admin, *token);
        self.run(move |p, _| p.initialize(a, tk, m, rate, lock, min_stake))
    }
    fn initialize(&mut self, admin: &Address, token: &Address, m: u32, rate: i128, lock: u32, min_stake: i128) {
        must(self.try_initialize(admin, token, m, rate, lock, min_stake))
    }

    /// Whether the pool is initialized and open for staking.
    fn staking_open(&self) -> bool {
        let c = &self.pool.config;
        c.admin.is_some() && !c.paused && !c.paused_staking
    }
    /// Whether the pool is initialized and open for withdrawals.
    fn withdrawals_open(&self) -> bool {
        let c = &self.pool.config;
        c.admin.is_some() && !c.paused && !c.paused_withdrawals
    }
    /// Abort the invocation as the contract does on a failed assertion:
    /// after the authorization of `who` has been checked.
    fn abort<T>(&mut self, who: Option<Address>, message: &'static str) -> Result<T, CallError> {
        self.host.events.clear();
        if let (Some(w), Some(signers)) = (who, &self.host.signers) {
            if !signers.contains(&w) {
                return Err(CallError::Auth);
            }
        }
        Err(CallError::Host(message))
    }
    /// Why unlocking `amount` for `user` now would abort, if it would.
    fn unlock_refusal(&self, user: &Address, amount: i128) -> Option<&'static str> {
        if amount <= 0 {
            return Some("amount must be positive");
        }
        match self.pool.accounts.account(user).position {
            None => Some("no active position"),
            Some(p) if amount > p.amount => Some("insufficient locked balance"),
            Some(p) if self.host.ledger < p.unlock_ledger => Some("minimum lock period not elapsed"),
            Some(_) => None,
        }
    }

    fn try_stake(&mut self, user: &Address, amount: i128) -> Result<(), CallError> {
        if self.staking_open() && amount <= 0 {
            return self.abort(Some(*user), "amount must be positive");
        }
        let u = *user;
        self.run(move |p, l| p.stake(l, u, amount))
    }
    fn stake(&mut self, user: &Address, amount: i128) {
        must(self.try_stake(user, amount))
    }
    fn try_unstake(&mut self, user: &Address) -> Result<i128, CallError> {
        if self.withdrawals_open() && self.pool.accounts.account(user).stake.is_none() {
            return self.abort(Some(*user), "no active stake");
        }
        let u = *user;
        self.run(move |p, l| p.unstake(l, u))
    }
    fn unstake(&mut self, user: &Address) -> i128 {
        must(self.try_unstake(user))
    }
    fn try_lock_assets(&mut self, user: &Address, amount: i128) -> Result<(), CallError> {
        if self.staking_open() && amount <= 0 {
            return self.abort(Some(*user), "amount must be positive");
        }
        let u = *user;
        self.run(move |p, l| p.lock_assets(l, u, amount))
    }
    fn lock_assets(&mut self, user: &Address, amount: i128) {
        must(self.try_lock_assets(user, amount))
    }
    fn try_unlock_assets(&mut self, user: &Address, amount: i128) -> Result<(), CallError> {
        if self.withdrawals_open() {
            if let Some(message) = self.unlock_refusal(user, amount) {
                return self.abort(Some(*user), message);
            }
        }
        let u = *user;
        self.run(move |p, l| p.unlock_assets(l, u, amount))
    }
    fn unlock_assets(&mut self, user: &Address, amount: i128) {
        must(self.try_unlock_assets(user, amount))
    }
    fn try_set_boost(&mut self, user: &Address, pct: u32) -> Result<(), CallError> {
        if self.staking_open() && !(1..=100).contains(&pct) {
            let admin = self.pool.config.admin;
            return self.abort(admin, "allocation_pct must be 1-100");
        }
        let u = *user;
        self.run(move |p, l| p.set_boost(l, u, pct))
    }
    fn set_boost(&mut self, user: &Address, pct: u32) {
        must(self.try_set_boost(user, pct))
    }
    fn try_emergency_withdraw(&mut self, user: &Address) -> Result<i128, CallError> {
        let u = *user;
        self.run(move |p, l| p.emergency_withdraw(l, u))
    }
    fn emergency_withdraw(&mut self, user: &Address) -> i128 {
        must(self.try_emergency_withdraw(user))
    }

    fn try_pause(&mut self) -> Result<(), CallError> {
        self.run(|p, _| p.pause())
    }
    fn pause(&mut self) {
        must(self.try_pause())
    }
    fn unpause(&mut self) {
        must(self.run(|p, _| p.unpause()))
    }
    fn pause_staking(&mut self) {
        must(self.run(|p, _| p.pause_staking()))
    }
    fn unpause_staking(&mut self) {
        must(self.run(|p, _| p.unpause_staking()))
    }
    fn pause_withdrawals(&mut self) {
        must(self.run(|p, _| p.pause_withdrawals()))
    }
    fn unpause_withdrawals(&mut self) {
        must(self.run(|p, _| p.unpause_withdrawals()))
    }
    fn is_paused(&mut self) -> bool {
        must(self.view(|p, _| p.is_paused()))
    }

    fn try_propose_admin(&mut self, new_admin: &Address) -> Result<(), CallError> {
        let a = *new_admin;
        self.run(move |p, _| p.propose_admin(a))
    }
    fn propose_admin(&mut self, new_admin: &Address) {
        must(self.try_propose_admin(new_admin))
    }
    fn try_accept_admin(&mut self) -> Result<(), CallError> {
        self.run(|p, _| p.accept_admin())
    }
    fn accept_admin(&mut self) {
        must(self.try_accept_admin())
    }
    fn try_transfer_admin(&mut self, new_admin: &Address) -> Result<(), CallError> {
        let a = *new_admin;
        self.run(move |p, _| p.transfer_admin(a))
    }
    fn transfer_admin(&mut self, new_admin: &Address) {
        must(self.try_transfer_admin(new_admin))
    }
    fn try_admin(&mut self) -> Result<Address, CallError> {
        self.view(|p, _| p.admin())
    }
    fn admin(&mut self) -> Address {
        must(self.try_admin())
    }

    fn try_set_global_multiplier(&mut self, m: u32) -> Result<(), CallError> {
        self.run(move |p, l| p.set_global_multiplier(l, m))
    }
    fn set_global_multiplier(&mut self, m: u32) {
        must(self.try_set_global_multiplier(m))
    }
    fn try_set_credit_rate(&mut self, rate: i128) -> Result<(), CallError> {
        self.run(move |p, l| p.set_credit_rate(l, rate))
    }
    fn set_credit_rate(&mut self, rate: i128) {
        must(self.try_set_credit_rate(rate))
    }
    fn try_set_min_lock_period(&mut self, period: u32) -> Result<(), CallError> {
        self.run(move |p, _| p.set_min_lock_period(period))
    }
    fn set_min_lock_period(&mut self, period: u32) {
        must(self.try_set_min_lock_period(period))
    }
    fn set_min_stake_amount(&mut self, amount: i128) {
        must(self.run(move |p, _| p.set_min_stake_amount(amount)))
    }
    fn migrate(&mut self) -> u32 {
        must(self.run(|p, _| p.migrate()))
    }
    fn try_upgrade(&mut self, hash: WasmHash) -> Result<WasmHash, CallError> {
        self.run(move |p, _| p.upgrade(hash))
    }

    fn get_credits(&mut self, user: &Address) -> i128 {
        let u = *user;
        must(self.view_f(move |p, l| p.get_credits(l, u)))
    }
    fn get_stake_credits(&mut self, user: &Address) -> i128 {
        let u = *user;
        must(self.view_f(move |p, l| p.get_stake_credits(l, u)))
    }
    fn get_position_credits(&mut self, user: &Address) -> i128 {
        let u = *user;
        must(self.view_f(move |p, l| p.get_position_credits(l, u)))
    }
    fn calculate_credits(&mut self, user: &Address) -> i128 {
        let u = *user;
        must(self.view_f(move |p, l| p.calculate_credits(l, u)))
    }
    fn get_user_position(&mut self, user: &Address) -> Option<Position> {
        let u = *user;
        must(self.view_f(move |p, l| p.get_user_position(l, u)))
    }
    fn get_stake(&mut self, user: &Address) -> Option<UserStake> {
        let u = *user;
        must(self.view_f(move |p, l| p.get_stake(l, u)))
    }
    fn has_position(&mut self, user: &Address) -> bool {
        let u = *user;
        must(self.view(move |p, _| p.has_position(u)))
    }
    fn get_boost_config(&mut self, user: &Address) -> Option<BoostConfig> {
        let u = *user;
        must(self.view(move |p, _| p.get_boost_config(u)))
    }
    fn get_banked_credits(&mut self, user: &Address) -> i128 {
        let u = *user;
        must(self.view_f(move |p, _| p.get_banked_credits(u)))
    }
    fn get_banked_credits_split(&mut self, user: &Address) -> BankedCreditTotals {
        let u = *user;
        must(self.view(move |p, _| p.get_banked_credits_split(u)))
    }
    fn total_credits_earned(&mut self, user: &Address) -> i128 {
        let u = *user;
        must(self.view(move |p, _| p.total_credits_earned(u)))
    }

    fn enable_whitelist(&mut self) {
        must(self.run(|p, _| p.enable_whitelist()))
    }
    fn disable_whitelist(&mut self) {
        must(self.run(|p, _| p.disable_whitelist()))
    }
    fn add_to_whitelist(&mut self, user: &Address) {
        let u = *user;
        must(self.run(move |p, _| p.add_to_whitelist(u)))
    }
    fn remove_from_whitelist(&mut self, user: &Address) {
        let u = *user;
        must(self.run(move |p, _| p.remove_from_whitelist(u)))
    }
    fn is_whitelisted(&mut self, user: &Address) -> bool {
        self.host.events.clear();
        self.pool.is_whitelisted(*user)
    }
    fn get_whitelisted_users(&mut self, offset: u32, limit: u32) -> ListWhitelistedResponse {
        must(self.view(move |p, _| p.get_whitelisted_users(offset, limit)))
    }
    fn try_batch_add_to_whitelist(&mut self, users: &Vec<Address>) -> Result<(), CallError> {
        if self.pool.config.admin.is_some() && users.len() > 50 {
            let admin = self.pool.config.admin;
            return self.abort(admin, "max 50 addresses per call");
        }
        let us = users.clone();
        self.run(move |p, _| p.batch_add_to_whitelist(&us))
    }
    fn batch_add_to_whitelist(&mut self, users: &Vec<Address>) {
        must(self.try_batch_add_to_whitelist(users))
    }
    fn try_batch_remove_from_whitelist(&mut self, users: &Vec<Address>) -> Result<(), CallError> {
        if self.pool.config.admin.is_some() && users.len() > 50 {
            let admin = self.pool.config.admin;
            return self.abort(admin, "max 50 addresses per call");
        }
        let us = users.clone();
        self.run(move |p, _| p.batch_remove_from_whitelist(&us))
    }
    fn batch_remove_from_whitelist(&mut self, users: &Vec<Address>) {
        must(self.try_batch_remove_from_whitelist(users))
    }
    fn try_whitelist_count(&mut self) -> Result<u32, CallError> {
        self.view(|p, _| p.whitelist_count())
    }
    fn whitelist_count(&mut self) -> u32 {
        must(self.try_whitelist_count())
    }
    fn get_whitelist_count(&mut self) -> u32 {
        must(self.view(|p, _| p.get_whitelist_count()))
    }

    fn total_staked(&mut self) -> i128 {
        must(self.view(|p, _| p.total_staked()))
    }
    fn total_credits(&mut self) -> i128 {
        must(self.view(|p, _| p.total_credits()))
    }
    fn total_distributed_credits(&mut self) -> i128 {
        must(self.view(|p, _| p.total_distributed_credits()))
    }
    fn total_banked_credits(&mut self) -> i128 {
        must(self.view(|p, _| p.total_banked_credits()))
    }
    fn credit_rate(&mut self) -> i128 {
        must(self.view(|p, _| p.credit_rate()))
    }
    fn get_credit_rate(&mut self) -> i128 {
        must(self.view(|p, _| p.get_credit_rate()))
    }
    fn min_lock_period(&mut self) -> u32 {
        must(self.view(|p, _| p.min_lock_period()))
    }
    fn get_min_lock_period(&mut self) -> u32 {
        must(self.view(|p, _| p.get_min_lock_period()))
    }
    fn min_lock_period_seconds(&mut self) -> u64 {
        must(self.view(|p, _| p.min_lock_period_seconds()))
    }
    fn get_min_lock_period_seconds(&mut self) -> u64 {
        must(self.view(|p, _| p.get_min_lock_period_seconds()))
    }
    fn get_min_stake_amount(&mut self) -> i128 {
        must(self.view(|p, _| p.get_min_stake_amount()))
    }
    fn staked_user_count(&mut self) -> u32 {
        must(self.view(|p, _| p.staked_user_count()))
    }
    fn get_staked_user_count(&mut self) -> u32 {
        must(self.view(|p, _| p.get_staked_user_count()))
    }
    fn lock_count(&mut self) -> u32 {
        must(self.view(|p, _| p.lock_count()))
    }
    fn get_lock_count(&mut self) -> u32 {
        must(self.view(|p, _| p.get_lock_count()))
    }
    fn unstake_count(&mut self) -> u32 {
        must(self.view(|p, _| p.unstake_count()))
    }
    fn get_unstake_count(&mut self) -> u32 {
        must(self.view(|p, _| p.get_unstake_count()))
    }
    fn active_stake_count(&mut self) -> u32 {
        must(self.view(|p, _| p.active_stake_count()))
    }
    fn get_active_stake_count(&mut self) -> u32 {
        must(self.view(|p, _| p.get_active_stake_count()))
    }
    fn credit_rate_change_count(&mut self) -> u32 {
        must(self.view(|p, _| p.credit_rate_change_count()))
    }
    fn get_credit_rate_change_count(&mut self) -> u32 {
        must(self.view(|p, _| p.get_credit_rate_change_count()))
    }
}

fn setup(global_multiplier: u32, credit_rate: i128) -> TestEnv {
    setup_with_lock_period(global_multiplier, credit_rate, 0)
}

fn setup_with_lock_period(global_multiplier: u32, credit_rate: i128, min_lock_period: u32) -> TestEnv {
    let mut t = TestEnv::uninitialized();
    let (admin, user, token) = (t.admin, t.user, t.token);
    t.mint(&user, 1_000_000_000);
    t.initialize(&admin, &token, global_multiplier, credit_rate, min_lock_period, 100);
    t
}

/// An initialized pool where no authorization is granted until a test
/// names the signer.
fn setup_without_mocked_auth() -> TestEnv {
    let mut t = TestEnv::uninitialized();
    let (admin, token) = (t.admin, t.token);
    t.initialize(&admin, &token, 2, 1, 0, 1);
    t.host.signers = Some(Vec::new());
    t
}

fn sign_as(t: &mut TestEnv, who: &Address) {
    t.host.signers = Some(vec![*who]);
}

// ── uninitialized pool, events, totals ───────────────────────────────────────

#[test]
fn test_stake_uninitialized_returns_not_initialized() {
    let mut t = TestEnv::uninitialized();
    let user = t.user;
    match t.try_stake(&user, 100) {
        Err(CallError::Contract(PoolError::NotInitialized)) => {}
        _ => panic!("expected PoolError::NotInitialized"),
    }
}

#[test]
fn test_stake_emits_event() {
    let mut t = setup(2, 1);
    let user = t.user;
    t.stake(&user, 1_000);
    assert_eq!(t.host.events, vec![PoolEvent::Staked { user, amount: 1_000 }]);
}

#[test]
fn test_total_staked_tracks_locked_and_flexible_positions() {
    let mut t = setup(2, 1);
    let user = t.user;
    assert_eq!(t.total_staked(), 0);
    t.stake(&user, 1_000);
    assert_eq!(t.total_staked(), 1_000);
    t.lock_assets(&user, 500);
    assert_eq!(t.total_staked(), 1_500);
    t.unstake(&user);
    assert_eq!(t.total_staked(), 500);
    t.unlock_assets(&user, 500);
    assert_eq!(t.total_staked(), 0);
}

#[test]
fn test_total_distributed_credits_starts_at_zero() {
    let mut t = setup(2, 1);
    assert_eq!(t.total_distributed_credits(), 0);
}

#[test]
fn test_total_distributed_credits_counts_banked_stake_accrual_on_checkpoint() {
    let mut t = setup(2, 1);
    let user = t.user;
    t.stake(&user, 1_000);
    assert_eq!(t.total_distributed_credits(), 0);
    t.advance_ledgers(10);
    assert_eq!(t.get_credits(&user), 10_000);
    assert_eq!(t.total_distributed_credits(), 0);
    let banked = t.unstake(&user);
    assert_eq!(banked, 10_000);
    assert_eq!(t.total_distributed_credits(), 10_000);
}

#[test]
fn test_total_distributed_credits_counts_position_accrual_on_unlock() {
    let mut t = setup_with_lock_period(1, 1, 0);
    let user = t.user;
    assert_eq!(t.total_distributed_credits(), 0);
    t.lock_assets(&user, 1_000);
    assert_eq!(t.total_distributed_credits(), 0);
    t.advance_ledgers(10);
    t.unlock_assets(&user, 500);
    assert_eq!(t.total_distributed_credits(), 10_000);
}

#[test]
fn test_total_distributed_credits_accumulates_across_users_and_systems() {
    let mut t = setup(2, 1);
    let user = t.user;
    let other = t.generate();
    t.mint(&other, 1_000_000_000);
    t.stake(&user, 1_000);
    t.advance_ledgers(10);
    t.stake(&user, 100);
    assert_eq!(t.total_distributed_credits(), 10_000);
    t.lock_assets(&other, 100);
    t.advance_ledgers(5);
    t.unlock_assets(&other, 100);
    assert_eq!(t.total_distributed_credits(), 10_500);
}

#[test]
fn test_total_credits_earned_tracks_lifetime_credits_across_withdrawals() {
    let mut t = setup(2, 1);
    let user = t.user;
    t.stake(&user, 1_000);
    t.advance_ledgers(10);
    assert_eq!(t.get_credits(&user), 10_000);
    assert_eq!(t.total_credits_earned(&user), 0);
    t.unstake(&user);
    assert_eq!(t.total_credits_earned(&user), 10_000);
    t.advance_ledgers(5);
    t.stake(&user, 500);
    t.advance_ledgers(5);
    t.unstake(&user);
    assert_eq!(t.total_credits_earned(&user), 12_500);
}

#[test]
fn test_total_banked_credits_tracks_current_bank_across_users() {
    let mut t = setup(2, 1);
    let user = t.user;
    let other = t.generate();
    t.mint(&other, 1_000_000_000);
    t.stake(&user, 1_000);
    t.advance_ledgers(10);
    assert_eq!(t.total_banked_credits(), 0);
    t.unstake(&user);
    assert_eq!(t.total_banked_credits(), 0);
    t.stake(&other, 2_000);
    t.advance_ledgers(5);
    t.unstake(&other);
    assert_eq!(t.total_banked_credits(), 0);
}

#[test]
fn test_pause_uninitialized_returns_not_initialized() {
    let mut t = TestEnv::uninitialized();
    match t.try_pause() {
        Err(CallError::Contract(PoolError::NotInitialized)) => {}
        _ => panic!("expected PoolError::NotInitialized"),
    }
}

#[test]
fn test_schema_version_defaults_to_current_release() {
    let t = setup(2, 1);
    assert_eq!(t.pool.schema_version(), SCHEMA_VERSION);
}

#[test]
fn test_migrate_placeholder_requires_admin_and_stamps_current_version() {
    let mut t = setup(2, 1);
    assert_eq!(t.migrate(), SCHEMA_VERSION);
    assert_eq!(t.pool.schema_version(), SCHEMA_VERSION);
}

#[test]
fn test_upgrade_preserves_stake_storage_and_enables_new_wasm() {
    let mut t = setup(2, 1);
    let user = t.user;
    t.stake(&user, 1_000);
    t.advance_ledgers(10);
    let before = t.pool.accounts.account(&user).stake.expect("stake storage must exist before upgrade");
    let new_wasm_hash = WasmHash { w0: 0x1234, w1: 5, w2: 6, w3: 7 };
    let r = t.try_upgrade(new_wasm_hash);
    assert_eq!(r, Ok(new_wasm_hash));
    assert_eq!(t.host.events, vec![PoolEvent::Upgraded(new_wasm_hash)]);
    let stored = t.pool.accounts.account(&user).stake.expect("stake storage must survive wasm upgrade");
    assert_eq!(stored.amount, before.amount);
    assert_eq!(stored.start_ledger, before.start_ledger);
    assert_eq!(stored.credits_banked, before.credits_banked);
    assert_eq!(stored.credit_rate, before.credit_rate);
}

#[test]
fn test_upgrade_requires_admin_auth() {
    let mut t = setup_without_mocked_auth();
    let (admin, user) = (t.admin, t.user);
    let new_wasm_hash = WasmHash { w0: 9, w1: 9, w2: 9, w3: 9 };
    sign_as(&mut t, &user);
    let result = t.try_upgrade(new_wasm_hash);
    assert!(result.is_err(), "non-admin upgrade must be rejected");
    assert_eq!(t.admin(), admin);
}

#[test]
fn test_admin_uninitialized_returns_not_initialized() {
    let mut t = TestEnv::uninitialized();
    match t.try_admin() {
        Err(CallError::Contract(PoolError::NotInitialized)) => {}
        _ => panic!("expected PoolError::NotInitialized"),
    }
}

#[test]
fn test_transfer_admin_uninitialized_returns_not_initialized() {
    let mut t = TestEnv::uninitialized();
    let new_admin = t.generate();
    match t.try_transfer_admin(&new_admin) {
        Err(CallError::Contract(PoolError::NotInitialized)) => {}
        _ => panic!("expected PoolError::NotInitialized"),
    }
}

// ── boost calculation ─────────────────────────────────────────────────────────

#[test]
fn effective_stake_matches_the_pool_credit_views() {
    let mut t = setup(3, 1);
    let user = t.user;
    t.stake(&user, 1_000);
    t.set_boost(&user, 25);
    t.advance_ledgers(4);
    assert_eq!(t.get_credits(&user), compute_total_stake(1_000, 25, 3) * 4);
}

// ── boost system ──────────────────────────────────────────────────────────────

#[test]
fn test_set_boost_and_get_config() {
    let mut t = setup(2, 1);
    let user = t.user;
    t.stake(&user, 1_000);
    t.set_boost(&user, 50);
    let cfg = t.get_boost_config(&user).expect("boost config should be set");
    assert_eq!(cfg.allocation_pct, 50);
    assert_eq!(cfg.multiplier, 2);
}

#[test]
fn test_get_boost_config_none_before_set() {
    let mut t = setup(2, 1);
    let user = t.user;
    let cfg = t.get_boost_config(&user).expect("boost config should default to zero allocation");
    assert_eq!(cfg.allocation_pct, 0);
    assert_eq!(cfg.multiplier, 2);
}

#[test]
fn test_total_credits_tracks_cumulative_accrual() {
    let mut t = setup(2, 1);
    let user = t.user;
    t.stake(&user, 1_000);
    assert_eq!(t.total_credits(), 0);
    t.advance_ledgers(10);
    t.set_boost(&user, 50);
    assert_eq!(t.total_credits(), 10_000);
    t.advance_ledgers(10);
    t.set_boost(&user, 50);
    assert_eq!(t.total_credits(), 25_000);
}

#[test]
fn test_credits_without_boost_accrue_at_face_value() {
    let mut t = setup(2, 1);
    let user = t.user;
    t.stake(&user, 1_000);
    t.advance_ledgers(10);
    assert_eq!(t.get_credits(&user), 1_000 * 10);
}

#[test]
fn test_credits_with_50pct_boost_2x_multiplier() {
    let mut t = setup(2, 1);
    let user = t.user;
    t.stake(&user, 1_000);
    t.set_boost(&user, 50);
    t.advance_ledgers(10);
    assert_eq!(t.get_credits(&user), 1_500 * 10);
}

#[test]
fn test_credits_with_100pct_boost_2x_multiplier() {
    let mut t = setup(2, 1);
    let user = t.user;
    t.stake(&user, 1_000);
    t.set_boost(&user, 100);
    t.advance_ledgers(10);
    assert_eq!(t.get_credits(&user), 2_000 * 10);
}

#[test]
fn test_boost_update_preserves_previously_earned_credits() {
    let mut t = setup(2, 1);
    let user = t.user;
    t.stake(&user, 1_000);
    t.advance_ledgers(5);
    t.set_boost(&user, 50);
    t.advance_ledgers(5);
    assert_eq!(t.get_credits(&user), 12_500);
}

#[test]
fn test_boost_can_be_updated_repeatedly_without_losing_credits() {
    let mut t = setup(2, 1);
    let user = t.user;
    t.stake(&user, 1_000);
    t.set_boost(&user, 50);
    t.advance_ledgers(10);
    t.set_boost(&user, 100);
    t.advance_ledgers(10);
    assert_eq!(t.get_credits(&user), 15_000 + 20_000);
}

#[test]
fn test_set_boost_rejects_without_active_stake() {
    let mut t = setup(2, 1);
    let user = t.user;
    let res = t.try_set_boost(&user, 50);
    assert_eq!(res, Err(CallError::Contract(PoolError::NoActiveStake)));
}

#[test]
fn test_set_boost_rejects_zero_allocation() {
    let mut t = setup(2, 1);
    let user = t.user;
    t.stake(&user, 1_000);
    assert!(t.try_set_boost(&user, 0).is_err());
}

#[test]
fn test_set_boost_rejects_over_100_allocation() {
    let mut t = setup(2, 1);
    let user = t.user;
    t.stake(&user, 1_000);
    assert!(t.try_set_boost(&user, 101).is_err());
}

#[test]
fn test_admin_sets_global_multiplier() {
    let mut t = setup(2, 1);
    let user = t.user;
    t.set_global_multiplier(3);
    t.stake(&user, 1_000);
    t.set_boost(&user, 50);
    let cfg = t.get_boost_config(&user).unwrap();
    assert_eq!(cfg.multiplier, 3);
}

#[test]
fn test_set_credit_rate_updates_public_getters() {
    let mut t = setup_with_lock_period(2, 1, 12);
    t.set_credit_rate(4);
    assert_eq!(t.host.events, vec![PoolEvent::CreditRateSet { old_rate: 1, new_rate: 4, ledger: 0 }]);
    t.set_min_lock_period(25);
    assert_eq!(t.host.events, vec![PoolEvent::MinLockPeriodSet { old_period: 12, new_period: 25 }]);
    assert_eq!(t.credit_rate(), 4);
    assert_eq!(t.get_credit_rate(), 4);
    assert_eq!(t.min_lock_period(), 25);
    assert_eq!(t.get_min_lock_period(), 25);
}

#[test]
fn test_min_lock_period_seconds() {
    let mut t = setup_with_lock_period(2, 1, 12);
    assert_eq!(t.min_lock_period_seconds(), 60);
    assert_eq!(t.get_min_lock_period_seconds(), 60);
    t.set_min_lock_period(25);
    assert_eq!(t.min_lock_period_seconds(), 125);
    assert_eq!(t.get_min_lock_period_seconds(), 125);
}

#[test]
fn test_set_credit_rate_rejects_zero_with_typed_error() {
    let mut t = setup(2, 1);
    let result = t.try_set_credit_rate(0);
    assert!(matches!(result, Err(CallError::Contract(PoolError::InvalidCreditRate))));
}

#[test]
fn test_set_credit_rate_rejects_above_ceiling() {
    let mut t = setup(2, 1);
    let result = t.try_set_credit_rate(MAX_CREDIT_RATE + 1);
    assert!(matches!(result, Err(CallError::Contract(PoolError::InvalidCreditRate))));
}

#[test]
fn test_set_credit_rate_accepts_exactly_the_ceiling() {
    let mut t = setup(2, 1);
    t.set_credit_rate(MAX_CREDIT_RATE);
    assert_eq!(t.credit_rate(), MAX_CREDIT_RATE);
}

#[test]
fn test_set_credit_rate_requires_admin_auth() {
    let mut t = setup_without_mocked_auth();
    let user = t.user;
    sign_as(&mut t, &user);
    let result = t.try_set_credit_rate(5);
    assert!(result.is_err(), "non-admin set_credit_rate must be rejected");
}

#[test]
fn test_set_min_lock_period_requires_admin_auth() {
    let mut t = setup_without_mocked_auth();
    let user = t.user;
    sign_as(&mut t, &user);
    let result = t.try_set_min_lock_period(9);
    assert!(result.is_err(), "non-admin set_min_lock_period must be rejected");
}

#[test]
fn test_credit_rate_change_does_not_retroactively_alter_staked_credits() {
    let mut t = setup(2, 1);
    let user = t.user;
    t.stake(&user, 1_000);
    t.advance_ledgers(10);
    t.set_credit_rate(3);
    assert_eq!(t.get_credits(&user), 10_000);
    t.stake(&user, 100);
    t.advance_ledgers(5);
    assert_eq!(t.get_credits(&user), 26_500);
}

#[test]
fn test_credit_rate_change_does_not_retroactively_alter_locked_credits() {
    let mut t = setup(1, 1);
    let user = t.user;
    t.lock_assets(&user, 1_000);
    t.advance_ledgers(10);
    t.set_credit_rate(3);
    assert_eq!(t.calculate_credits(&user), 10_000);
    t.lock_assets(&user, 100);
    t.advance_ledgers(5);
    assert_eq!(t.calculate_credits(&user), 26_500);
}

#[test]
fn test_admin_multiplier_change_applies_from_next_checkpoint() {
    let mut t = setup(2, 1);
    let user = t.user;
    t.stake(&user, 1_000);
    t.set_boost(&user, 50);
    t.advance_ledgers(10);
    t.set_boost(&user, 50);
    t.set_global_multiplier(3);
    t.set_boost(&user, 50);
    t.advance_ledgers(10);
    assert_eq!(t.get_credits(&user), 35_000);
}

#[test]
fn test_admin_multiplier_change_applies_to_existing_stake_without_manual_checkpoint() {
    let mut t = setup(2, 1);
    let user = t.user;
    t.stake(&user, 1_000);
    t.set_boost(&user, 50);
    t.advance_ledgers(10);
    t.set_global_multiplier(3);
    t.advance_ledgers(10);
    assert_eq!(t.get_credits(&user), 35_000);
}

#[test]
fn test_get_credits_matches_checkpoint_accrual_after_multiplier_change() {
    let mut t = setup(2, 1);
    let user = t.user;
    t.stake(&user, 1_000);
    t.set_boost(&user, 50);
    t.advance_ledgers(10);
    t.set_global_multiplier(3);
    t.advance_ledgers(10);
    let viewed = t.get_credits(&user);
    assert_eq!(viewed, 35_000);
    let banked = t.unstake(&user);
    assert_eq!(banked, viewed);
    assert_eq!(t.total_distributed_credits(), banked);
}

#[test]
fn test_admin_multiplier_rejects_zero() {
    let mut t = setup(2, 1);
    let result = t.try_set_global_multiplier(0);
    assert!(matches!(result, Err(CallError::Contract(PoolError::InvalidGlobalMultiplier))));
}

#[test]
fn test_set_global_multiplier_rejects_above_ceiling() {
    let mut t = setup(2, 1);
    let result = t.try_set_global_multiplier(MAX_GLOBAL_MULTIPLIER + 1);
    assert!(matches!(result, Err(CallError::Contract(PoolError::InvalidGlobalMultiplier))));
}

#[test]
fn test_set_global_multiplier_accepts_exactly_the_ceiling() {
    let mut t = setup(2, 1);
    let user = t.user;
    t.set_global_multiplier(MAX_GLOBAL_MULTIPLIER);
    t.stake(&user, 1_000);
    t.set_boost(&user, 50);
    let cfg = t.get_boost_config(&user).unwrap();
    assert_eq!(cfg.multiplier, MAX_GLOBAL_MULTIPLIER);
}

#[test]
fn test_initialize_rejects_global_multiplier_above_ceiling() {
    let mut t = TestEnv::uninitialized();
    let (admin, token) = (t.admin, t.token);
    let result = t.try_initialize(&admin, &token, MAX_GLOBAL_MULTIPLIER + 1, 1, 0, 1);
    assert!(matches!(result, Err(CallError::Contract(PoolError::InvalidGlobalMultiplier))));
}

#[test]
fn test_initialize_rejects_credit_rate_above_ceiling() {
    let mut t = TestEnv::uninitialized();
    let (admin, token) = (t.admin, t.token);
    let result = t.try_initialize(&admin, &token, 2, MAX_CREDIT_RATE + 1, 0, 1);
    assert!(matches!(result, Err(CallError::Contract(PoolError::InvalidCreditRate))));
}

#[test]
fn test_compute_credits_no_overflow_at_ceilings() {
    const AMOUNT_MAX: i128 = 1_000_000_000_000_000_000;
    const ELAPSED_MAX: u32 = 63_072_000;
    let mut t = TestEnv::uninitialized();
    let (admin, user, token) = (t.admin, t.user, t.token);
    t.mint(&user, AMOUNT_MAX);
    t.initialize(&admin, &token, MAX_GLOBAL_MULTIPLIER, MAX_CREDIT_RATE, 0, 1);
    t.stake(&user, AMOUNT_MAX);
    t.set_boost(&user, 100);
    t.advance_ledgers(ELAPSED_MAX);
    let credits = t.get_credits(&user);
    let expected = AMOUNT_MAX * MAX_GLOBAL_MULTIPLIER as i128 * MAX_CREDIT_RATE * ELAPSED_MAX as i128;
    assert_eq!(credits, expected);
}

#[test]
fn test_unstake_returns_tokens_and_credits() {
    let mut t = setup(2, 1);
    let user = t.user;
    let initial_balance = t.balance(&user);
    t.stake(&user, 1_000);
    t.set_boost(&user, 50);
    t.advance_ledgers(10);
    let credits = t.unstake(&user);
    assert_eq!(credits, 15_000);
    assert_eq!(t.balance(&user), initial_balance);
    assert!(t.get_stake(&user).is_none());
}

#[test]
fn test_flash_stake_unstake_in_same_ledger_yields_no_credits() {
    let mut t = setup(2, 1);
    let user = t.user;
    let initial_balance = t.balance(&user);
    t.stake(&user, 1_000);
    t.set_boost(&user, 100);
    let credits = t.unstake(&user);
    assert_eq!(credits, 0, "flash staking must not mint credits");
    assert_eq!(t.balance(&user), initial_balance, "principal fully returned");
    assert!(t.get_stake(&user).is_none());
    assert_eq!(t.get_credits(&user), 0);
}

#[test]
fn test_additional_stake_checkpoints_credits() {
    let mut t = setup(1, 1);
    let user = t.user;
    t.stake(&user, 1_000);
    t.advance_ledgers(10);
    t.stake(&user, 500);
    t.advance_ledgers(10);
    assert_eq!(t.get_credits(&user), 25_000);
}

#[test]
fn test_get_credits_zero_without_stake() {
    let mut t = setup(2, 1);
    let user = t.user;
    assert_eq!(t.get_credits(&user), 0);
    assert_eq!(t.get_position_credits(&user), 0);
    assert_eq!(t.get_stake_credits(&user), 0);
}

#[test]
fn test_get_position_credits_and_get_stake_credits_distinguish_systems() {
    let mut t = setup(2, 1);
    let user = t.user;
    t.stake(&user, 1_000);
    t.set_boost(&user, 50);
    t.lock_assets(&user, 500);
    t.advance_ledgers(10);
    assert_eq!(t.get_position_credits(&user), 5_000);
    assert_eq!(t.calculate_credits(&user), 5_000);
    assert_eq!(t.get_stake_credits(&user), 15_000);
    assert_eq!(t.get_credits(&user), 20_000);
}

// ── admin handoff ─────────────────────────────────────────────────────────────

#[test]
fn test_admin_getter_returns_current_admin() {
    let mut t = setup(2, 1);
    let admin = t.admin;
    assert_eq!(t.admin(), admin);
}

#[test]
fn test_propose_admin_does_not_change_admin_until_accepted() {
    let mut t = setup_without_mocked_auth();
    let old_admin = t.admin;
    let new_admin = t.generate();
    sign_as(&mut t, &old_admin);
    t.propose_admin(&new_admin);
    assert_eq!(t.admin(), old_admin);
    sign_as(&mut t, &new_admin);
    t.accept_admin();
    assert_eq!(t.admin(), new_admin);
}

#[test]
fn test_accept_admin_requires_proposed_address_auth() {
    let mut t = setup_without_mocked_auth();
    let (old_admin, user) = (t.admin, t.user);
    let new_admin = t.generate();
    sign_as(&mut t, &old_admin);
    t.propose_admin(&new_admin);
    sign_as(&mut t, &old_admin);
    let current_admin_result = t.try_accept_admin();
    assert!(current_admin_result.is_err(), "current admin may not accept");
    sign_as(&mut t, &user);
    let third_party_result = t.try_accept_admin();
    assert!(third_party_result.is_err(), "third parties may not accept");
    assert_eq!(t.admin(), old_admin);
}

#[test]
fn test_propose_admin_can_be_overwritten_or_cancelled_before_acceptance() {
    let mut t = setup(2, 1);
    let first_proposal = t.generate();
    let second_proposal = t.generate();
    t.propose_admin(&first_proposal);
    t.propose_admin(&second_proposal);
    t.accept_admin();
    assert_eq!(t.admin(), second_proposal);
    t.propose_admin(&second_proposal);
    let result = t.try_accept_admin();
    assert!(matches!(result, Err(CallError::Contract(PoolError::NoPendingAdmin))));
    assert_eq!(t.admin(), second_proposal);
}

#[test]
fn test_propose_admin_emits_event() {
    let mut t = setup(2, 1);
    let admin = t.admin;
    let new_admin = t.generate();
    t.propose_admin(&new_admin);
    assert_eq!(t.host.events, vec![PoolEvent::AdminProposed { current: admin, proposed: new_admin }]);
}

#[test]
fn test_transfer_admin_changes_admin() {
    let mut t = setup(2, 1);
    let new_admin = t.generate();
    t.transfer_admin(&new_admin);
    assert_eq!(t.admin(), new_admin);
}

#[test]
fn test_set_global_multiplier_emits_old_and_new() {
    let mut t = setup(2, 1);
    t.set_global_multiplier(5);
    assert_eq!(t.host.events, vec![PoolEvent::MultiplierSet { old_multiplier: 2, new_multiplier: 5 }]);
}

#[test]
fn test_set_global_multiplier_event_reports_previous_value() {
    let mut t = setup(2, 1);
    t.set_global_multiplier(5);
    t.set_global_multiplier(3);
    assert_eq!(t.host.events, vec![PoolEvent::MultiplierSet { old_multiplier: 5, new_multiplier: 3 }]);
}

#[test]
fn test_transfer_admin_emits_event() {
    let mut t = setup(2, 1);
    let admin = t.admin;
    let new_admin = t.generate();
    t.transfer_admin(&new_admin);
    assert_eq!(t.host.events, vec![PoolEvent::AdminTransferred { old_admin: admin, new_admin }]);
}

#[test]
fn test_transfer_admin_requires_current_admin_auth() {
    let mut t = setup_without_mocked_auth();
    let (admin, user) = (t.admin, t.user);
    let new_admin = t.generate();
    sign_as(&mut t, &user);
    let result = t.try_transfer_admin(&new_admin);
    assert!(result.is_err(), "non-admin transfer_admin must be rejected");
    assert_eq!(t.admin(), admin);
}

#[test]
fn test_old_admin_loses_privileges_after_transfer() {
    let mut t = setup_without_mocked_auth();
    let old_admin = t.admin;
    let new_admin = t.generate();
    sign_as(&mut t, &old_admin);
    t.transfer_admin(&new_admin);
    sign_as(&mut t, &old_admin);
    let old_pause = t.try_pause();
    assert!(old_pause.is_err(), "old admin must not be able to pause");
    sign_as(&mut t, &old_admin);
    let old_multiplier = t.try_set_global_multiplier(3);
    assert!(old_multiplier.is_err(), "old admin must not be able to set global multiplier");
    sign_as(&mut t, &new_admin);
    t.pause();
    assert!(t.is_paused(), "new admin should be able to pause");
}

// ── lock_assets ───────────────────────────────────────────────────────────────

#[test]
fn test_lock_assets_creates_position() {
    let mut t = setup(1, 1);
    let (user, contract) = (t.user, t.contract_id);
    let initial_balance = t.balance(&user);
    t.lock_assets(&user, 500);
    let pos = t.get_user_position(&user).expect("position should exist");
    assert_eq!(pos.amount, 500);
    assert_eq!(pos.total_credits, 0);
    assert_eq!(t.balance(&user), initial_balance - 500);
    assert_eq!(t.balance(&contract), 500);
}

#[test]
fn test_has_position_returns_false_without_position() {
    let mut t = setup(1, 1);
    let user = t.user;
    assert!(!t.has_position(&user));
}

#[test]
fn test_has_position_returns_true_after_lock() {
    let mut t = setup(1, 1);
    let user = t.user;
    t.lock_assets(&user, 500);
    assert!(t.has_position(&user));
}

#[test]
fn test_has_position_returns_false_after_full_unlock() {
    let mut t = setup(1, 1);
    let user = t.user;
    t.lock_assets(&user, 500);
    t.advance_ledgers(100);
    t.unlock_assets(&user, 500);
    assert!(!t.has_position(&user));
}

#[test]
fn test_lock_assets_additional_lock_checkpoints_credits() {
    let mut t = setup(1, 1);
    let user = t.user;
    t.lock_assets(&user, 1_000);
    t.advance_ledgers(10);
    t.lock_assets(&user, 500);
    t.advance_ledgers(10);
    assert_eq!(t.get_credits(&user), 25_000);
}

#[test]
fn test_multiple_locks_credit_only_new_amount_for_later_ledgers() {
    let mut t = setup(1, 1);
    let user = t.user;
    t.lock_assets(&user, 100);
    t.advance_ledgers(1_000);
    t.lock_assets(&user, 100);
    t.advance_ledgers(1_000);
    assert_eq!(t.calculate_credits(&user), 300_000);
}

#[test]
fn test_lock_assets_rejects_zero_amount() {
    let mut t = setup(1, 1);
    let user = t.user;
    assert!(t.try_lock_assets(&user, 0).is_err());
}

#[test]
fn test_lock_assets_rejects_negative_amount() {
    let mut t = setup(1, 1);
    let user = t.user;
    assert!(t.try_lock_assets(&user, -1).is_err());
}

#[test]
fn test_lock_assets_rejects_insufficient_balance() {
    let mut t = setup(1, 1);
    let user = t.user;
    assert!(t.try_lock_assets(&user, 2_000_000_000).is_err());
}

#[test]
fn test_lock_assets_emits_event() {
    let mut t = setup(1, 1);
    let user = t.user;
    t.lock_assets(&user, 1_000);
    assert_eq!(t.host.events, vec![PoolEvent::Locked { user, amount: 1_000, total_position: 1_000 }]);
    t.lock_assets(&user, 500);
    assert_eq!(t.host.events, vec![PoolEvent::Locked { user, amount: 500, total_position: 1_500 }]);
}

// ── unlock_assets ─────────────────────────────────────────────────────────────

#[test]
fn test_unlock_assets_full_returns_tokens_and_credits() {
    let mut t = setup(1, 1);
    let (user, contract) = (t.user, t.contract_id);
    let initial_balance = t.balance(&user);
    t.lock_assets(&user, 1_000);
    t.advance_ledgers(10);
    t.unlock_assets(&user, 1_000);
    assert_eq!(t.balance(&user), initial_balance);
    assert_eq!(t.balance(&contract), 0);
    assert!(t.get_user_position(&user).is_none());
    assert_eq!(t.calculate_credits(&user), 0);
}

#[test]
fn test_unlock_assets_partial_keeps_remaining_position() {
    let mut t = setup(1, 1);
    let (user, contract) = (t.user, t.contract_id);
    let initial_balance = t.balance(&user);
    t.lock_assets(&user, 500);
    t.advance_ledgers(10);
    t.unlock_assets(&user, 200);
    let pos = t.get_user_position(&user).expect("position should still exist");
    assert_eq!(pos.amount, 300);
    assert_eq!(pos.total_credits, 5_000);
    assert_eq!(t.balance(&user), initial_balance - 300);
    assert_eq!(t.balance(&contract), 300);
}

#[test]
fn test_unlock_assets_final_outcome_is_invariant_to_how_the_withdrawal_is_split() {
    let partitions: [&[i128]; 4] = [&[1_000], &[500, 500], &[300, 200, 500], &[1, 1, 998]];
    const ELAPSED_LEDGERS: u32 = 10;
    const EXPECTED_TOTAL_CREDITS: i128 = 1_000 * ELAPSED_LEDGERS as i128;
    for partition in partitions {
        let mut t = setup(1, 1);
        let (user, contract) = (t.user, t.contract_id);
        let initial_balance = t.balance(&user);
        t.lock_assets(&user, 1_000);
        t.advance_ledgers(ELAPSED_LEDGERS);
        let mut last_part = 0i128;
        for &part in partition {
            t.unlock_assets(&user, part);
            last_part = part;
        }
        let final_unlock_events = t.host.events.clone();
        assert!(t.get_user_position(&user).is_none(), "position must be fully cleared regardless of partition {partition:?}");
        assert_eq!(t.calculate_credits(&user), 0, "no position left means no further accruing credits, for partition {partition:?}");
        assert_eq!(t.balance(&user), initial_balance, "the full locked amount must come back regardless of partition {partition:?}");
        assert_eq!(t.balance(&contract), 0);
        if partition.len() == 1 {
            assert_eq!(
                final_unlock_events,
                vec![
                    PoolEvent::Checkpoint { user, accrued: EXPECTED_TOTAL_CREDITS, total: EXPECTED_TOTAL_CREDITS },
                    PoolEvent::Unlocked { user, amount: last_part, total_credits: EXPECTED_TOTAL_CREDITS },
                ],
                "final cumulative total_credits must be identical across partitions {partition:?}",
            );
        } else {
            assert_eq!(
                final_unlock_events,
                vec![PoolEvent::Unlocked { user, amount: last_part, total_credits: EXPECTED_TOTAL_CREDITS }],
                "final cumulative total_credits must be identical across partitions {partition:?}",
            );
        }
    }
}

#[test]
fn test_unlock_assets_split_across_min_lock_period_boundary_reaches_same_final_state_as_single_unlock() {
    const MIN_LOCK_PERIOD: u32 = 10;
    let mut a = setup_with_lock_period(1, 1, MIN_LOCK_PERIOD);
    let a_user = a.user;
    let a_initial_balance = a.balance(&a_user);
    a.lock_assets(&a_user, 1_000);
    a.advance_ledgers(MIN_LOCK_PERIOD);
    a.unlock_assets(&a_user, 1_000);

    let mut b = setup_with_lock_period(1, 1, MIN_LOCK_PERIOD);
    let b_user = b.user;
    let b_initial_balance = b.balance(&b_user);
    b.lock_assets(&b_user, 1_000);
    b.advance_ledgers(MIN_LOCK_PERIOD - 2);
    assert!(b.try_unlock_assets(&b_user, 500).is_err(), "an unlock attempted before the min lock period elapses must be rejected");
    b.advance_ledgers(2);
    b.unlock_assets(&b_user, 400);
    b.unlock_assets(&b_user, 600);

    assert!(a.get_user_position(&a_user).is_none());
    assert!(b.get_user_position(&b_user).is_none());
    assert_eq!(a.balance(&a_user) - a_initial_balance, b.balance(&b_user) - b_initial_balance);
    assert_eq!(a.balance(&a.contract_id), b.balance(&b.contract_id));
}

#[test]
fn test_lock_assets_topup_after_maturity_extends_unlock_ledger() {
    let mut t = setup_with_lock_period(1, 1, 100);
    let user = t.user;
    t.lock_assets(&user, 100);
    t.advance_ledgers(100);
    t.lock_assets(&user, 500);
    let position = t.get_user_position(&user).unwrap();
    assert_eq!(position.unlock_ledger, 200);
    assert!(t.try_unlock_assets(&user, 600).is_err());
    t.advance_ledgers(99);
    assert!(t.try_unlock_assets(&user, 600).is_err());
    t.advance_ledgers(1);
    t.unlock_assets(&user, 600);
    assert!(t.get_user_position(&user).is_none());
}

#[test]
fn test_lock_assets_topup_does_not_shorten_existing_unlock_ledger() {
    let mut t = setup_with_lock_period(1, 1, 1_000);
    let user = t.user;
    t.lock_assets(&user, 1_000);
    let first_position = t.get_user_position(&user).unwrap();
    t.advance_ledgers(10);
    t.set_min_lock_period(5);
    t.lock_assets(&user, 100);
    let topped_up_position = t.get_user_position(&user).unwrap();
    assert_eq!(topped_up_position.unlock_ledger, first_position.unlock_ledger);
}

#[test]
fn test_min_lock_period_change_does_not_affect_existing_position_unlock_ledger() {
    let mut t = setup_with_lock_period(1, 1, 100);
    let user = t.user;
    t.lock_assets(&user, 1_000);
    let position = t.get_user_position(&user).unwrap();
    assert_eq!(position.unlock_ledger, position.lock_ledger + 100);
    t.set_min_lock_period(5);
    t.advance_ledgers(50);
    assert!(t.try_unlock_assets(&user, 1_000).is_err());
    t.advance_ledgers(50);
    t.unlock_assets(&user, 1_000);
    assert!(t.get_user_position(&user).is_none());
}

#[test]
fn test_new_positions_use_updated_min_lock_period() {
    let mut t = setup_with_lock_period(1, 1, 100);
    let user = t.user;
    t.set_min_lock_period(5);
    t.lock_assets(&user, 1_000);
    let position = t.get_user_position(&user).unwrap();
    assert_eq!(position.unlock_ledger, position.lock_ledger + 5);
}

// ── calculate_credits / get_user_position ─────────────────────────────────────

#[test]
fn test_calculate_credits_zero_without_position() {
    let mut t = setup(1, 1);
    let user = t.user;
    assert_eq!(t.calculate_credits(&user), 0);
}

#[test]
fn test_calculate_credits_accrues_over_time() {
    let mut t = setup(1, 2);
    let user = t.user;
    t.lock_assets(&user, 500);
    t.advance_ledgers(20);
    assert_eq!(t.calculate_credits(&user), 20_000);
}

#[test]
fn test_calculate_credits_includes_banked_plus_accruing() {
    let mut t = setup(1, 1);
    let user = t.user;
    t.lock_assets(&user, 1_000);
    t.advance_ledgers(10);
    t.lock_assets(&user, 500);
    t.advance_ledgers(10);
    assert_eq!(t.calculate_credits(&user), 25_000);
}

#[test]
fn test_calculate_credits_reflects_partial_unlock_checkpoint() {
    let mut t = setup(1, 1);
    let user = t.user;
    t.lock_assets(&user, 1_000);
    t.advance_ledgers(10);
    t.unlock_assets(&user, 400);
    t.advance_ledgers(5);
    assert_eq!(t.calculate_credits(&user), 13_000);
}

#[test]
fn test_get_user_position_none_before_lock() {
    let mut t = setup(1, 1);
    let user = t.user;
    assert!(t.get_user_position(&user).is_none());
}

#[test]
fn test_get_user_position_returns_correct_fields() {
    let mut t = setup(1, 1);
    let user = t.user;
    let start = t.host.ledger;
    t.lock_assets(&user, 750);
    let pos = t.get_user_position(&user).unwrap();
    assert_eq!(pos.amount, 750);
    assert_eq!(pos.lock_ledger, start);
    assert_eq!(pos.unlock_ledger, start);
    assert_eq!(pos.checkpoint_ledger, start);
    assert_eq!(pos.total_credits, 0);
    assert_eq!(pos.credit_rate, 1);
}

#[test]
fn test_get_user_position_returns_accrued_credits() {
    let mut t = setup(1, 1);
    let user = t.user;
    t.lock_assets(&user, 1_000);
    t.advance_ledgers(5);
    let pos = t.get_user_position(&user).unwrap();
    assert_eq!(pos.total_credits, 5_000);
    assert_eq!(pos.amount, 1_000);
}

#[test]
fn test_get_stake_returns_accrued_credits() {
    let mut t = setup(2, 1);
    let user = t.user;
    t.stake(&user, 1_000);
    t.set_boost(&user, 50);
    t.advance_ledgers(5);
    let stake = t.get_stake(&user).unwrap();
    assert_eq!(stake.credits_banked, 7_500);
    assert_eq!(stake.amount, 1_000);
}

#[test]
fn test_get_user_position_none_after_full_unlock() {
    let mut t = setup(1, 1);
    let user = t.user;
    t.lock_assets(&user, 1_000);
    t.advance_ledgers(5);
    t.unlock_assets(&user, 1_000);
    assert!(t.get_user_position(&user).is_none());
}

// ── pause / unpause ───────────────────────────────────────────────────────────

#[test]
fn test_pool_not_paused_initially() {
    let mut t = setup(1, 1);
    assert!(!t.is_paused());
}

#[test]
fn test_pause_blocks_lock_assets() {
    let mut t = setup(1, 1);
    let user = t.user;
    t.pause();
    assert!(t.is_paused());
    assert!(t.try_lock_assets(&user, 100).is_err());
    assert!(t.is_paused());
    match t.try_lock_assets(&user, 100) {
        Err(CallError::Contract(PoolError::Paused)) => {}
        other => panic!("expected PoolError::Paused, got: {:?}", other),
    }
}

#[test]
fn test_pause_blocks_unlock_assets() {
    let mut t = setup(1, 1);
    let user = t.user;
    t.lock_assets(&user, 1_000);
    t.pause();
    match t.try_unlock_assets(&user, 1_000) {
        Err(CallError::Contract(PoolError::Paused)) => {}
        other => panic!("expected PoolError::Paused, got: {:?}", other),
    }
}

#[test]
fn test_unpause_restores_operations() {
    let mut t = setup(1, 1);
    let user = t.user;
    t.pause();
    t.unpause();
    assert!(!t.is_paused());
    t.lock_assets(&user, 500);
    t.unlock_assets(&user, 500);
}

#[test]
fn test_pause_emits_event() {
    let mut t = setup(1, 1);
    t.pause();
    assert_eq!(t.host.events, vec![PoolEvent::Paused]);
}

#[test]
fn test_unpause_emits_event() {
    let mut t = setup(1, 1);
    t.pause();
    t.unpause();
    assert_eq!(t.host.events, vec![PoolEvent::Unpaused]);
}

#[test]
fn test_pause_staking_emits_event() {
    let mut t = setup(1, 1);
    t.pause_staking();
    assert_eq!(t.host.events, vec![PoolEvent::StakingPaused]);
}

#[test]
fn test_pause_withdrawals_emits_event() {
    let mut t = setup(1, 1);
    t.pause_withdrawals();
    assert_eq!(t.host.events, vec![PoolEvent::WithdrawalsPaused]);
}

#[test]
fn test_unpause_staking_emits_event() {
    let mut t = setup(1, 1);
    t.pause_staking();
    t.unpause_staking();
    assert_eq!(t.host.events, vec![PoolEvent::StakingUnpaused]);
}

#[test]
fn test_unpause_withdrawals_emits_event() {
    let mut t = setup(1, 1);
    t.pause_withdrawals();
    t.unpause_withdrawals();
    assert_eq!(t.host.events, vec![PoolEvent::WithdrawalsUnpaused]);
}

#[test]
fn test_pause_staking_blocks_new_stakes_but_allows_withdrawals() {
    let mut t = setup(2, 1);
    let user = t.user;
    t.stake(&user, 1_000);
    t.pause_staking();
    assert!(t.try_stake(&user, 100).is_err());
    assert!(t.try_lock_assets(&user, 100).is_err());
    t.unstake(&user);
}

#[test]
fn test_pause_withdrawals_blocks_unstake_but_allows_new_stakes() {
    let mut t = setup(2, 1);
    let user = t.user;
    t.pause_withdrawals();
    t.stake(&user, 1_000);
    assert!(t.try_unstake(&user).is_err());
    assert!(t.try_unlock_assets(&user, 100).is_err());
}

#[test]
fn test_pause_blocks_stake() {
    let mut t = setup(1, 1);
    let user = t.user;
    t.pause();
    match t.try_stake(&user, 100) {
        Err(CallError::Contract(PoolError::Paused)) => {}
        other => panic!("expected PoolError::Paused, got: {:?}", other),
    }
}

#[test]
fn test_unpause_restores_stake() {
    let mut t = setup(1, 1);
    let user = t.user;
    t.pause();
    t.unpause();
    t.stake(&user, 500);
    assert_eq!(t.get_stake(&user).unwrap().amount, 500);
}

#[test]
fn test_pause_blocks_unstake() {
    let mut t = setup(1, 1);
    let user = t.user;
    t.stake(&user, 1_000);
    t.pause();
    assert!(t.try_unstake(&user).is_err());
}

#[test]
fn test_unpause_restores_unstake() {
    let mut t = setup(1, 1);
    let user = t.user;
    t.stake(&user, 1_000);
    t.pause();
    t.unpause();
    t.unstake(&user);
    assert!(t.get_stake(&user).is_none());
}

#[test]
fn test_pause_blocks_set_boost() {
    let mut t = setup(1, 1);
    let user = t.user;
    t.stake(&user, 1_000);
    t.pause();
    assert!(t.try_set_boost(&user, 50).is_err());
}

#[test]
fn test_unpause_restores_set_boost() {
    let mut t = setup(1, 1);
    let user = t.user;
    t.stake(&user, 1_000);
    t.pause();
    t.unpause();
    t.set_boost(&user, 50);
    assert_eq!(t.get_boost_config(&user).unwrap().allocation_pct, 50);
}

#[test]
fn test_set_global_multiplier_callable_while_paused() {
    let mut t = setup(1, 1);
    let user = t.user;
    t.stake(&user, 1_000);
    t.set_boost(&user, 50);
    t.pause();
    t.set_global_multiplier(3);
    assert_eq!(t.get_boost_config(&user).unwrap().multiplier, 3);
}

// ── multi-user isolation ──────────────────────────────────────────────────────

#[test]
fn test_multiple_users_independent_positions() {
    let mut t = setup(1, 1);
    let user = t.user;
    let user2 = t.generate();
    t.mint(&user2, 500_000);
    t.lock_assets(&user, 1_000);
    t.lock_assets(&user2, 2_000);
    t.advance_ledgers(10);
    assert_eq!(t.calculate_credits(&user), 10_000);
    assert_eq!(t.calculate_credits(&user2), 20_000);
}

#[test]
fn test_one_user_unlock_does_not_affect_another() {
    let mut t = setup(1, 1);
    let user = t.user;
    let user2 = t.generate();
    t.mint(&user2, 500_000);
    t.lock_assets(&user, 1_000);
    t.lock_assets(&user2, 2_000);
    t.advance_ledgers(10);
    t.unlock_assets(&user, 1_000);
    let pos2 = t.get_user_position(&user2).expect("user2 position should exist");
    assert_eq!(pos2.amount, 2_000);
}

// ── emergency_withdraw ────────────────────────────────────────────────────────

#[test]
fn test_emergency_withdraw_while_paused() {
    let mut t = setup(1, 1);
    let user = t.user;
    let initial_balance = t.balance(&user);
    t.lock_assets(&user, 500);
    t.stake(&user, 300);
    t.advance_ledgers(10);
    t.lock_assets(&user, 100);
    t.stake(&user, 100);
    t.pause();
    let returned = t.emergency_withdraw(&user);
    assert_eq!(returned, 1_000);
    assert_eq!(t.balance(&user), initial_balance);
    assert!(t.get_user_position(&user).is_none(), "position should be cleared");
    assert!(t.get_stake(&user).is_none(), "stake should be cleared");
    assert_eq!(t.get_banked_credits(&user), 8_000);
    let split = t.get_banked_credits_split(&user);
    assert_eq!(split.position_credits, 5_000);
    assert_eq!(split.stake_credits, 3_000);
}

#[test]
fn test_emergency_withdraw_while_unpaused_returns_not_paused() {
    let mut t = setup(1, 1);
    let user = t.user;
    t.lock_assets(&user, 1_000);
    let result = t.try_emergency_withdraw(&user);
    assert!(matches!(result, Err(CallError::Contract(PoolError::NotPaused))));
}

#[test]
fn test_emergency_withdraw_requires_user_auth() {
    let mut t = setup_without_mocked_auth();
    let user = t.user;
    let attacker = t.generate();
    sign_as(&mut t, &attacker);
    let unauth_result = t.try_emergency_withdraw(&user);
    assert!(unauth_result.is_err(), "third party cannot trigger emergency withdraw without user auth");
}

// ── whitelist ─────────────────────────────────────────────────────────────────

#[test]
fn test_whitelist_disabled_by_default_allows_all() {
    let mut t = setup(2, 1);
    let user = t.user;
    t.stake(&user, 1_000);
    assert_eq!(t.get_stake(&user).unwrap().amount, 1_000);
    let user2 = t.generate();
    t.mint(&user2, 500_000);
    t.lock_assets(&user2, 500);
    assert_eq!(t.get_user_position(&user2).unwrap().amount, 500);
}

#[test]
fn test_whitelist_blocks_unstaked_locked_unapproved() {
    let mut t = setup(2, 1);
    let user = t.user;
    t.enable_whitelist();
    let result_stake = t.try_stake(&user, 1_000);
    assert!(matches!(result_stake, Err(CallError::Contract(PoolError::NotWhitelisted))));
    let result_lock = t.try_lock_assets(&user, 500);
    assert!(matches!(result_lock, Err(CallError::Contract(PoolError::NotWhitelisted))));
}

#[test]
fn test_user_added_and_removed_from_whitelist() {
    let mut t = setup(2, 1);
    let user = t.user;
    t.enable_whitelist();
    assert!(!t.is_whitelisted(&user));
    t.add_to_whitelist(&user);
    assert!(t.is_whitelisted(&user));
    t.stake(&user, 1_000);
    t.lock_assets(&user, 500);
    assert_eq!(t.get_stake(&user).unwrap().amount, 1_000);
    assert_eq!(t.get_user_position(&user).unwrap().amount, 500);
    t.remove_from_whitelist(&user);
    assert!(!t.is_whitelisted(&user));
    let result_stake = t.try_stake(&user, 500);
    assert!(matches!(result_stake, Err(CallError::Contract(PoolError::NotWhitelisted))));
}

#[test]
fn test_disable_whitelist_restores_open_access() {
    let mut t = setup(2, 1);
    let user = t.user;
    t.enable_whitelist();
    assert!(t.try_stake(&user, 1_000).is_err());
    t.disable_whitelist();
    t.stake(&user, 1_000);
    assert_eq!(t.get_stake(&user).unwrap().amount, 1_000);
}

#[test]
fn test_whitelist_count_reflects_adds_and_removes() {
    let mut t = setup(2, 1);
    assert_eq!(t.whitelist_count(), 0);
    assert_eq!(t.get_whitelist_count(), 0);
    let user1 = t.generate();
    let user2 = t.generate();
    t.add_to_whitelist(&user1);
    assert_eq!(t.whitelist_count(), 1);
    t.add_to_whitelist(&user2);
    assert_eq!(t.whitelist_count(), 2);
    t.add_to_whitelist(&user1);
    assert_eq!(t.whitelist_count(), 2);
    t.remove_from_whitelist(&user1);
    assert_eq!(t.whitelist_count(), 1);
    let stranger = t.generate();
    t.remove_from_whitelist(&stranger);
    assert_eq!(t.whitelist_count(), 1);
    t.remove_from_whitelist(&user2);
    assert_eq!(t.whitelist_count(), 0);
}

#[test]
fn test_whitelist_count_matches_get_whitelisted_users_total() {
    let mut t = setup(2, 1);
    let mut users = Vec::new();
    for _ in 0..5 {
        users.push(t.generate());
    }
    t.batch_add_to_whitelist(&users);
    let listed = t.get_whitelisted_users(0, 100);
    assert_eq!(t.whitelist_count(), listed.total);
    assert_eq!(t.whitelist_count(), 5);
}

#[test]
fn test_whitelist_count_uninitialized_returns_not_initialized() {
    let mut t = TestEnv::uninitialized();
    assert!(matches!(t.try_whitelist_count(), Err(CallError::Contract(PoolError::NotInitialized))));
}

#[test]
fn test_batch_add_to_whitelist() {
    let mut t = setup(2, 1);
    t.enable_whitelist();
    let user1 = t.generate();
    let user2 = t.generate();
    let user3 = t.generate();
    t.mint(&user1, 500_000);
    t.mint(&user2, 500_000);
    t.mint(&user3, 500_000);
    let users = vec![user1, user2, user3];
    t.batch_add_to_whitelist(&users);
    assert!(t.is_whitelisted(&user1));
    assert!(t.is_whitelisted(&user2));
    assert!(t.is_whitelisted(&user3));
    t.stake(&user1, 100);
    t.stake(&user2, 100);
    t.stake(&user3, 100);
    assert_eq!(t.get_stake(&user1).unwrap().amount, 100);
    assert_eq!(t.get_stake(&user2).unwrap().amount, 100);
    assert_eq!(t.get_stake(&user3).unwrap().amount, 100);
}

#[test]
#[should_panic(expected = "max 50 addresses per call")]
fn test_batch_add_to_whitelist_exceeds_limit() {
    let mut t = setup(2, 1);
    let mut users = Vec::new();
    for _ in 0..51 {
        users.push(t.generate());
    }
    t.batch_add_to_whitelist(&users);
}

#[test]
fn test_batch_remove_from_whitelist() {
    let mut t = setup(2, 1);
    t.enable_whitelist();
    let user1 = t.generate();
    let user2 = t.generate();
    let user3 = t.generate();
    let users = vec![user1, user2, user3];
    t.batch_add_to_whitelist(&users);
    assert!(t.is_whitelisted(&user1));
    assert!(t.is_whitelisted(&user2));
    assert!(t.is_whitelisted(&user3));
    t.batch_remove_from_whitelist(&users);
    assert!(!t.is_whitelisted(&user1));
    assert!(!t.is_whitelisted(&user2));
    assert!(!t.is_whitelisted(&user3));
    let result_stake = t.try_stake(&user1, 100);
    assert!(matches!(result_stake, Err(CallError::Contract(PoolError::NotWhitelisted))));
}

#[test]
#[should_panic(expected = "max 50 addresses per call")]
fn test_batch_remove_from_whitelist_exceeds_limit() {
    let mut t = setup(2, 1);
    let mut users = Vec::new();
    for _ in 0..51 {
        users.push(t.generate());
    }
    t.batch_remove_from_whitelist(&users);
}

#[test]
fn test_batch_remove_from_whitelist_requires_admin_auth() {
    let mut t = setup_without_mocked_auth();
    let user = t.user;
    let users = vec![user];
    sign_as(&mut t, &user);
    let result = t.try_batch_remove_from_whitelist(&users);
    assert!(result.is_err(), "non-admin batch_remove_from_whitelist must be rejected");
}

// ── minimum stake ─────────────────────────────────────────────────────────────

#[test]
#[should_panic(expected = "Error(Contract, #6)")]
fn test_set_min_stake_amount_lock_assets() {
    let mut t = setup(1, 1);
    let user = t.user;
    t.lock_assets(&user, 10);
}

#[test]
#[should_panic(expected = "Error(Contract, #6)")]
fn test_set_min_stake_amount_stake() {
    let mut t = setup(1, 1);
    let user = t.user;
    t.stake(&user, 50);
}

#[test]
fn test_set_min_stake_amount_lock_assets_pass() {
    let mut t = setup(1, 1);
    let user = t.user;
    t.lock_assets(&user, 100);
}

#[test]
fn test_set_min_stake_amount() {
    let mut t = setup(1, 1);
    let min_stake = t.get_min_stake_amount();
    assert_eq!(min_stake, 100);
    let amount = 200_i128;
    t.set_min_stake_amount(amount);
    let min_stake = t.get_min_stake_amount();
    assert_eq!(min_stake, amount);
}

// ── counters ──────────────────────────────────────────────────────────────────

#[test]
fn test_staked_user_count_increments_and_decrements_correctly() {
    let mut t = setup(1, 10);
    let user = t.user;
    assert_eq!(t.staked_user_count(), 0);
    assert_eq!(t.get_staked_user_count(), 0);
    let user2 = t.generate();
    t.mint(&user2, 10_000);
    t.stake(&user, 1_000);
    assert_eq!(t.staked_user_count(), 1);
    t.stake(&user, 500);
    assert_eq!(t.staked_user_count(), 1);
    t.lock_assets(&user2, 2_000);
    assert_eq!(t.staked_user_count(), 2);
    t.unstake(&user);
    assert_eq!(t.staked_user_count(), 1);
    t.advance_ledgers(10);
    t.unlock_assets(&user2, 2_000);
    assert_eq!(t.staked_user_count(), 0);
}

#[test]
fn test_lock_assets_top_up_extends_unlock_ledger() {
    let mut t = setup_with_lock_period(1, 10, 10);
    let user = t.user;
    let start_ledger = t.host.ledger;
    t.lock_assets(&user, 1_000);
    let pos1 = t.get_user_position(&user).unwrap();
    assert_eq!(pos1.unlock_ledger, start_ledger + 10);
    t.advance_ledgers(5);
    t.lock_assets(&user, 500);
    let pos2 = t.get_user_position(&user).unwrap();
    assert_eq!(pos2.amount, 1_500);
    assert_eq!(pos2.unlock_ledger, start_ledger + 15);
    t.advance_ledgers(7);
    assert!(t.try_unlock_assets(&user, 1_500).is_err(), "unlock before extended lock period must fail");
    t.advance_ledgers(3);
    t.unlock_assets(&user, 1_500);
}

#[test]
fn test_lock_count_increments_on_every_lock_operation() {
    let mut t = setup(1, 10);
    let user = t.user;
    assert_eq!(t.lock_count(), 0);
    assert_eq!(t.get_lock_count(), 0);
    let user2 = t.generate();
    t.mint(&user2, 10_000);
    t.stake(&user, 1_000);
    assert_eq!(t.lock_count(), 0);
    t.unstake(&user);
    assert_eq!(t.lock_count(), 0);
    t.lock_assets(&user, 1_000);
    assert_eq!(t.lock_count(), 1);
    assert_eq!(t.get_lock_count(), 1);
    t.lock_assets(&user2, 2_000);
    assert_eq!(t.lock_count(), 2);
    t.lock_assets(&user, 500);
    assert_eq!(t.lock_count(), 3);
    t.advance_ledgers(10);
    t.unlock_assets(&user2, 2_000);
    assert_eq!(t.lock_count(), 3);
}

#[test]
fn test_unstake_count_increments_on_every_unstake_operation() {
    let mut t = setup(1, 10);
    let user = t.user;
    assert_eq!(t.unstake_count(), 0);
    assert_eq!(t.get_unstake_count(), 0);
    let user2 = t.generate();
    t.mint(&user2, 10_000);
    t.stake(&user, 1_000);
    t.stake(&user2, 2_000);
    assert_eq!(t.unstake_count(), 0);
    let user3 = t.generate();
    t.mint(&user3, 10_000);
    t.lock_assets(&user3, 1_000);
    assert_eq!(t.unstake_count(), 0);
    t.unstake(&user);
    assert_eq!(t.unstake_count(), 1);
    assert_eq!(t.get_unstake_count(), 1);
    t.unstake(&user2);
    assert_eq!(t.unstake_count(), 2);
    assert_eq!(t.get_unstake_count(), 2);
    t.advance_ledgers(10);
    t.unlock_assets(&user3, 1_000);
    assert_eq!(t.unstake_count(), 2);
}

#[test]
fn test_checkpoint_emits_chkpt_event() {
    let mut t = setup(1, 10);
    let user = t.user;
    t.stake(&user, 1_000);
    t.advance_ledgers(10);
    t.stake(&user, 500);
    assert_ne!(t.host.events, Vec::<PoolEvent>::new());
    assert_eq!(t.host.events[0], PoolEvent::Checkpoint { user, accrued: 100_000, total: 100_000 });
}

#[test]
fn test_active_stake_count_lifecycle() {
    let mut t = setup(1, 10);
    let user = t.user;
    assert_eq!(t.active_stake_count(), 0);
    assert_eq!(t.get_active_stake_count(), 0);
    let user2 = t.generate();
    t.mint(&user2, 10_000);
    t.stake(&user, 1_000);
    assert_eq!(t.active_stake_count(), 1);
    assert_eq!(t.get_active_stake_count(), 1);
    t.stake(&user, 500);
    assert_eq!(t.active_stake_count(), 1);
    t.stake(&user2, 2_000);
    assert_eq!(t.active_stake_count(), 2);
    let user3 = t.generate();
    t.mint(&user3, 10_000);
    t.lock_assets(&user3, 1_000);
    assert_eq!(t.active_stake_count(), 2);
    t.unstake(&user);
    assert_eq!(t.active_stake_count(), 1);
    t.pause();
    t.emergency_withdraw(&user2);
    assert_eq!(t.active_stake_count(), 0);
    assert_eq!(t.get_active_stake_count(), 0);
}

#[test]
fn test_credit_rate_change_count_tracking() {
    let mut t = setup(1, 10);
    assert_eq!(t.credit_rate_change_count(), 0);
    assert_eq!(t.get_credit_rate_change_count(), 0);
    t.set_credit_rate(5);
    assert_eq!(t.credit_rate_change_count(), 1);
    assert_eq!(t.get_credit_rate_change_count(), 1);
    t.set_credit_rate(10);
    assert_eq!(t.credit_rate_change_count(), 2);
    assert_eq!(t.get_credit_rate_change_count(), 2);
    assert!(t.try_set_credit_rate(0).is_err());
    assert_eq!(t.credit_rate_change_count(), 2);
    assert_eq!(t.get_credit_rate_change_count(), 2);
}

#[test]
fn test_migrate_schema_version_framework() {
    let mut t = setup(1, 10);
    let prev = t.migrate();
    assert_eq!(prev, 1);
}


#[test]
fn the_pool_holds_exactly_its_staked_total() {
    let mut t = setup(2, 1);
    let (user, contract) = (t.user, t.contract_id);
    let other = t.generate();
    t.mint(&other, 50_000);
    let check = |t: &mut TestEnv| {
        let held = t.balance(&contract);
        assert_eq!(held, t.total_staked());
        let deposits = t.pool.total_deposits().unwrap();
        let withdrawals = t.pool.total_withdrawals().unwrap();
        assert_eq!(deposits - withdrawals, held);
        assert_eq!(t.pool.totals.total_locked, t.pool.totals.total_staked - t.pool.accounts.entries.iter().map(|e| e.1.stake.map(|s| s.amount).unwrap_or(0)).sum::<i128>());
    };
    t.stake(&user, 1_000);
    check(&mut t);
    t.lock_assets(&other, 700);
    check(&mut t);
    t.advance_ledgers(3);
    t.stake(&user, 300);
    check(&mut t);
    t.unlock_assets(&other, 200);
    check(&mut t);
    t.pause();
    t.emergency_withdraw(&user);
    check(&mut t);
    t.unpause();
    t.unlock_assets(&other, 500);
    check(&mut t);
    assert_eq!(t.balance(&contract), 0);
}

// ── reentrant stake tokens ────────────────────────────────────────────────────

/// A pool initialized as the reentrancy cases set it up, with `position`
/// locked and `stake` staked by the user before the token turns reentrant.
fn setup_reentrant(position: i128, stake: i128, mode: TokenMode) -> TestEnv {
    let mut t = TestEnv::uninitialized();
    let (admin, user, token) = (t.admin, t.user, t.token);
    t.initialize(&admin, &token, 2, 100, 0, 0);
    t.mint(&user, position + stake);
    if position > 0 {
        t.lock_assets(&user, position);
    }
    if stake > 0 {
        t.stake(&user, stake);
    }
    t.host.token_mode = mode;
    t
}

#[test]
fn test_lock_assets_reentrant_transfer_is_rejected_and_final_state_is_correct() {
    let mut t = setup_reentrant(0, 0, TokenMode::Reentrant);
    let user = t.user;
    t.lock_assets(&user, 500);
    assert!(t.host.reentry_rejected);
    let position = t.get_user_position(&user).unwrap();
    assert_eq!(position.amount, 500);
}

#[test]
fn test_lock_assets_reverts_entirely_if_stake_token_naively_reenters() {
    let mut t = setup_reentrant(0, 0, TokenMode::NaiveReentrant);
    let user = t.user;
    let result = t.try_lock_assets(&user, 500);
    assert!(result.is_err(), "lock_assets should trap when stake_token attempts reentrancy");
    assert!(t.get_user_position(&user).is_none());
}

#[test]
fn test_stake_topup_reentrant_transfer_is_rejected_and_final_state_is_correct() {
    let mut t = setup_reentrant(0, 500, TokenMode::Reentrant);
    let user = t.user;
    t.stake(&user, 200);
    assert!(t.host.reentry_rejected);
    let stake = t.get_stake(&user).unwrap();
    assert_eq!(stake.amount, 700);
}

#[test]
fn test_stake_reverts_entirely_if_stake_token_naively_reenters() {
    let mut t = setup_reentrant(0, 500, TokenMode::NaiveReentrant);
    let user = t.user;
    let result = t.try_stake(&user, 200);
    assert!(result.is_err(), "stake should trap when stake_token attempts reentrancy");
    let stake = t.get_stake(&user).unwrap();
    assert_eq!(stake.amount, 500);
}

#[test]
fn test_unstake_reentrant_transfer_is_rejected_and_final_state_is_correct() {
    let mut t = setup_reentrant(0, 500, TokenMode::Reentrant);
    let user = t.user;
    t.unstake(&user);
    assert!(t.host.reentry_rejected);
    assert!(t.get_stake(&user).is_none());
}

#[test]
fn test_unstake_reverts_entirely_if_stake_token_naively_reenters() {
    let mut t = setup_reentrant(0, 500, TokenMode::NaiveReentrant);
    let user = t.user;
    let result = t.try_unstake(&user);
    assert!(result.is_err(), "unstake should trap when stake_token attempts reentrancy");
    let stake = t.get_stake(&user).unwrap();
    assert_eq!(stake.amount, 500);
}

#[test]
fn test_unlock_assets_reentrant_transfer_is_rejected_and_final_state_is_correct() {
    let mut t = setup_reentrant(500, 0, TokenMode::Reentrant);
    let user = t.user;
    t.unlock_assets(&user, 200);
    assert!(t.host.reentry_rejected);
    let position = t.get_user_position(&user).unwrap();
    assert_eq!(position.amount, 300);
}

#[test]
fn test_unlock_assets_reverts_entirely_if_stake_token_naively_reenters() {
    let mut t = setup_reentrant(500, 0, TokenMode::NaiveReentrant);
    let user = t.user;
    let result = t.try_unlock_assets(&user, 200);
    assert!(result.is_err(), "unlock_assets should trap when stake_token attempts reentrancy");
    let position = t.get_user_position(&user).unwrap();
    assert_eq!(position.amount, 500);
}

#[test]
fn test_emergency_withdraw_reentrant_transfer_during_position_payout_is_rejected_and_final_state_is_correct() {
    let mut t = setup_reentrant(500, 0, TokenMode::Standard);
    let user = t.user;
    t.pause();
    t.host.token_mode = TokenMode::Reentrant;
    let returned = t.emergency_withdraw(&user);
    assert!(t.host.reentry_rejected);
    assert_eq!(returned, 500);
    assert!(t.get_user_position(&user).is_none());
}

#[test]
fn test_emergency_withdraw_reentrant_transfer_during_stake_payout_is_rejected_and_final_state_is_correct() {
    let mut t = setup_reentrant(500, 300, TokenMode::Standard);
    let user = t.user;
    t.pause();
    t.host.token_mode = TokenMode::Reentrant;
    let returned = t.emergency_withdraw(&user);
    assert!(t.host.reentry_rejected);
    assert_eq!(returned, 800);
    assert!(t.get_user_position(&user).is_none());
    assert!(t.get_stake(&user).is_none());
}

#[test]
fn test_emergency_withdraw_reverts_entirely_if_stake_token_naively_reenters() {
    let mut t = setup_reentrant(500, 300, TokenMode::Standard);
    let user = t.user;
    t.pause();
    t.host.token_mode = TokenMode::NaiveReentrant;
    let result = t.try_emergency_withdraw(&user);
    assert!(result.is_err(), "emergency_withdraw should trap when stake_token attempts reentrancy");
    let position = t.get_user_position(&user).unwrap();
    assert_eq!(position.amount, 500);
    let stake = t.get_stake(&user).unwrap();
    assert_eq!(stake.amount, 300);
}

#[test]
fn emergency_withdraw_banks_credits_accrued_since_the_last_checkpoint() {
    let mut t = setup(1, 1);
    let user = t.user;
    t.lock_assets(&user, 500);
    t.stake(&user, 300);
    t.advance_ledgers(10);
    t.pause();
    let before = t.get_credits(&user);
    assert_eq!(before, 8_000);
    assert_eq!(t.emergency_withdraw(&user), 800);
    assert_eq!(t.get_banked_credits(&user), before);
    assert_eq!(t.get_credits(&user), before);
    let split = t.get_banked_credits_split(&user);
    assert_eq!((split.position_credits, split.stake_credits), (5_000, 3_000));
}

#[test]
fn emergency_withdraw_adds_to_credits_banked_earlier() {
    let mut t = setup(1, 1);
    let user = t.user;
    t.lock_assets(&user, 500);
    t.advance_ledgers(4);
    t.unlock_assets(&user, 500);
    assert_eq!(t.get_banked_credits(&user), 2_000);
    t.lock_assets(&user, 200);
    t.advance_ledgers(5);
    t.pause();
    let before = t.get_credits(&user);
    assert_eq!(before, 3_000);
    t.emergency_withdraw(&user);
    assert_eq!(t.get_banked_credits(&user), 3_000);
    assert_eq!(t.get_banked_credits_split(&user).position_credits, 3_000);
}

#[test]
fn staking_more_or_locking_more_keeps_credits_at_the_same_ledger() {
    let mut t = setup(2, 3);
    let user = t.user;
    t.stake(&user, 300);
    t.lock_assets(&user, 400);
    t.advance_ledgers(7);
    let before = t.get_credits(&user);
    assert_eq!(before, 300 * 3 * 7 + 400 * 3 * 7);
    t.stake(&user, 200);
    assert_eq!(t.get_credits(&user), before);
    t.lock_assets(&user, 100);
    assert_eq!(t.get_credits(&user), before);
    t.set_boost(&user, 50);
    assert_eq!(t.get_credits(&user), before);
    t.advance_ledgers(1);
    assert_eq!(t.get_credits(&user), before + (250 + 250 * 2) * 3 + 500 * 3);
}

#[test]
fn aborted_calls_leave_the_pool_unchanged() {
    let mut t = setup(1, 1);
    let user = t.user;
    assert_eq!(t.try_lock_assets(&user, 0), Err(CallError::Host("amount must be positive")));
    assert_eq!(t.try_stake(&user, -5), Err(CallError::Host("amount must be positive")));
    assert_eq!(t.try_unstake(&user), Err(CallError::Host("no active stake")));
    assert_eq!(t.try_unlock_assets(&user, 10), Err(CallError::Host("no active position")));
    t.lock_assets(&user, 300);
    assert_eq!(t.try_unlock_assets(&user, 301), Err(CallError::Host("insufficient locked balance")));
    assert_eq!(t.try_unlock_assets(&user, 0), Err(CallError::Host("amount must be positive")));
    t.stake(&user, 200);
    assert_eq!(t.try_set_boost(&user, 0), Err(CallError::Host("allocation_pct must be 1-100")));
    assert_eq!(t.try_set_boost(&user, 101), Err(CallError::Host("allocation_pct must be 1-100")));
    assert_eq!(t.total_staked(), 500);
    t.pause();
    assert_eq!(t.try_lock_assets(&user, 0), Err(CallError::Contract(PoolError::Paused)));
    assert_eq!(t.try_set_boost(&user, 0), Err(CallError::Contract(PoolError::Paused)));
}

#[test]
fn an_unlock_before_the_unlock_ledger_aborts() {
    let mut t = setup_with_lock_period(1, 1, 10);
    let user = t.user;
    t.lock_assets(&user, 300);
    t.advance_ledgers(9);
    assert_eq!(t.try_unlock_assets(&user, 300), Err(CallError::Host("minimum lock period not elapsed")));
    t.advance_ledgers(1);
    t.unlock_assets(&user, 300);
}

#[test]
fn initialize_leaves_the_pool_unpaused_and_empty() {
    let mut t = TestEnv::uninitialized();
    let (admin, token) = (t.admin, t.token);
    t.initialize(&admin, &token, 3, 2, 5, 0);
    assert!(!t.is_paused());
    assert_eq!(t.total_staked(), 0);
    assert_eq!(t.whitelist_count(), 0);
    assert_eq!(t.get_min_stake_amount(), 1);
}
