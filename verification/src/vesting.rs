//! A linear vesting wallet with a cliff, optional revocation by an admin,
//! and an emergency exit.

use vstd::prelude::*;
use crate::common::{Address, Fault, Receipt, Transfer, Trap, i128_max, single};

verus! {

/// The largest schedule total: `i128::MAX / u32::MAX`, so that the total
/// times any ledger distance between two `u32` ledgers fits an `i128`.
pub const MAX_TOTAL_AMOUNT: i128 = 39614081266355540835774234624i128;

/// Errors returned by the vesting wallet (numeric codes by `code`).
#[derive(Clone, Copy, Debug, PartialEq, Eq, Structural)]
pub enum VestingError {
    AlreadyInitialized,
    NotInitialized,
    NotRevocable,
    AlreadyRevoked,
    Unauthorized,
    TotalAmountTooLarge,
    ArithmeticOverflow,
}

impl VestingError {
    /// The stable on-chain code of the error.
    pub fn code(&self) -> (r: u32)
        ensures
            1 <= r <= 7,
            *self == VestingError::AlreadyInitialized ==> r == 1,
            *self == VestingError::NotInitialized ==> r == 2,
            *self == VestingError::NotRevocable ==> r == 3,
            *self == VestingError::AlreadyRevoked ==> r == 4,
            *self == VestingError::Unauthorized ==> r == 5,
            *self == VestingError::TotalAmountTooLarge ==> r == 6,
            *self == VestingError::ArithmeticOverflow ==> r == 7,
    {
        match self {
            VestingError::AlreadyInitialized => 1,
            VestingError::NotInitialized => 2,
            VestingError::NotRevocable => 3,
            VestingError::AlreadyRevoked => 4,
            VestingError::Unauthorized => 5,
            VestingError::TotalAmountTooLarge => 6,
            VestingError::ArithmeticOverflow => 7,
        }
    }
}

/// The pair of addresses involved in an admin handoff.
#[derive(Clone, Copy, Debug, PartialEq, Eq, Structural)]
pub struct AdminTransferred {
    pub old_admin: Address,
    pub new_admin: Address,
}

/// The schedule parameters, as returned by `get_vesting_schedule`.
#[derive(Clone, Copy, Debug, PartialEq, Eq, Structural)]
pub struct VestingSchedule {
    pub beneficiary: Address,
    pub token: Address,
    pub total_amount: i128,
    pub start_ledger: u32,
    pub cliff_ledger: u32,
    pub end_ledger: u32,
    pub revocable: bool,
}

/// Events published by the wallet.
#[derive(Clone, Copy, Debug, PartialEq, Eq, Structural)]
pub enum VestingEvent {
    /// `("vest", "init")`: the schedule was set up.
    Initialized {
        beneficiary: Address,
        token: Address,
        total_amount: i128,
        start_ledger: u32,
        end_ledger: u32,
    },
    /// `("vest", "released")`: `amount` went to the beneficiary.
    Released { beneficiary: Address, amount: i128 },
    /// `("vest", "revoked")`: the unvested remainder went back to the funder.
    Revoked { admin: Address, vested: i128, unvested: i128 },
    /// `("vest", "adm_xfr")`: the admin changed.
    AdminTransferred(AdminTransferred),
}

/// The stored state of an initialized wallet.
#[derive(Clone, Copy, Debug, PartialEq, Eq, Structural)]
pub struct VestingState {
    pub beneficiary: Address,
    pub token: Address,
    pub total_amount: i128,
    pub start_ledger: u32,
    pub cliff_ledger: u32,
    pub end_ledger: u32,
    /// Cumulative amount already paid to the beneficiary.
    pub released: i128,
    pub admin: Address,
    /// The address that funded the schedule; never changes.
    pub funder: Address,
    pub revocable: bool,
    pub revoked: bool,
    /// The vested amount frozen when the schedule was revoked.
    pub revoked_vested: i128,
    pub release_count: u32,
}

impl VestingState {
    /// The invariant every initialized wallet keeps.
    pub open spec fn wf(&self) -> bool {
        &&& 0 < self.total_amount <= MAX_TOTAL_AMOUNT
        &&& self.start_ledger <= self.cliff_ledger < self.end_ledger
        &&& 0 <= self.released <= self.total_amount
        &&& 0 <= self.revoked_vested <= self.total_amount
    }

    /// The amount vested at `ledger`: nothing before the cliff, everything
    /// from the end on, and in between the share of the total proportional
    /// to the ledgers elapsed since the start (rounded down). Once revoked,
    /// the amount frozen at revocation.
    pub open spec fn vested_at(&self, ledger: u32) -> int {
        if self.revoked {
            self.revoked_vested as int
        } else if ledger < self.cliff_ledger {
            0
        } else if ledger >= self.end_ledger {
            self.total_amount as int
        } else {
            (self.total_amount * (ledger - self.start_ledger)) / ((self.end_ledger
                - self.start_ledger) as int)
        }
    }

    /// The state after paying everything vested at `ledger`.
    pub open spec fn released_through(&self, ledger: u32) -> VestingState {
        VestingState {
            released: self.vested_at(ledger) as i128,
            release_count: (self.release_count + 1) as u32,
            ..*self
        }
    }

    /// The state after a revocation at `ledger`: the amount vested then is
    /// frozen.
    pub open spec fn revoked_at(&self, ledger: u32) -> VestingState {
        VestingState { revoked: true, revoked_vested: self.vested_at(ledger) as i128, ..*self }
    }

    /// The schedule parameters of this state.
    pub open spec fn schedule(&self) -> VestingSchedule {
        VestingSchedule {
            beneficiary: self.beneficiary,
            token: self.token,
            total_amount: self.total_amount,
            start_ledger: self.start_ledger,
            cliff_ledger: self.cliff_ledger,
            end_ledger: self.end_ledger,
            revocable: self.revocable,
        }
    }
}

/// The linear part of the schedule lies between zero and the total.
pub proof fn lemma_linear_share(total: int, elapsed: int, duration: int)
    requires
        0 <= total <= MAX_TOTAL_AMOUNT,
        0 <= elapsed < duration <= 4294967295,
    ensures
        total * elapsed <= i128_max(),
        0 <= (total * elapsed) / duration <= total,
{
    assert(total * elapsed <= MAX_TOTAL_AMOUNT * 4294967295) by (nonlinear_arith)
        requires
            0 <= total <= MAX_TOTAL_AMOUNT,
            0 <= elapsed <= 4294967295,
    ;
    assert(0 <= total * elapsed <= total * duration) by (nonlinear_arith)
        requires
            0 <= total,
            0 <= elapsed < duration,
    ;
    vstd::arithmetic::div_mod::lemma_div_is_ordered(total * elapsed, total * duration, duration);
    vstd::arithmetic::div_mod::lemma_div_multiples_vanish(total, duration);
    vstd::arithmetic::mul::lemma_mul_is_commutative(total, duration);
    vstd::arithmetic::div_mod::lemma_div_pos_is_pos(total * elapsed, duration);
}

/// The vested amount of a well-formed state at `ledger`.
fn compute_vested(s: &VestingState, ledger: u32) -> (r: i128)
    requires
        s.wf(),
    ensures
        r == s.vested_at(ledger),
        0 <= r <= s.total_amount,
{
    if s.revoked {
        return s.revoked_vested;
    }
    if ledger < s.cliff_ledger {
        return 0;
    }
    if ledger >= s.end_ledger {
        return s.total_amount;
    }
    let elapsed: u128 = (ledger - s.start_ledger) as u128;
    let duration: u128 = (s.end_ledger - s.start_ledger) as u128;
    proof {
        lemma_linear_share(s.total_amount as int, elapsed as int, duration as int);
    }
    let product: u128 = (s.total_amount as u128) * elapsed;
    let share: u128 = product / duration;
    share as i128
}

/// The wallet: uninitialized until `initialize` succeeds.
#[derive(Clone, Debug)]
pub struct VestingWallet {
    pub state: Option<VestingState>,
}

impl VestingWallet {
    /// The invariant of the wallet.
    pub open spec fn wf(&self) -> bool {
        match self.state {
            None => true,
            Some(s) => s.wf(),
        }
    }

    /// The amount vested at `ledger`, for an initialized wallet.
    pub open spec fn vested_spec(&self, ledger: u32) -> int {
        self.state.unwrap().vested_at(ledger)
    }

    /// A wallet that has not been initialized.
    pub fn new() -> (w: VestingWallet)
        ensures
            w.state is None,
            w.wf(),
    {
        VestingWallet { state: None }
    }

    /// Set up the schedule at ledger `ledger` and pull `total_amount` of
    /// `token` from `admin`, whose authorization is needed.
    ///
    /// Refused with `AlreadyInitialized` on an initialized wallet, and with
    /// `TotalAmountTooLarge` when the total exceeds `MAX_TOTAL_AMOUNT`. A
    /// wallet not yet initialized must be given a positive total and a
    /// schedule that starts no earlier than `ledger`, whose cliff is not
    /// before its start and whose end comes after its cliff.
    pub fn initialize(
        &mut self,
        ledger: u32,
        beneficiary: Address,
        token: Address,
        total_amount: i128,
        start_ledger: u32,
        cliff_ledger: u32,
        end_ledger: u32,
        revocable: bool,
        admin: Address,
    ) -> (r: Result<Receipt<(), VestingEvent>, Fault<VestingError>>)
        requires
            old(self).wf(),
            old(self).state is None ==> {
                &&& total_amount > 0
                &&& start_ledger >= ledger
                &&& cliff_ledger >= start_ledger
                &&& end_ledger > cliff_ledger
            },
        ensures
            final(self).wf(),
            old(self).state is Some ==> r == Err::<Receipt<(), VestingEvent>, Fault<VestingError>>(
                Fault::Error(VestingError::AlreadyInitialized),
            ),
            old(self).state is None ==> {
                if total_amount > MAX_TOTAL_AMOUNT {
                    r == Err::<Receipt<(), VestingEvent>, Fault<VestingError>>(
                        Fault::Error(VestingError::TotalAmountTooLarge),
                    )
                } else {
                    &&& r is Ok
                    &&& final(self).state == Some(
                        VestingState {
                            beneficiary,
                            token,
                            total_amount,
                            start_ledger,
                            cliff_ledger,
                            end_ledger,
                            released: 0,
                            admin,
                            funder: admin,
                            revocable,
                            revoked: false,
                            revoked_vested: 0,
                            release_count: 0,
                        },
                    )
                    &&& r.unwrap().auth == Some(admin)
                    &&& r.unwrap().transfers@ == seq![
                        Transfer::In { token, from: admin, amount: total_amount },
                    ]
                    &&& r.unwrap().events@ == seq![
                        VestingEvent::Initialized {
                            beneficiary,
                            token,
                            total_amount,
                            start_ledger,
                            end_ledger,
                        },
                    ]
                }
            },
            r is Err ==> *final(self) == *old(self),
    {
        if self.state.is_some() {
            return Err(Fault::Error(VestingError::AlreadyInitialized));
        }
        let duration: i128 = (end_ledger - start_ledger) as i128;
        if total_amount <= MAX_TOTAL_AMOUNT {
            assert(total_amount * duration <= MAX_TOTAL_AMOUNT * 4294967295) by (nonlinear_arith)
                requires
                    0 <= total_amount <= MAX_TOTAL_AMOUNT,
                    0 <= duration <= 4294967295,
            ;
        }
        if total_amount > MAX_TOTAL_AMOUNT || total_amount.checked_mul(duration).is_none() {
            return Err(Fault::Error(VestingError::TotalAmountTooLarge));
        }
        self.state = Some(
            VestingState {
                beneficiary,
                token,
                total_amount,
                start_ledger,
                cliff_ledger,
                end_ledger,
                released: 0,
                admin,
                funder: admin,
                revocable,
                revoked: false,
                revoked_vested: 0,
                release_count: 0,
            },
        );
        let event = VestingEvent::Initialized {
            beneficiary,
            token,
            total_amount,
            start_ledger,
            end_ledger,
        };
        Ok(
            Receipt::new(
                (),
                Some(admin),
                single(Transfer::In { token, from: admin, amount: total_amount }),
                single(event),
            ),
        )
    }

    /// Pay the beneficiary everything vested at `ledger` but not yet paid,
    /// with the beneficiary's authorization, and return the amount paid.
    ///
    /// When nothing is owed the call pays nothing, counts nothing and
    /// returns 0. Otherwise `released` becomes the vested amount and the
    /// difference is the transfer. The vested amount must not lie below the
    /// amount already paid (after an emergency withdrawal froze the vested
    /// amount at zero it can, and the payment would be negative, which the
    /// token refuses).
    pub fn release(&mut self, ledger: u32) -> (r: Result<Receipt<i128, VestingEvent>, Fault<VestingError>>)
        requires
            old(self).wf(),
            old(self).state matches Some(s) ==> s.vested_at(ledger) >= s.released,
        ensures
            final(self).wf(),
            r is Err ==> *final(self) == *old(self),
            old(self).state is None ==> r == Err::<Receipt<i128, VestingEvent>, Fault<VestingError>>(
                Fault::Error(VestingError::NotInitialized),
            ),
            old(self).state matches Some(s) ==> {
                let owed = s.vested_at(ledger) - s.released;
                if owed == 0 {
                    &&& r is Ok
                    &&& r.unwrap().value == 0
                    &&& r.unwrap().auth == Some(s.beneficiary)
                    &&& r.unwrap().transfers@.len() == 0
                    &&& r.unwrap().events@.len() == 0
                    &&& *final(self) == *old(self)
                } else if s.release_count == u32::MAX {
                    r == Err::<Receipt<i128, VestingEvent>, Fault<VestingError>>(
                        Fault::Trap(Trap::ArithmeticOverflow),
                    )
                } else {
                    &&& r is Ok
                    &&& r.unwrap().value == owed
                    &&& r.unwrap().auth == Some(s.beneficiary)
                    &&& r.unwrap().transfers@ == seq![
                        Transfer::Out { token: s.token, to: s.beneficiary, amount: owed as i128 },
                    ]
                    &&& r.unwrap().events@ == seq![
                        VestingEvent::Released { beneficiary: s.beneficiary, amount: owed as i128 },
                    ]
                    &&& final(self).state == Some(s.released_through(ledger))
                }
            },
    {
        let s = match self.state {
            None => {
                return Err(Fault::Error(VestingError::NotInitialized));
            },
            Some(s) => s,
        };
        let vested = compute_vested(&s, ledger);
        let releasable = vested - s.released;
        if releasable == 0 {
            return Ok(Receipt::new(0, Some(s.beneficiary), Vec::new(), Vec::new()));
        }
        if s.release_count == u32::MAX {
            return Err(Fault::Trap(Trap::ArithmeticOverflow));
        }
        let total_released = s.released + releasable;
        self.state = Some(VestingState { released: total_released, release_count: s.release_count + 1, ..s });
        let event = VestingEvent::Released { beneficiary: s.beneficiary, amount: releasable };
        Ok(
            Receipt::new(
                releasable,
                Some(s.beneficiary),
                single(Transfer::Out { token: s.token, to: s.beneficiary, amount: releasable }),
                single(event),
            ),
        )
    }

    /// Revoke a revocable schedule at `ledger`, with the admin's
    /// authorization: freeze the vested amount and send the unvested
    /// remainder back to the funder.
    pub fn revoke(&mut self, ledger: u32) -> (r: Result<Receipt<(), VestingEvent>, Fault<VestingError>>)
        requires
            old(self).wf(),
        ensures
            final(self).wf(),
            r is Err ==> *final(self) == *old(self),
            old(self).state is None ==> r == Err::<Receipt<(), VestingEvent>, Fault<VestingError>>(
                Fault::Error(VestingError::NotInitialized),
            ),
            old(self).state matches Some(s) ==> {
                let vested = s.vested_at(ledger);
                let unvested = s.total_amount - vested;
                if !s.revocable {
                    r == Err::<Receipt<(), VestingEvent>, Fault<VestingError>>(
                        Fault::Error(VestingError::NotRevocable),
                    )
                } else if s.revoked {
                    r == Err::<Receipt<(), VestingEvent>, Fault<VestingError>>(
                        Fault::Error(VestingError::AlreadyRevoked),
                    )
                } else {
                    &&& r is Ok
                    &&& r.unwrap().auth == Some(s.admin)
                    &&& final(self).state == Some(s.revoked_at(ledger))
                    &&& unvested > 0 ==> r.unwrap().transfers@ == seq![
                        Transfer::Out { token: s.token, to: s.funder, amount: unvested as i128 },
                    ]
                    &&& unvested <= 0 ==> r.unwrap().transfers@.len() == 0
                    &&& r.unwrap().events@ == seq![
                        VestingEvent::Revoked {
                            admin: s.admin,
                            vested: vested as i128,
                            unvested: unvested as i128,
                        },
                    ]
                }
            },
    {
        let s = match self.state {
            None => {
                return Err(Fault::Error(VestingError::NotInitialized));
            },
            Some(s) => s,
        };
        if !s.revocable {
            return Err(Fault::Error(VestingError::NotRevocable));
        }
        if s.revoked {
            return Err(Fault::Error(VestingError::AlreadyRevoked));
        }
        let vested = compute_vested(&s, ledger);
        let unvested = s.total_amount - vested;
        self.state = Some(VestingState { revoked: true, revoked_vested: vested, ..s });
        let transfers = if unvested > 0 {
            single(Transfer::Out { token: s.token, to: s.funder, amount: unvested })
        } else {
            Vec::new()
        };
        Ok(
            Receipt::new(
                (),
                Some(s.admin),
                transfers,
                single(VestingEvent::Revoked { admin: s.admin, vested, unvested }),
            ),
        )
    }

    /// The amount vested at `ledger`.
    pub fn vested_amount(&self, ledger: u32) -> (r: Result<i128, VestingError>)
        requires
            self.wf(),
        ensures
            self.state is None ==> r == Err::<i128, VestingError>(VestingError::NotInitialized),
            self.state is Some ==> r == Ok::<i128, VestingError>(self.vested_spec(ledger) as i128),
    {
        match &self.state {
            None => Err(VestingError::NotInitialized),
            Some(s) => Ok(compute_vested(s, ledger)),
        }
    }

    /// The cumulative amount paid to the beneficiary.
    pub fn released_amount(&self) -> (r: Result<i128, VestingError>)
        ensures
            self.state is None ==> r == Err::<i128, VestingError>(VestingError::NotInitialized),
            self.state matches Some(s) ==> r == Ok::<i128, VestingError>(s.released),
    {
        match &self.state {
            None => Err(VestingError::NotInitialized),
            Some(s) => Ok(s.released),
        }
    }

    /// The amount vested at `ledger` minus the amount already paid.
    pub fn releasable(&self, ledger: u32) -> (r: Result<i128, VestingError>)
        requires
            self.wf(),
        ensures
            self.state is None ==> r == Err::<i128, VestingError>(VestingError::NotInitialized),
            self.state matches Some(s) ==> r == Ok::<i128, VestingError>(
                (s.vested_at(ledger) - s.released) as i128,
            ),
    {
        match &self.state {
            None => Err(VestingError::NotInitialized),
            Some(s) => Ok(compute_vested(s, ledger) - s.released),
        }
    }

    /// Whether the admin may revoke the schedule.
    pub fn revocable(&self) -> (r: Result<bool, VestingError>)
        ensures
            self.state is None ==> r == Err::<bool, VestingError>(VestingError::NotInitialized),
            self.state matches Some(s) ==> r == Ok::<bool, VestingError>(s.revocable),
    {
        match &self.state {
            None => Err(VestingError::NotInitialized),
            Some(s) => Ok(s.revocable),
        }
    }

    /// Whether the schedule has been revoked.
    pub fn revoked(&self) -> (r: Result<bool, VestingError>)
        ensures
            self.state is None ==> r == Err::<bool, VestingError>(VestingError::NotInitialized),
            self.state matches Some(s) ==> r == Ok::<bool, VestingError>(s.revoked),
    {
        match &self.state {
            None => Err(VestingError::NotInitialized),
            Some(s) => Ok(s.revoked),
        }
    }

    /// The current beneficiary.
    pub fn beneficiary(&self) -> (r: Result<Address, VestingError>)
        ensures
            self.state is None ==> r == Err::<Address, VestingError>(VestingError::NotInitialized),
            self.state matches Some(s) ==> r == Ok::<Address, VestingError>(s.beneficiary),
    {
        match &self.state {
            None => Err(VestingError::NotInitialized),
            Some(s) => Ok(s.beneficiary),
        }
    }

    /// All schedule parameters at once.
    pub fn get_vesting_schedule(&self) -> (r: Result<VestingSchedule, VestingError>)
        ensures
            self.state is None ==> r == Err::<VestingSchedule, VestingError>(
                VestingError::NotInitialized,
            ),
            self.state matches Some(s) ==> r == Ok::<VestingSchedule, VestingError>(s.schedule()),
    {
        match &self.state {
            None => Err(VestingError::NotInitialized),
            Some(s) => Ok(
                VestingSchedule {
                    beneficiary: s.beneficiary,
                    token: s.token,
                    total_amount: s.total_amount,
                    start_ledger: s.start_ledger,
                    cliff_ledger: s.cliff_ledger,
                    end_ledger: s.end_ledger,
                    revocable: s.revocable,
                },
            ),
        }
    }

    /// `(start_ledger, cliff_ledger, end_ledger)`.
    pub fn vesting_dates(&self) -> (r: Result<(u32, u32, u32), VestingError>)
        ensures
            self.state is None ==> r == Err::<(u32, u32, u32), VestingError>(
                VestingError::NotInitialized,
            ),
            self.state matches Some(s) ==> r == Ok::<(u32, u32, u32), VestingError>(
                (s.start_ledger, s.cliff_ledger, s.end_ledger),
            ),
    {
        match &self.state {
            None => Err(VestingError::NotInitialized),
            Some(s) => Ok((s.start_ledger, s.cliff_ledger, s.end_ledger)),
        }
    }

    /// Break-glass exit with the admin's authorization: `balance` is the
    /// wallet's token balance as the token reports it. The schedule is
    /// marked revoked with nothing vested, the whole balance goes to the
    /// admin, and the balance is returned.
    pub fn emergency_withdraw(&mut self, balance: i128) -> (r: Result<Receipt<i128, VestingEvent>, Fault<VestingError>>)
        requires
            old(self).wf(),
        ensures
            final(self).wf(),
            r is Err ==> *final(self) == *old(self),
            old(self).state is None ==> r == Err::<Receipt<i128, VestingEvent>, Fault<VestingError>>(
                Fault::Error(VestingError::NotInitialized),
            ),
            old(self).state matches Some(s) ==> {
                &&& r is Ok
                &&& r.unwrap().value == balance
                &&& r.unwrap().auth == Some(s.admin)
                &&& final(self).state == Some(VestingState { revoked: true, revoked_vested: 0, ..s })
                &&& balance > 0 ==> r.unwrap().transfers@ == seq![
                    Transfer::Out { token: s.token, to: s.admin, amount: balance },
                ]
                &&& balance <= 0 ==> r.unwrap().transfers@.len() == 0
                &&& r.unwrap().events@.len() == 0
            },
    {
        let s = match self.state {
            None => {
                return Err(Fault::Error(VestingError::NotInitialized));
            },
            Some(s) => s,
        };
        self.state = Some(VestingState { revoked: true, revoked_vested: 0, ..s });
        let transfers = if balance > 0 {
            single(Transfer::Out { token: s.token, to: s.admin, amount: balance })
        } else {
            Vec::new()
        };
        Ok(Receipt::new(balance, Some(s.admin), transfers, Vec::new()))
    }

    /// Hand the beneficiary rights to `new_beneficiary`, with the admin's
    /// authorization.
    pub fn transfer_beneficiary(&mut self, new_beneficiary: Address) -> (r: Result<Receipt<(), VestingEvent>, Fault<VestingError>>)
        requires
            old(self).wf(),
        ensures
            final(self).wf(),
            r is Err ==> *final(self) == *old(self),
            old(self).state is None ==> r == Err::<Receipt<(), VestingEvent>, Fault<VestingError>>(
                Fault::Error(VestingError::NotInitialized),
            ),
            old(self).state matches Some(s) ==> {
                &&& r is Ok
                &&& r.unwrap().auth == Some(s.admin)
                &&& final(self).state == Some(VestingState { beneficiary: new_beneficiary, ..s })
                &&& r.unwrap().transfers@.len() == 0
                &&& r.unwrap().events@.len() == 0
            },
    {
        let s = match self.state {
            None => {
                return Err(Fault::Error(VestingError::NotInitialized));
            },
            Some(s) => s,
        };
        self.state = Some(VestingState { beneficiary: new_beneficiary, ..s });
        Ok(Receipt::new((), Some(s.admin), Vec::new(), Vec::new()))
    }

    /// The schedule's token.
    pub fn token(&self) -> (r: Result<Address, VestingError>)
        ensures
            self.state is None ==> r == Err::<Address, VestingError>(VestingError::NotInitialized),
            self.state matches Some(s) ==> r == Ok::<Address, VestingError>(s.token),
    {
        match &self.state {
            None => Err(VestingError::NotInitialized),
            Some(s) => Ok(s.token),
        }
    }

    /// The current admin.
    pub fn admin(&self) -> (r: Result<Address, VestingError>)
        ensures
            self.state is None ==> r == Err::<Address, VestingError>(VestingError::NotInitialized),
            self.state matches Some(s) ==> r == Ok::<Address, VestingError>(s.admin),
    {
        match &self.state {
            None => Err(VestingError::NotInitialized),
            Some(s) => Ok(s.admin),
        }
    }

    /// Hand the admin rights to `new_admin`, with the current admin's
    /// authorization. The funder stays as it was.
    pub fn transfer_admin(&mut self, new_admin: Address) -> (r: Result<Receipt<(), VestingEvent>, Fault<VestingError>>)
        requires
            old(self).wf(),
        ensures
            final(self).wf(),
            r is Err ==> *final(self) == *old(self),
            old(self).state is None ==> r == Err::<Receipt<(), VestingEvent>, Fault<VestingError>>(
                Fault::Error(VestingError::NotInitialized),
            ),
            old(self).state matches Some(s) ==> {
                &&& r is Ok
                &&& r.unwrap().auth == Some(s.admin)
                &&& final(self).state == Some(VestingState { admin: new_admin, ..s })
                &&& r.unwrap().transfers@.len() == 0
                &&& r.unwrap().events@ == seq![
                    VestingEvent::AdminTransferred(
                        AdminTransferred { old_admin: s.admin, new_admin },
                    ),
                ]
            },
    {
        let s = match self.state {
            None => {
                return Err(Fault::Error(VestingError::NotInitialized));
            },
            Some(s) => s,
        };
        self.state = Some(VestingState { admin: new_admin, ..s });
        let event = VestingEvent::AdminTransferred(AdminTransferred { old_admin: s.admin, new_admin });
        Ok(Receipt::new((), Some(s.admin), Vec::new(), single(event)))
    }

    /// The number of releases that paid something.
    pub fn release_count(&self) -> (r: Result<u32, VestingError>)
        ensures
            self.state is None ==> r == Err::<u32, VestingError>(VestingError::NotInitialized),
            self.state matches Some(s) ==> r == Ok::<u32, VestingError>(s.release_count),
    {
        match &self.state {
            None => Err(VestingError::NotInitialized),
            Some(s) => Ok(s.release_count),
        }
    }

    /// Same as `release_count`.
    pub fn get_release_count(&self) -> (r: Result<u32, VestingError>)
        ensures
            r == self.release_count_spec(),
    {
        self.release_count()
    }

    /// What `release_count` returns.
    pub open spec fn release_count_spec(&self) -> Result<u32, VestingError> {
        match self.state {
            None => Err(VestingError::NotInitialized),
            Some(s) => Ok(s.release_count),
        }
    }
}

} // verus!
