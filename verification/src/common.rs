//! Values shared by the three contracts: addresses, WASM hashes, token
//! movements and the receipt that every state-changing call hands back.

use vstd::prelude::*;

verus! {

/// A Stellar address: either an account (ed25519 public key) or a contract
/// (contract hash). The 32 key bytes are held as four big-endian words.
#[derive(Clone, Copy, Debug, PartialEq, Eq, Structural)]
pub struct Address {
    pub is_contract: bool,
    pub k0: u64,
    pub k1: u64,
    pub k2: u64,
    pub k3: u64,
}

/// The account whose public key is all zero bytes
/// (`GAAAAAAAAAAAAAAAAAAAAAAAAAAAAAAAAAAAAAAAAAAAAAAAAAAAAWHF`).
pub open spec fn zero_account() -> Address {
    Address { is_contract: false, k0: 0, k1: 0, k2: 0, k3: 0 }
}

impl Address {
    /// An account address built from its four key words.
    pub fn account(k0: u64, k1: u64, k2: u64, k3: u64) -> (r: Address)
        ensures
            r == (Address { is_contract: false, k0, k1, k2, k3 }),
    {
        Address { is_contract: false, k0, k1, k2, k3 }
    }

    /// A contract address built from its four hash words.
    pub fn contract(k0: u64, k1: u64, k2: u64, k3: u64) -> (r: Address)
        ensures
            r == (Address { is_contract: true, k0, k1, k2, k3 }),
    {
        Address { is_contract: true, k0, k1, k2, k3 }
    }

    /// Whether this is the all-zero account.
    pub fn is_zero_account(&self) -> (r: bool)
        ensures
            r == (*self == zero_account()),
    {
        !self.is_contract && self.k0 == 0 && self.k1 == 0 && self.k2 == 0 && self.k3 == 0
    }
}

/// A 32-byte WASM hash, held as four big-endian words.
#[derive(Clone, Copy, Debug, PartialEq, Eq, Structural)]
pub struct WasmHash {
    pub w0: u64,
    pub w1: u64,
    pub w2: u64,
    pub w3: u64,
}

impl WasmHash {
    /// Whether every byte of the hash is zero.
    pub fn is_zero(&self) -> (r: bool)
        ensures
            r == (self.w0 == 0 && self.w1 == 0 && self.w2 == 0 && self.w3 == 0),
    {
        self.w0 == 0 && self.w1 == 0 && self.w2 == 0 && self.w3 == 0
    }
}

/// A token movement between the contract and another address.
#[derive(Clone, Copy, Debug, PartialEq, Eq, Structural)]
pub enum Transfer {
    /// `amount` of `token` moves from `from` into the contract.
    In { token: Address, from: Address, amount: i128 },
    /// `amount` of `token` moves from the contract to `to`.
    Out { token: Address, to: Address, amount: i128 },
}

/// What a successful call returns and what the host must do for it to
/// stand: the address whose authorization the call needs, the token
/// movements it makes (in order) and the events it publishes (in order).
pub struct Receipt<T, Ev> {
    pub value: T,
    pub auth: Option<Address>,
    pub transfers: Vec<Transfer>,
    pub events: Vec<Ev>,
}

/// Why a call was refused: a typed contract error, or a trap that aborts
/// the invocation.
#[derive(Clone, Copy, Debug, PartialEq, Eq, Structural)]
pub enum Fault<E> {
    Error(E),
    Trap(Trap),
}

/// The reasons for which the contracts abort an invocation.
#[derive(Clone, Copy, Debug, PartialEq, Eq, Structural)]
pub enum Trap {
    /// Integer arithmetic left the range of its type.
    ArithmeticOverflow,
}

/// The largest value of an `i128`.
pub open spec fn i128_max() -> int {
    170141183460469231731687303715884105727
}

/// The smallest value of an `i128`.
pub open spec fn i128_min() -> int {
    -170141183460469231731687303715884105728
}

/// Whether `x` fits an `i128`.
pub open spec fn fits_i128(x: int) -> bool {
    i128_min() <= x <= i128_max()
}

} // verus!

verus! {

/// A vector holding exactly `x`.
pub fn single<T>(x: T) -> (v: Vec<T>)
    ensures
        v@ == seq![x],
{
    let mut v = Vec::new();
    v.push(x);
    v
}

impl<T, Ev> Receipt<T, Ev> {
    /// A receipt holding `value` that needs `auth`, makes `transfers` and
    /// publishes `events`.
    pub fn new(value: T, auth: Option<Address>, transfers: Vec<Transfer>, events: Vec<Ev>) -> (r: Self)
        ensures
            r.value == value,
            r.auth == auth,
            r.transfers@ == transfers@,
            r.events@ == events@,
    {
        Receipt { value, auth, transfers, events }
    }
}

} // verus!
