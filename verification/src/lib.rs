//! The logic of three Soroban contracts: a vesting wallet, a farming
//! pool with two staking systems, and a factory that registers pools.
//!
//! Each contract is a state value whose methods take the current ledger
//! and the call's arguments and return either a `Receipt` (the value, the
//! authorization needed, the token movements and the events) or a `Fault`.
//! A refused call leaves the state untouched.

pub mod common;
pub mod vesting;
pub mod credits;
pub mod accounts;
pub mod pool;
pub mod pool_locks;
pub mod pool_stakes;
pub mod pool_whitelist;
pub mod factory;
pub mod properties;
