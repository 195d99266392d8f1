# smartdrop

Three Soroban contracts — a linear vesting wallet, a farming pool with a
time-locked and a flexible (boostable) staking system, and a factory that
deploys and registers pools — whose logic is written and proved in Verus.

## Layout

- `src/` — the verified library.
  - `common.rs`: addresses, token transfers, and the `Receipt` every
    state-changing call returns (value, authorization needed, transfers,
    events) or the `Fault` it is refused with.
  - `vesting.rs`: the vesting wallet.
  - `credits.rs`: the credit arithmetic (effective stake, accrual across a
    change of the global multiplier), each with its overflow check.
  - `accounts.rs`: the per-user records and the whitelist as sequences.
  - `pool.rs`, `pool_locks.rs`, `pool_stakes.rs`, `pool_whitelist.rs`: the
    farming pool.
  - `factory.rs`: the pool registry, listings, upgrades and the value-locked
    accounting.
  - `properties.rs`: properties that span several operations.
- `tests/` — tests of the library, run against a small simulated host
  (ledger, token balances, authorizations, events).
- `app/` — the Soroban contracts themselves: each entry point loads state
  from storage, calls the library, and carries out the receipt.

Operations that depend on time take the current ledger as an argument, and
every state-changing operation leaves the state untouched when it is
refused. Inputs on which the contracts abort outright (a non-positive
amount, an unlock before its ledger, an oversized batch, a malformed
schedule) are excluded by preconditions; the entry points in `app/` check
them first and abort with the same messages.
