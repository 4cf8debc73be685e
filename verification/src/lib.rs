//! Accounting core of a liquid-staking system.
//!
//! Depositors hand a native staking asset to a shared delegation router,
//! which keeps a per-participant, per-validator position ledger, mints a
//! fungible receipt credit 1:1 with contributed principal, and forwards
//! each intent to a per-participant stake proxy.  The proxy owns the
//! low-level `bonded` / `compounded` counters and a block-time-gated
//! unbonding queue, and computes the commission-aware payout when the
//! owner withdraws matured funds.
//!
//! The modules hold the bookkeeping only: every function maps plain
//! values (amounts, addresses, block times) to a new state and a list of
//! outbound instructions.  Host concerns — message decoding, storage,
//! balance queries, the actual staking and bank operations — stay with
//! the caller.

pub mod coin;
pub mod proxy;
pub mod ratio;
pub mod router;
