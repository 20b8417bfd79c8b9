//! A small state-transition engine for a ledger-style chain runtime: a balances
//! ledger, a system counter (block number and per-account nonces), a dispatcher
//! for runtime calls, and block execution that keeps going past failed calls.

pub mod types;
pub mod table;
pub mod balances;
pub mod system;
pub mod support;
pub mod traits;
pub mod runtime;
