//! Pooled client for a remote key-value store — string, hash and list
//! commands plus one server-side atomic script — together with the
//! session-authorization gate that consults the store before a protected
//! handler may run.
//!
//! The remote calls stand behind a small set of trusted wrappers in
//! `pool`; everything around them is verified. The `store` module gives
//! every command its exact semantics over an in-memory store, `laws`
//! proves the round-trip and idempotence properties of those semantics,
//! `gauge` proves the pool's capacity discipline, and `gate` holds the
//! authorization decision.

use vstd::prelude::*;

verus! {

/// Library-level error taxonomy for store operations.
///
/// `Pool` is a failure to obtain a connection from the pool, `Command` a
/// store-reported or transport failure, `TypeConversion` a reply that could
/// not be read as the requested type, `Absent` a missing key or field where
/// the command distinguishes absence, and `NoScript` a script-dependent
/// operation invoked on a client that loaded no script.
#[derive(Clone, Copy, Debug, PartialEq, Eq, Structural)]
pub enum StoreError {
    Pool,
    Command,
    TypeConversion,
    Absent,
    NoScript,
}

} // verus!

pub mod assoc;
pub mod gate;
pub mod gauge;
pub mod glob;
pub mod laws;
pub mod pool;
pub mod store;

pub use gate::{Admin, AuthDenial, GateDecision, admin_verification_cookie};
pub use glob::glob_match;
pub use pool::{Redis, RedisPool};
pub use store::MemStore;
