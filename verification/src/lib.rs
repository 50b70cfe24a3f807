//! A deterministic on-chain referenda engine.
//!
//! The engine drives proposals through submission, preparation, deciding,
//! confirmation and enactment.  Per-track policy curves and capacity limits
//! govern when a referendum may begin being decided and when it passes.
//! Voting itself is external: the engine only reads a tally whose values
//! evolve elsewhere.  Scheduling, currency and preimage lookups are driven
//! through deterministic in-memory models so that every state transition of
//! the engine is verified.

pub mod arith;
pub mod codec;
pub mod curve;
pub mod hashing;
pub mod invariants;
pub mod ledger;
pub mod pallet;
pub mod queue;
pub mod sched;
pub mod types;
