//! Ledger-state store for a sandboxed program-execution harness.
//!
//! The store keeps every account the harness knows about in four tiers and
//! resolves a lookup by a fixed precedence (ephemeral, durable, program,
//! system value). The clock system value is virtualised: a read advances it
//! by the wall-clock seconds elapsed since it was last materialised.
pub mod account;
pub mod accounts_db;
pub mod address;
pub mod clock;
pub mod stats;
pub mod tier_map;
pub mod tracker;
