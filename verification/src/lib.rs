//! A minimal closed-economy simulation: integer money, a double-entry ledger,
//! invariant checks and a fixed tick pipeline.

pub mod money;
pub mod text;
pub mod ids;
pub mod numeric;
pub mod config;
pub mod books;
pub mod invariants;
pub mod rng;
pub mod world;
pub mod log;
pub mod phases;
