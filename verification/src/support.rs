//! Building blocks shared by the protocol modules.

pub mod admission;
pub mod base;
pub mod metrics;
pub mod sieve;
pub mod slots;
