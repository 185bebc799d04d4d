//! DNS and DNSCrypt protocol logic.

pub mod anonymized;
pub mod base;
pub mod cache;
pub mod crypt;
pub mod keys;
pub mod session;
pub mod wire;
