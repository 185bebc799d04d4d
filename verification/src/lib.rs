//! The core of a DNSCrypt resolver front end.
//!
//! The crate holds what such a resolver decides and computes, with every
//! function proved against its contract:
//!
//! - [`dns::base`]: the wire constants, the certificate records, and the
//!   set of active certificates with its rotation;
//! - [`dns::crypt`]: size bounds, query and response envelopes, nonces,
//!   padding, truncated and server-failure answers, TCP framing;
//! - [`dns::session`]: a query's way from packet to DNS message and an
//!   answer's way back, around a key exchange and a cipher that the caller
//!   hands in;
//! - [`dns::anonymized`]: the relay framing and the rules on where a relay
//!   forwards;
//! - [`dns::keys`] and [`dns::cache`]: the bounded caches of shared keys and
//!   of answers;
//! - [`support::admission`]: the ceiling on live sessions and their
//!   cancellation;
//! - [`support::metrics`]: counts of hits, misses and drops as plain values.
//!
//! Sockets, clocks, randomness, configuration files and the cipher itself
//! are the caller's: the core takes bytes, seconds and closures, and holds
//! no lock.

pub mod config;
pub mod dns;
pub mod support;
