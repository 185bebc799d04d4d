//! Counts of what the core has seen, as plain values for whoever exports
//! them.

use crate::dns::anonymized::RelayError;
use crate::dns::crypt::CodecError;
use vstd::prelude::*;

verus! {

/// Why a packet was dropped, as far as the counts tell reasons apart.
#[derive(Debug, Copy, Clone, PartialEq, Eq, Structural)]
pub enum DropKind {
    /// Wrong size, bad magic, or no DNS header inside.
    Malformed,
    /// Unknown client magic, failed authentication, or broken padding.
    Cryptographic,
    /// A relay packet for a port or an address that the relay does not
    /// forward to.
    RelayPolicy,
    /// A session over the ceiling on live sessions.
    Refused,
}

/// The kind of drop that a codec error stands for.
pub open spec fn kind_of(e: CodecError) -> DropKind {
    match e {
        CodecError::TooShort | CodecError::TooLong | CodecError::BadMagic
        | CodecError::BadMessage => DropKind::Malformed,
        CodecError::UnknownMagic | CodecError::DecryptFailed
        | CodecError::BadPadding => DropKind::Cryptographic,
    }
}

/// The kind of drop that a relay error stands for.
pub open spec fn relay_kind_of(e: RelayError) -> DropKind {
    match e {
        RelayError::NoMagic | RelayError::TooShort | RelayError::TooLong => DropKind::Malformed,
        RelayError::PortNotAllowed | RelayError::AddressNotAllowed => DropKind::RelayPolicy,
    }
}

/// Tells which kind of drop a codec error stands for.
pub fn classify(e: CodecError) -> (r: DropKind)
    ensures
        r == kind_of(e),
{
    match e {
        CodecError::TooShort => DropKind::Malformed,
        CodecError::TooLong => DropKind::Malformed,
        CodecError::BadMagic => DropKind::Malformed,
        CodecError::BadMessage => DropKind::Malformed,
        CodecError::UnknownMagic => DropKind::Cryptographic,
        CodecError::DecryptFailed => DropKind::Cryptographic,
        CodecError::BadPadding => DropKind::Cryptographic,
    }
}

/// Tells which kind of drop a relay error stands for.
pub fn classify_relay(e: RelayError) -> (r: DropKind)
    ensures
        r == relay_kind_of(e),
{
    match e {
        RelayError::NoMagic => DropKind::Malformed,
        RelayError::TooShort => DropKind::Malformed,
        RelayError::TooLong => DropKind::Malformed,
        RelayError::PortNotAllowed => DropKind::RelayPolicy,
        RelayError::AddressNotAllowed => DropKind::RelayPolicy,
    }
}

/// One more than `n`, or `n` where the count is full.
pub open spec fn bumped(n: u64) -> u64 {
    if n == u64::MAX {
        n
    } else {
        (n + 1) as u64
    }
}

/// Counts since the start. A count that is full stays where it is.
#[derive(Debug, Copy, Clone, PartialEq, Eq, Structural)]
pub struct Counters {
    pub cache_hits: u64,
    pub cache_misses: u64,
    pub malformed: u64,
    pub decrypt_failures: u64,
    pub relay_violations: u64,
    pub refused: u64,
}

impl Counters {
    /// All counts at zero.
    pub fn new() -> (r: Self)
        ensures
            r == (Counters {
                cache_hits: 0,
                cache_misses: 0,
                malformed: 0,
                decrypt_failures: 0,
                relay_violations: 0,
                refused: 0,
            }),
    {
        Counters {
            cache_hits: 0,
            cache_misses: 0,
            malformed: 0,
            decrypt_failures: 0,
            relay_violations: 0,
            refused: 0,
        }
    }

    /// Counts one look into the cache of answers.
    pub fn count_lookup(&mut self, hit: bool)
        ensures
            *final(self) == if hit {
                Counters { cache_hits: bumped(old(self).cache_hits), ..*old(self) }
            } else {
                Counters { cache_misses: bumped(old(self).cache_misses), ..*old(self) }
            },
    {
        if hit {
            self.cache_hits = self.cache_hits.saturating_add(1);
        } else {
            self.cache_misses = self.cache_misses.saturating_add(1);
        }
    }

    /// Counts one dropped packet or refused session.
    pub fn count_drop(&mut self, kind: DropKind)
        ensures
            *final(self) == match kind {
                DropKind::Malformed => Counters {
                    malformed: bumped(old(self).malformed),
                    ..*old(self)
                },
                DropKind::Cryptographic => Counters {
                    decrypt_failures: bumped(old(self).decrypt_failures),
                    ..*old(self)
                },
                DropKind::RelayPolicy => Counters {
                    relay_violations: bumped(old(self).relay_violations),
                    ..*old(self)
                },
                DropKind::Refused => Counters { refused: bumped(old(self).refused), ..*old(self) },
            },
    {
        match kind {
            DropKind::Malformed => {
                self.malformed = self.malformed.saturating_add(1);
            },
            DropKind::Cryptographic => {
                self.decrypt_failures = self.decrypt_failures.saturating_add(1);
            },
            DropKind::RelayPolicy => {
                self.relay_violations = self.relay_violations.saturating_add(1);
            },
            DropKind::Refused => {
                self.refused = self.refused.saturating_add(1);
            },
        }
    }
}

} // verus!
