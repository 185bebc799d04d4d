use dnscrypt_relay::dns::anonymized::RelayError;
use dnscrypt_relay::dns::crypt::CodecError;
use dnscrypt_relay::support::metrics::{classify, classify_relay, Counters, DropKind};

#[test]
fn counters_start_at_zero() {
    let c = Counters::new();
    assert_eq!(
        c,
        Counters {
            cache_hits: 0,
            cache_misses: 0,
            malformed: 0,
            decrypt_failures: 0,
            relay_violations: 0,
            refused: 0
        }
    );
}

#[test]
fn lookups_are_counted_as_hits_or_misses() {
    let mut c = Counters::new();
    c.count_lookup(true);
    c.count_lookup(false);
    c.count_lookup(false);
    assert_eq!((c.cache_hits, c.cache_misses), (1, 2));
    assert_eq!((c.malformed, c.decrypt_failures, c.relay_violations, c.refused), (0, 0, 0, 0));
}

#[test]
fn drops_are_counted_by_kind() {
    let mut c = Counters::new();
    c.count_drop(DropKind::Malformed);
    c.count_drop(DropKind::Cryptographic);
    c.count_drop(DropKind::Cryptographic);
    c.count_drop(DropKind::RelayPolicy);
    c.count_drop(DropKind::RelayPolicy);
    c.count_drop(DropKind::RelayPolicy);
    c.count_drop(DropKind::Refused);
    assert_eq!((c.malformed, c.decrypt_failures, c.relay_violations, c.refused), (1, 2, 3, 1));
    assert_eq!((c.cache_hits, c.cache_misses), (0, 0));
}

#[test]
fn a_full_count_stays_full() {
    let mut c = Counters::new();
    c.cache_hits = u64::MAX - 1;
    c.refused = u64::MAX;
    c.count_lookup(true);
    assert_eq!(c.cache_hits, u64::MAX);
    c.count_lookup(true);
    assert_eq!(c.cache_hits, u64::MAX);
    c.count_drop(DropKind::Refused);
    assert_eq!(c.refused, u64::MAX);
}

#[test]
fn codec_errors_are_malformed_or_cryptographic() {
    assert_eq!(classify(CodecError::TooShort), DropKind::Malformed);
    assert_eq!(classify(CodecError::TooLong), DropKind::Malformed);
    assert_eq!(classify(CodecError::BadMagic), DropKind::Malformed);
    assert_eq!(classify(CodecError::BadMessage), DropKind::Malformed);
    assert_eq!(classify(CodecError::UnknownMagic), DropKind::Cryptographic);
    assert_eq!(classify(CodecError::DecryptFailed), DropKind::Cryptographic);
    assert_eq!(classify(CodecError::BadPadding), DropKind::Cryptographic);
}

#[test]
fn relay_errors_are_malformed_or_policy() {
    assert_eq!(classify_relay(RelayError::NoMagic), DropKind::Malformed);
    assert_eq!(classify_relay(RelayError::TooShort), DropKind::Malformed);
    assert_eq!(classify_relay(RelayError::TooLong), DropKind::Malformed);
    assert_eq!(classify_relay(RelayError::PortNotAllowed), DropKind::RelayPolicy);
    assert_eq!(classify_relay(RelayError::AddressNotAllowed), DropKind::RelayPolicy);
}
