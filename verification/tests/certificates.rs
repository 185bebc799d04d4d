use dnscrypt_relay::dns::base::{
    CertError, DNSCryptCert, DNSCryptCertInner, DNSCryptEncryptionParams,
    DNSCryptEncryptionParamsUpdater, ParamsError, RotateError, DNS_CRYPT_CERT_INNER_SIZE,
    DNS_CRYPT_CERT_SIZE,
};
use dnscrypt_relay::dns::keys::{CryptKeyPair, SharedKey};

fn sample_inner(serial: u32, ts_start: u32, ts_end: u32) -> DNSCryptCertInner {
    DNSCryptCertInner::new([7u8; 32], [1, 2, 3, 4, 5, 6, 7, 8], serial, ts_start, ts_end)
}

fn sample_params(magic: u8, serial: u32, ts_start: u32, ts_end: u32) -> DNSCryptEncryptionParams {
    let inner = DNSCryptCertInner::new([7u8; 32], [magic; 8], serial, ts_start, ts_end);
    let cert = DNSCryptCert::new(inner, [9u8; 64]);
    let kp = CryptKeyPair { pk: [7u8; 32], sk: [8u8; 32] };
    match DNSCryptEncryptionParams::new(cert, kp, 4) {
        Ok(p) => p,
        Err(e) => panic!("unexpected {:?}", e),
    }
}

#[test]
fn inner_record_is_written_big_endian() {
    let inner = sample_inner(0x0102_0304, 0x0a0b_0c0d, 0xfffe_fdfc);
    let bytes = inner.as_bytes();
    assert_eq!(bytes.len(), DNS_CRYPT_CERT_INNER_SIZE);
    assert_eq!(&bytes[0..32], &[7u8; 32][..]);
    assert_eq!(&bytes[32..40], &[1u8, 2, 3, 4, 5, 6, 7, 8][..]);
    assert_eq!(&bytes[40..44], &[0x01u8, 0x02, 0x03, 0x04][..]);
    assert_eq!(&bytes[44..48], &[0x0au8, 0x0b, 0x0c, 0x0d][..]);
    assert_eq!(&bytes[48..52], &[0xffu8, 0xfe, 0xfd, 0xfc][..]);
}

#[test]
fn inner_record_reads_back_what_was_written() {
    let inner = sample_inner(77, 1_000, 2_000);
    let back = DNSCryptCertInner::from_bytes(&inner.as_bytes()).unwrap();
    assert_eq!(back.resolver_pk(), [7u8; 32]);
    assert_eq!(back.client_magic(), [1, 2, 3, 4, 5, 6, 7, 8]);
    assert_eq!(back.serial(), 77);
    assert_eq!(back.ts_start(), 1_000);
    assert_eq!(back.ts_end(), 2_000);
    assert_eq!(back.as_bytes(), inner.as_bytes());
}

#[test]
fn inner_record_needs_exactly_52_bytes() {
    assert!(DNSCryptCertInner::from_bytes(&[0u8; 51]).is_none());
    assert!(DNSCryptCertInner::from_bytes(&[0u8; 53]).is_none());
    assert!(DNSCryptCertInner::from_bytes(&[0u8; 52]).is_some());
    assert!(DNSCryptCertInner::from_bytes(&[]).is_none());
}

#[test]
fn certificate_layout_is_wire_exact() {
    let cert = DNSCryptCert::new(sample_inner(5, 10, 20), [0xabu8; 64]);
    let bytes = cert.as_bytes();
    assert_eq!(bytes.len(), DNS_CRYPT_CERT_SIZE);
    assert_eq!(&bytes[0..4], b"DNSC");
    assert_eq!(&bytes[4..6], &[0u8, 2][..]);
    assert_eq!(&bytes[6..8], &[0u8, 0][..]);
    assert_eq!(&bytes[8..72], &[0xabu8; 64][..]);
    assert_eq!(&bytes[72..124], &sample_inner(5, 10, 20).as_bytes()[..]);
    assert_eq!(cert.signed_bytes(), sample_inner(5, 10, 20).as_bytes());
    assert_eq!(cert.signature(), [0xabu8; 64]);
}

#[test]
fn certificate_reads_back_what_was_written() {
    let cert = DNSCryptCert::new(sample_inner(5, 10, 20), [0xabu8; 64]);
    let back = match DNSCryptCert::from_bytes(&cert.as_bytes()) {
        Ok(c) => c,
        Err(e) => panic!("unexpected {:?}", e),
    };
    assert_eq!(back.as_bytes(), cert.as_bytes());
    assert_eq!(back.serial(), 5);
    assert_eq!(back.ts_start(), 10);
    assert_eq!(back.ts_end(), 20);
    assert_eq!(back.client_magic(), [1, 2, 3, 4, 5, 6, 7, 8]);
    assert_eq!(back.inner().serial(), 5);
    assert!(back.is_well_formed());
}

#[test]
fn certificate_rejects_wrong_length_magic_and_version() {
    let good = DNSCryptCert::new(sample_inner(5, 10, 20), [0u8; 64]).as_bytes();
    assert!(matches!(DNSCryptCert::from_bytes(&good[..123]), Err(CertError::WrongLength)));
    let mut long = good.clone();
    long.push(0);
    assert!(matches!(DNSCryptCert::from_bytes(&long), Err(CertError::WrongLength)));
    let mut bad_magic = good.clone();
    bad_magic[3] = b'X';
    assert!(matches!(DNSCryptCert::from_bytes(&bad_magic), Err(CertError::BadMagic)));
    let mut old_version = good.clone();
    old_version[5] = 1;
    assert!(matches!(DNSCryptCert::from_bytes(&old_version), Err(CertError::UnsupportedVersion)));
    let mut both = good.clone();
    both[0] = 0;
    both[5] = 1;
    assert!(matches!(DNSCryptCert::from_bytes(&both), Err(CertError::BadMagic)));
    let mut minor = good.clone();
    minor[7] = 9;
    assert!(DNSCryptCert::from_bytes(&minor).is_ok());
}

#[test]
fn certificate_is_valid_only_inside_its_window() {
    let cert = DNSCryptCert::new(sample_inner(1, 1_000, 2_000), [0u8; 64]);
    assert!(!cert.is_valid_at(0));
    assert!(!cert.is_valid_at(999));
    assert!(cert.is_valid_at(1_000));
    assert!(cert.is_valid_at(1_500));
    assert!(cert.is_valid_at(2_000));
    assert!(!cert.is_valid_at(2_001));
    assert!(!cert.is_valid_at(u32::MAX));
}

#[test]
fn blank_certificate_is_never_valid() {
    let blank = DNSCryptCert::default();
    assert_eq!(blank.as_bytes(), vec![0u8; 124]);
    assert!(!blank.is_well_formed());
    assert!(!blank.is_valid_at(0));
    assert_eq!(DNSCryptCertInner::default().as_bytes(), vec![0u8; 52]);
}

#[test]
fn params_bind_certificate_to_its_key_pair() {
    let cert = DNSCryptCert::new(sample_inner(1, 10, 20), [0u8; 64]);
    let kp = CryptKeyPair { pk: [7u8; 32], sk: [8u8; 32] };
    let p = match DNSCryptEncryptionParams::new(cert, kp, 16) {
        Ok(p) => p,
        Err(e) => panic!("unexpected {:?}", e),
    };
    assert_eq!(p.dnscrypt_cert().as_bytes(), cert.as_bytes());
    assert_eq!(p.resolver_kp().pk, [7u8; 32]);
    assert_eq!(p.resolver_kp().sk, [8u8; 32]);
    assert_eq!(p.client_magic(), [1, 2, 3, 4, 5, 6, 7, 8]);
    assert!(p.is_valid_at(15));
    assert!(!p.is_valid_at(21));
    assert_eq!(p.key_cache.as_ref().unwrap().capacity(), 16);
    let without = DNSCryptEncryptionParams::new(cert, kp, 0);
    assert!(matches!(without, Ok(ref q) if q.key_cache.is_none()));
}

#[test]
fn params_refuse_a_foreign_key_or_a_blank_certificate() {
    let cert = DNSCryptCert::new(sample_inner(1, 10, 20), [0u8; 64]);
    let other = CryptKeyPair { pk: [6u8; 32], sk: [8u8; 32] };
    assert!(matches!(
        DNSCryptEncryptionParams::new(cert, other, 4),
        Err(ParamsError::KeyMismatch)
    ));
    let zero = CryptKeyPair { pk: [0u8; 32], sk: [0u8; 32] };
    assert!(matches!(
        DNSCryptEncryptionParams::new(DNSCryptCert::default(), zero, 4),
        Err(ParamsError::MalformedCertificate)
    ));
}

#[test]
fn params_derive_a_shared_key_once_per_client() {
    let mut p = sample_params(1, 1, 10, 20);
    let mut calls = 0u32;
    let k1 = p.shared_key([3u8; 32], |pk: [u8; 32], kp: CryptKeyPair| {
        calls += 1;
        Some(SharedKey { bytes: [pk[0] ^ kp.sk[0]; 32] })
    });
    assert_eq!(k1.map(|k| k.bytes), Some([3u8 ^ 8u8; 32]));
    let k2 = p.shared_key([3u8; 32], |_pk: [u8; 32], _kp: CryptKeyPair| {
        calls += 1;
        Some(SharedKey { bytes: [0u8; 32] })
    });
    assert_eq!(k2.map(|k| k.bytes), Some([3u8 ^ 8u8; 32]));
    assert_eq!(calls, 1);
    assert_eq!(p.key_cache.as_ref().unwrap().len(), 1);
}

#[test]
fn params_without_cache_derive_every_time() {
    let cert = DNSCryptCert::new(sample_inner(1, 10, 20), [0u8; 64]);
    let kp = CryptKeyPair { pk: [7u8; 32], sk: [8u8; 32] };
    let mut p = match DNSCryptEncryptionParams::new(cert, kp, 0) {
        Ok(p) => p,
        Err(e) => panic!("unexpected {:?}", e),
    };
    let mut calls = 0u32;
    for _ in 0..3 {
        let k = p.shared_key([3u8; 32], |_pk: [u8; 32], _kp: CryptKeyPair| {
            calls += 1;
            Some(SharedKey { bytes: [5u8; 32] })
        });
        assert_eq!(k.map(|k| k.bytes), Some([5u8; 32]));
    }
    assert_eq!(calls, 3);
}

#[test]
fn rotation_puts_the_new_certificate_first() {
    let mut set = DNSCryptEncryptionParamsUpdater::new(100);
    assert_eq!(set.len(), 0);
    assert_eq!(set.rotate(sample_params(1, 1, 1_000, 2_000), 1_000), Ok(()));
    assert_eq!(set.rotate(sample_params(2, 2, 1_500, 2_500), 1_500), Ok(()));
    assert_eq!(set.len(), 2);
    let serials: Vec<u32> =
        set.current_params().iter().map(|p| p.dnscrypt_cert().serial()).collect();
    assert_eq!(serials, vec![2, 1]);
}

#[test]
fn rotation_refuses_a_serial_that_does_not_rise() {
    let mut set = DNSCryptEncryptionParamsUpdater::new(100);
    assert_eq!(set.rotate(sample_params(1, 5, 1_000, 2_000), 1_000), Ok(()));
    assert_eq!(
        set.rotate(sample_params(2, 5, 1_000, 2_000), 1_000),
        Err(RotateError::SerialNotIncreasing)
    );
    assert_eq!(
        set.rotate(sample_params(2, 4, 1_000, 2_000), 1_000),
        Err(RotateError::SerialNotIncreasing)
    );
    assert_eq!(set.len(), 1);
    assert_eq!(set.current_params()[0].dnscrypt_cert().serial(), 5);
    assert_eq!(set.rotate(sample_params(2, 6, 1_000, 2_000), 1_000), Ok(()));
    assert_eq!(set.len(), 2);
}

#[test]
fn rotation_retires_certificates_after_the_grace_period() {
    let mut set = DNSCryptEncryptionParamsUpdater::new(100);
    assert_eq!(set.rotate(sample_params(1, 1, 0, 1_000), 0), Ok(()));
    assert_eq!(set.rotate(sample_params(2, 2, 500, 2_000), 1_100), Ok(()));
    assert_eq!(set.len(), 2);
    assert_eq!(set.rotate(sample_params(3, 3, 1_000, 3_000), 1_101), Ok(()));
    let serials: Vec<u32> =
        set.current_params().iter().map(|p| p.dnscrypt_cert().serial()).collect();
    assert_eq!(serials, vec![3, 2]);
}

#[test]
fn retirement_does_not_overflow_at_the_end_of_time() {
    let mut set = DNSCryptEncryptionParamsUpdater::new(u32::MAX);
    assert_eq!(set.rotate(sample_params(1, 1, 0, u32::MAX), 0), Ok(()));
    assert_eq!(set.rotate(sample_params(2, 2, 0, 10), u32::MAX), Ok(()));
    assert_eq!(set.len(), 2);
}

#[test]
fn encryption_uses_the_newest_valid_certificate() {
    let mut set = DNSCryptEncryptionParamsUpdater::new(10_000);
    assert_eq!(set.select_for_encryption(0), None);
    assert_eq!(set.rotate(sample_params(1, 1, 1_000, 2_000), 1_000), Ok(()));
    assert_eq!(set.rotate(sample_params(2, 2, 1_500, 2_500), 1_000), Ok(()));
    assert_eq!(set.select_for_encryption(999), None);
    assert_eq!(set.select_for_encryption(1_000), Some(1));
    assert_eq!(set.select_for_encryption(1_499), Some(1));
    assert_eq!(set.select_for_encryption(1_500), Some(0));
    assert_eq!(set.select_for_encryption(2_000), Some(0));
    assert_eq!(set.select_for_encryption(2_500), Some(0));
    assert_eq!(set.select_for_encryption(2_501), None);
}

#[test]
fn decryption_finds_the_certificate_by_client_magic() {
    let mut set = DNSCryptEncryptionParamsUpdater::new(10_000);
    assert_eq!(set.rotate(sample_params(1, 1, 1_000, 2_000), 1_000), Ok(()));
    assert_eq!(set.rotate(sample_params(2, 2, 1_500, 2_500), 1_000), Ok(()));
    assert_eq!(set.find_for_decryption(&[1u8; 8], 1_200), Some(1));
    assert_eq!(set.find_for_decryption(&[2u8; 8], 1_600), Some(0));
    assert_eq!(set.find_for_decryption(&[1u8; 8], 1_600), Some(1));
    assert_eq!(set.find_for_decryption(&[3u8; 8], 1_600), None);
    assert_eq!(set.find_for_decryption(&[2u8; 8], 1_200), None);
    assert_eq!(set.find_for_decryption(&[1u8; 8], 2_001), None);
    assert_eq!(set.find_for_decryption(&[1u8; 8], 999), None);
}

#[test]
fn shared_keys_are_cached_per_certificate() {
    let mut set = DNSCryptEncryptionParamsUpdater::new(10_000);
    assert_eq!(set.rotate(sample_params(1, 1, 1_000, 2_000), 1_000), Ok(()));
    assert_eq!(set.rotate(sample_params(2, 2, 1_500, 2_500), 1_000), Ok(()));
    let derive = |pk: [u8; 32], _kp: CryptKeyPair| Some(SharedKey { bytes: [pk[0] + 1; 32] });
    assert_eq!(set.shared_key(0, [4u8; 32], derive).map(|k| k.bytes), Some([5u8; 32]));
    assert!(set.shared_key(2, [4u8; 32], derive).is_none());
    assert_eq!(set.current_params()[0].key_cache.as_ref().unwrap().len(), 1);
    assert_eq!(set.current_params()[1].key_cache.as_ref().unwrap().len(), 0);
    let other = |_pk: [u8; 32], _kp: CryptKeyPair| Some(SharedKey { bytes: [0u8; 32] });
    assert_eq!(set.shared_key(0, [4u8; 32], other).map(|k| k.bytes), Some([5u8; 32]));
    assert_eq!(set.len(), 2);
    assert_eq!(set.current_params()[0].dnscrypt_cert().serial(), 2);
}

#[test]
fn a_failed_key_exchange_caches_nothing() {
    let mut p = sample_params(1, 1, 10, 20);
    let none = p.shared_key([3u8; 32], |_pk: [u8; 32], _kp: CryptKeyPair| None);
    assert!(none.is_none());
    assert_eq!(p.key_cache.as_ref().unwrap().len(), 0);
    let some = p.shared_key([3u8; 32], |_pk: [u8; 32], _kp: CryptKeyPair| {
        Some(SharedKey { bytes: [1u8; 32] })
    });
    assert_eq!(some.map(|k| k.bytes), Some([1u8; 32]));
    assert_eq!(p.key_cache.as_ref().unwrap().len(), 1);
}

#[test]
fn an_issued_record_is_valid_for_a_day_from_now() {
    let mut pk = [0u8; 32];
    for (i, b) in pk.iter_mut().enumerate() {
        *b = i as u8 + 1;
    }
    let inner = DNSCryptCertInner::issue(pk, 9, 1_000);
    assert_eq!(inner.resolver_pk(), pk);
    assert_eq!(inner.client_magic(), [1, 2, 3, 4, 5, 6, 7, 8]);
    assert_eq!(inner.serial(), 9);
    assert_eq!(inner.ts_start(), 1_000);
    assert_eq!(inner.ts_end(), 87_400);
    let late = DNSCryptCertInner::issue(pk, 9, u32::MAX - 86_400);
    assert_eq!(late.ts_end(), u32::MAX);
    let later = DNSCryptCertInner::issue(pk, 9, u32::MAX - 86_399);
    assert_eq!(later.ts_end(), u32::MAX);
    let last = DNSCryptCertInner::issue(pk, 9, u32::MAX);
    assert_eq!((last.ts_start(), last.ts_end()), (u32::MAX, u32::MAX));
}

#[test]
fn only_usable_certificates_are_published() {
    let mut set = DNSCryptEncryptionParamsUpdater::new(10_000);
    assert!(set.published(0).is_empty());
    assert_eq!(set.rotate(sample_params(1, 1, 1_000, 2_000), 1_000), Ok(()));
    assert_eq!(set.rotate(sample_params(2, 2, 1_500, 2_500), 1_000), Ok(()));
    assert!(set.published(999).is_empty());
    let early = set.published(1_200);
    assert_eq!(early.len(), 1);
    assert_eq!(early[0], set.current_params()[1].dnscrypt_cert().as_bytes());
    let both = set.published(1_700);
    assert_eq!(both.len(), 2);
    assert_eq!(both[0], set.current_params()[0].dnscrypt_cert().as_bytes());
    assert_eq!(both[1], set.current_params()[1].dnscrypt_cert().as_bytes());
    assert_eq!(&both[0][..4], b"DNSC");
    let late = set.published(2_300);
    assert_eq!(late.len(), 1);
    assert_eq!(late[0], set.current_params()[0].dnscrypt_cert().as_bytes());
    assert!(set.published(2_501).is_empty());
}
