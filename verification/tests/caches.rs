use dnscrypt_relay::dns::base::{RELAYED_CERT_CACHE_SIZE, RELAYED_CERT_CACHE_TTL};
use dnscrypt_relay::dns::cache::{
    clamp_ttl, key_from_hash, message_key, question_key, response_is_error, serve_cached,
    AnswerCache,
};
use dnscrypt_relay::dns::keys::{CryptKeyPair, SharedKey, SharedKeyCache};
use dnscrypt_relay::support::sieve::MAX_CACHE_CAPACITY;
use siphasher::sip128::SipHasher13;

fn pk(n: u8) -> [u8; 32] {
    let mut k = [0u8; 32];
    k[0] = n;
    k[31] = 0xee;
    k
}

fn key(n: u8) -> SharedKey {
    SharedKey { bytes: [n; 32] }
}

#[test]
fn shared_key_cache_needs_room_for_one() {
    assert!(SharedKeyCache::new(0).is_none());
    let cache = SharedKeyCache::new(1).unwrap();
    assert_eq!(cache.capacity(), 1);
    assert_eq!(cache.len(), 0);
}

#[test]
fn shared_key_cache_returns_what_was_stored() {
    let mut cache = SharedKeyCache::new(8).unwrap();
    assert!(cache.get(&pk(1)).is_none());
    assert!(cache.insert(pk(1), key(10)));
    assert!(cache.insert(pk(2), key(20)));
    assert_eq!(cache.get(&pk(1)).map(|k| k.bytes), Some([10u8; 32]));
    assert_eq!(cache.get(&pk(2)).map(|k| k.bytes), Some([20u8; 32]));
    assert!(cache.get(&pk(3)).is_none());
    assert_eq!(cache.len(), 2);
}

#[test]
fn shared_key_cache_overwrites_an_existing_client() {
    let mut cache = SharedKeyCache::new(2).unwrap();
    assert!(cache.insert(pk(1), key(10)));
    assert!(!cache.insert(pk(1), key(11)));
    assert_eq!(cache.len(), 1);
    assert_eq!(cache.get(&pk(1)).map(|k| k.bytes), Some([11u8; 32]));
}

#[test]
fn shared_key_cache_evicts_exactly_one_when_full() {
    for capacity in [1usize, 2, 5, 16] {
        let mut cache = SharedKeyCache::new(capacity).unwrap();
        for n in 0..capacity {
            assert!(cache.insert(pk(n as u8), key(n as u8)));
            assert_eq!(cache.len(), n + 1);
        }
        assert!(cache.insert(pk(200), key(200)));
        assert_eq!(cache.len(), capacity);
        assert_eq!(cache.get(&pk(200)).map(|k| k.bytes), Some([200u8; 32]));
        let gone = (0..capacity).filter(|n| cache.get(&pk(*n as u8)).is_none()).count();
        assert_eq!(gone, 1);
    }
}

#[test]
fn shared_key_cache_never_exceeds_its_capacity() {
    let mut cache = SharedKeyCache::new(4).unwrap();
    for n in 0..100u8 {
        cache.insert(pk(n), key(n));
        let _ = cache.get(&pk(n / 2));
        assert!(cache.len() <= 4);
    }
    assert_eq!(cache.len(), 4);
    assert_eq!(cache.capacity(), 4);
}

#[test]
fn shared_key_is_derived_only_on_a_miss() {
    let mut cache = SharedKeyCache::new(4).unwrap();
    let kp = CryptKeyPair { pk: [1u8; 32], sk: [2u8; 32] };
    let mut calls = 0u32;
    let first = cache.get_or_derive(pk(9), kp, |client: [u8; 32], server: CryptKeyPair| {
        calls += 1;
        Some(SharedKey { bytes: [client[0] + server.sk[0]; 32] })
    });
    assert_eq!(first.map(|k| k.bytes), Some([11u8; 32]));
    let second = cache.get_or_derive(pk(9), kp, |_c: [u8; 32], _s: CryptKeyPair| {
        calls += 1;
        Some(SharedKey { bytes: [0u8; 32] })
    });
    assert_eq!(second.map(|k| k.bytes), Some([11u8; 32]));
    assert_eq!(calls, 1);
    assert_eq!(cache.len(), 1);
}

#[test]
fn ttl_is_clamped_to_the_bounds() {
    assert_eq!(clamp_ttl(0, 60, 3600), 60);
    assert_eq!(clamp_ttl(59, 60, 3600), 60);
    assert_eq!(clamp_ttl(60, 60, 3600), 60);
    assert_eq!(clamp_ttl(61, 60, 3600), 61);
    assert_eq!(clamp_ttl(3600, 60, 3600), 3600);
    assert_eq!(clamp_ttl(3601, 60, 3600), 3600);
    assert_eq!(clamp_ttl(u32::MAX, 60, 3600), 3600);
    assert_eq!(clamp_ttl(5, 7, 7), 7);
    assert_eq!(clamp_ttl(9, 7, 7), 7);
}

#[test]
fn answer_cache_rejects_bad_settings() {
    assert!(AnswerCache::new(0, 1, 2, 3).is_none());
    assert!(AnswerCache::new(4, 3, 2, 1).is_none());
    let cache = AnswerCache::new(4, 2, 2, 9).unwrap();
    assert_eq!(cache.capacity(), 4);
    assert_eq!(cache.len(), 0);
}

#[test]
fn a_short_ttl_is_raised_to_the_minimum() {
    let mut cache = AnswerCache::new(4, 60, 3600, 5).unwrap();
    cache.put(1, vec![1, 2, 3], 10, 1_000);
    assert_eq!(cache.get(1, 1_000), Some(vec![1, 2, 3]));
    assert_eq!(cache.get(1, 1_011), Some(vec![1, 2, 3]));
    assert_eq!(cache.get(1, 1_059), Some(vec![1, 2, 3]));
    assert_eq!(cache.get(1, 1_060), None);
}

#[test]
fn a_long_ttl_is_cut_to_the_maximum() {
    let mut cache = AnswerCache::new(4, 60, 3600, 5).unwrap();
    cache.put(1, vec![1, 2, 3], 86_400, 1_000);
    assert_eq!(cache.get(1, 4_599), Some(vec![1, 2, 3]));
    assert_eq!(cache.get(1, 4_600), None);
}

#[test]
fn a_ttl_within_bounds_is_kept() {
    let mut cache = AnswerCache::new(4, 60, 3600, 5).unwrap();
    cache.put(1, vec![9], 300, 1_000);
    assert_eq!(cache.get(1, 1_299), Some(vec![9]));
    assert_eq!(cache.get(1, 1_300), None);
}

#[test]
fn an_expired_answer_is_removed_when_asked_for() {
    let mut cache = AnswerCache::new(4, 60, 3600, 5).unwrap();
    cache.put(1, vec![1], 60, 1_000);
    cache.put(2, vec![2], 600, 1_000);
    assert_eq!(cache.len(), 2);
    assert_eq!(cache.get(1, 2_000), None);
    assert_eq!(cache.len(), 1);
    assert_eq!(cache.get(1, 1_000), None);
    assert_eq!(cache.get(2, 1_000), Some(vec![2]));
    assert_eq!(cache.get(3, 1_000), None);
    assert_eq!(cache.len(), 1);
}

#[test]
fn an_error_answer_lives_for_the_error_ttl() {
    let mut cache = AnswerCache::new(4, 60, 3600, 5).unwrap();
    cache.put_error(7, vec![0xee], 1_000);
    assert_eq!(cache.get(7, 1_004), Some(vec![0xee]));
    assert_eq!(cache.get(7, 1_005), None);
}

#[test]
fn a_newer_answer_replaces_the_older() {
    let mut cache = AnswerCache::new(4, 60, 3600, 5).unwrap();
    cache.put(1, vec![1], 60, 1_000);
    cache.put(1, vec![2], 120, 1_010);
    assert_eq!(cache.len(), 1);
    assert_eq!(cache.get(1, 1_129), Some(vec![2]));
    assert_eq!(cache.get(1, 1_130), None);
}

#[test]
fn answer_cache_evicts_exactly_one_when_full() {
    let mut cache = AnswerCache::new(3, 60, 3600, 5).unwrap();
    for k in 0..3u128 {
        cache.put(k, vec![k as u8], 60, 0);
    }
    assert_eq!(cache.len(), 3);
    cache.put(99, vec![99], 60, 0);
    assert_eq!(cache.len(), 3);
    assert_eq!(cache.get(99, 0), Some(vec![99]));
    let gone = (0..3u128).filter(|k| cache.get(*k, 0).is_none()).count();
    assert_eq!(gone, 1);
}

#[test]
fn answer_cache_does_not_overflow_at_the_end_of_time() {
    let mut cache = AnswerCache::new(2, 0, u32::MAX, u32::MAX).unwrap();
    cache.put(1, vec![1], u32::MAX, u32::MAX);
    assert_eq!(cache.get(1, u32::MAX), Some(vec![1]));
    cache.put_error(2, vec![2], u32::MAX);
    assert_eq!(cache.get(2, u32::MAX), Some(vec![2]));
    cache.put(3, vec![3], 0, 5);
    assert_eq!(cache.get(3, 5), None);
}

#[test]
fn relayed_certificates_live_ten_minutes() {
    assert_eq!(RELAYED_CERT_CACHE_SIZE, 1000);
    assert_eq!(RELAYED_CERT_CACHE_TTL, 600);
    let mut cache = AnswerCache::for_relayed_certs();
    assert_eq!(cache.capacity(), 1000);
    cache.put(1, vec![1], 5, 0);
    cache.put(2, vec![2], 86_400, 0);
    assert_eq!(cache.get(1, 599), Some(vec![1]));
    assert_eq!(cache.get(2, 599), Some(vec![2]));
    assert_eq!(cache.get(1, 600), None);
    assert_eq!(cache.get(2, 600), None);
}

#[test]
fn question_key_is_the_keyed_hash_of_the_question() {
    let question = b"\x07example\x03com\x00\x00\x01\x00\x01";
    let h = SipHasher13::new_with_keys(11, 22).hash(question);
    let expected = (h.h1 as u128) | ((h.h2 as u128) << 64);
    assert_eq!(question_key(11, 22, question), expected);
    assert_ne!(question_key(11, 22, question), question_key(11, 23, question));
    assert_ne!(question_key(11, 22, question), question_key(11, 22, &question[1..]));
    assert_eq!(question_key(11, 22, question), question_key(11, 22, question));
}

#[test]
fn question_key_of_nothing_under_zero_keys() {
    let h = SipHasher13::new().hash(&[]);
    assert_eq!(question_key(0, 0, &[]), key_from_hash(h.h1, h.h2));
}

#[test]
fn key_halves_are_joined_low_first() {
    assert_eq!(key_from_hash(1, 0), 1);
    assert_eq!(key_from_hash(0, 1), 1u128 << 64);
    assert_eq!(key_from_hash(u64::MAX, u64::MAX), u128::MAX);
    assert_eq!(
        key_from_hash(0x0123_4567_89ab_cdef, 0xfedc_ba98_7654_3210),
        0xfedc_ba98_7654_3210_0123_4567_89ab_cdef
    );
}

#[test]
fn caches_have_at_most_sixteen_million_entries() {
    assert_eq!(MAX_CACHE_CAPACITY, 16_777_216);
    assert!(SharedKeyCache::new(MAX_CACHE_CAPACITY + 1).is_none());
    assert!(SharedKeyCache::new(usize::MAX).is_none());
    assert!(AnswerCache::new(MAX_CACHE_CAPACITY + 1, 1, 2, 3).is_none());
    assert!(AnswerCache::new(usize::MAX, 1, 2, 3).is_none());
}

#[test]
fn a_message_is_keyed_by_what_follows_its_header() {
    let mut message = vec![0x12u8, 0x34, 1, 0, 0, 1, 0, 0, 0, 0, 0, 0];
    message.extend_from_slice(b"\x07example\x03com\x00\x00\x01\x00\x01");
    let key = message_key(5, 6, &message);
    assert_eq!(key, Some(question_key(5, 6, &message[12..])));
    let mut other_id = message.clone();
    other_id[0] = 0xff;
    other_id[3] = 0x20;
    assert_eq!(message_key(5, 6, &other_id), key);
    let mut other_name = message.clone();
    other_name[13] = b'f';
    assert_ne!(message_key(5, 6, &other_name), key);
    assert_eq!(message_key(5, 6, &message[..12]), Some(question_key(5, 6, &[])));
    assert_eq!(message_key(5, 6, &message[..11]), None);
    assert_eq!(message_key(5, 6, &[]), None);
}

#[test]
fn a_cached_answer_is_served_under_the_askers_identifier() {
    assert_eq!(serve_cached(vec![1, 2, 3, 4, 5], &[9, 8, 7]), vec![9, 8, 3, 4, 5]);
    assert_eq!(serve_cached(vec![1, 2], &[9, 8]), vec![9, 8]);
    assert_eq!(serve_cached(vec![1], &[9, 8]), vec![1]);
    assert_eq!(serve_cached(vec![1, 2, 3], &[9]), vec![1, 2, 3]);
    assert_eq!(serve_cached(vec![], &[]), Vec::<u8>::new());
}

fn response(rcode: u8) -> Vec<u8> {
    vec![0x12, 0x34, 0x81, 0x80 | rcode, 0, 1, 0, 0, 0, 0, 0, 0, 3, b'c', b'o', b'm', 0]
}

#[test]
fn a_response_code_other_than_zero_is_an_error() {
    assert!(!response_is_error(&response(0)));
    assert!(response_is_error(&response(2)));
    assert!(response_is_error(&response(3)));
    assert!(response_is_error(&response(5)));
    assert!(response_is_error(&response(15)));
    assert!(!response_is_error(&[0x12, 0x34, 0x81, 0x83]));
    assert!(!response_is_error(&[]));
    assert!(!response_is_error(&[0xff, 0xff, 0xff, 0xf0, 0, 0, 0, 0, 0, 0, 0, 0]));
}

#[test]
fn errors_are_stored_for_the_error_ttl_and_answers_for_their_own() {
    let mut cache = AnswerCache::new(4, 60, 3600, 5).unwrap();
    cache.store(1, response(0), 300, 1_000);
    cache.store(2, response(3), 300, 1_000);
    cache.store(3, response(2), 300, 1_000);
    cache.store(4, response(0), 1, 1_000);
    assert_eq!(cache.get(1, 1_299), Some(response(0)));
    assert_eq!(cache.get(1, 1_300), None);
    assert_eq!(cache.get(2, 1_004), Some(response(3)));
    assert_eq!(cache.get(2, 1_005), None);
    assert_eq!(cache.get(3, 1_004), Some(response(2)));
    assert_eq!(cache.get(3, 1_005), None);
    assert_eq!(cache.get(4, 1_059), Some(response(0)));
    assert_eq!(cache.get(4, 1_060), None);
}
