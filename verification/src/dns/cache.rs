//! The bounded, expiring cache of answers, and the keys it is asked by.

use crate::dns::base::{DNS_HEADER_SIZE, RELAYED_CERT_CACHE_SIZE, RELAYED_CERT_CACHE_TTL};
use crate::support::sieve::{
    answer_capacity, answer_entries, answers_capacity, answers_get, answers_insert, answers_len,
    answers_new, answers_remove, sieve_inserted, MAX_CACHE_CAPACITY,
};
use sieve_cache::SieveCache;
use siphasher::sip128::SipHasher13;
use vstd::prelude::*;

verus! {

/// The two halves of the 128-bit SipHash-1-3 of `data` under the key
/// `(key0, key1)`.
pub uninterp spec fn siphash13_128(key0: u64, key1: u64, data: Seq<u8>) -> (u64, u64);

/// Calls `SipHasher13::new_with_keys` and `SipHasher13::hash` of the
/// `siphasher` crate, and hands out the two halves of the hash.
#[verifier::external_body]
pub(crate) fn sip13_hash(key0: u64, key1: u64, data: &[u8]) -> (r: (u64, u64))
    ensures
        r == siphash13_128(key0, key1, data@),
{
    let h = SipHasher13::new_with_keys(key0, key1).hash(data);
    (h.h1, h.h2)
}

/// The cache key made of the two halves of a hash: the first half in the
/// low 64 bits, the second in the high 64 bits.
pub open spec fn key_of_halves(h1: u64, h2: u64) -> u128 {
    (h1 as u128) | ((h2 as u128) << 64)
}

/// Joins the two halves of a hash into a cache key.
pub fn key_from_hash(h1: u64, h2: u64) -> (r: u128)
    ensures
        r == key_of_halves(h1, h2),
{
    (h1 as u128) | ((h2 as u128) << 64)
}

/// Different hashes give different cache keys.
pub proof fn lemma_key_of_halves_injective(a1: u64, a2: u64, b1: u64, b2: u64)
    requires
        key_of_halves(a1, a2) == key_of_halves(b1, b2),
    ensures
        a1 == b1,
        a2 == b2,
{
    assert((a1 as u128) | ((a2 as u128) << 64) == (b1 as u128) | ((b2 as u128) << 64) ==> a1 == b1
        && a2 == b2) by (bit_vector);
}

/// The key under which the answer to a question is cached: the keyed hash
/// of the question's bytes.
pub fn question_key(key0: u64, key1: u64, question: &[u8]) -> (r: u128)
    ensures
        r == key_of_halves(
            siphash13_128(key0, key1, question@).0,
            siphash13_128(key0, key1, question@).1,
        ),
{
    let (h1, h2) = sip13_hash(key0, key1, question);
    key_from_hash(h1, h2)
}

/// The key under which the answer to the DNS message `message` is cached:
/// the keyed hash of what follows its header, which holds the question;
/// none for a message without a whole header.
pub fn message_key(key0: u64, key1: u64, message: &[u8]) -> (r: Option<u128>)
    ensures
        r.is_some() == (message@.len() >= DNS_HEADER_SIZE),
        r matches Some(k) ==> {
            let question = message@.subrange(DNS_HEADER_SIZE as int, message@.len() as int);
            k == key_of_halves(
                siphash13_128(key0, key1, question).0,
                siphash13_128(key0, key1, question).1,
            )
        },
{
    if message.len() < DNS_HEADER_SIZE {
        return None;
    }
    let question = vstd::slice::slice_subrange(message, DNS_HEADER_SIZE, message.len());
    Some(question_key(key0, key1, question))
}

/// A cached answer as it is served to the sender of `query`: under the
/// identifier of the query, which is its first two bytes.
pub open spec fn served(cached: Seq<u8>, query: Seq<u8>) -> Seq<u8> {
    if cached.len() >= 2 && query.len() >= 2 {
        query.subrange(0, 2) + cached.subrange(2, cached.len() as int)
    } else {
        cached
    }
}

/// Puts the identifier of `query` on a cached answer.
pub fn serve_cached(cached: Vec<u8>, query: &[u8]) -> (r: Vec<u8>)
    ensures
        r@ == served(cached@, query@),
{
    let mut out = cached;
    if out.len() >= 2 && query.len() >= 2 {
        out[0] = query[0];
        out[1] = query[1];
        assert(out@ =~= served(cached@, query@));
    }
    out
}

/// `ttl` brought into the range from `min` to `max`.
pub open spec fn clamped_ttl(ttl: u32, min: u32, max: u32) -> u32 {
    if ttl < min {
        min
    } else if ttl > max {
        max
    } else {
        ttl
    }
}

/// Brings `ttl` into the range from `min` to `max`.
pub fn clamp_ttl(ttl: u32, min: u32, max: u32) -> (r: u32)
    ensures
        r == clamped_ttl(ttl, min, max),
{
    if ttl < min {
        min
    } else if ttl > max {
        max
    } else {
        ttl
    }
}

/// A clamped TTL lies within the bounds, is the bound where the TTL was
/// beyond it, and is the TTL itself where it was within them.
pub proof fn lemma_clamped_ttl(ttl: u32, min: u32, max: u32)
    requires
        min <= max,
    ensures
        min <= clamped_ttl(ttl, min, max) <= max,
        ttl < min ==> clamped_ttl(ttl, min, max) == min,
        ttl > max ==> clamped_ttl(ttl, min, max) == max,
        min <= ttl <= max ==> clamped_ttl(ttl, min, max) == ttl,
{
}

/// Whether a DNS response reports a failure or a name that does not exist:
/// its response code, the low four bits of its flags, is not zero.
pub open spec fn is_error_response(response: Seq<u8>) -> bool {
    response.len() >= DNS_HEADER_SIZE && response[3] & 0x0fu8 != 0u8
}

/// Decides `is_error_response`.
pub fn response_is_error(response: &[u8]) -> (r: bool)
    ensures
        r == is_error_response(response@),
{
    response.len() >= DNS_HEADER_SIZE && response[3] & 0x0f != 0
}

/// What a cached answer is: the response bytes and the second from which on
/// it is no longer served.
pub struct CachedAnswerView {
    pub response: Seq<u8>,
    pub expiry: u64,
}

impl CachedAnswerView {
    /// Whether the answer may still be served at `now`.
    pub open spec fn fresh_at(self, now: u32) -> bool {
        now < self.expiry
    }
}

/// A cached answer.
#[derive(Debug, Clone)]
pub struct CachedAnswer {
    pub response: Vec<u8>,
    pub expiry: u64,
}

impl View for CachedAnswer {
    type V = CachedAnswerView;

    open spec fn view(&self) -> CachedAnswerView {
        CachedAnswerView { response: self.response@, expiry: self.expiry }
    }
}

/// Answers by question key, bounded in number, each kept until it expires.
pub struct AnswerCache {
    cache: SieveCache<u128, CachedAnswer>,
    ttl_min: u32,
    ttl_max: u32,
    ttl_error: u32,
}

impl View for AnswerCache {
    type V = Map<u128, CachedAnswerView>;

    closed spec fn view(&self) -> Map<u128, CachedAnswerView> {
        answer_entries(self.cache)
    }
}

impl AnswerCache {
    /// The largest number of entries that the cache will hold.
    pub closed spec fn capacity_spec(&self) -> nat {
        answer_capacity(self.cache)
    }

    /// The least lifetime of an answer, in seconds.
    pub closed spec fn ttl_min_spec(&self) -> u32 {
        self.ttl_min
    }

    /// The greatest lifetime of an answer, in seconds.
    pub closed spec fn ttl_max_spec(&self) -> u32 {
        self.ttl_max
    }

    /// The lifetime of an error answer, in seconds.
    pub closed spec fn ttl_error_spec(&self) -> u32 {
        self.ttl_error
    }

    /// The cache holds finitely many entries, at most its capacity, and its
    /// lifetime bounds are in order.
    pub open spec fn inv(&self) -> bool {
        &&& self@.dom().finite()
        &&& 1 <= self.capacity_spec()
        &&& self@.dom().len() <= self.capacity_spec()
        &&& self.ttl_min_spec() <= self.ttl_max_spec()
    }

    /// An empty cache for up to `capacity` answers that live between
    /// `ttl_min` and `ttl_max` seconds, error answers `ttl_error` seconds;
    /// none for capacity zero, a capacity above `MAX_CACHE_CAPACITY`, or
    /// bounds out of order.
    pub fn new(capacity: usize, ttl_min: u32, ttl_max: u32, ttl_error: u32) -> (r: Option<Self>)
        ensures
            r.is_some() == (0 < capacity <= MAX_CACHE_CAPACITY && ttl_min <= ttl_max),
            r matches Some(c) ==> {
                &&& c.inv()
                &&& c@.dom() == Set::<u128>::empty()
                &&& c.capacity_spec() == capacity
                &&& c.ttl_min_spec() == ttl_min
                &&& c.ttl_max_spec() == ttl_max
                &&& c.ttl_error_spec() == ttl_error
            },
    {
        if ttl_min > ttl_max || capacity > MAX_CACHE_CAPACITY {
            return None;
        }
        match answers_new(capacity) {
            Some(cache) => Some(AnswerCache { cache, ttl_min, ttl_max, ttl_error }),
            None => None,
        }
    }

    /// The cache in which a relay remembers certificates it has relayed:
    /// a thousand entries that each live ten minutes.
    pub fn for_relayed_certs() -> (r: Self)
        ensures
            r.inv(),
            r@.dom() == Set::<u128>::empty(),
            r.capacity_spec() == RELAYED_CERT_CACHE_SIZE,
            r.ttl_min_spec() == RELAYED_CERT_CACHE_TTL,
            r.ttl_max_spec() == RELAYED_CERT_CACHE_TTL,
            r.ttl_error_spec() == RELAYED_CERT_CACHE_TTL,
    {
        let made = AnswerCache::new(
            RELAYED_CERT_CACHE_SIZE,
            RELAYED_CERT_CACHE_TTL,
            RELAYED_CERT_CACHE_TTL,
            RELAYED_CERT_CACHE_TTL,
        );
        made.unwrap()
    }

    pub fn capacity(&self) -> (r: usize)
        ensures
            r == self.capacity_spec(),
    {
        answers_capacity(&self.cache)
    }

    pub fn len(&self) -> (r: usize)
        ensures
            r == self@.dom().len(),
    {
        answers_len(&self.cache)
    }

    /// The answer cached under `key`, unless it has expired at `now`. An
    /// expired answer is taken out of the cache.
    pub fn get(&mut self, key: u128, now: u32) -> (r: Option<Vec<u8>>)
        requires
            old(self).inv(),
        ensures
            final(self).inv(),
            final(self).capacity_spec() == old(self).capacity_spec(),
            final(self).ttl_min_spec() == old(self).ttl_min_spec(),
            final(self).ttl_max_spec() == old(self).ttl_max_spec(),
            final(self).ttl_error_spec() == old(self).ttl_error_spec(),
            r.is_some() == (old(self)@.contains_key(key) && old(self)@[key].fresh_at(now)),
            r matches Some(response) ==> response@ == old(self)@[key].response,
            final(self)@ == if old(self)@.contains_key(key) && !old(self)@[key].fresh_at(now) {
                old(self)@.remove(key)
            } else {
                old(self)@
            },
    {
        match answers_get(&mut self.cache, key) {
            None => None,
            Some(answer) => {
                if (now as u64) < answer.expiry {
                    Some(answer.response)
                } else {
                    let _ = answers_remove(&mut self.cache, key);
                    None
                }
            },
        }
    }

    /// Stores `response` under `key` at `now` with the lifetime `ttl`
    /// brought within the cache's bounds, in place of any answer that was
    /// there. A new key in a full cache takes the place of one earlier entry.
    pub fn put(&mut self, key: u128, response: Vec<u8>, ttl: u32, now: u32)
        requires
            old(self).inv(),
        ensures
            final(self).inv(),
            final(self).capacity_spec() == old(self).capacity_spec(),
            final(self).ttl_min_spec() == old(self).ttl_min_spec(),
            final(self).ttl_max_spec() == old(self).ttl_max_spec(),
            final(self).ttl_error_spec() == old(self).ttl_error_spec(),
            sieve_inserted(
                old(self)@,
                old(self).capacity_spec(),
                key,
                CachedAnswerView {
                    response: response@,
                    expiry: (now + clamped_ttl(
                        ttl,
                        old(self).ttl_min_spec(),
                        old(self).ttl_max_spec(),
                    )) as u64,
                },
                final(self)@,
            ),
            final(self)@.contains_key(key),
            final(self)@[key].response == response@,
            final(self)@[key].expiry == now + clamped_ttl(
                ttl,
                old(self).ttl_min_spec(),
                old(self).ttl_max_spec(),
            ),
    {
        let lifetime = clamp_ttl(ttl, self.ttl_min, self.ttl_max);
        let expiry: u64 = now as u64 + lifetime as u64;
        let _ = answers_insert(&mut self.cache, key, CachedAnswer { response, expiry });
    }

    /// The second at which `response`, stored at `now` with the lifetime
    /// `ttl`, expires: an error response after the lifetime that the cache
    /// gives to errors, any other after `ttl` brought within the bounds.
    pub open spec fn expiry_of(&self, response: Seq<u8>, ttl: u32, now: u32) -> u64 {
        if is_error_response(response) {
            (now + self.ttl_error_spec()) as u64
        } else {
            (now + clamped_ttl(ttl, self.ttl_min_spec(), self.ttl_max_spec())) as u64
        }
    }

    /// Stores `response` under `key` at `now`: as `put_error` does where it
    /// is an error response, and else as `put` does with the lifetime `ttl`.
    pub fn store(&mut self, key: u128, response: Vec<u8>, ttl: u32, now: u32)
        requires
            old(self).inv(),
        ensures
            final(self).inv(),
            final(self).capacity_spec() == old(self).capacity_spec(),
            final(self).ttl_min_spec() == old(self).ttl_min_spec(),
            final(self).ttl_max_spec() == old(self).ttl_max_spec(),
            final(self).ttl_error_spec() == old(self).ttl_error_spec(),
            sieve_inserted(
                old(self)@,
                old(self).capacity_spec(),
                key,
                CachedAnswerView {
                    response: response@,
                    expiry: old(self).expiry_of(response@, ttl, now),
                },
                final(self)@,
            ),
            final(self)@.contains_key(key),
            final(self)@[key].response == response@,
            final(self)@[key].expiry == old(self).expiry_of(response@, ttl, now),
    {
        if response_is_error(response.as_slice()) {
            self.put_error(key, response, now);
        } else {
            self.put(key, response, ttl, now);
        }
    }

    /// Stores an error answer under `key` at `now`, with the lifetime that
    /// the cache gives to errors.
    pub fn put_error(&mut self, key: u128, response: Vec<u8>, now: u32)
        requires
            old(self).inv(),
        ensures
            final(self).inv(),
            final(self).capacity_spec() == old(self).capacity_spec(),
            final(self).ttl_min_spec() == old(self).ttl_min_spec(),
            final(self).ttl_max_spec() == old(self).ttl_max_spec(),
            final(self).ttl_error_spec() == old(self).ttl_error_spec(),
            sieve_inserted(
                old(self)@,
                old(self).capacity_spec(),
                key,
                CachedAnswerView {
                    response: response@,
                    expiry: (now + old(self).ttl_error_spec()) as u64,
                },
                final(self)@,
            ),
            final(self)@.contains_key(key),
            final(self)@[key].response == response@,
            final(self)@[key].expiry == now + old(self).ttl_error_spec(),
    {
        let expiry: u64 = now as u64 + self.ttl_error as u64;
        let _ = answers_insert(&mut self.cache, key, CachedAnswer { response, expiry });
    }
}

} // verus!
