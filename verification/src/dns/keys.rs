//! Key material and the per-certificate cache of shared keys.

use crate::support::sieve::{
    shared_key_capacity, shared_key_entries, shared_keys_capacity, shared_keys_get,
    shared_keys_insert, shared_keys_len, shared_keys_new, sieve_inserted, MAX_CACHE_CAPACITY,
};
use sieve_cache::SieveCache;
use vstd::prelude::*;

verus! {

/// The resolver's short-term key pair for the key exchange with clients.
#[derive(Debug, Copy, Clone)]
pub struct CryptKeyPair {
    pub pk: [u8; 32],
    pub sk: [u8; 32],
}

/// The symmetric key that a client key and a resolver key pair agree on.
#[derive(Debug, Copy, Clone)]
pub struct SharedKey {
    pub bytes: [u8; 32],
}

/// Shared keys by client public key, bounded in number.
pub struct SharedKeyCache {
    cache: SieveCache<[u8; 32], [u8; 32]>,
}

impl View for SharedKeyCache {
    type V = Map<Seq<u8>, Seq<u8>>;

    closed spec fn view(&self) -> Map<Seq<u8>, Seq<u8>> {
        shared_key_entries(self.cache)
    }
}

impl SharedKeyCache {
    /// The largest number of entries that the cache will hold.
    pub closed spec fn capacity_spec(&self) -> nat {
        shared_key_capacity(self.cache)
    }

    /// The cache holds finitely many entries, at most its capacity.
    pub open spec fn inv(&self) -> bool {
        &&& self@.dom().finite()
        &&& 1 <= self.capacity_spec()
        &&& self@.dom().len() <= self.capacity_spec()
    }

    /// An empty cache for up to `capacity` keys; none for capacity zero or
    /// a capacity above `MAX_CACHE_CAPACITY`.
    pub fn new(capacity: usize) -> (r: Option<Self>)
        ensures
            r.is_some() == (0 < capacity <= MAX_CACHE_CAPACITY),
            r matches Some(c) ==> c.inv() && c@ == Map::<Seq<u8>, Seq<u8>>::empty()
                && c.capacity_spec() == capacity,
    {
        if capacity > MAX_CACHE_CAPACITY {
            return None;
        }
        match shared_keys_new(capacity) {
            Some(cache) => {
                assert(shared_key_entries(cache) =~= Map::<Seq<u8>, Seq<u8>>::empty());
                Some(SharedKeyCache { cache })
            },
            None => None,
        }
    }

    pub fn capacity(&self) -> (r: usize)
        ensures
            r == self.capacity_spec(),
    {
        shared_keys_capacity(&self.cache)
    }

    pub fn len(&self) -> (r: usize)
        ensures
            r == self@.dom().len(),
    {
        shared_keys_len(&self.cache)
    }

    /// The key cached for `client_pk`, if any. The entries stay as they are.
    pub fn get(&mut self, client_pk: &[u8; 32]) -> (r: Option<SharedKey>)
        ensures
            final(self)@ == old(self)@,
            final(self).capacity_spec() == old(self).capacity_spec(),
            r.is_some() == old(self)@.contains_key(client_pk@),
            r matches Some(k) ==> k.bytes@ == old(self)@[client_pk@],
    {
        match shared_keys_get(&mut self.cache, client_pk) {
            Some(bytes) => Some(SharedKey { bytes }),
            None => None,
        }
    }

    /// Caches `key` for `client_pk` and says whether the client was new. A
    /// new client in a full cache takes the place of one earlier entry.
    pub fn insert(&mut self, client_pk: [u8; 32], key: SharedKey) -> (r: bool)
        requires
            old(self).inv(),
        ensures
            final(self).inv(),
            final(self).capacity_spec() == old(self).capacity_spec(),
            r == !old(self)@.contains_key(client_pk@),
            sieve_inserted(
                old(self)@,
                old(self).capacity_spec(),
                client_pk@,
                key.bytes@,
                final(self)@,
            ),
            final(self)@.contains_key(client_pk@) && final(self)@[client_pk@] == key.bytes@,
    {
        shared_keys_insert(&mut self.cache, client_pk, key.bytes)
    }

    /// The shared key for `client_pk`: the cached one where there is one,
    /// else the one that `derive` computes from the client key and the
    /// resolver's key pair, which is then cached. Where `derive` finds no
    /// key, there is none and the cache stays as it is.
    pub fn get_or_derive<F>(
        &mut self,
        client_pk: [u8; 32],
        server_kp: CryptKeyPair,
        derive: F,
    ) -> (r: Option<SharedKey>) where F: FnOnce([u8; 32], CryptKeyPair) -> Option<SharedKey>
        requires
            old(self).inv(),
            derive.requires((client_pk, server_kp)),
        ensures
            final(self).inv(),
            final(self).capacity_spec() == old(self).capacity_spec(),
            key_outcome(
                old(self)@,
                old(self).capacity_spec(),
                client_pk,
                server_kp,
                derive,
                r,
                final(self)@,
            ),
            r matches Some(k) ==> final(self)@.contains_key(client_pk@) && final(self)@[client_pk@]
                == k.bytes@,
    {
        match self.get(&client_pk) {
            Some(key) => Some(key),
            None => {
                match derive(client_pk, server_kp) {
                    Some(key) => {
                        self.insert(client_pk, key);
                        Some(key)
                    },
                    None => None,
                }
            },
        }
    }
}

/// What asking a cache with the entries `pre` and the capacity `cap` for the
/// key shared with `client_pk` gives, and what entries `post` it leaves: a
/// cached key is returned as it is; else `derive` is asked, and the key it
/// finds is returned and cached.
pub open spec fn key_outcome<F: FnOnce([u8; 32], CryptKeyPair) -> Option<SharedKey>>(
    pre: Map<Seq<u8>, Seq<u8>>,
    cap: nat,
    client_pk: [u8; 32],
    server_kp: CryptKeyPair,
    derive: F,
    r: Option<SharedKey>,
    post: Map<Seq<u8>, Seq<u8>>,
) -> bool {
    if pre.contains_key(client_pk@) {
        post == pre && r is Some && r->Some_0.bytes@ == pre[client_pk@]
    } else {
        derive.ensures((client_pk, server_kp), r) && match r {
            Some(k) => sieve_inserted(pre, cap, client_pk@, k.bytes@, post),
            None => post == pre,
        }
    }
}

} // verus!
