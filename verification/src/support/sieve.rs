//! The bounded caches of the `sieve-cache` crate, as the core uses them.

use crate::dns::cache::{CachedAnswer, CachedAnswerView};
use sieve_cache::SieveCache;
use std::hash::{BuildHasher, Hash};
use vstd::prelude::*;

verus! {

/// `sieve_cache::SieveCache`, a cache of bounded size that evicts by the
/// SIEVE algorithm. Nothing inside it is visible here: what it holds is
/// spoken of through the names below.
#[verifier::external_type_specification]
#[verifier::external_body]
#[verifier::reject_recursive_types(K)]
#[verifier::reject_recursive_types(V)]
#[verifier::reject_recursive_types(S)]
pub struct ExSieveCache<K: Eq + Hash + Clone, V, S: BuildHasher>(SieveCache<K, V, S>);

/// The largest capacity that a cache is made with. It keeps the memory that
/// a cache reserves when it is made within what can be asked for at once.
pub const MAX_CACHE_CAPACITY: usize = 0x100_0000;

/// The entries that a cache of shared keys holds: client public key to
/// shared key, each 32 bytes.
pub uninterp spec fn shared_key_entries(c: SieveCache<[u8; 32], [u8; 32]>) -> Map<Seq<u8>, Seq<u8>>;

/// The capacity that a cache of shared keys was made with.
pub uninterp spec fn shared_key_capacity(c: SieveCache<[u8; 32], [u8; 32]>) -> nat;

/// How `SieveCache::insert` changes the entries `pre` of a cache of capacity
/// `cap` into `post`: an existing key is overwritten; a new key is added,
/// and where the cache was full some one earlier entry has gone.
pub open spec fn sieve_inserted<K, V>(
    pre: Map<K, V>,
    cap: nat,
    k: K,
    v: V,
    post: Map<K, V>,
) -> bool {
    if pre.contains_key(k) || pre.dom().len() < cap {
        post == pre.insert(k, v)
    } else {
        exists|e: K| #[trigger] pre.contains_key(e) && post == pre.remove(e).insert(k, v)
    }
}

/// A run of insertions into a cache of capacity `cap` that starts empty:
/// `states[i]` holds the entries before `keys[i]` is inserted with `vals[i]`,
/// and `states[i + 1]` those after.
pub open spec fn sieve_run<K, V>(
    cap: nat,
    keys: Seq<K>,
    vals: Seq<V>,
    states: Seq<Map<K, V>>,
) -> bool {
    &&& vals.len() == keys.len()
    &&& states.len() == keys.len() + 1
    &&& states[0] == Map::<K, V>::empty()
    &&& forall|i: int|
        0 <= i < keys.len() ==> sieve_inserted(
            states[i],
            cap,
            #[trigger] keys[i],
            vals[i],
            states[i + 1],
        )
}

/// One insertion keeps a cache within its capacity.
pub proof fn lemma_sieve_inserted_bounded<K, V>(
    pre: Map<K, V>,
    cap: nat,
    k: K,
    v: V,
    post: Map<K, V>,
)
    requires
        cap >= 1,
        pre.dom().finite(),
        pre.dom().len() <= cap,
        sieve_inserted(pre, cap, k, v, post),
    ensures
        post.dom().finite(),
        post.dom().len() <= cap,
        post.contains_key(k),
        post[k] == v,
        pre.contains_key(k) ==> post.dom() == pre.dom(),
        !pre.contains_key(k) && pre.dom().len() < cap ==> post.dom().len() == pre.dom().len() + 1,
        !pre.contains_key(k) && pre.dom().len() == cap ==> post.dom().len() == cap,
{
    if pre.contains_key(k) {
        assert(post.dom() =~= pre.dom());
    } else if pre.dom().len() < cap {
    } else {
        let e = choose|e: K| #[trigger] pre.contains_key(e) && post == pre.remove(e).insert(k, v);
        assert(pre.remove(e).dom() =~= pre.dom().remove(e));
    }
}

/// However many entries are inserted, a cache never holds more than its
/// capacity.
pub proof fn lemma_sieve_run_bounded<K, V>(
    cap: nat,
    keys: Seq<K>,
    vals: Seq<V>,
    states: Seq<Map<K, V>>,
    n: int,
)
    requires
        cap >= 1,
        sieve_run(cap, keys, vals, states),
        0 <= n <= keys.len(),
    ensures
        states[n].dom().finite(),
        states[n].dom().len() <= cap,
    decreases n,
{
    if n > 0 {
        lemma_sieve_run_bounded(cap, keys, vals, states, n - 1);
        assert(sieve_inserted(states[n - 1], cap, keys[n - 1], vals[n - 1], states[n - 1 + 1]));
        lemma_sieve_inserted_bounded(states[n - 1], cap, keys[n - 1], vals[n - 1], states[n]);
    }
}

/// While fewer distinct keys than the capacity have been inserted, all of
/// them are held and nothing else.
pub proof fn lemma_sieve_run_fills<K, V>(
    cap: nat,
    keys: Seq<K>,
    vals: Seq<V>,
    states: Seq<Map<K, V>>,
    n: int,
)
    requires
        cap >= 1,
        sieve_run(cap, keys, vals, states),
        keys.no_duplicates(),
        0 <= n <= keys.len(),
        n <= cap,
    ensures
        states[n].dom().finite(),
        states[n].dom().len() == n,
        forall|i: int| 0 <= i < n ==> states[n].contains_key(#[trigger] keys[i]),
        forall|k: K| #[trigger]
            states[n].contains_key(k) ==> exists|i: int| 0 <= i < n && keys[i] == k,
    decreases n,
{
    if n > 0 {
        let pre = states[n - 1];
        let k = keys[n - 1];
        lemma_sieve_run_fills(cap, keys, vals, states, n - 1);
        assert(sieve_inserted(pre, cap, k, vals[n - 1], states[n - 1 + 1]));
        if pre.contains_key(k) {
            let i = choose|i: int| 0 <= i < n - 1 && keys[i] == k;
            assert(keys[i] == keys[n - 1]);
            assert(false);
        }
        assert(states[n] == pre.insert(k, vals[n - 1]));
        assert forall|x: K| #[trigger] states[n].contains_key(x) implies exists|i: int|
            0 <= i < n && keys[i] == x by {
            if x == k {
                assert(keys[n - 1] == x);
            } else {
                assert(pre.contains_key(x));
                let i = choose|i: int| 0 <= i < n - 1 && keys[i] == x;
                assert(0 <= i < n && keys[i] == x);
            }
        }
    }
}

/// After one more distinct key than the capacity has been inserted, the
/// cache is full, holds the last key, and exactly one of the keys inserted
/// before it has gone.
pub proof fn lemma_sieve_overflow_evicts_one<K, V>(
    cap: nat,
    keys: Seq<K>,
    vals: Seq<V>,
    states: Seq<Map<K, V>>,
)
    requires
        cap >= 1,
        sieve_run(cap, keys, vals, states),
        keys.no_duplicates(),
        keys.len() == cap + 1,
    ensures
        states.last().dom().len() == cap,
        states.last().contains_key(keys.last()),
        exists|j: int|
            0 <= j < cap && !states.last().contains_key(#[trigger] keys[j]) && forall|i: int|
                0 <= i < cap && i != j ==> states.last().contains_key(#[trigger] keys[i]),
{
    let c = cap as int;
    let pre = states[c];
    let post = states[c + 1];
    let k = keys[c];
    lemma_sieve_run_fills(cap, keys, vals, states, c);
    assert(sieve_inserted(pre, cap, k, vals[c], states[c + 1]));
    if pre.contains_key(k) {
        let i = choose|i: int| 0 <= i < c && keys[i] == k;
        assert(keys[i] == keys[c]);
        assert(false);
    }
    lemma_sieve_inserted_bounded(pre, cap, k, vals[c], post);
    let e = choose|e: K| #[trigger] pre.contains_key(e) && post == pre.remove(e).insert(k, vals[c]);
    let j = choose|j: int| 0 <= j < c && keys[j] == e;
    assert(!post.contains_key(keys[j]));
    assert forall|i: int| 0 <= i < c && i != j implies post.contains_key(#[trigger] keys[i]) by {
        assert(pre.contains_key(keys[i]));
        assert(keys[i] != keys[j]);
    }
}

/// Calls `SieveCache::new`, which fails on capacity zero and else returns an
/// empty cache of that capacity. It reserves room for that many entries at
/// once, which it cannot for a capacity beyond all memory.
#[verifier::external_body]
pub(crate) fn shared_keys_new(capacity: usize) -> (r: Option<SieveCache<[u8; 32], [u8; 32]>>)
    requires
        capacity <= MAX_CACHE_CAPACITY,
    ensures
        r.is_some() == (capacity > 0),
        r matches Some(c) ==> shared_key_entries(c).dom() == Set::<Seq<u8>>::empty(),
        r matches Some(c) ==> shared_key_capacity(c) == capacity,
{
    SieveCache::new(capacity).ok()
}

/// Calls `SieveCache::get`, which returns the value stored under `key`, if
/// any, and leaves the entries as they are.
#[verifier::external_body]
pub(crate) fn shared_keys_get(c: &mut SieveCache<[u8; 32], [u8; 32]>, key: &[u8; 32]) -> (r: Option<
    [u8; 32],
>)
    ensures
        shared_key_entries(*final(c)) == shared_key_entries(*old(c)),
        shared_key_capacity(*final(c)) == shared_key_capacity(*old(c)),
        r.is_some() == shared_key_entries(*old(c)).contains_key(key@),
        r matches Some(v) ==> v@ == shared_key_entries(*old(c))[key@],
{
    c.get(key).copied()
}

/// Calls `SieveCache::insert`, which stores `value` under `key`, evicting one
/// entry first where the key is new and the cache is full, and returns
/// whether the key was new.
#[verifier::external_body]
pub(crate) fn shared_keys_insert(
    c: &mut SieveCache<[u8; 32], [u8; 32]>,
    key: [u8; 32],
    value: [u8; 32],
) -> (r: bool)
    ensures
        shared_key_capacity(*final(c)) == shared_key_capacity(*old(c)),
        r == !shared_key_entries(*old(c)).contains_key(key@),
        sieve_inserted(
            shared_key_entries(*old(c)),
            shared_key_capacity(*old(c)),
            key@,
            value@,
            shared_key_entries(*final(c)),
        ),
{
    c.insert(key, value)
}

/// Calls `SieveCache::capacity`, the capacity that the cache was made with.
#[verifier::external_body]
pub(crate) fn shared_keys_capacity(c: &SieveCache<[u8; 32], [u8; 32]>) -> (r: usize)
    ensures
        r == shared_key_capacity(*c),
{
    c.capacity()
}

/// Calls `SieveCache::len`, the number of entries held.
#[verifier::external_body]
pub(crate) fn shared_keys_len(c: &SieveCache<[u8; 32], [u8; 32]>) -> (r: usize)
    ensures
        r == shared_key_entries(*c).dom().len(),
{
    c.len()
}

/// The entries that a cache of answers holds, by question key.
pub uninterp spec fn answer_entries(c: SieveCache<u128, CachedAnswer>) -> Map<u128, CachedAnswerView>;

/// The capacity that a cache of answers was made with.
pub uninterp spec fn answer_capacity(c: SieveCache<u128, CachedAnswer>) -> nat;

/// Calls `SieveCache::new`, which fails on capacity zero and else returns an
/// empty cache of that capacity. It reserves room for that many entries at
/// once, which it cannot for a capacity beyond all memory.
#[verifier::external_body]
pub(crate) fn answers_new(capacity: usize) -> (r: Option<SieveCache<u128, CachedAnswer>>)
    requires
        capacity <= MAX_CACHE_CAPACITY,
    ensures
        r.is_some() == (capacity > 0),
        r matches Some(c) ==> answer_entries(c).dom() == Set::<u128>::empty(),
        r matches Some(c) ==> answer_capacity(c) == capacity,
{
    SieveCache::new(capacity).ok()
}

/// Calls `SieveCache::get`, which returns the value stored under `key`, if
/// any, and leaves the entries as they are.
#[verifier::external_body]
pub(crate) fn answers_get(c: &mut SieveCache<u128, CachedAnswer>, key: u128) -> (r: Option<
    CachedAnswer,
>)
    ensures
        answer_entries(*final(c)) == answer_entries(*old(c)),
        answer_capacity(*final(c)) == answer_capacity(*old(c)),
        r.is_some() == answer_entries(*old(c)).contains_key(key),
        r matches Some(a) ==> a@ == answer_entries(*old(c))[key],
{
    c.get(&key).cloned()
}

/// Calls `SieveCache::insert`, which stores `value` under `key`, evicting one
/// entry first where the key is new and the cache is full, and returns
/// whether the key was new.
#[verifier::external_body]
pub(crate) fn answers_insert(
    c: &mut SieveCache<u128, CachedAnswer>,
    key: u128,
    value: CachedAnswer,
) -> (r: bool)
    ensures
        answer_capacity(*final(c)) == answer_capacity(*old(c)),
        r == !answer_entries(*old(c)).contains_key(key),
        sieve_inserted(
            answer_entries(*old(c)),
            answer_capacity(*old(c)),
            key,
            value@,
            answer_entries(*final(c)),
        ),
{
    c.insert(key, value)
}

/// Calls `SieveCache::remove`, which takes the entry under `key` out, if
/// there is one, and returns its value.
#[verifier::external_body]
pub(crate) fn answers_remove(c: &mut SieveCache<u128, CachedAnswer>, key: u128) -> (r: Option<
    CachedAnswer,
>)
    ensures
        answer_capacity(*final(c)) == answer_capacity(*old(c)),
        answer_entries(*final(c)) == answer_entries(*old(c)).remove(key),
        r.is_some() == answer_entries(*old(c)).contains_key(key),
        r matches Some(a) ==> a@ == answer_entries(*old(c))[key],
{
    c.remove(&key)
}

/// Calls `SieveCache::capacity`, the capacity that the cache was made with.
#[verifier::external_body]
pub(crate) fn answers_capacity(c: &SieveCache<u128, CachedAnswer>) -> (r: usize)
    ensures
        r == answer_capacity(*c),
{
    c.capacity()
}

/// Calls `SieveCache::len`, the number of entries held.
#[verifier::external_body]
pub(crate) fn answers_len(c: &SieveCache<u128, CachedAnswer>) -> (r: usize)
    ensures
        r == answer_entries(*c).dom().len(),
{
    c.len()
}

} // verus!
