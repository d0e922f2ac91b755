//! The fetch cache: source URL to raw fetched bytes, with bounded capacity
//! and strict least-recently-used eviction, plus the per-key single-flight
//! bookkeeping that keeps concurrent fetches of one URL down to one.
//!
//! The cache itself decides; the network call it decides about is performed
//! by the caller between `resolve_step` and `store_fetched` / `release`, so
//! no lock need be held across it.  A failed fetch installs nothing: the
//! caller releases the claim and the next resolve may try again.

use vstd::prelude::*;
use vstd::string::*;

use lru::LruCache;

verus! {

// ---------------------------------------------------------------------------
// URL hashing (FNV-1a, 64 bit)
// ---------------------------------------------------------------------------

/// One FNV-1a step: fold a byte into the running hash.
pub open spec fn fnv_step(h: u64, b: u8) -> u64 {
    (((h ^ (b as u64)) as nat * 0x100000001b3 as nat) % 0x10000000000000000 as nat) as u64
}

/// The 64-bit FNV-1a hash of a byte string; the fixed-width cache key of a
/// URL.
pub open spec fn fnv1a(bytes: Seq<u8>) -> u64
    decreases bytes.len(),
{
    if bytes.len() == 0 {
        0xcbf29ce484222325
    } else {
        fnv_step(fnv1a(bytes.drop_last()), bytes.last())
    }
}

/// The cache key of a URL: the FNV-1a hash of its UTF-8 bytes.
pub fn url_key(url: &str) -> (h: u64)
    ensures
        h == fnv1a(url.spec_bytes()),
{
    let bytes = url.as_bytes_vec();
    let mut h: u64 = 0xcbf29ce484222325;
    let mut i: usize = 0;
    while i < bytes.len()
        invariant
            i <= bytes.len(),
            bytes@ == url.spec_bytes(),
            h == fnv1a(bytes@.take(i as int)),
        decreases bytes.len() - i,
    {
        h = (h ^ (bytes[i] as u64)).wrapping_mul(0x100000001b3);
        proof {
            assert(bytes@.take(i + 1 as int).drop_last() =~= bytes@.take(i as int));
            assert(bytes@.take(i + 1 as int).last() == bytes@[i as int]);
        }
        i = i + 1;
    }
    proof {
        assert(bytes@.take(bytes@.len() as int) =~= bytes@);
    }
    h
}

// ---------------------------------------------------------------------------
// The store behind the cache: lru::LruCache, keyed by the URL hash
// ---------------------------------------------------------------------------

#[verifier::external_type_specification]
#[verifier::external_body]
#[verifier::reject_recursive_types(K)]
#[verifier::reject_recursive_types(V)]
#[verifier::reject_recursive_types(S)]
pub struct ExLruCache<K, V, S>(LruCache<K, V, S>);

/// What the store holds: its entries as key-value pairs in recency order,
/// most recently used first.  The crate's one store maps a URL hash to the
/// fetched raw bytes.
pub uninterp spec fn lru_entries(c: LruCache<u64, Vec<u8>>) -> Seq<(u64, Seq<u8>)>;

/// The capacity the store was constructed with.
pub uninterp spec fn lru_cap(c: LruCache<u64, Vec<u8>>) -> nat;

/// The position of a key in an entry sequence, or -1 if absent.
pub open spec fn key_index(es: Seq<(u64, Seq<u8>)>, k: u64) -> int
    decreases es.len(),
{
    if es.len() == 0 {
        -1
    } else if es[0].0 == k {
        0
    } else {
        let r = key_index(es.skip(1), k);
        if r == -1 {
            -1
        } else {
            r + 1
        }
    }
}

/// What a hit does to the entries: the entry moves to the front; a miss
/// leaves them as they were.
pub open spec fn get_model(es: Seq<(u64, Seq<u8>)>, k: u64) -> Seq<(u64, Seq<u8>)> {
    let i = key_index(es, k);
    if i >= 0 {
        seq![es[i]] + es.remove(i)
    } else {
        es
    }
}

/// What an insert does to the entries: a present key is re-valued and moved
/// to the front; an absent key goes to the front, evicting the last (least
/// recently used) entry when the store is full.
pub open spec fn put_model(es: Seq<(u64, Seq<u8>)>, cap: nat, k: u64, v: Seq<u8>) -> Seq<
    (u64, Seq<u8>),
> {
    let i = key_index(es, k);
    if i >= 0 {
        seq![(k, v)] + es.remove(i)
    } else if es.len() < cap {
        seq![(k, v)] + es
    } else {
        seq![(k, v)] + es.take(es.len() - 1)
    }
}

/// Relies on lru::LruCache::new: a fresh cache is empty and holds at most
/// `cap` entries.
#[verifier::external_body]
fn lru_new(cap: usize) -> (c: LruCache<u64, Vec<u8>>)
    requires
        cap >= 1,
    ensures
        lru_entries(c) == Seq::<(u64, Seq<u8>)>::empty(),
        lru_cap(c) == cap,
{
    LruCache::new(cap)
}

/// Relies on lru::LruCache::get: a hit returns the stored value and moves
/// its entry to the front of the recency order; a miss changes nothing.
#[verifier::external_body]
fn lru_get(c: &mut LruCache<u64, Vec<u8>>, k: u64) -> (r: Option<Vec<u8>>)
    ensures
        lru_cap(*final(c)) == lru_cap(*old(c)),
        lru_entries(*final(c)) == get_model(lru_entries(*old(c)), k),
        match r {
            Some(v) => key_index(lru_entries(*old(c)), k) >= 0 && v@ == lru_entries(*old(c))[
                key_index(lru_entries(*old(c)), k)].1,
            None => key_index(lru_entries(*old(c)), k) == -1,
        },
{
    c.get(&k).cloned()
}

/// Relies on lru::LruCache::put: a present key is re-valued and promoted; an
/// absent key is inserted at the front, evicting the least recently used
/// entry if the cache is full.
#[verifier::external_body]
fn lru_put(c: &mut LruCache<u64, Vec<u8>>, k: u64, v: Vec<u8>)
    requires
        lru_cap(*old(c)) >= 1,
    ensures
        lru_cap(*final(c)) == lru_cap(*old(c)),
        lru_entries(*final(c)) == put_model(
            lru_entries(*old(c)),
            lru_cap(*old(c)),
            k,
            v@,
        ),
{
    c.put(k, v);
}

// ---------------------------------------------------------------------------
// The fetch cache
// ---------------------------------------------------------------------------

/// What a caller that wants the bytes of a key must do next.
pub enum ResolveAction {
    /// The bytes were cached; use them.
    UseCached(Vec<u8>),
    /// Not cached and no fetch is in flight: this caller now holds the claim
    /// and must fetch, then `store_fetched` on success or `release` on
    /// failure.
    StartFetch,
    /// Not cached but another caller already holds the claim: wait and
    /// resolve again.
    AwaitOther,
}

/// The shared fetch cache: a bounded LRU store of fetched bytes plus the set
/// of keys whose fetch is currently in flight.
pub struct FetchCache {
    store: LruCache<u64, Vec<u8>>,
    claims: Vec<u64>,
}

impl FetchCache {
    /// The cached entries, most recently used first.
    pub closed spec fn entries(&self) -> Seq<(u64, Seq<u8>)> {
        lru_entries(self.store)
    }

    /// The fixed capacity.
    pub closed spec fn cap(&self) -> nat {
        lru_cap(self.store)
    }

    /// The keys whose fetch is in flight.
    pub closed spec fn claims(&self) -> Seq<u64> {
        self.claims@
    }

    /// A usable cache: room for at least one entry, one claim per key.
    pub open spec fn wf(&self) -> bool {
        self.cap() >= 1 && self.claims().no_duplicates()
    }

    /// A fresh cache: empty, nothing in flight.
    pub fn new(cap: usize) -> (c: Self)
        requires
            cap >= 1,
        ensures
            c.wf(),
            c.cap() == cap,
            c.entries() == Seq::<(u64, Seq<u8>)>::empty(),
            c.claims() == Seq::<u64>::empty(),
    {
        FetchCache { store: lru_new(cap), claims: Vec::new() }
    }

    /// Look a key up.  A hit returns the bytes and counts as a use: the
    /// entry moves to the front of the recency order.  A miss changes
    /// nothing.
    pub fn lookup(&mut self, key: u64) -> (r: Option<Vec<u8>>)
        requires
            old(self).wf(),
        ensures
            final(self).wf(),
            final(self).cap() == old(self).cap(),
            final(self).claims() == old(self).claims(),
            final(self).entries() == get_model(old(self).entries(), key),
            match r {
                Some(v) => key_index(old(self).entries(), key) >= 0
                    && v@ == old(self).entries()[key_index(old(self).entries(), key)].1,
                None => key_index(old(self).entries(), key) == -1,
            },
    {
        lru_get(&mut self.store, key)
    }

    /// Whether a fetch of this key is already in flight.
    pub fn claimed(&self, key: u64) -> (r: bool)
        ensures
            r == self.claims().contains(key),
    {
        let mut i: usize = 0;
        while i < self.claims.len()
            invariant
                i <= self.claims.len(),
                forall|j: int| 0 <= j < i ==> self.claims@[j] != key,
            decreases self.claims.len() - i,
        {
            if self.claims[i] == key {
                return true;
            }
            i = i + 1;
        }
        false
    }

    /// Claim the fetch of a key.  Returns true if and only if no fetch of it
    /// was in flight; the claim is then held and every later claim of the
    /// key fails until it is released.
    pub fn try_claim(&mut self, key: u64) -> (r: bool)
        requires
            old(self).wf(),
        ensures
            final(self).wf(),
            final(self).cap() == old(self).cap(),
            final(self).entries() == old(self).entries(),
            r == !old(self).claims().contains(key),
            r ==> final(self).claims() == old(self).claims().push(key),
            !r ==> final(self).claims() == old(self).claims(),
    {
        if self.claimed(key) {
            false
        } else {
            let ghost pre = self.claims@;
            self.claims.push(key);
            proof {
                assert forall|i: int, j: int|
                    0 <= i < self.claims@.len() && 0 <= j < self.claims@.len() && i
                        != j implies self.claims@[i] != self.claims@[j] by {
                    if i < pre.len() && j < pre.len() {
                        assert(pre[i] != pre[j]);
                    } else if j == pre.len() && i < pre.len() {
                        if pre[i] == key {
                            assert(pre.contains(key));
                        }
                    } else if i == pre.len() && j < pre.len() {
                        if pre[j] == key {
                            assert(pre.contains(key));
                        }
                    }
                }
            }
            true
        }
    }

    /// Release the claim of a key without storing anything: the failure
    /// path.  A failed fetch never installs an entry, so a later resolve of
    /// the key may fetch afresh.
    pub fn release(&mut self, key: u64)
        requires
            old(self).wf(),
        ensures
            final(self).wf(),
            final(self).cap() == old(self).cap(),
            final(self).entries() == old(self).entries(),
            !final(self).claims().contains(key),
            forall|x: u64|
                x != key ==> final(self).claims().contains(x) == old(self).claims().contains(x),
    {
        let mut i: usize = 0;
        while i < self.claims.len()
            invariant
                old(self).wf(),
                self.store == old(self).store,
                self.claims@ == old(self).claims(),
                i <= self.claims.len(),
                forall|j: int| 0 <= j < i ==> self.claims@[j] != key,
            decreases self.claims.len() - i,
        {
            if self.claims[i] == key {
                let ghost pre = self.claims@;
                self.claims.remove(i);
                proof {
                    let post = self.claims@;
                    assert(post == pre.remove(i as int));
                    assert forall|x: u64| x != key implies post.contains(x) == pre.contains(
                        x,
                    ) by {
                        if pre.contains(x) {
                            let w = choose|w: int| 0 <= w < pre.len() && pre[w] == x;
                            if w < i {
                                assert(post[w] == x);
                            } else {
                                assert(w > i);
                                assert(post[w - 1] == x);
                            }
                            assert(post.contains(x));
                        }
                        if post.contains(x) {
                            let w = choose|w: int| 0 <= w < post.len() && post[w] == x;
                            if w < i {
                                assert(pre[w] == x);
                            } else {
                                assert(pre[w + 1] == x);
                            }
                            assert(pre.contains(x));
                        }
                    }
                    assert forall|j: int| 0 <= j < post.len() implies post[j] != key by {
                        if j < i {
                            assert(post[j] == pre[j]);
                        } else {
                            assert(post[j] == pre[j + 1]);
                            assert(pre[i as int] == key);
                        }
                    }
                    if post.contains(key) {
                        let w = choose|w: int| 0 <= w < post.len() && post[w] == key;
                    }
                }
                return ;
            }
            i = i + 1;
        }
        proof {
            if self.claims@.contains(key) {
                let w = choose|w: int| 0 <= w < self.claims@.len() && self.claims@[w] == key;
            }
        }
    }

    /// Store the bytes a claimed fetch brought back and release the claim:
    /// the success path.  The entry goes to the front of the recency order,
    /// evicting the least recently used entry if the cache is full.
    pub fn store_fetched(&mut self, key: u64, data: Vec<u8>)
        requires
            old(self).wf(),
        ensures
            final(self).wf(),
            final(self).cap() == old(self).cap(),
            final(self).entries() == put_model(
                old(self).entries(),
                old(self).cap(),
                key,
                data@,
            ),
            !final(self).claims().contains(key),
            forall|x: u64|
                x != key ==> final(self).claims().contains(x) == old(self).claims().contains(x),
    {
        lru_put(&mut self.store, key, data);
        self.release(key);
    }

    /// One resolve decision for a key: cached bytes if present, otherwise
    /// who fetches.  The caller performs the network fetch, if any, with no
    /// lock held, then calls `store_fetched` or `release`.
    pub fn resolve_step(&mut self, key: u64) -> (r: ResolveAction)
        requires
            old(self).wf(),
        ensures
            final(self).wf(),
            final(self).cap() == old(self).cap(),
            ({
                let es = old(self).entries();
                let cs = old(self).claims();
                match r {
                    ResolveAction::UseCached(v) => key_index(es, key) >= 0
                        && v@ == es[key_index(es, key)].1
                        && final(self).entries() == get_model(es, key)
                        && final(self).claims() == cs,
                    ResolveAction::StartFetch => key_index(es, key) == -1
                        && final(self).entries() == es
                        && !cs.contains(key)
                        && final(self).claims() == cs.push(key),
                    ResolveAction::AwaitOther => key_index(es, key) == -1
                        && final(self).entries() == es
                        && cs.contains(key)
                        && final(self).claims() == cs,
                }
            }),
    {
        match self.lookup(key) {
            Some(v) => ResolveAction::UseCached(v),
            None => {
                if self.try_claim(key) {
                    ResolveAction::StartFetch
                } else {
                    ResolveAction::AwaitOther
                }
            },
        }
    }
}

// ---------------------------------------------------------------------------
// Laws
// ---------------------------------------------------------------------------

/// Law: strict least-recently-used eviction.  With capacity 2, inserting
/// three distinct keys into an empty cache evicts the first: it misses
/// afterwards, while the two youngest keys still hit.
pub proof fn lemma_lru_eviction(a: u64, b: u64, c: u64, va: Seq<u8>, vb: Seq<u8>, vc: Seq<u8>)
    requires
        a != b,
        a != c,
        b != c,
    ensures
        ({
            let s1 = put_model(Seq::<(u64, Seq<u8>)>::empty(), 2, a, va);
            let s2 = put_model(s1, 2, b, vb);
            let s3 = put_model(s2, 2, c, vc);
            key_index(s3, a) == -1 && key_index(s3, b) == 1 && key_index(s3, c) == 0
        }),
{
    reveal_with_fuel(key_index, 4);
    let s0 = Seq::<(u64, Seq<u8>)>::empty();
    let s1 = put_model(s0, 2, a, va);
    assert(key_index(s0, a) == -1);
    assert(key_index(s0, b) == -1 && key_index(s0, c) == -1);
    assert(s1 =~= seq![(a, va)]);
    assert(s1.skip(1) =~= s0);
    assert(key_index(s1, b) == -1);
    let s2 = put_model(s1, 2, b, vb);
    assert(s2 =~= seq![(b, vb), (a, va)]);
    assert(s2.skip(1) =~= seq![(a, va)]);
    assert(key_index(s2, c) == -1);
    let s3 = put_model(s2, 2, c, vc);
    assert(s2.take(1) =~= seq![(b, vb)]);
    assert(s3 =~= seq![(c, vc), (b, vb)]);
    assert(s3.skip(1) =~= seq![(b, vb)]);
    assert(s3.skip(1).skip(1) =~= s0);
    assert(key_index(s3, a) == -1);
    assert(key_index(s3, b) == 1);
    assert(key_index(s3, c) == 0);
}

/// Law: single flight per key.  Once a claim of a key is granted, a second
/// claim of the same key is refused until the first is released, so at most
/// one fetch of a URL is ever started while one is in flight.
pub proof fn lemma_single_flight(cs: Seq<u64>, k: u64)
    requires
        !cs.contains(k),
    ensures
        cs.push(k).contains(k),
{
    assert(cs.push(k)[cs.len() as int] == k);
}

} // verus!
