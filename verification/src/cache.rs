//! The bounded, least-recently-used page cache of a searcher.
//!
//! The store itself is the `lru` crate's cache, trusted under two names:
//! `cache_entries`, its contents as (key, albums) pairs ordered from
//! most- to least-recently used, and `cache_capacity`, the bound it was
//! created with. The verified [`PageCache`] wraps it and carries the
//! exact recency and eviction behaviour in its contracts: a lookup
//! promotes its key, an insert at capacity evicts exactly the
//! least-recently-used entry.

use vstd::prelude::*;

use crate::album::{Album, AlbumView};

verus! {

#[verifier::external_type_specification]
#[verifier::external_body]
#[verifier::reject_recursive_types(K)]
#[verifier::reject_recursive_types(V)]
#[verifier::reject_recursive_types(S)]
pub struct ExLruCache<K, V, S>(lru::LruCache<K, V, S>);

/// What the cache holds: (key, value) pairs from most- to least-recently
/// used.
pub uninterp spec fn cache_entries(c: lru::LruCache<u32, Vec<Album>>) -> Seq<
    (u32, Seq<AlbumView>),
>;

/// The bound the cache was created with.
pub uninterp spec fn cache_capacity(c: lru::LruCache<u32, Vec<Album>>) -> nat;

/// The keys of an entry list, in recency order.
pub open spec fn entry_keys(es: Seq<(u32, Seq<AlbumView>)>) -> Seq<u32> {
    es.map_values(|e: (u32, Seq<AlbumView>)| e.0)
}

/// No key occurs twice.
pub open spec fn keys_distinct(es: Seq<(u32, Seq<AlbumView>)>) -> bool {
    forall|i: int, j: int|
        #![trigger es[i], es[j]]
        0 <= i < j < es.len() ==> es[i].0 != es[j].0
}

/// The value stored under `k`, if any.
pub open spec fn entries_lookup(es: Seq<(u32, Seq<AlbumView>)>, k: u32) -> Option<Seq<AlbumView>>
    decreases es.len(),
{
    if es.len() == 0 {
        None
    } else if es[0].0 == k {
        Some(es[0].1)
    } else {
        entries_lookup(es.drop_first(), k)
    }
}

/// Relies on `lru::LruCache::new`: an empty cache that holds at most
/// `cap` entries.
#[verifier::external_body]
fn lru_new(cap: usize) -> (c: lru::LruCache<u32, Vec<Album>>)
    requires
        1 <= cap,
    ensures
        cache_entries(c) == Seq::<(u32, Seq<AlbumView>)>::empty(),
        cache_capacity(c) == cap,
{
    lru::LruCache::new(std::num::NonZeroUsize::new(cap).unwrap())
}

/// Relies on `lru::LruCache::contains`: a presence test that leaves the
/// recency order untouched.
#[verifier::external_body]
fn lru_contains(c: &lru::LruCache<u32, Vec<Album>>, k: u32) -> (r: bool)
    ensures
        r == entry_keys(cache_entries(*c)).contains(k),
{
    c.contains(&k)
}

/// Relies on `lru::LruCache::get`: a hit hands the entry out (cloned
/// here) and moves its key to most-recently-used; a miss changes
/// nothing.
#[verifier::external_body]
fn lru_get(c: &mut lru::LruCache<u32, Vec<Album>>, k: u32) -> (r: Option<Vec<Album>>)
    ensures
        cache_capacity(*final(c)) == cache_capacity(*old(c)),
        !entry_keys(cache_entries(*old(c))).contains(k) ==> (r is None && cache_entries(
            *final(c),
        ) == cache_entries(*old(c))),
        entry_keys(cache_entries(*old(c))).contains(k) ==> (exists|i: int|
            0 <= i < cache_entries(*old(c)).len() && (#[trigger] cache_entries(*old(c))[i]).0
                == k && (r matches Some(v) && v.deep_view() == cache_entries(*old(c))[i].1)
                && cache_entries(*final(c)) == seq![cache_entries(*old(c))[i]] + cache_entries(
                *old(c),
            ).remove(i)),
{
    c.get(&k).cloned()
}

/// Relies on `lru::LruCache::push` called with a key the cache does not
/// hold: the pair enters at most-recently-used, and when the cache is
/// full the least-recently-used entry leaves to make room.
#[verifier::external_body]
fn lru_push(c: &mut lru::LruCache<u32, Vec<Album>>, k: u32, v: Vec<Album>)
    requires
        !entry_keys(cache_entries(*old(c))).contains(k),
        cache_entries(*old(c)).len() <= cache_capacity(*old(c)),
        cache_capacity(*old(c)) >= 1,
    ensures
        cache_capacity(*final(c)) == cache_capacity(*old(c)),
        cache_entries(*old(c)).len() < cache_capacity(*old(c)) ==> cache_entries(*final(c))
            == seq![(k, v.deep_view())] + cache_entries(*old(c)),
        cache_entries(*old(c)).len() == cache_capacity(*old(c)) ==> cache_entries(*final(c))
            == seq![(k, v.deep_view())] + cache_entries(*old(c)).drop_last(),
{
    let _ = c.push(k, v);
}

proof fn lemma_lookup_at(es: Seq<(u32, Seq<AlbumView>)>, i: int)
    requires
        keys_distinct(es),
        0 <= i < es.len(),
    ensures
        entries_lookup(es, es[i].0) == Some(es[i].1),
    decreases i,
{
    if i > 0 {
        assert(es[0].0 != es[i].0);
        let d = es.drop_first();
        assert(keys_distinct(d));
        assert(d[i - 1] == es[i]);
        lemma_lookup_at(d, i - 1);
    }
}

proof fn lemma_lookup_remove_other(es: Seq<(u32, Seq<AlbumView>)>, i: int, k: u32)
    requires
        0 <= i < es.len(),
        es[i].0 != k,
    ensures
        entries_lookup(es.remove(i), k) == entries_lookup(es, k),
    decreases es.len(),
{
    if i == 0 {
        assert(es.remove(0) =~= es.drop_first());
    } else {
        assert(es.remove(i)[0] == es[0]);
        if es[0].0 != k {
            let d = es.drop_first();
            assert(es.remove(i).drop_first() =~= d.remove(i - 1));
            assert(d[i - 1] == es[i]);
            lemma_lookup_remove_other(d, i - 1, k);
        }
    }
}

proof fn lemma_promote_preserves_lookup(es: Seq<(u32, Seq<AlbumView>)>, i: int)
    requires
        keys_distinct(es),
        0 <= i < es.len(),
    ensures
        forall|k: u32| entries_lookup(seq![es[i]] + es.remove(i), k) == entries_lookup(es, k),
        keys_distinct(seq![es[i]] + es.remove(i)),
{
    let p = seq![es[i]] + es.remove(i);
    assert(p[0] == es[i]);
    assert forall|k: u32| entries_lookup(p, k) == entries_lookup(es, k) by {
        if k == es[i].0 {
            lemma_lookup_at(es, i);
        } else {
            assert(p.drop_first() =~= es.remove(i));
            lemma_lookup_remove_other(es, i, k);
        }
    }
    assert forall|a: int, b: int|
        #![trigger p[a], p[b]]
        0 <= a < b < p.len() implies p[a].0 != p[b].0 by {
        if a == 0 {
            if b - 1 < i {
                assert(p[b] == es[b - 1]);
            } else {
                assert(p[b] == es[b]);
            }
        } else {
            let oa = if a - 1 < i { a - 1 } else { a as int };
            let ob = if b - 1 < i { b - 1 } else { b as int };
            assert(p[a] == es[oa]);
            assert(p[b] == es[ob]);
        }
    }
}

/// A key is among the entry keys exactly when looking it up succeeds.
pub proof fn lemma_contains_iff_lookup(es: Seq<(u32, Seq<AlbumView>)>, k: u32)
    ensures
        entry_keys(es).contains(k) <==> entries_lookup(es, k) is Some,
    decreases es.len(),
{
    if es.len() == 0 {
        assert(entry_keys(es).len() == 0);
    } else {
        let keys = entry_keys(es);
        let d = es.drop_first();
        let dk = entry_keys(d);
        assert(dk =~= keys.subrange(1, keys.len() as int));
        lemma_contains_iff_lookup(d, k);
        if es[0].0 == k {
            assert(keys[0] == k);
            assert(keys.contains(k));
        } else {
            if keys.contains(k) {
                let i = choose|i: int| 0 <= i < keys.len() && keys[i] == k;
                assert(i != 0);
                assert(dk[i - 1] == k);
                assert(dk.contains(k));
            }
            if dk.contains(k) {
                let i = choose|i: int| 0 <= i < dk.len() && dk[i] == k;
                assert(keys[i + 1] == k);
                assert(keys.contains(k));
            }
        }
    }
}

/// How many pages a searcher's cache holds at most.
pub const PAGE_CACHE_CAPACITY: usize = 64;

/// A bounded page cache keyed by page index, least-recently-used first
/// out.
pub struct PageCache {
    inner: lru::LruCache<u32, Vec<Album>>,
}

impl PageCache {
    /// Its contents, from most- to least-recently used.
    pub closed spec fn entries(&self) -> Seq<(u32, Seq<AlbumView>)> {
        cache_entries(self.inner)
    }

    /// The bound it was created with.
    pub closed spec fn capacity(&self) -> nat {
        cache_capacity(self.inner)
    }

    /// Its keys, most-recently-used first.
    pub open spec fn keys(&self) -> Seq<u32> {
        entry_keys(self.entries())
    }

    /// The album list cached for `page`, if present.
    pub open spec fn lookup(&self, page: u32) -> Option<Seq<AlbumView>> {
        entries_lookup(self.entries(), page)
    }

    /// Well-formed: distinct keys, within capacity, and a positive bound.
    pub open spec fn wf(&self) -> bool {
        &&& keys_distinct(self.entries())
        &&& self.entries().len() <= self.capacity()
        &&& self.capacity() >= 1
    }

    /// An empty cache bounded by `cap` pages.
    pub fn new(cap: usize) -> (c: PageCache)
        requires
            1 <= cap,
        ensures
            c.wf(),
            c.entries() == Seq::<(u32, Seq<AlbumView>)>::empty(),
            c.capacity() == cap,
    {
        PageCache { inner: lru_new(cap) }
    }

    /// Whether `page` is cached; recency is left untouched.
    pub fn contains(&self, page: u32) -> (r: bool)
        ensures
            r == self.keys().contains(page),
    {
        lru_contains(&self.inner, page)
    }

    /// The cached album list for `page`, promoting it to most-recently
    /// used on a hit. What each key maps to is unchanged.
    pub fn get(&mut self, page: u32) -> (r: Option<Vec<Album>>)
        requires
            old(self).wf(),
        ensures
            final(self).wf(),
            final(self).capacity() == old(self).capacity(),
            final(self).entries().len() == old(self).entries().len(),
            forall|k: u32| final(self).lookup(k) == old(self).lookup(k),
            !old(self).keys().contains(page) ==> (r is None && final(self).entries() == old(
                self,
            ).entries()),
            old(self).keys().contains(page) ==> (r matches Some(v) && old(self).lookup(page)
                == Some(v.deep_view())),
    {
        let ghost es = cache_entries(self.inner);
        let r = lru_get(&mut self.inner, page);
        proof {
            if entry_keys(es).contains(page) {
                let i = choose|i: int|
                    0 <= i < es.len() && (#[trigger] es[i]).0 == page && (r matches Some(v)
                        && v.deep_view() == es[i].1) && cache_entries(self.inner) == seq![es[i]]
                        + es.remove(i);
                lemma_lookup_at(es, i);
                lemma_promote_preserves_lookup(es, i);
            }
        }
        r
    }

    /// Caches `albums` under `page`, which must not be cached yet. The
    /// pair enters as most-recently used; when the cache is full, the
    /// least-recently-used page — and only that one — is evicted.
    pub fn insert(&mut self, page: u32, albums: Vec<Album>)
        requires
            old(self).wf(),
            !old(self).keys().contains(page),
        ensures
            final(self).wf(),
            final(self).capacity() == old(self).capacity(),
            final(self).lookup(page) == Some(albums.deep_view()),
            final(self).keys().contains(page),
            old(self).entries().len() < old(self).capacity() ==> final(self).entries() == seq![
                (page, albums.deep_view()),
            ] + old(self).entries(),
            old(self).entries().len() == old(self).capacity() ==> final(self).entries() == seq![
                (page, albums.deep_view()),
            ] + old(self).entries().drop_last(),
            old(self).entries().len() == old(self).capacity() ==> !final(self).keys().contains(
                old(self).entries().last().0,
            ),
    {
        let ghost es = cache_entries(self.inner);
        let ghost cap = cache_capacity(self.inner);
        lru_push(&mut self.inner, page, albums);
        proof {
            let ns = cache_entries(self.inner);
            assert(ns[0] == (page, albums.deep_view()));
            assert(entry_keys(ns)[0] == page);
            assert(entry_keys(ns).contains(page));
            if es.len() < cap {
                assert forall|a: int, b: int|
                    #![trigger ns[a], ns[b]]
                    0 <= a < b < ns.len() implies ns[a].0 != ns[b].0 by {
                    if a == 0 {
                        assert(ns[b] == es[b - 1]);
                        assert(entry_keys(es)[b - 1] == es[b - 1].0);
                    } else {
                        assert(ns[a] == es[a - 1]);
                        assert(ns[b] == es[b - 1]);
                    }
                }
            } else {
                let de = es.drop_last();
                assert forall|a: int, b: int|
                    #![trigger ns[a], ns[b]]
                    0 <= a < b < ns.len() implies ns[a].0 != ns[b].0 by {
                    if a == 0 {
                        assert(ns[b] == de[b - 1]);
                        assert(de[b - 1] == es[b - 1]);
                        assert(entry_keys(es)[b - 1] == es[b - 1].0);
                    } else {
                        assert(ns[a] == es[a - 1]);
                        assert(ns[b] == es[b - 1]);
                    }
                }
                let victim = es.last().0;
                assert forall|j: int| 0 <= j < ns.len() implies ns[j].0 != victim by {
                    if j == 0 {
                        assert(entry_keys(es)[es.len() - 1] == victim);
                        assert(entry_keys(es).contains(victim));
                    } else {
                        assert(ns[j] == es[j - 1]);
                        assert(keys_distinct(es));
                    }
                }
                assert forall|j: int|
                    0 <= j < entry_keys(ns).len() implies entry_keys(ns)[j] != victim by {
                    assert(entry_keys(ns)[j] == ns[j].0);
                }
                assert(!entry_keys(ns).contains(victim));
            }
        }
    }
}

} // verus!
