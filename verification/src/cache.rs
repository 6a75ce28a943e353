//! The query cache: small bounded caches with per-cache time-to-live (and
//! an idle bound for the by-id cache), keyed by deterministic fingerprints,
//! and invalidated by the write paths that can change what they hold.

use crate::analytics::DashboardStats;
use crate::analytics::InventoryStatusStat;
use crate::analytics::clone_car_response;
use crate::models::CarResponse;
use crate::store::first_where;
use crate::store::lemma_first_where_at;
use vstd::prelude::*;

verus! {

/// One cached value under its fingerprint key.
pub struct CacheEntry<V> {
    pub key: String,
    pub value: V,
    pub inserted_at_ms: u64,
    pub last_access_ms: u64,
}

/// A bounded cache with a time-to-live and an optional time-to-idle.
pub struct TtlCache<V> {
    pub entries: Vec<CacheEntry<V>>,
    pub max_capacity: usize,
    pub ttl_ms: u64,
    pub tti_ms: Option<u64>,
}

/// Keys are unique and the bound is kept.
pub open spec fn cache_wf<V>(c: TtlCache<V>) -> bool {
    &&& forall|i: int, j: int|
        0 <= i < j < c.entries@.len() ==> c.entries@[i].key@ != c.entries@[j].key@
    &&& c.entries@.len() <= c.max_capacity
    &&& c.max_capacity >= 1
}

/// An entry that may still be served at time `now`: within its
/// time-to-live since insertion, and, where an idle bound is set, within
/// it since the last access.
pub open spec fn entry_fresh<V>(e: CacheEntry<V>, now: u64, ttl: u64, tti: Option<u64>) -> bool {
    &&& now < e.inserted_at_ms + ttl
    &&& (match tti {
        Some(t) => now < e.last_access_ms + t,
        None => true,
    })
}

/// The index of the entry under `key`.
pub open spec fn cache_index<V>(c: TtlCache<V>, key: Seq<char>) -> int {
    first_where(c.entries@, |e: CacheEntry<V>| e.key@ == key)
}


/// What storing `value` under `key` at `now` does to the entry table: an
/// entry already under the key is overwritten in place; otherwise the new
/// entry is appended, evicting the least recently used entry first when
/// the cache is full.
pub open spec fn stored_under<V>(
    pre: TtlCache<V>,
    post: TtlCache<V>,
    key: Seq<char>,
    value: V,
    now: u64,
) -> bool {
    let ix = cache_index(pre, key);
    if ix >= 0 {
        &&& post.entries@ == pre.entries@.update(ix, post.entries@[ix])
        &&& post.entries@[ix] == (CacheEntry {
            key: post.entries@[ix].key,
            value: post.entries@[ix].value,
            inserted_at_ms: now,
            last_access_ms: now,
        })
        &&& post.entries@[ix].key@ == key
        &&& post.entries@[ix].value == value
    } else if pre.entries@.len() < pre.max_capacity {
        &&& post.entries@.len() == pre.entries@.len() + 1
        &&& post.entries@.subrange(0, pre.entries@.len() as int) == pre.entries@
        &&& post.entries@.last().key@ == key
        &&& post.entries@.last().value == value
        &&& post.entries@.last().inserted_at_ms == now
        &&& post.entries@.last().last_access_ms == now
    } else {
        exists|m: int|
            {
                &&& 0 <= m < pre.entries@.len()
                &&& (forall|j: int|
                    0 <= j < pre.entries@.len() ==> pre.entries@[m].last_access_ms <= (
                    #[trigger] pre.entries@[j]).last_access_ms)
                &&& post.entries@.len() == pre.entries@.len()
                &&& post.entries@ == pre.entries@.remove(m).push(post.entries@.last())
                &&& post.entries@.last().key@ == key
                &&& post.entries@.last().value == value
                &&& post.entries@.last().inserted_at_ms == now
                &&& post.entries@.last().last_access_ms == now
            }
    }
}

impl<V> TtlCache<V> {
    /// An empty cache under the given bound and ages.
    pub fn new(max_capacity: usize, ttl_ms: u64, tti_ms: Option<u64>) -> (r: TtlCache<V>)
        requires
            max_capacity >= 1,
        ensures
            cache_wf(r),
            r.entries@.len() == 0,
            r.max_capacity == max_capacity,
            r.ttl_ms == ttl_ms,
            r.tti_ms == tti_ms,
    {
        TtlCache { entries: Vec::new(), max_capacity, ttl_ms, tti_ms }
    }

    /// Finds the entry under `key`.
    #[verifier::loop_isolation(false)]
    fn find(&self, key: &str) -> (r: Option<usize>)
        ensures
            match r {
                Some(i) => cache_index(*self, key@) == i as int && i < self.entries@.len()
                    && self.entries@[i as int].key@ == key@,
                None => cache_index(*self, key@) == -1 && forall|j: int|
                    0 <= j < self.entries@.len() ==> (#[trigger] self.entries@[j].key@) != key@,
            },
    {
        let ghost p = |e: CacheEntry<V>| e.key@ == key@;
        let n = self.entries.len();
        let mut i: usize = 0;
        while i < n
            invariant
                i <= n,
                n == self.entries@.len(),
                forall|j: int| 0 <= j < i ==> !p(#[trigger] self.entries@[j]),
            decreases n - i,
        {
            if crate::textutil::str_eq(self.entries[i].key.as_str(), key) {
                proof {
                    lemma_first_where_at(self.entries@, p, i as int);
                }
                return Some(i);
            }
            i += 1;
        }
        proof {
            lemma_first_where_at(self.entries@, p, n as int);
        }
        None
    }

    /// Serves the fresh entry under `key`, if one is held, stamping its
    /// access time; a missing or stale entry is a miss and nothing is
    /// served.
    pub fn lookup(&mut self, key: &str, now: u64) -> (r: Option<usize>)
        requires
            cache_wf(*old(self)),
            now <= u64::MAX - 1,
        ensures
            cache_wf(*final(self)),
            final(self).max_capacity == old(self).max_capacity,
            final(self).ttl_ms == old(self).ttl_ms,
            final(self).tti_ms == old(self).tti_ms,
            match r {
                Some(i) => {
                    &&& cache_index(*old(self), key@) == i as int
                    &&& i < old(self).entries@.len()
                    &&& entry_fresh(
                        old(self).entries@[i as int],
                        now,
                        old(self).ttl_ms,
                        old(self).tti_ms,
                    )
                    &&& final(self).entries@ == old(self).entries@.update(
                        i as int,
                        final(self).entries@[i as int],
                    )
                    &&& final(self).entries@[i as int] == (CacheEntry {
                        last_access_ms: now,
                        ..old(self).entries@[i as int]
                    })
                },
                None => {
                    &&& final(self).entries@ == old(self).entries@
                    &&& (cache_index(*old(self), key@) == -1 || !entry_fresh(
                        old(self).entries@[cache_index(*old(self), key@)],
                        now,
                        old(self).ttl_ms,
                        old(self).tti_ms,
                    ))
                },
            },
    {
        let ghost pre = *self;
        match self.find(key) {
            None => None,
            Some(i) => {
                let e = &self.entries[i];
                let fresh = fresh_check(e.inserted_at_ms, e.last_access_ms, now, self.ttl_ms,
                    self.tti_ms);
                if fresh {
                    let em = &mut self.entries[i];
                    em.last_access_ms = now;
                    proof {
                        let posts = *self;
                        assert forall|a: int, b: int|
                            0 <= a < b < posts.entries@.len() implies posts.entries@[a].key@
                            != posts.entries@[b].key@ by {
                            assert(pre.entries@[a].key@ != pre.entries@[b].key@);
                        }
                    }
                    Some(i)
                } else {
                    None
                }
            },
        }
    }

    /// Stores a value under `key` at time `now`: an entry already under
    /// the key is overwritten; otherwise the value is added, evicting the
    /// least recently used entry when the cache is full.
    pub fn store(&mut self, key: String, value: V, now: u64)
        requires
            cache_wf(*old(self)),
        ensures
            cache_wf(*final(self)),
            final(self).max_capacity == old(self).max_capacity,
            final(self).ttl_ms == old(self).ttl_ms,
            final(self).tti_ms == old(self).tti_ms,
            stored_under(*old(self), *final(self), key@, value, now),
    {
        let ghost pre = *self;
        match self.find(key.as_str()) {
            Some(i) => {
                let e = &mut self.entries[i];
                e.key = key;
                e.value = value;
                e.inserted_at_ms = now;
                e.last_access_ms = now;
                proof {
                    let posts = *self;
                    assert(posts.entries@[i as int].key@ == pre.entries@[i as int].key@);
                    assert forall|a: int, b: int|
                        0 <= a < b < posts.entries@.len() implies posts.entries@[a].key@
                        != posts.entries@[b].key@ by {
                        assert(pre.entries@[a].key@ != pre.entries@[b].key@);
                    }
                }
            },
            None => {
                if self.entries.len() >= self.max_capacity {
                    let m = self.lru_victim();
                    self.entries.remove(m);
                    proof {
                        let mid = *self;
                        assert forall|a: int, b: int|
                            0 <= a < b < mid.entries@.len() implies mid.entries@[a].key@
                            != mid.entries@[b].key@ by {
                            let a0 = if a < m as int {
                                a
                            } else {
                                a + 1
                            };
                            let b0 = if b < m as int {
                                b
                            } else {
                                b + 1
                            };
                            assert(mid.entries@[a] == pre.entries@[a0] && mid.entries@[b]
                                == pre.entries@[b0]);
                            assert(pre.entries@[a0].key@ != pre.entries@[b0].key@);
                        }
                        assert forall|j: int|
                            0 <= j < mid.entries@.len() implies (
                        #[trigger] mid.entries@[j].key@) != key@ by {
                            let j0 = if j < m as int {
                                j
                            } else {
                                j + 1
                            };
                            assert(mid.entries@[j] == pre.entries@[j0]);
                        }
                    }
                }
                let ghost mid = *self;
                self.entries.push(
                    CacheEntry { key, value, inserted_at_ms: now, last_access_ms: now },
                );
                proof {
                    let posts = *self;
                    assert(posts.entries@.subrange(0, mid.entries@.len() as int)
                        =~= mid.entries@);
                    assert forall|a: int, b: int|
                        0 <= a < b < posts.entries@.len() implies posts.entries@[a].key@
                        != posts.entries@[b].key@ by {
                        if b < mid.entries@.len() {
                            assert(mid.entries@[a].key@ != mid.entries@[b].key@);
                        } else {
                            assert(mid.entries@[a].key@ != key@);
                        }
                    }
                }
            },
        }
    }

    /// The first least-recently-used entry.
    #[verifier::loop_isolation(false)]
    fn lru_victim(&self) -> (m: usize)
        requires
            self.entries@.len() >= 1,
        ensures
            m < self.entries@.len(),
            forall|j: int|
                0 <= j < self.entries@.len() ==> self.entries@[m as int].last_access_ms <= (
                #[trigger] self.entries@[j]).last_access_ms,
    {
        let n = self.entries.len();
        let mut m: usize = 0;
        let mut i: usize = 1;
        while i < n
            invariant
                1 <= i <= n,
                m < i,
                n == self.entries@.len(),
                forall|j: int|
                    0 <= j < i ==> self.entries@[m as int].last_access_ms <= (
                    #[trigger] self.entries@[j]).last_access_ms,
            decreases n - i,
        {
            if self.entries[i].last_access_ms < self.entries[m].last_access_ms {
                m = i;
            }
            i += 1;
        }
        m
    }

    /// Drops the entry under `key`, if one is held.
    pub fn invalidate(&mut self, key: &str)
        requires
            cache_wf(*old(self)),
        ensures
            cache_wf(*final(self)),
            final(self).max_capacity == old(self).max_capacity,
            final(self).ttl_ms == old(self).ttl_ms,
            final(self).tti_ms == old(self).tti_ms,
            ({
                let ix = cache_index(*old(self), key@);
                if ix >= 0 {
                    final(self).entries@ == old(self).entries@.remove(ix)
                } else {
                    final(self).entries@ == old(self).entries@
                }
            }),
    {
        let ghost pre = *self;
        match self.find(key) {
            Some(i) => {
                self.entries.remove(i);
                proof {
                    let posts = *self;
                    assert forall|a: int, b: int|
                        0 <= a < b < posts.entries@.len() implies posts.entries@[a].key@
                        != posts.entries@[b].key@ by {
                        let a0 = if a < i as int {
                            a
                        } else {
                            a + 1
                        };
                        let b0 = if b < i as int {
                            b
                        } else {
                            b + 1
                        };
                        assert(posts.entries@[a] == pre.entries@[a0] && posts.entries@[b]
                            == pre.entries@[b0]);
                        assert(pre.entries@[a0].key@ != pre.entries@[b0].key@);
                    }
                }
            },
            None => {},
        }
    }

    /// Drops every entry.
    pub fn invalidate_all(&mut self)
        requires
            cache_wf(*old(self)),
        ensures
            cache_wf(*final(self)),
            final(self).max_capacity == old(self).max_capacity,
            final(self).ttl_ms == old(self).ttl_ms,
            final(self).tti_ms == old(self).tti_ms,
            final(self).entries@.len() == 0,
    {
        self.entries.clear();
    }

    /// How many entries are held.
    pub fn len(&self) -> (r: usize)
        ensures
            r == self.entries@.len(),
    {
        self.entries.len()
    }
}

/// Whether an entry is still fresh at `now`.
fn fresh_check(inserted: u64, last_access: u64, now: u64, ttl: u64, tti: Option<u64>) -> (r: bool)
    ensures
        r == ((now < inserted + ttl) && (match tti {
            Some(t) => now < last_access + t,
            None => true,
        })),
{
    let ttl_ok = if inserted <= u64::MAX - ttl {
        now < inserted + ttl
    } else {
        true
    };
    let tti_ok = match tti {
        Some(t) => if last_access <= u64::MAX - t {
            now < last_access + t
        } else {
            true
        },
        None => true,
    };
    ttl_ok && tti_ok
}

/// Entry counts of the four caches, for the metrics endpoint.
pub struct CacheMetrics {
    pub dashboard_stats_size: u64,
    pub car_by_id_size: u64,
    pub low_stock_size: u64,
    pub depreciation_size: u64,
}

/// The four read-model caches: dashboard totals (30 s), car by id (60 s
/// and 300 s idle), low-stock reports (10 s), and the depreciation report
/// (300 s).
pub struct QueryCache {
    pub dashboard_stats: TtlCache<DashboardStats>,
    pub car_by_id: TtlCache<CarResponse>,
    pub low_stock: TtlCache<Vec<CarResponse>>,
    pub depreciation: TtlCache<Vec<CarResponse>>,
}

/// All four caches are well formed.
pub open spec fn query_cache_wf(q: QueryCache) -> bool {
    cache_wf(q.dashboard_stats) && cache_wf(q.car_by_id) && cache_wf(q.low_stock) && cache_wf(
        q.depreciation,
    )
}

impl QueryCache {
    /// The caches under their standard bounds and ages.
    pub fn new() -> (r: QueryCache)
        ensures
            query_cache_wf(r),
            r.dashboard_stats.max_capacity == 100 && r.dashboard_stats.ttl_ms == 30000
                && r.dashboard_stats.tti_ms is None,
            r.car_by_id.max_capacity == 1000 && r.car_by_id.ttl_ms == 60000
                && r.car_by_id.tti_ms == Some(300000u64),
            r.low_stock.max_capacity == 10 && r.low_stock.ttl_ms == 10000
                && r.low_stock.tti_ms is None,
            r.depreciation.max_capacity == 10 && r.depreciation.ttl_ms == 300000
                && r.depreciation.tti_ms is None,
            r.dashboard_stats.entries@.len() == 0 && r.car_by_id.entries@.len() == 0
                && r.low_stock.entries@.len() == 0 && r.depreciation.entries@.len() == 0,
    {
        QueryCache {
            dashboard_stats: TtlCache::new(100, 30000, None),
            car_by_id: TtlCache::new(1000, 60000, Some(300000)),
            low_stock: TtlCache::new(10, 10000, None),
            depreciation: TtlCache::new(10, 300000, None),
        }
    }

    /// The fingerprint of a low-stock report.
    pub fn low_stock_key(threshold: i32) -> (r: String)
        ensures
            r@ == "threshold_"@ + crate::errors::int_decimal_chars(threshold as int),
    {
        let mut s = String::from_str("threshold_");
        let d = crate::errors::i64_to_string(threshold as i64);
        s.append(d.as_str());
        s
    }

    /// A write to one car drops its by-id entry and, since the global
    /// aggregates may have moved, the dashboard and low-stock caches
    /// wholesale.
    pub fn invalidate_car(&mut self, id: &str)
        requires
            query_cache_wf(*old(self)),
        ensures
            query_cache_wf(*final(self)),
            final(self).dashboard_stats.entries@.len() == 0,
            final(self).low_stock.entries@.len() == 0,
            final(self).depreciation.entries@ == old(self).depreciation.entries@,
            final(self).car_by_id.entries@ == (if cache_index(old(self).car_by_id, id@) >= 0 {
                old(self).car_by_id.entries@.remove(cache_index(old(self).car_by_id, id@))
            } else {
                old(self).car_by_id.entries@
            }),
    {
        let ghost pre = *self;
        let ghost pre_ix = cache_index(pre.car_by_id, id@);
        self.car_by_id.invalidate(id);
        self.dashboard_stats.invalidate_all();
        self.low_stock.invalidate_all();
        proof {
            if pre_ix >= 0 {
                crate::store::lemma_first_where_found(
                    pre.car_by_id.entries@,
                    |e: CacheEntry<CarResponse>| e.key@ == id@,
                );
                assert(self.car_by_id.entries@ == pre.car_by_id.entries@.remove(pre_ix));
                assert(pre.car_by_id.entries@.remove(pre_ix).len() == pre.car_by_id.entries@.len()
                    - 1);
            } else {
                assert(self.car_by_id.entries@ == pre.car_by_id.entries@);
            }
        }
    }

    /// A bulk write drops all four caches.
    pub fn invalidate_all_cars(&mut self)
        requires
            query_cache_wf(*old(self)),
        ensures
            query_cache_wf(*final(self)),
            final(self).dashboard_stats.entries@.len() == 0,
            final(self).car_by_id.entries@.len() == 0,
            final(self).low_stock.entries@.len() == 0,
            final(self).depreciation.entries@.len() == 0,
    {
        self.car_by_id.invalidate_all();
        self.dashboard_stats.invalidate_all();
        self.low_stock.invalidate_all();
        self.depreciation.invalidate_all();
    }

    /// Entry counts for the metrics endpoint.
    pub fn metrics(&self) -> (r: CacheMetrics)
        ensures
            r.dashboard_stats_size == self.dashboard_stats.entries@.len(),
            r.car_by_id_size == self.car_by_id.entries@.len(),
            r.low_stock_size == self.low_stock.entries@.len(),
            r.depreciation_size == self.depreciation.entries@.len(),
    {
        CacheMetrics {
            dashboard_stats_size: self.dashboard_stats.len() as u64,
            car_by_id_size: self.car_by_id.len() as u64,
            low_stock_size: self.low_stock.len() as u64,
            depreciation_size: self.depreciation.len() as u64,
        }
    }

    /// Serves a cached car response, copying it out.
    pub fn get_car_by_id_cached(&mut self, id: &str, now: u64) -> (r: Option<CarResponse>)
        requires
            query_cache_wf(*old(self)),
            now <= u64::MAX - 1,
        ensures
            query_cache_wf(*final(self)),
            match r {
                Some(v) => ({
                    let ix = cache_index(old(self).car_by_id, id@);
                    ix >= 0 && v == old(self).car_by_id.entries@[ix].value
                }),
                None => final(self).car_by_id.entries@ == old(self).car_by_id.entries@,
            },
    {
        match self.car_by_id.lookup(id, now) {
            Some(i) => Some(clone_car_response(&self.car_by_id.entries[i].value)),
            None => None,
        }
    }

    /// Stores a car response under its id; the other caches are untouched.
    pub fn store_car_by_id(&mut self, id: &str, value: CarResponse, now: u64)
        requires
            query_cache_wf(*old(self)),
        ensures
            query_cache_wf(*final(self)),
            stored_under(old(self).car_by_id, final(self).car_by_id, id@, value, now),
            final(self).car_by_id.max_capacity == old(self).car_by_id.max_capacity,
            final(self).car_by_id.ttl_ms == old(self).car_by_id.ttl_ms,
            final(self).car_by_id.tti_ms == old(self).car_by_id.tti_ms,
            final(self).dashboard_stats == old(self).dashboard_stats,
            final(self).low_stock == old(self).low_stock,
            final(self).depreciation == old(self).depreciation,
    {
        self.car_by_id.store(String::from_str(id), value, now);
    }
}

/// A copy of one dashboard line.
pub fn clone_status_stat(s: &InventoryStatusStat) -> (r: InventoryStatusStat)
    ensures
        r == *s,
{
    InventoryStatusStat {
        status: s.status,
        total_units: s.total_units,
        inventory_value_cents: s.inventory_value_cents,
    }
}

} // verus!
