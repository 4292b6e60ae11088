//! A bounded, time-limited cache that keeps its entries in insertion order.
//!
//! Times are plain numbers in one unit chosen by the caller (milliseconds of a
//! monotonic clock, say); the time-to-live is in the same unit.
use vstd::prelude::*;

verus! {

/// An entry: key, value, and the time it was put.
pub type Entry<V> = (Seq<char>, V, u64);

pub open spec fn unique_keys<V>(s: Seq<Entry<V>>) -> bool {
    forall|i: int, j: int| 0 <= i < j < s.len() ==> s[i].0 != s[j].0
}

pub open spec fn has_key<V>(s: Seq<Entry<V>>, k: Seq<char>) -> bool {
    exists|i: int| 0 <= i < s.len() && s[i].0 == k
}

/// The entries of `s` whose key is not `k`, in their order.
pub open spec fn without_key<V>(s: Seq<Entry<V>>, k: Seq<char>) -> Seq<Entry<V>>
    decreases s.len(),
{
    if s.len() == 0 {
        s
    } else if s.last().0 == k {
        without_key(s.drop_last(), k)
    } else {
        without_key(s.drop_last(), k).push(s.last())
    }
}

/// The entries after putting `(k, v)` at time `now` into a cache of capacity
/// `max_size` holding `s`: when full, the oldest entry goes first; an entry
/// with the same key is replaced; the new entry is the newest.
pub open spec fn after_put<V>(s: Seq<Entry<V>>, k: Seq<char>, v: V, now: u64, max_size: usize) -> Seq<
    Entry<V>,
> {
    let base = if s.len() >= max_size {
        s.drop_first()
    } else {
        s
    };
    without_key(base, k).push((k, v, now))
}

/// Time passed from `then` to `now`; zero if `now` is earlier.
pub open spec fn elapsed(now: u64, then: u64) -> u64 {
    if now >= then {
        (now - then) as u64
    } else {
        0
    }
}

/// What a lookup of `k` at `now` finds: the value of its entry while that
/// entry is younger than `ttl`.
pub open spec fn lookup<V>(s: Seq<Entry<V>>, k: Seq<char>, now: u64, ttl: u64) -> Option<V> {
    if has_key(s, k) {
        let i = choose|i: int| 0 <= i < s.len() && s[i].0 == k;
        if elapsed(now, s[i].2) < ttl {
            Some(s[i].1)
        } else {
            None
        }
    } else {
        None
    }
}

pub proof fn lemma_without_absent<V>(s: Seq<Entry<V>>, k: Seq<char>)
    requires
        !has_key(s, k),
    ensures
        without_key(s, k) == s,
    decreases s.len(),
{
    if s.len() > 0 {
        assert(s.last() == s[s.len() - 1]);
        assert(!has_key(s.drop_last(), k)) by {
            if has_key(s.drop_last(), k) {
                let i = choose|i: int| 0 <= i < s.drop_last().len() && s.drop_last()[i].0 == k;
                assert(s[i].0 == k);
            }
        }
        lemma_without_absent(s.drop_last(), k);
        assert(s.drop_last().push(s.last()) =~= s);
    }
}

pub proof fn lemma_without_present<V>(s: Seq<Entry<V>>, k: Seq<char>, i: int)
    requires
        unique_keys(s),
        0 <= i < s.len(),
        s[i].0 == k,
    ensures
        without_key(s, k) == s.remove(i),
    decreases s.len(),
{
    let n = s.len() - 1;
    assert(s.last() == s[n]);
    if i == n {
        assert(!has_key(s.drop_last(), k)) by {
            if has_key(s.drop_last(), k) {
                let j = choose|j: int| 0 <= j < s.drop_last().len() && s.drop_last()[j].0 == k;
                assert(s[j].0 == s[n].0);
            }
        }
        lemma_without_absent(s.drop_last(), k);
        assert(s.drop_last() =~= s.remove(i));
    } else {
        assert(s[n].0 != k);
        assert(unique_keys(s.drop_last()));
        lemma_without_present(s.drop_last(), k, i);
        assert(s.drop_last().remove(i).push(s.last()) =~= s.remove(i));
    }
}

/// Dropping a key leaves no entry with it, keeps keys unique, never
/// lengthens the entries, and keeps only entries that were there.
pub proof fn lemma_without_len<V>(s: Seq<Entry<V>>, k: Seq<char>)
    ensures
        without_key(s, k).len() <= s.len(),
        !has_key(without_key(s, k), k),
        unique_keys(s) ==> unique_keys(without_key(s, k)),
        forall|j: int|
            0 <= j < without_key(s, k).len() ==> s.contains(#[trigger] without_key(s, k)[j]),
        forall|j: int|
            0 <= j < s.len() && s[j].0 != k ==> without_key(s, k).contains(#[trigger] s[j]),
    decreases s.len(),
{
    if s.len() > 0 {
        let d = s.drop_last();
        lemma_without_len(d, k);
        let w = without_key(d, k);
        assert forall|j: int| 0 <= j < w.len() implies s.contains(#[trigger] w[j]) by {
            assert(d.contains(w[j]));
            let i = choose|i: int| 0 <= i < d.len() && d[i] == w[j];
            assert(s[i] == w[j]);
        }
        let full = without_key(s, k);
        assert forall|j: int| 0 <= j < s.len() && s[j].0 != k implies full.contains(
            #[trigger] s[j],
        ) by {
            if j < s.len() - 1 {
                assert(s[j] == d[j]);
                assert(w.contains(d[j]));
                let i = choose|i: int| 0 <= i < w.len() && w[i] == d[j];
                if s.last().0 != k {
                    assert(full[i] == w[i]);
                } else {
                    assert(full == w);
                }
            } else {
                assert(s[j] == s.last());
                assert(full[full.len() - 1] == s.last());
            }
        }
        if s.last().0 != k {
            let r = w.push(s.last());
            assert(r[r.len() - 1] == s[s.len() - 1]);
            assert(!has_key(r, k)) by {
                if has_key(r, k) {
                    let j = choose|j: int| 0 <= j < r.len() && r[j].0 == k;
                    if j < w.len() {
                        assert(w[j].0 == k);
                    }
                }
            }
            if unique_keys(s) {
                assert(unique_keys(d));
                assert forall|a: int, b: int| 0 <= a < b < r.len() implies r[a].0 != r[b].0 by {
                    if b == w.len() {
                        assert(d.contains(w[a]));
                        let i = choose|i: int| 0 <= i < d.len() && d[i] == w[a];
                        assert(s[i].0 != s[s.len() - 1].0);
                    } else {
                        assert(r[a] == w[a] && r[b] == w[b]);
                    }
                }
            }
            assert forall|j: int| 0 <= j < r.len() implies s.contains(#[trigger] r[j]) by {
                if j < w.len() {
                    assert(r[j] == w[j]);
                    assert(s.contains(w[j]));
                } else {
                    assert(r[j] == s[s.len() - 1]);
                }
            }
        } else if unique_keys(s) {
            assert(unique_keys(d));
        }
    }
}

/// The entry just put is found while it is younger than the time-to-live.
pub proof fn lemma_put_then_get<V>(
    s: Seq<Entry<V>>,
    k: Seq<char>,
    v: V,
    t0: u64,
    t: u64,
    ttl: u64,
    max_size: usize,
)
    requires
        unique_keys(s),
    ensures
        lookup(after_put(s, k, v, t0, max_size), k, t, ttl) == (if elapsed(t, t0) < ttl {
            Some(v)
        } else {
            None
        }),
{
    let base = if s.len() >= max_size {
        s.drop_first()
    } else {
        s
    };
    lemma_without_len(base, k);
    let w = without_key(base, k);
    let r = w.push((k, v, t0));
    assert(r[w.len() as int].0 == k);
    let i = choose|i: int| 0 <= i < r.len() && r[i].0 == k;
    if i < w.len() {
        assert(w[i].0 == k);
    }
}

/// A lookup finds an entry that is still in the cache exactly while it is
/// younger than the time-to-live, and finds nothing for a key that is not.
pub proof fn lemma_lookup_entry<V>(s: Seq<Entry<V>>, i: int, t: u64, ttl: u64)
    requires
        unique_keys(s),
        0 <= i < s.len(),
    ensures
        lookup(s, s[i].0, t, ttl) == (if elapsed(t, s[i].2) < ttl {
            Some(s[i].1)
        } else {
            None
        }),
{
    let j = choose|j: int| 0 <= j < s.len() && s[j].0 == s[i].0;
    assert(j == i);
}

/// A full cache loses its oldest entry to a put of another key, and never
/// grows past its capacity; every other entry under another key stays as it
/// was, and the new entry is the newest.
pub proof fn lemma_put_evicts_oldest<V>(
    s: Seq<Entry<V>>,
    k: Seq<char>,
    v: V,
    now: u64,
    max_size: usize,
)
    requires
        unique_keys(s),
        0 < max_size,
        s.len() <= max_size,
    ensures
        after_put(s, k, v, now, max_size).len() <= max_size,
        unique_keys(after_put(s, k, v, now, max_size)),
        s.len() == max_size && s[0].0 != k ==> !has_key(after_put(s, k, v, now, max_size), s[0].0),
        after_put(s, k, v, now, max_size).last() == (k, v, now),
        forall|j: int|
            (if s.len() >= max_size {
                1int
            } else {
                0int
            }) <= j < s.len() && s[j].0 != k ==> after_put(s, k, v, now, max_size).contains(
                #[trigger] s[j],
            ),
{
    let base = if s.len() >= max_size {
        s.drop_first()
    } else {
        s
    };
    assert(unique_keys(base));
    lemma_without_len(base, k);
    let w = without_key(base, k);
    let r = w.push((k, v, now));
    assert forall|a: int, b: int| 0 <= a < b < r.len() implies r[a].0 != r[b].0 by {
        if b == w.len() {
            assert(r[a] == w[a]);
        } else {
            assert(r[a] == w[a] && r[b] == w[b]);
        }
    }
    let lo: int = if s.len() >= max_size {
        1
    } else {
        0
    };
    assert forall|j: int| lo <= j < s.len() && s[j].0 != k implies r.contains(#[trigger] s[j]) by {
        assert(base[j - lo] == s[j]);
        assert(w.contains(base[j - lo]));
        let i = choose|i: int| 0 <= i < w.len() && w[i] == base[j - lo];
        assert(r[i] == w[i]);
    }
    if s.len() == max_size && s[0].0 != k {
        assert(!has_key(r, s[0].0)) by {
            if has_key(r, s[0].0) {
                let j = choose|j: int| 0 <= j < r.len() && r[j].0 == s[0].0;
                if j < w.len() {
                    assert(r[j] == w[j]);
                    assert(base.contains(w[j]));
                    let i = choose|i: int| 0 <= i < base.len() && base[i] == w[j];
                    assert(base[i] == s[i + 1]);
                }
            }
        }
    }
}

pub struct CacheItem<V> {
    pub key: String,
    pub value: V,
    pub cache_time: u64,
}

/// The entries in insertion order, oldest first; keys are unique.
pub struct Cache<V> {
    cache: Vec<CacheItem<V>>,
    invalidation_time: u64,
    max_size: usize,
}

impl<V> Cache<V> {
    pub closed spec fn view(&self) -> Seq<Entry<V>> {
        self.cache@.map_values(|e: CacheItem<V>| (e.key@, e.value, e.cache_time))
    }

    pub closed spec fn ttl(&self) -> u64 {
        self.invalidation_time
    }

    pub closed spec fn capacity(&self) -> usize {
        self.max_size
    }

    pub open spec fn well_formed(&self) -> bool {
        0 < self.capacity() && self.view().len() <= self.capacity() && unique_keys(self.view())
    }

    /// An empty cache whose entries live for `invalidation_time` and which
    /// holds at most `max_size` of them.
    pub fn new(invalidation_time: u64, max_size: usize) -> (r: Self)
        requires
            max_size > 0,
        ensures
            r.well_formed(),
            r.view() == Seq::<Entry<V>>::empty(),
            r.ttl() == invalidation_time,
            r.capacity() == max_size,
    {
        let r = Cache { cache: Vec::new(), invalidation_time, max_size };
        assert(r.view() =~= Seq::<Entry<V>>::empty());
        r
    }

    /// Where the entry with key `key` stands, if there is one.
    fn position(&self, key: &String) -> (r: Option<usize>)
        requires
            self.well_formed(),
        ensures
            match r {
                Some(i) => i < self.view().len() && self.view()[i as int].0 == key@,
                None => !has_key(self.view(), key@),
            },
    {
        let mut i: usize = 0;
        while i < self.cache.len()
            invariant
                i <= self.cache.len(),
                self.view().len() == self.cache.len(),
                forall|j: int| 0 <= j < i ==> self.view()[j].0 != key@,
            decreases self.cache.len() - i,
        {
            if self.cache[i].key == *key {
                return Some(i);
            }
            i = i + 1;
        }
        None
    }

    fn remove_at(&mut self, i: usize)
        requires
            i < old(self).view().len(),
        ensures
            final(self).view() == old(self).view().remove(i as int),
            final(self).ttl() == old(self).ttl(),
            final(self).capacity() == old(self).capacity(),
    {
        self.cache.remove(i);
        assert(self.view() =~= old(self).view().remove(i as int));
    }

    /// Removes the entry with key `key`, if there is one.
    pub fn erase(&mut self, key: &String)
        requires
            old(self).well_formed(),
        ensures
            final(self).well_formed(),
            final(self).view() == without_key(old(self).view(), key@),
            final(self).ttl() == old(self).ttl(),
            final(self).capacity() == old(self).capacity(),
    {
        proof {
            lemma_without_len(self.view(), key@);
        }
        match self.position(key) {
            Some(i) => {
                proof {
                    lemma_without_present(self.view(), key@, i as int);
                }
                self.remove_at(i);
            },
            None => {
                proof {
                    lemma_without_absent(self.view(), key@);
                }
            },
        }
    }

    /// Puts `value` under `key` at time `now`: a full cache first drops its
    /// oldest entry; an entry with the same key is replaced and the new one
    /// becomes the newest.
    pub fn put(&mut self, key: String, value: V, now: u64)
        requires
            old(self).well_formed(),
        ensures
            final(self).well_formed(),
            final(self).view() == after_put(old(self).view(), key@, value, now, old(self).capacity()),
            final(self).ttl() == old(self).ttl(),
            final(self).capacity() == old(self).capacity(),
    {
        proof {
            lemma_put_evicts_oldest(self.view(), key@, value, now, self.max_size);
        }
        if self.cache.len() >= self.max_size {
            self.remove_at(0);
            assert(self.view() =~= old(self).view().drop_first());
        }
        proof {
            lemma_without_len(self.view(), key@);
        }
        match self.position(&key) {
            Some(i) => {
                proof {
                    lemma_without_present(self.view(), key@, i as int);
                }
                self.remove_at(i);
            },
            None => {
                proof {
                    lemma_without_absent(self.view(), key@);
                }
            },
        }
        let ghost before = self.view();
        self.cache.push(CacheItem { key, value, cache_time: now });
        assert(self.view() =~= before.push((key@, value, now)));
    }

    /// The value under `key` if its entry is younger than the time-to-live at `now`.
    pub fn try_get(&self, key: &String, now: u64) -> (r: Option<&V>)
        requires
            self.well_formed(),
        ensures
            match r {
                Some(v) => lookup(self.view(), key@, now, self.ttl()) == Some(*v),
                None => lookup(self.view(), key@, now, self.ttl()) is None,
            },
    {
        match self.position(key) {
            Some(i) => {
                let item = &self.cache[i];
                let age = if now >= item.cache_time {
                    now - item.cache_time
                } else {
                    0
                };
                proof {
                    let j = choose|j: int|
                        0 <= j < self.view().len() && self.view()[j].0 == key@;
                    assert(j == i as int);
                    assert(self.view()[j] == (item.key@, item.value, item.cache_time));
                }
                if age < self.invalidation_time {
                    Some(&item.value)
                } else {
                    None
                }
            },
            None => None,
        }
    }
}

} // verus!
