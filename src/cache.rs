use vstd::prelude::*;

verus! {

/// A cached value with the time it was stored and how long it stays fresh,
/// both in milliseconds.
pub struct CacheEntry<T> {
    pub data: T,
    pub created_at: u64,
    pub ttl: u64,
}

impl<T> CacheEntry<T> {
    /// Fresh at `now` while less than `ttl` has passed since it was stored; an
    /// entry stored after `now` counts as stale.
    pub open spec fn fresh_at(&self, now: u64) -> bool {
        self.created_at <= now && now - self.created_at < self.ttl
    }

    /// Whether the entry is still fresh at time `now`.
    pub fn is_valid(&self, now: u64) -> (r: bool)
        ensures
            r == self.fresh_at(now),
    {
        self.created_at <= now && now - self.created_at < self.ttl
    }
}

/// A store of values by key, each with its own time to live. Stale entries
/// are not removed; they are only passed over on reading.
pub struct Cache<V> {
    pub entries: Vec<(String, CacheEntry<V>)>,
}

impl<V> Cache<V> {
    /// Each key has at most one entry.
    pub open spec fn wf(&self) -> bool {
        forall|i: int, j: int|
            0 <= i < j < self.entries@.len() ==> (#[trigger] self.entries@[i]).0@ != (
            #[trigger] self.entries@[j]).0@
    }

    pub open spec fn has_key(&self, key: Seq<char>) -> bool {
        exists|i: int| 0 <= i < self.entries@.len() && (#[trigger] self.entries@[i]).0@ == key
    }

    /// The entry stored under `key`.
    pub open spec fn entry(&self, key: Seq<char>) -> CacheEntry<V>
        recommends
            self.has_key(key),
    {
        let i = choose|i: int| 0 <= i < self.entries@.len() && (#[trigger] self.entries@[i]).0@ == key;
        self.entries@[i].1
    }

    /// An empty cache.
    pub fn new() -> (r: Self)
        ensures
            r.wf(),
            forall|k: Seq<char>| !r.has_key(k),
    {
        Cache { entries: Vec::new() }
    }

    fn position(&self, key: &String) -> (r: Option<usize>)
        ensures
            match r {
                Some(i) => i < self.entries@.len() && self.entries@[i as int].0@ == key@,
                None => !self.has_key(key@),
            },
    {
        let mut i: usize = 0;
        while i < self.entries.len()
            invariant
                i <= self.entries@.len(),
                forall|k: int| 0 <= k < i ==> (#[trigger] self.entries@[k]).0@ != key@,
            decreases self.entries@.len() - i,
        {
            if self.entries[i].0 == *key {
                return Some(i);
            }
            i = i + 1;
        }
        None
    }

    /// The value under `key`, if there is one and it is fresh at `now`.
    pub fn get(&self, key: &str, now: u64) -> (r: Option<&V>)
        requires
            self.wf(),
        ensures
            match r {
                Some(v) => self.has_key(key@) && self.entry(key@).fresh_at(now) && *v == self.entry(
                    key@,
                ).data,
                None => !self.has_key(key@) || !self.entry(key@).fresh_at(now),
            },
    {
        match self.position(&key.to_owned()) {
            Some(i) => {
                let e = &self.entries[i].1;
                if e.is_valid(now) {
                    Some(&e.data)
                } else {
                    None
                }
            },
            None => None,
        }
    }

    /// Stores `value` under `key` at time `now`, fresh for `ttl`, in place of
    /// any earlier entry for that key.
    pub fn set(&mut self, key: String, value: V, ttl: u64, now: u64)
        requires
            old(self).wf(),
        ensures
            final(self).wf(),
            final(self).has_key(key@),
            final(self).entry(key@) == (CacheEntry { data: value, created_at: now, ttl }),
            forall|k: Seq<char>|
                k != key@ ==> (final(self).has_key(k) == old(self).has_key(k) && (old(self).has_key(k)
                    ==> final(self).entry(k) == old(self).entry(k))),
    {
        let pos = self.position(&key);
        let ghost kv = key@;
        let e = CacheEntry { data: value, created_at: now, ttl };
        match pos {
            Some(i) => {
                self.entries.set(i, (key, e));
                assert(self.entries@[i as int].0@ == kv);
            },
            None => {
                self.entries.push((key, e));
                assert(self.entries@[self.entries@.len() - 1].0@ == kv);
            },
        }
        assert forall|k: Seq<char>| k != kv implies (self.has_key(k) == old(self).has_key(k) && (old(
            self,
        ).has_key(k) ==> self.entry(k) == old(self).entry(k))) by {
            if old(self).has_key(k) {
                let j = choose|j: int| 0 <= j < old(self).entries@.len() && (#[trigger] old(self).entries@[j]).0@ == k;
                assert(self.entries@[j] == old(self).entries@[j]);
            }
            if self.has_key(k) {
                let j = choose|j: int| 0 <= j < self.entries@.len() && (#[trigger] self.entries@[j]).0@ == k;
                assert(self.entries@[j] == old(self).entries@[j]);
            }
        }
    }

    /// Removes every entry.
    pub fn clear(&mut self)
        ensures
            final(self).wf(),
            forall|k: Seq<char>| !final(self).has_key(k),
    {
        self.entries.clear();
    }
}

} // verus!
