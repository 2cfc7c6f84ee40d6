//! A small TTL cache keyed by strings. Entries carry an absolute expiry in
//! epoch milliseconds; a lookup is live only before its entry's expiry. The
//! wall clock is read through one trusted call; every decision on the
//! reading is verified.

use vstd::prelude::*;

verus! {

/// One cached value and the instant (epoch milliseconds) it expires at.
#[derive(Clone, Debug)]
pub struct CacheEntry<T> {
    pub data: T,
    pub expiry_ms: u64,
}

/// Relies on std's `SystemTime::now` and `duration_since(UNIX_EPOCH)`: the
/// current wall-clock instant in epoch milliseconds (0 if the clock reads
/// before the epoch, the cap if beyond it). Two calls may differ.
#[verifier::external_body]
pub fn now_millis() -> u64 {
    match std::time::SystemTime::now().duration_since(std::time::UNIX_EPOCH) {
        Ok(d) => {
            let ms = d.as_millis();
            if ms > u64::MAX as u128 {
                u64::MAX
            } else {
                ms as u64
            }
        },
        Err(_) => 0,
    }
}

/// A TTL cache: a keyed store whose keys are unique, and a default
/// time-to-live in milliseconds.
pub struct Cache<T: Clone> {
    store: Vec<(String, CacheEntry<T>)>,
    default_ttl_ms: u64,
}

/// Key uniqueness: no two stored entries share a key.
pub open spec fn spec_keys_unique<T>(s: Seq<(String, CacheEntry<T>)>) -> bool {
    forall|a: int, b: int| 0 <= a < b < s.len() ==> (#[trigger] s[a]).0@ != (#[trigger] s[b]).0@
}

/// True when the store holds an entry under `key`.
pub open spec fn spec_has_key<T>(s: Seq<(String, CacheEntry<T>)>, key: Seq<char>) -> bool {
    exists|i: int| 0 <= i < s.len() && (#[trigger] s[i]).0@ == key
}

impl <T: Clone> Cache<T> {
    /// The store's abstract contents.
    pub closed spec fn contents(&self) -> Seq<(String, CacheEntry<T>)> {
        self.store@
    }

    /// The cache's structural invariant: keys are unique.
    pub open spec fn well_formed(&self) -> bool {
        spec_keys_unique(self.contents())
    }

    /// An empty cache with the given default time-to-live in milliseconds.
    pub fn new(default_ttl_ms: u64) -> (r: Cache<T>)
        ensures
            r.well_formed(),
            r.contents().len() == 0,
    {
        Cache { store: Vec::new(), default_ttl_ms }
    }

    fn find_index(&self, key: &str) -> (r: Option<usize>)
        ensures
            match r {
                Some(i) => i < self.contents().len() && self.contents()[i as int].0@ == key@,
                None => !spec_has_key(self.contents(), key@),
            },
    {
        let mut i: usize = 0;
        while i < self.store.len()
            invariant
                0 <= i <= self.contents().len(),
                forall|j: int| 0 <= j < i ==> (#[trigger] self.contents()[j]).0@ != key@,
            decreases self.contents().len() - i,
        {
            if crate::text::str_eq(self.store[i].0.as_str(), key) {
                return Some(i);
            }
            i = i + 1;
        }
        None
    }

    /// Looks `key` up against the explicit clock reading `now_ms`: a value
    /// comes back exactly when the key is stored and not yet expired, and it
    /// is (a clone of) that unique entry's data.
    pub fn get_at(&self, key: &str, now_ms: u64) -> (r: Option<T>)
        requires
            self.well_formed(),
        ensures
            r is Some <==> exists|i: int|
                0 <= i < self.contents().len() && (#[trigger] self.contents()[i]).0@ == key@
                    && now_ms < self.contents()[i].1.expiry_ms,
            r matches Some(d) ==> exists|i: int|
                0 <= i < self.contents().len() && (#[trigger] self.contents()[i]).0@ == key@
                    && now_ms < self.contents()[i].1.expiry_ms && vstd::pervasive::cloned(
                    self.contents()[i].1.data,
                    d,
                ),
    {
        match self.find_index(key) {
            Some(i) => {
                if now_ms < self.store[i].1.expiry_ms {
                    assert(self.contents()[i as int].0@ == key@ && now_ms
                        < self.contents()[i as int].1.expiry_ms);
                    let d = self.store[i].1.data.clone();
                    assert(vstd::pervasive::cloned(self.contents()[i as int].1.data, d));
                    Some(d)
                } else {
                    proof {
                        assert forall|j: int|
                            0 <= j < self.contents().len() && (#[trigger] self.contents()[j]).0@
                                == key@ implies !(now_ms < self.contents()[j].1.expiry_ms) by {
                            if j != i as int {
                                assert((#[trigger] self.contents()[j]).0@ != self.contents()[i as int].0@);
                            }
                        }
                    }
                    None
                }
            },
            None => None,
        }
    }

    /// Looks `key` up against the wall clock; a value comes back only if the
    /// key was stored and unexpired at the instant read, and it is (a clone
    /// of) that unique entry's data.
    pub fn get(&self, key: &str) -> (r: Option<T>)
        requires
            self.well_formed(),
        ensures
            r is Some ==> spec_has_key(self.contents(), key@),
            r matches Some(d) ==> exists|i: int|
                0 <= i < self.contents().len() && (#[trigger] self.contents()[i]).0@ == key@
                    && vstd::pervasive::cloned(self.contents()[i].1.data, d),
    {
        let now = now_millis();
        self.get_at(key, now)
    }

    /// Stores `value` under `key` with the explicit absolute expiry
    /// `expiry_ms`, replacing any earlier entry under the key and leaving
    /// every other key's entry untouched; the store grows by one exactly
    /// when the key was absent.
    pub fn set_with_expiry(&mut self, key: String, value: T, expiry_ms: u64)
        requires
            old(self).well_formed(),
        ensures
            final(self).well_formed(),
            spec_has_key(final(self).contents(), key@),
            forall|i: int|
                0 <= i < final(self).contents().len() && (#[trigger] final(self).contents()[i]).0@
                    == key@ ==> final(self).contents()[i].1.expiry_ms == expiry_ms && final(self).contents()[i].1.data == value,
            final(self).contents().len() == old(self).contents().len() + (if spec_has_key(
                old(self).contents(),
                key@,
            ) {
                0int
            } else {
                1int
            }),
            forall|i: int|
                0 <= i < old(self).contents().len() && (#[trigger] old(self).contents()[i]).0@
                    != key@ ==> final(self).contents().contains(old(self).contents()[i]),
            forall|i: int|
                0 <= i < final(self).contents().len() && (#[trigger] final(self).contents()[i]).0@
                    != key@ ==> old(self).contents().contains(final(self).contents()[i]),
    {
        let ghost old_store = self.store@;
        match self.find_index(key.as_str()) {
            Some(i) => {
                self.store.remove(i);
                proof {
                    assert forall|a: int, b: int|
                        0 <= a < b < self.store@.len() implies (#[trigger] self.store@[a]).0@
                        != (#[trigger] self.store@[b]).0@ by {
                        let oa = if a < i as int {
                            a
                        } else {
                            a + 1
                        };
                        let ob = if b < i as int {
                            b
                        } else {
                            b + 1
                        };
                        assert(self.store@[a] == old_store[oa]);
                        assert(self.store@[b] == old_store[ob]);
                    }
                    assert forall|j: int|
                        0 <= j < self.store@.len() implies (#[trigger] self.store@[j]).0@ != key@
                        by {
                        let oj = if j < i as int {
                            j
                        } else {
                            j + 1
                        };
                        assert(self.store@[j] == old_store[oj]);
                        if oj != i as int {
                            assert(old_store[oj].0@ != old_store[i as int].0@);
                        }
                    }
                    assert forall|k: int|
                        0 <= k < old_store.len() && (#[trigger] old_store[k]).0@ != key@ implies
                        self.store@.contains(old_store[k]) by {
                        if k < i as int {
                            assert(self.store@[k] == old_store[k]);
                        } else {
                            assert(k != i as int);
                            assert(self.store@[k - 1] == old_store[k]);
                        }
                    }
                    assert forall|j: int|
                        0 <= j < self.store@.len() implies old_store.contains(
                            #[trigger] self.store@[j],
                        ) by {
                        if j < i as int {
                            assert(old_store[j] == self.store@[j]);
                        } else {
                            assert(old_store[j + 1] == self.store@[j]);
                        }
                    }
                }
            },
            None => {
                proof {
                    assert forall|j: int|
                        0 <= j < self.store@.len() implies (#[trigger] self.store@[j]).0@ != key@
                        by {
                        if self.store@[j].0@ == key@ {
                            assert(spec_has_key(self.store@, key@));
                        }
                    }
                    assert forall|k: int|
                        0 <= k < old_store.len() && (#[trigger] old_store[k]).0@ != key@ implies
                        self.store@.contains(old_store[k]) by {
                        assert(self.store@[k] == old_store[k]);
                    }
                    assert forall|j: int|
                        0 <= j < self.store@.len() implies old_store.contains(
                            #[trigger] self.store@[j],
                        ) by {
                        assert(old_store[j] == self.store@[j]);
                    }
                }
            },
        }
        let ghost mid_store = self.store@;
        let ghost keyv = key@;
        let entry = CacheEntry { data: value, expiry_ms };
        self.store.push((key, entry));
        proof {
            let n = self.store@.len() - 1;
            assert(self.store@[n].0@ == keyv);
            assert forall|a: int, b: int|
                0 <= a < b < self.store@.len() implies (#[trigger] self.store@[a]).0@
                != (#[trigger] self.store@[b]).0@ by {
                if b < n {
                    assert(self.store@[a] == mid_store[a]);
                    assert(self.store@[b] == mid_store[b]);
                } else {
                    assert(self.store@[a] == mid_store[a]);
                    assert(mid_store[a].0@ != keyv);
                }
            }
            assert forall|k: int|
                0 <= k < old_store.len() && (#[trigger] old_store[k]).0@ != keyv implies
                self.store@.contains(old_store[k]) by {
                assert(mid_store.contains(old_store[k]));
                let j = choose|j: int| 0 <= j < mid_store.len() && mid_store[j] == old_store[k];
                assert(self.store@[j] == old_store[k]);
            }
            assert forall|j: int|
                0 <= j < self.store@.len() && (#[trigger] self.store@[j]).0@ != keyv implies
                old_store.contains(self.store@[j]) by {
                assert(j != n);
                assert(self.store@[j] == mid_store[j]);
            }
        }
    }

    /// Stores `value` under `key` with an explicit time-to-live from now;
    /// the store grows by one exactly when the key was absent.
    pub fn set_with_ttl(&mut self, key: String, value: T, ttl_ms: u64) -> (r: Result<(), ()>)
        requires
            old(self).well_formed(),
        ensures
            final(self).well_formed(),
            r is Ok,
            spec_has_key(final(self).contents(), key@),
            forall|i: int|
                0 <= i < final(self).contents().len() && (#[trigger] final(self).contents()[i]).0@
                    == key@ ==> final(self).contents()[i].1.data == value,
            final(self).contents().len() == old(self).contents().len() + (if spec_has_key(
                old(self).contents(),
                key@,
            ) {
                0int
            } else {
                1int
            }),
    {
        let now = now_millis();
        let expiry = if now > u64::MAX - ttl_ms {
            u64::MAX
        } else {
            now + ttl_ms
        };
        self.set_with_expiry(key, value, expiry);
        Ok(())
    }

    /// Stores `value` under `key` with the default time-to-live; the store
    /// grows by one exactly when the key was absent.
    pub fn set(&mut self, key: String, value: T) -> (r: Result<(), ()>)
        requires
            old(self).well_formed(),
        ensures
            final(self).well_formed(),
            r is Ok,
            spec_has_key(final(self).contents(), key@),
            forall|i: int|
                0 <= i < final(self).contents().len() && (#[trigger] final(self).contents()[i]).0@
                    == key@ ==> final(self).contents()[i].1.data == value,
            final(self).contents().len() == old(self).contents().len() + (if spec_has_key(
                old(self).contents(),
                key@,
            ) {
                0int
            } else {
                1int
            }),
    {
        let ttl = self.default_ttl_ms;
        self.set_with_ttl(key, value, ttl)
    }

    /// Removes any entry stored under `key`; every other entry stays.
    pub fn invalidate(&mut self, key: &str) -> (r: Result<(), ()>)
        requires
            old(self).well_formed(),
        ensures
            final(self).well_formed(),
            r is Ok,
            !spec_has_key(final(self).contents(), key@),
            forall|i: int|
                0 <= i < old(self).contents().len() && (#[trigger] old(self).contents()[i]).0@
                    != key@ ==> final(self).contents().contains(old(self).contents()[i]),
    {
        let ghost old_store = self.store@;
        match self.find_index(key) {
            Some(i) => {
                self.store.remove(i);
                proof {
                    assert forall|a: int, b: int|
                        0 <= a < b < self.store@.len() implies (#[trigger] self.store@[a]).0@
                        != (#[trigger] self.store@[b]).0@ by {
                        let oa = if a < i as int {
                            a
                        } else {
                            a + 1
                        };
                        let ob = if b < i as int {
                            b
                        } else {
                            b + 1
                        };
                        assert(self.store@[a] == old_store[oa]);
                        assert(self.store@[b] == old_store[ob]);
                    }
                    assert forall|j: int|
                        0 <= j < self.store@.len() implies (#[trigger] self.store@[j]).0@ != key@
                        by {
                        let oj = if j < i as int {
                            j
                        } else {
                            j + 1
                        };
                        assert(self.store@[j] == old_store[oj]);
                        if oj != i as int {
                            assert(old_store[oj].0@ != old_store[i as int].0@);
                        }
                    }
                    assert forall|k: int|
                        0 <= k < old_store.len() && (#[trigger] old_store[k]).0@ != key@ implies
                        self.store@.contains(old_store[k]) by {
                        if k < i as int {
                            assert(self.store@[k] == old_store[k]);
                        } else {
                            assert(k != i as int);
                            assert(self.store@[k - 1] == old_store[k]);
                        }
                    }
                }
            },
            None => {},
        }
        Ok(())
    }

    /// Empties the cache.
    pub fn clear(&mut self) -> (r: Result<(), ()>)
        ensures
            final(self).well_formed(),
            r is Ok,
            final(self).contents().len() == 0,
    {
        self.store.clear();
        Ok(())
    }

    /// Drops every entry whose expiry lies at or before the explicit clock
    /// reading `now_ms`, keeping all live entries and nothing else, and
    /// reports how many were dropped.
    pub fn cleanup_at(&mut self, now_ms: u64) -> (r: usize)
        requires
            old(self).well_formed(),
        ensures
            final(self).well_formed(),
            r == old(self).contents().len() - final(self).contents().len(),
            forall|i: int|
                0 <= i < final(self).contents().len() ==> now_ms
                    < (#[trigger] final(self).contents()[i]).1.expiry_ms,
            forall|i: int|
                0 <= i < old(self).contents().len() && now_ms
                    < (#[trigger] old(self).contents()[i]).1.expiry_ms
                    ==> final(self).contents().contains(old(self).contents()[i]),
            forall|j: int|
                0 <= j < final(self).contents().len() ==> old(self).contents().contains(
                    #[trigger] final(self).contents()[j],
                ),
    {
        let ghost orig = self.store@;
        let orig_len = self.store.len();
        proof {
            assert forall|j: int| 0 <= j < self.store@.len() implies orig.contains(
                #[trigger] self.store@[j],
            ) by {
                assert(orig[j] == self.store@[j]);
            }
        }
        let mut i: usize = self.store.len();
        while i > 0
            invariant
                0 <= i <= self.store@.len(),
                spec_keys_unique(self.store@),
                self.store@.subrange(0, i as int) == orig.subrange(0, i as int),
                self.store@.len() <= orig.len(),
                orig_len == orig.len(),
                forall|j: int|
                    0 <= j < self.store@.len() ==> orig.contains(#[trigger] self.store@[j]),
                forall|j: int|
                    i <= j < self.store@.len() ==> now_ms < (#[trigger] self.store@[j]).1.expiry_ms,
                forall|j: int|
                    i <= j < orig.len() && now_ms < (#[trigger] orig[j]).1.expiry_ms
                        ==> self.store@.contains(orig[j]),
            decreases i,
        {
            i = i - 1;
            proof {
                assert forall|j: int| 0 <= j <= i implies self.store@[j] == orig[j] by {
                    assert(self.store@.subrange(0, i as int + 1)[j] == orig.subrange(
                        0,
                        i as int + 1,
                    )[j]);
                }
            }
            let ghost before = self.store@;
            if !(now_ms < self.store[i].1.expiry_ms) {
                self.store.remove(i);
                proof {
                    assert forall|a: int, b: int|
                        0 <= a < b < self.store@.len() implies (#[trigger] self.store@[a]).0@
                        != (#[trigger] self.store@[b]).0@ by {
                        let oa = if a < i as int {
                            a
                        } else {
                            a + 1
                        };
                        let ob = if b < i as int {
                            b
                        } else {
                            b + 1
                        };
                        assert(self.store@[a] == before[oa]);
                        assert(self.store@[b] == before[ob]);
                    }
                    assert forall|j: int| 0 <= j < i implies self.store@[j] == before[j] by {}
                    assert forall|j: int| 0 <= j < self.store@.len() implies orig.contains(
                        #[trigger] self.store@[j],
                    ) by {
                        if j < i as int {
                            assert(self.store@[j] == before[j]);
                        } else {
                            assert(self.store@[j] == before[j + 1]);
                        }
                    }
                    assert(self.store@.subrange(0, i as int) =~= orig.subrange(0, i as int));
                    assert forall|j: int|
                        i <= j < orig.len() && now_ms < (#[trigger] orig[j]).1.expiry_ms implies
                        self.store@.contains(orig[j]) by {
                        assert(before[i as int] == orig[i as int]);
                        assert(before[i as int].1.expiry_ms <= now_ms);
                        if j > i as int {
                            assert(before.contains(orig[j]));
                            let k = choose|k: int|
                                0 <= k < before.len() && before[k] == orig[j];
                            if k < i as int {
                                assert(self.store@[k] == before[k]);
                            } else {
                                assert(k != i as int);
                                assert(self.store@[k - 1] == before[k]);
                            }
                        }
                    }
                }
            } else {
                proof {
                    assert(self.store@.subrange(0, i as int) =~= orig.subrange(0, i as int));
                    assert forall|j: int|
                        i <= j < orig.len() && now_ms < (#[trigger] orig[j]).1.expiry_ms implies
                        self.store@.contains(orig[j]) by {
                        if j == i as int {
                            assert(self.store@[j] == orig[j]);
                            assert(self.store@.contains(orig[j]));
                        }
                    }
                }
            }
        }
        orig_len - self.store.len()
    }

    /// Drops every entry that has expired by the wall clock, reporting how
    /// many were dropped.
    pub fn cleanup_expired(&mut self) -> (r: Result<usize, ()>)
        requires
            old(self).well_formed(),
        ensures
            final(self).well_formed(),
            r is Ok,
    {
        let now = now_millis();
        Ok(self.cleanup_at(now))
    }

    /// How many entries the cache holds, expired ones included.
    pub fn size(&self) -> (r: usize)
        ensures
            r == self.contents().len(),
    {
        self.store.len()
    }
}

} // verus!
