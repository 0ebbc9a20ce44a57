use vstd::prelude::*;
use crate::key::{KeyView, ResourceKey};

verus! {

/// One cached resource, seen mathematically: its key, its current value and
/// the modification marker recorded when it was last loaded.
pub type Slot<V> = (KeyView, V, Option<u64>);

/// No key stands in two slots.
pub open spec fn keys_distinct<V>(s: Seq<Slot<V>>) -> bool {
    forall|i: int, j: int| 0 <= i < s.len() && 0 <= j < s.len() && i != j ==> s[i].0 != s[j].0
}

pub open spec fn has_key<V>(s: Seq<Slot<V>>, k: KeyView) -> bool {
    exists|i: int| 0 <= i < s.len() && s[i].0 == k
}

/// The value cached under `k`, if any.
pub open spec fn lookup<V>(s: Seq<Slot<V>>, k: KeyView) -> Option<V> {
    if has_key(s, k) {
        Some(s[choose|i: int| 0 <= i < s.len() && s[i].0 == k].1)
    } else {
        None
    }
}

/// In a cache without repeated keys, the key of a slot reads as that slot's
/// value.
pub proof fn lemma_lookup_slot<V>(s: Seq<Slot<V>>, i: int)
    requires
        keys_distinct(s),
        0 <= i < s.len(),
    ensures
        lookup(s, s[i].0) == Some(s[i].1),
{
    assert(has_key(s, s[i].0));
    let j = choose|j: int| 0 <= j < s.len() && s[j].0 == s[i].0;
    assert(j == i);
}

/// The slot at `i` must be reloaded when its file now shows the marker
/// `observed`: it is a path and the marker differs from the one recorded.
/// A file that could not be inspected (`None`) counts as changed unless no
/// marker was recorded either. Logical slots are never stale.
pub open spec fn is_stale<V>(s: Seq<Slot<V>>, i: int, observed: Option<u64>) -> bool {
    s[i].0.is_path() && observed != s[i].2
}

/// The cache after a first load of `k`: a successful load is cached with
/// its marker, a failed one leaves nothing behind.
pub open spec fn after_load<V, E>(
    s: Seq<Slot<V>>,
    k: KeyView,
    loaded: Result<V, E>,
    marker: Option<u64>,
) -> Seq<Slot<V>> {
    match loaded {
        Ok(v) => s.push((k, v, marker)),
        Err(_) => s,
    }
}

/// The cache after reloading the slot at `i`: a path slot takes the new
/// value and marker on success and keeps its old ones on failure; a logical
/// slot never changes.
pub open spec fn after_reload<V, E>(
    s: Seq<Slot<V>>,
    i: int,
    reloaded: Result<V, E>,
    marker: Option<u64>,
) -> Seq<Slot<V>> {
    if !s[i].0.is_path() {
        s
    } else {
        match reloaded {
            Ok(v) => s.update(i, (s[i].0, v, marker)),
            Err(_) => s,
        }
    }
}

/// The outcome of reloading one slot: its index, the load result and the
/// marker its file showed.
pub type Reload<V, E> = (usize, Result<V, E>, Option<u64>);

/// Every outcome names a slot of a cache of `n` slots.
pub open spec fn reloads_in_range<V, E>(outcomes: Seq<Reload<V, E>>, n: int) -> bool {
    forall|k: int| 0 <= k < outcomes.len() ==> outcomes[k].0 < n
}

/// The cache after applying the outcomes one after the other.
pub open spec fn after_reloads<V, E>(s: Seq<Slot<V>>, outcomes: Seq<Reload<V, E>>) -> Seq<Slot<V>>
    decreases outcomes.len(),
{
    if outcomes.len() == 0 {
        s
    } else {
        after_reloads(
            after_reload(s, outcomes[0].0 as int, outcomes[0].1, outcomes[0].2),
            outcomes.drop_first(),
        )
    }
}

/// The error of one reload, if it failed on a path slot.
pub open spec fn reload_error<V, E>(s: Seq<Slot<V>>, outcome: Reload<V, E>) -> Seq<E> {
    match outcome.1 {
        Err(e) if s[outcome.0 as int].0.is_path() => seq![e],
        _ => Seq::empty(),
    }
}

/// The errors of the failed reloads of path slots, in the order applied.
pub open spec fn reload_errors<V, E>(s: Seq<Slot<V>>, outcomes: Seq<Reload<V, E>>) -> Seq<E>
    decreases outcomes.len(),
{
    if outcomes.len() == 0 {
        Seq::empty()
    } else {
        reload_error(s, outcomes[0]) + reload_errors(
            after_reload(s, outcomes[0].0 as int, outcomes[0].1, outcomes[0].2),
            outcomes.drop_first(),
        )
    }
}

/// A cached resource.
pub struct CacheEntry<V> {
    pub key: ResourceKey,
    pub value: V,
    pub marker: Option<u64>,
}

impl<V> CacheEntry<V> {
    pub open spec fn slot(&self) -> Slot<V> {
        (self.key@, self.value, self.marker)
    }
}

/// The cache: every resource loaded so far, one slot per key, kept until
/// the store is dropped.
pub struct ResourceStore<V> {
    entries: Vec<CacheEntry<V>>,
}

impl<V> View for ResourceStore<V> {
    type V = Seq<Slot<V>>;

    closed spec fn view(&self) -> Seq<Slot<V>> {
        self.entries@.map_values(|e: CacheEntry<V>| e.slot())
    }
}

impl<V> ResourceStore<V> {
    pub open spec fn wf(&self) -> bool {
        keys_distinct(self@)
    }

    /// An empty cache.
    pub fn new() -> (r: Self)
        ensures
            r@ == Seq::<Slot<V>>::empty(),
            r.wf(),
    {
        let r = ResourceStore { entries: Vec::new() };
        assert(r@ =~= Seq::<Slot<V>>::empty());
        r
    }

    pub fn len(&self) -> (r: usize)
        ensures
            r == self@.len(),
    {
        self.entries.len()
    }

    /// The key of the slot at `i`.
    pub fn key_at(&self, i: usize) -> (r: &ResourceKey)
        requires
            i < self@.len(),
        ensures
            r@ == self@[i as int].0,
    {
        &self.entries[i].key
    }

    /// The value of the slot at `i`.
    pub fn value_at(&self, i: usize) -> (r: &V)
        requires
            i < self@.len(),
        ensures
            *r == self@[i as int].1,
    {
        &self.entries[i].value
    }

    /// The marker recorded for the slot at `i`.
    pub fn marker_at(&self, i: usize) -> (r: Option<u64>)
        requires
            i < self@.len(),
        ensures
            r == self@[i as int].2,
    {
        self.entries[i].marker
    }

    /// The slot that holds `key`, if any.
    pub fn find(&self, key: &ResourceKey) -> (r: Option<usize>)
        ensures
            match r {
                Some(i) => i < self@.len() && self@[i as int].0 == key@,
                None => !has_key(self@, key@),
            },
    {
        let mut i: usize = 0;
        while i < self.entries.len()
            invariant
                i <= self.entries@.len(),
                self@.len() == self.entries@.len(),
                forall|j: int| 0 <= j < i ==> self@[j].0 != key@,
            decreases self.entries@.len() - i,
        {
            if self.entries[i].key.same(key) {
                return Some(i);
            }
            i = i + 1;
        }
        None
    }

    /// The value cached under `key`, without loading anything.
    pub fn get(&self, key: &ResourceKey) -> (r: Option<&V>)
        requires
            self.wf(),
        ensures
            match r {
                Some(v) => lookup(self@, key@) == Some(*v),
                None => lookup(self@, key@) is None,
            },
    {
        match self.find(key) {
            Some(i) => {
                proof {
                    let j = choose|j: int| 0 <= j < self@.len() && self@[j].0 == key@;
                    assert(j == i);
                }
                Some(&self.entries[i].value)
            },
            None => None,
        }
    }

    /// Completes a `get` of a key that was not cached, with the outcome of
    /// loading it: a loaded value is cached with the file's marker and its
    /// slot returned; an error is handed back and nothing is cached, so the
    /// next `get` of the key loads again.
    pub fn finish_get<E>(
        &mut self,
        key: ResourceKey,
        loaded: Result<V, E>,
        marker: Option<u64>,
    ) -> (r: Result<usize, E>)
        requires
            old(self).wf(),
            !has_key(old(self)@, key@),
        ensures
            final(self).wf(),
            final(self)@ == after_load(old(self)@, key@, loaded, marker),
            match loaded {
                Ok(v) => r == Ok::<usize, E>(old(self)@.len() as usize) && lookup(final(self)@, key@)
                    == Some(v),
                Err(e) => r == Err::<usize, E>(e) && lookup(final(self)@, key@) is None,
            },
    {
        match loaded {
            Ok(value) => {
                let i = self.entries.len();
                let ghost k = key@;
                self.entries.push(CacheEntry { key, value, marker });
                proof {
                    assert(self@ =~= old(self)@.push((k, value, marker)));
                    assert forall|a: int, b: int| 0 <= a < self@.len() && 0 <= b < self@.len() && a != b
                        implies self@[a].0 != self@[b].0 by {
                        if a == i as int {
                            assert(old(self)@[b].0 == self@[b].0);
                        } else if b == i as int {
                            assert(old(self)@[a].0 == self@[a].0);
                        }
                    }
                    lemma_lookup_slot(self@, i as int);
                }
                Ok(i)
            },
            Err(e) => Err(e),
        }
    }

    /// The slots that must be reloaded, in increasing order, given the
    /// marker that each slot's file shows now (`observed[i]` for slot `i`).
    pub fn stale_entries(&self, observed: &Vec<Option<u64>>) -> (r: Vec<usize>)
        requires
            observed@.len() == self@.len(),
        ensures
            forall|k: int| 0 <= k < r@.len() ==> r@[k] < self@.len() && is_stale(self@, r@[k] as int, observed@[r@[k] as int]),
            forall|i: int| 0 <= i < self@.len() && is_stale(self@, i, observed@[i]) ==> r@.contains(i as usize),
            forall|a: int, b: int| 0 <= a < b < r@.len() ==> r@[a] < r@[b],
    {
        let mut r: Vec<usize> = Vec::new();
        let mut i: usize = 0;
        while i < self.entries.len()
            invariant
                i <= self.entries@.len(),
                self@.len() == self.entries@.len(),
                observed@.len() == self@.len(),
                forall|k: int| 0 <= k < r@.len() ==> r@[k] < i && is_stale(self@, r@[k] as int, observed@[r@[k] as int]),
                forall|j: int| 0 <= j < i && is_stale(self@, j, observed@[j]) ==> r@.contains(j as usize),
                forall|a: int, b: int| 0 <= a < b < r@.len() ==> r@[a] < r@[b],
            decreases self.entries@.len() - i,
        {
            let e = &self.entries[i];
            let ghost before = r@;
            proof {
                assert(self@[i as int] == self.entries@[i as int].slot());
            }
            if e.key.is_path() && observed[i] != e.marker {
                r.push(i);
            }
            proof {
                assert forall|j: int| 0 <= j < i + 1 && is_stale(self@, j, observed@[j]) implies r@.contains(j as usize) by {
                    if j == i {
                        assert(r@[r@.len() - 1] == i);
                    } else {
                        let k = choose|k: int| 0 <= k < before.len() && before[k] == j as usize;
                        assert(r@[k] == j as usize);
                    }
                }
            }
            i = i + 1;
        }
        r
    }

    /// Reloads the slot at `i` with the outcome of loading its key again and
    /// the marker its file showed. On success the value is replaced in place;
    /// on failure the last good value stays and the error is handed back. A
    /// logical slot is never replaced.
    pub fn reload<E>(&mut self, i: usize, reloaded: Result<V, E>, marker: Option<u64>) -> (r:
        Result<(), E>)
        requires
            old(self).wf(),
            i < old(self)@.len(),
        ensures
            final(self).wf(),
            final(self)@ == after_reload(old(self)@, i as int, reloaded, marker),
            match reloaded {
                Err(e) if old(self)@[i as int].0.is_path() => r == Err::<(), E>(e),
                _ => r is Ok,
            },
            lookup(final(self)@, old(self)@[i as int].0) == Some(final(self)@[i as int].1),
    {
        proof {
            assert(old(self)@[i as int] == old(self).entries@[i as int].slot());
        }
        proof {
            lemma_lookup_slot(old(self)@, i as int);
        }
        if !self.entries[i].key.is_path() {
            return Ok(());
        }
        match reloaded {
            Ok(value) => {
                let old_entry = self.entries.remove(i);
                let ghost k = old_entry.key@;
                self.entries.insert(i, CacheEntry { key: old_entry.key, value, marker });
                proof {
                    assert(self@ =~= old(self)@.update(i as int, (k, value, marker)));
                    assert(forall|j: int| 0 <= j < self@.len() ==> self@[j].0 == old(self)@[j].0);
                    lemma_lookup_slot(self@, i as int);
                }
                Ok(())
            },
            Err(e) => Err(e),
        }
    }

    /// Applies the outcomes of reloading the stale slots, one after the
    /// other. A failed reload keeps that slot's last good value and does not
    /// stop the others; the errors are handed back in the order met.
    pub fn sync<E>(&mut self, outcomes: Vec<Reload<V, E>>) -> (r: Vec<E>)
        requires
            old(self).wf(),
            reloads_in_range(outcomes@, old(self)@.len() as int),
        ensures
            final(self).wf(),
            final(self)@ == after_reloads(old(self)@, outcomes@),
            r@ == reload_errors(old(self)@, outcomes@),
    {
        let mut rest = outcomes;
        let mut errors: Vec<E> = Vec::new();
        while rest.len() > 0
            invariant
                self.wf(),
                self@.len() == old(self)@.len(),
                reloads_in_range(rest@, self@.len() as int),
                after_reloads(self@, rest@) == after_reloads(old(self)@, outcomes@),
                errors@ + reload_errors(self@, rest@) == reload_errors(old(self)@, outcomes@),
            decreases rest@.len(),
        {
            let ghost before = self@;
            let ghost all = rest@;
            let (i, reloaded, marker) = rest.remove(0);
            let ghost errors_before = errors@;
            let ghost first = reload_error(before, all[0]);
            proof {
                assert(all[0] == (i, reloaded, marker));
                assert(rest@ =~= all.drop_first());
            }
            match self.reload(i, reloaded, marker) {
                Err(e) => errors.push(e),
                Ok(()) => {},
            }
            proof {
                assert(errors@ =~= errors_before + first);
                assert(errors_before + reload_errors(before, all) == errors_before + (first + reload_errors(self@, rest@)));
                assert(errors_before + (first + reload_errors(self@, rest@)) =~= errors@ + reload_errors(self@, rest@));
            }
        }
        proof {
            assert(errors@ + reload_errors(self@, rest@) =~= errors@);
        }
        errors
    }
}

} // verus!
