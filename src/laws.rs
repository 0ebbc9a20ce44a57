use vstd::prelude::*;
use crate::key::KeyView;
use crate::store::{
    after_load, after_reload, after_reloads, has_key, is_stale, keys_distinct, lookup,
    reloads_in_range, Reload, Slot,
};

verus! {

/// Once a path key has been loaded, and as long as its file keeps the
/// marker it had at load time, the key reads as the value loaded and no
/// slot of the cache is stale: a sync reads nothing and replaces nothing.
pub proof fn lemma_unchanged_files_keep_values<V, E>(
    s: Seq<Slot<V>>,
    k: KeyView,
    v: V,
    marker: Option<u64>,
    observed: Seq<Option<u64>>,
)
    requires
        keys_distinct(s),
        !has_key(s, k),
        observed.len() == s.len() + 1,
        forall|i: int| 0 <= i < observed.len() ==> observed[i] == after_load(s, k, Ok::<V, E>(v), marker)[i].2,
    ensures
        keys_distinct(after_load(s, k, Ok::<V, E>(v), marker)),
        lookup(after_load(s, k, Ok::<V, E>(v), marker), k) == Some(v),
        forall|i: int| 0 <= i < observed.len() ==> !is_stale(after_load(s, k, Ok::<V, E>(v), marker), i, observed[i]),
        after_reloads(after_load(s, k, Ok::<V, E>(v), marker), Seq::<Reload<V, E>>::empty())
            == after_load(s, k, Ok::<V, E>(v), marker),
{
    let t = after_load(s, k, Ok::<V, E>(v), marker);
    assert(t[s.len() as int].0 == k);
    assert(has_key(t, k));
    let j = choose|j: int| 0 <= j < t.len() && t[j].0 == k;
    if j < s.len() {
        assert(s[j].0 == k);
    }
}

/// When the file behind a path slot shows a new marker, the slot is stale;
/// a successful reload makes the key read as the new value, and the slot
/// is no longer stale for that marker.
pub proof fn lemma_changed_file_is_reloaded<V, E>(
    s: Seq<Slot<V>>,
    i: usize,
    observed: Option<u64>,
    v: V,
)
    requires
        keys_distinct(s),
        i < s.len(),
        s[i as int].0.is_path(),
        observed != s[i as int].2,
    ensures
        is_stale(s, i as int, observed),
        keys_distinct(after_reload(s, i as int, Ok::<V, E>(v), observed)),
        lookup(after_reload(s, i as int, Ok::<V, E>(v), observed), s[i as int].0) == Some(v),
        !is_stale(after_reload(s, i as int, Ok::<V, E>(v), observed), i as int, observed),
        lookup(after_reloads(s, seq![(i, Ok::<V, E>(v), observed)]), s[i as int].0) == Some(v),
{
    let t = after_reload(s, i as int, Ok::<V, E>(v), observed);
    let one = seq![(i, Ok::<V, E>(v), observed)];
    assert(one[0] == (i, Ok::<V, E>(v), observed));
    assert(one.drop_first() =~= Seq::<Reload<V, E>>::empty());
    assert(after_reloads(t, one.drop_first()) == t);
    assert(after_reloads(s, one) == t);
    assert(forall|j: int| 0 <= j < t.len() ==> t[j].0 == s[j].0);
    assert(has_key(t, s[i as int].0));
    let j = choose|j: int| 0 <= j < t.len() && t[j].0 == s[i as int].0;
    assert(j == i as int);
}

/// A logical slot is never stale, and no sync, whatever the outcomes it
/// applies, changes it.
pub proof fn lemma_logical_slots_never_change<V, E>(
    s: Seq<Slot<V>>,
    i: int,
    outcomes: Seq<Reload<V, E>>,
    observed: Option<u64>,
)
    requires
        0 <= i < s.len(),
        !s[i].0.is_path(),
        reloads_in_range(outcomes, s.len() as int),
    ensures
        !is_stale(s, i, observed),
        after_reloads(s, outcomes).len() == s.len(),
        after_reloads(s, outcomes)[i] == s[i],
    decreases outcomes.len(),
{
    if outcomes.len() > 0 {
        let t = after_reload(s, outcomes[0].0 as int, outcomes[0].1, outcomes[0].2);
        assert(t[i] == s[i]);
        lemma_logical_slots_never_change(t, i, outcomes.drop_first(), observed);
    }
}

/// A failed load caches nothing: the cache is as before, the key is still
/// absent, and so the next request for it loads again.
pub proof fn lemma_failed_load_caches_nothing<V, E>(
    s: Seq<Slot<V>>,
    k: KeyView,
    e: E,
    marker: Option<u64>,
)
    requires
        !has_key(s, k),
    ensures
        after_load(s, k, Err::<V, E>(e), marker) == s,
        !has_key(after_load(s, k, Err::<V, E>(e), marker), k),
        lookup(after_load(s, k, Err::<V, E>(e), marker), k) is None,
{
}

} // verus!
