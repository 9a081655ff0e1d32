use vstd::prelude::*;

use crate::store::reload_merge;

verus! {

/// The map after a sequence of insertions, earliest pair first; on a
/// repeated key the later pair wins.
pub open spec fn insert_all(
    m: Map<Seq<char>, Seq<char>>,
    pairs: Seq<(Seq<char>, Seq<char>)>,
) -> Map<Seq<char>, Seq<char>>
    decreases pairs.len(),
{
    if pairs.len() == 0 {
        m
    } else {
        insert_all(m, pairs.drop_last()).insert(pairs.last().0, pairs.last().1)
    }
}

/// Pairwise-distinct keys in a sequence of key-value pairs.
pub open spec fn distinct_pair_keys(pairs: Seq<(Seq<char>, Seq<char>)>) -> bool {
    forall|i: int, j: int| 0 <= i < j < pairs.len() ==> pairs[i].0 != pairs[j].0
}

/// Round-trip, first half: a sequence of puts with pairwise-distinct keys
/// leaves a map that still binds every inserted key to its inserted value.
pub proof fn lemma_insert_all_keeps_pairs(
    m: Map<Seq<char>, Seq<char>>,
    pairs: Seq<(Seq<char>, Seq<char>)>,
    i: int,
)
    requires
        distinct_pair_keys(pairs),
        0 <= i < pairs.len(),
    ensures
        insert_all(m, pairs).contains_key(pairs[i].0),
        insert_all(m, pairs)[pairs[i].0] == pairs[i].1,
    decreases pairs.len(),
{
    if i == pairs.len() - 1 {
    } else {
        assert(distinct_pair_keys(pairs.drop_last())) by {
            assert(forall|a: int|
                0 <= a < pairs.drop_last().len() ==> pairs.drop_last()[a] == pairs[a]);
        }
        lemma_insert_all_keeps_pairs(m, pairs.drop_last(), i);
        assert(pairs.drop_last()[i] == pairs[i]);
        assert(pairs[i].0 != pairs.last().0);
    }
}

/// Round-trip, second half: a fresh handle starts with an empty in-memory
/// snapshot, and its reload-merge from a disk map yields exactly that disk
/// map — so after the puts above are persisted, a fresh handle on the same
/// name reads back every inserted value.
pub proof fn lemma_fresh_reload(d: Map<Seq<char>, Seq<char>>)
    ensures
        reload_merge(Map::<Seq<char>, Seq<char>>::empty(), d) == d,
{
    assert(reload_merge(Map::<Seq<char>, Seq<char>>::empty(), d) =~= d);
}

/// Flush-then-reload stability: a handle that persisted its own snapshot
/// and reload-merges it back from disk sees no change.
pub proof fn lemma_reload_after_flush(m: Map<Seq<char>, Seq<char>>)
    ensures
        reload_merge(m, m) == m,
{
    assert(reload_merge(m, m) =~= m);
}

/// Delete removes: after a put of `k` and a delete of `k` the handle's map
/// no longer binds `k`, and a reload-merge against a disk persisted from
/// that same deleted state keeps `k` absent — so a following get of `k`
/// returns none.
pub proof fn lemma_delete_removes(m: Map<Seq<char>, Seq<char>>, k: Seq<char>, v: Seq<char>)
    ensures
        !m.insert(k, v).remove(k).contains_key(k),
        !reload_merge(m.insert(k, v).remove(k), m.insert(k, v).remove(k)).contains_key(k),
{
}

/// Eager reload visibility: a reload-merge sees every binding the disk
/// holds, the disk winning on a shared key — so once one handle has
/// persisted `k`, another handle's get of `k` returns the persisted value,
/// whatever that handle held in memory.
pub proof fn lemma_reload_prefers_disk(
    mem: Map<Seq<char>, Seq<char>>,
    d: Map<Seq<char>, Seq<char>>,
    k: Seq<char>,
)
    requires
        d.contains_key(k),
    ensures
        reload_merge(mem, d).contains_key(k),
        reload_merge(mem, d)[k] == d[k],
{
}

} // verus!
