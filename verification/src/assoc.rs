//! Lists of keyed entries, read as maps.
//!
//! Both a JSON object and the in-memory store keep their entries in a
//! vector. Where a key occurs more than once, the last entry counts.

use vstd::prelude::*;

verus! {

/// The key of an entry: a string, by content.
pub type Key = Seq<char>;

/// The map that a list of entries stands for: later entries override
/// earlier ones with the same key.
pub open spec fn map_of<V>(pairs: Seq<(Key, V)>) -> Map<Key, V>
    decreases pairs.len(),
{
    if pairs.len() == 0 {
        Map::empty()
    } else {
        map_of(pairs.drop_last()).insert(pairs.last().0, pairs.last().1)
    }
}

/// No key occurs twice among the entries.
pub open spec fn distinct_keys<V>(pairs: Seq<(Key, V)>) -> bool {
    forall|i: int, j: int| 0 <= i < j < pairs.len() ==> pairs[i].0 != pairs[j].0
}

/// The greatest index whose entry has the key, or -1 where none has.
pub open spec fn last_with_key<V>(pairs: Seq<(Key, V)>, key: Key) -> int
    decreases pairs.len(),
{
    if pairs.len() == 0 {
        -1
    } else if pairs.last().0 == key {
        pairs.len() - 1
    } else {
        last_with_key(pairs.drop_last(), key)
    }
}

/// No entry behind index `from` has the key.
pub open spec fn absent_after<V>(pairs: Seq<(Key, V)>, key: Key, from: int) -> bool {
    forall|j: int| from < j < pairs.len() ==> (#[trigger] pairs[j]).0 != key
}

/// The entries after one is set: the last entry with the key gets the
/// value, or a new entry is added at the end.
pub open spec fn pairs_set<V>(pairs: Seq<(Key, V)>, key: Key, value: V) -> Seq<(Key, V)> {
    let at = last_with_key(pairs, key);
    if at >= 0 {
        pairs.update(at, (key, value))
    } else {
        pairs.push((key, value))
    }
}

/// `last_with_key` is the index of an entry with the key behind which no
/// entry has it, and -1 only where no entry has it.
pub proof fn lemma_last_with_key<V>(pairs: Seq<(Key, V)>, key: Key)
    ensures
        -1 <= last_with_key(pairs, key) < pairs.len(),
        last_with_key(pairs, key) >= 0 ==> pairs[last_with_key(pairs, key)].0 == key,
        absent_after(pairs, key, last_with_key(pairs, key)),
    decreases pairs.len(),
{
    if pairs.len() > 0 && pairs.last().0 != key {
        let init = pairs.drop_last();
        lemma_last_with_key(init, key);
        let l = last_with_key(init, key);
        assert forall|j: int| l < j < pairs.len() implies (#[trigger] pairs[j]).0 != key by {
            if j < init.len() {
                assert(init[j].0 != key);
            }
        }
    }
}

/// An index whose entry has the key, and behind which none has, is
/// `last_with_key`; so is -1 where no entry has the key.
pub proof fn lemma_last_with_key_is<V>(pairs: Seq<(Key, V)>, key: Key, at: int)
    requires
        -1 <= at < pairs.len(),
        at >= 0 ==> pairs[at].0 == key,
        absent_after(pairs, key, at),
    ensures
        last_with_key(pairs, key) == at,
{
    lemma_last_with_key(pairs, key);
}

/// A key is in the map exactly when some entry has it, and the map gives
/// it the value of the last such entry.
pub proof fn lemma_map_of<V>(pairs: Seq<(Key, V)>, key: Key)
    ensures
        map_of(pairs).contains_key(key) <==> last_with_key(pairs, key) >= 0,
        last_with_key(pairs, key) >= 0 ==> map_of(pairs)[key] == pairs[last_with_key(
            pairs,
            key,
        )].1,
    decreases pairs.len(),
{
    if pairs.len() > 0 {
        lemma_map_of(pairs.drop_last(), key);
        lemma_last_with_key(pairs.drop_last(), key);
    }
}

/// Replacing the last entry that has a key gives the map with that key set
/// anew.
pub proof fn lemma_map_of_update<V>(pairs: Seq<(Key, V)>, at: int, value: V)
    requires
        0 <= at < pairs.len(),
        absent_after(pairs, pairs[at].0, at),
    ensures
        map_of(pairs.update(at, (pairs[at].0, value))) == map_of(pairs).insert(
            pairs[at].0,
            value,
        ),
    decreases pairs.len(),
{
    let key = pairs[at].0;
    let next = pairs.update(at, (key, value));
    if at == pairs.len() - 1 {
        assert(next.drop_last() =~= pairs.drop_last());
    } else {
        let init = pairs.drop_last();
        lemma_map_of_update(init, at, value);
        assert(next.drop_last() =~= init.update(at, (key, value)));
    }
}

/// Setting an entry sets the key in the map, and keeps the keys distinct.
pub proof fn lemma_pairs_set<V>(pairs: Seq<(Key, V)>, key: Key, value: V)
    ensures
        map_of(pairs_set(pairs, key, value)) == map_of(pairs).insert(key, value),
        distinct_keys(pairs) ==> distinct_keys(pairs_set(pairs, key, value)),
{
    lemma_last_with_key(pairs, key);
    let at = last_with_key(pairs, key);
    let next = pairs_set(pairs, key, value);
    if at >= 0 {
        lemma_map_of_update(pairs, at, value);
    } else {
        assert(next.drop_last() =~= pairs);
    }
}

} // verus!
