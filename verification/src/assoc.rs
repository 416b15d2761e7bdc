//! Lists of key-value pairs that stand for mappings.

use vstd::prelude::*;

verus! {

/// The mapping that a list of pairs stands for. Where a key occurs more than
/// once, its last value counts.
pub open spec fn map_of<K, V>(pairs: Seq<(K, V)>) -> Map<K, V>
    decreases pairs.len(),
{
    if pairs.len() == 0 {
        Map::empty()
    } else {
        map_of(pairs.drop_last()).insert(pairs.last().0, pairs.last().1)
    }
}

/// No two pairs have the same key.
pub open spec fn distinct_keys<K, V>(pairs: Seq<(K, V)>) -> bool {
    forall|i: int, j: int| 0 <= i < j < pairs.len() ==> pairs[i].0 != pairs[j].0
}

/// Every key of the mapping is the key of a pair.
pub proof fn lemma_map_of_keys<K, V>(pairs: Seq<(K, V)>, key: K)
    ensures
        map_of(pairs).contains_key(key) <==> exists|i: int|
            0 <= i < pairs.len() && (#[trigger] pairs[i]).0 == key,
    decreases pairs.len(),
{
    if pairs.len() > 0 {
        let front = pairs.drop_last();
        lemma_map_of_keys(front, key);
        if map_of(pairs).contains_key(key) {
            if pairs.last().0 == key {
                assert(pairs[pairs.len() - 1].0 == key);
            } else {
                let i = choose|i: int| 0 <= i < front.len() && (#[trigger] front[i]).0 == key;
                assert(pairs[i].0 == key);
            }
        }
        if exists|i: int| 0 <= i < pairs.len() && (#[trigger] pairs[i]).0 == key {
            let i = choose|i: int| 0 <= i < pairs.len() && (#[trigger] pairs[i]).0 == key;
            if i < front.len() {
                assert(front[i].0 == key);
            }
        }
    }
}

/// Where the keys are distinct, each pair's key is mapped to its value.
pub proof fn lemma_map_of_value<K, V>(pairs: Seq<(K, V)>, at: int)
    requires
        distinct_keys(pairs),
        0 <= at < pairs.len(),
    ensures
        map_of(pairs).contains_key(pairs[at].0),
        map_of(pairs)[pairs[at].0] == pairs[at].1,
    decreases pairs.len(),
{
    let front = pairs.drop_last();
    if at < pairs.len() - 1 {
        assert(distinct_keys(front)) by {
            assert forall|i: int, j: int| 0 <= i < j < front.len() implies front[i].0
                != front[j].0 by {
                assert(pairs[i].0 != pairs[j].0);
            }
        }
        lemma_map_of_value(front, at);
        assert(pairs[at].0 != pairs[pairs.len() - 1].0);
    }
}

/// Adding a pair with a new key at the end keeps the keys distinct and adds
/// the pair to the mapping.
pub proof fn lemma_map_of_push<K, V>(pairs: Seq<(K, V)>, key: K, value: V)
    requires
        distinct_keys(pairs),
        !map_of(pairs).contains_key(key),
    ensures
        distinct_keys(pairs.push((key, value))),
        map_of(pairs.push((key, value))) == map_of(pairs).insert(key, value),
{
    let longer = pairs.push((key, value));
    assert(longer.drop_last() =~= pairs);
    lemma_map_of_keys(pairs, key);
    assert forall|i: int, j: int| 0 <= i < j < longer.len() implies longer[i].0
        != longer[j].0 by {
        if j < pairs.len() {
            assert(pairs[i].0 != pairs[j].0);
        } else {
            assert(pairs[i].0 != key);
        }
    }
}

/// Replacing the value of one pair, where the keys are distinct, replaces
/// the value of its key in the mapping.
pub proof fn lemma_map_of_update<K, V>(pairs: Seq<(K, V)>, at: int, value: V)
    requires
        distinct_keys(pairs),
        0 <= at < pairs.len(),
    ensures
        distinct_keys(pairs.update(at, (pairs[at].0, value))),
        map_of(pairs.update(at, (pairs[at].0, value))) == map_of(pairs).insert(pairs[at].0, value),
{
    let key = pairs[at].0;
    let changed = pairs.update(at, (key, value));
    assert(distinct_keys(changed)) by {
        assert forall|i: int, j: int| 0 <= i < j < changed.len() implies changed[i].0
            != changed[j].0 by {
            assert(pairs[i].0 != pairs[j].0);
        }
    }
    let left = map_of(changed);
    let right = map_of(pairs).insert(key, value);
    assert forall|k: K| left.contains_key(k) <==> right.contains_key(k) by {
        lemma_map_of_keys(changed, k);
        lemma_map_of_keys(pairs, k);
        if left.contains_key(k) {
            let i = choose|i: int| 0 <= i < changed.len() && (#[trigger] changed[i]).0 == k;
            assert(pairs[i].0 == k);
        }
        if map_of(pairs).contains_key(k) {
            let i = choose|i: int| 0 <= i < pairs.len() && (#[trigger] pairs[i]).0 == k;
            assert(changed[i].0 == k);
        }
        if k == key {
            assert(changed[at].0 == k);
        }
    }
    assert forall|k: K| left.contains_key(k) implies left[k] == right[k] by {
        lemma_map_of_keys(changed, k);
        let i = choose|i: int| 0 <= i < changed.len() && (#[trigger] changed[i]).0 == k;
        lemma_map_of_value(changed, i);
        if i != at {
            assert(pairs[i].0 == k);
            lemma_map_of_value(pairs, i);
            if i < at {
                assert(pairs[i].0 != pairs[at].0);
            } else {
                assert(pairs[at].0 != pairs[i].0);
            }
        }
    }
    assert(left =~= right);
}

} // verus!
