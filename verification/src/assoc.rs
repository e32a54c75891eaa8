use vstd::prelude::*;

verus! {

/// The map that parallel key and value sequences describe: each key maps to the
/// value at its position.
pub open spec fn assoc_map<K, V>(keys: Seq<K>, values: Seq<V>) -> Map<K, V> {
    Map::new(|k: K| keys.contains(k), |k: K| values[keys.index_of(k)])
}

/// Parallel sequences with no key twice.
pub open spec fn assoc_wf<K, V>(keys: Seq<K>, values: Seq<V>) -> bool {
    keys.len() == values.len() && keys.no_duplicates()
}

/// In a sequence without repeats, an element is found at its own position.
pub proof fn lemma_index_of_distinct<K>(keys: Seq<K>, i: int)
    requires
        keys.no_duplicates(),
        0 <= i < keys.len(),
    ensures
        keys.contains(keys[i]),
        keys.index_of(keys[i]) == i,
{
    assert(keys.contains(keys[i]));
}

/// The key at position `i` maps to the value at position `i`.
pub proof fn lemma_assoc_lookup<K, V>(keys: Seq<K>, values: Seq<V>, i: int)
    requires
        assoc_wf(keys, values),
        0 <= i < keys.len(),
    ensures
        assoc_map(keys, values).contains_key(keys[i]),
        assoc_map(keys, values)[keys[i]] == values[i],
{
    lemma_index_of_distinct(keys, i);
}

/// Empty sequences describe the empty map.
pub proof fn lemma_assoc_empty<K, V>()
    ensures
        assoc_map(Seq::<K>::empty(), Seq::<V>::empty()) == Map::<K, V>::empty(),
{
    assert(assoc_map(Seq::<K>::empty(), Seq::<V>::empty()) =~= Map::<K, V>::empty());
}

/// Appending a new key and its value adds that pair to the map.
pub proof fn lemma_assoc_push<K, V>(keys: Seq<K>, values: Seq<V>, k: K, v: V)
    requires
        assoc_wf(keys, values),
        !keys.contains(k),
    ensures
        assoc_wf(keys.push(k), values.push(v)),
        assoc_map(keys.push(k), values.push(v)) == assoc_map(keys, values).insert(k, v),
{
    let nk = keys.push(k);
    let nv = values.push(v);
    assert(nk.no_duplicates()) by {
        assert forall|i: int, j: int| 0 <= i < nk.len() && 0 <= j < nk.len() && i != j
            implies nk[i] != nk[j] by {
            if i < keys.len() && j < keys.len() {
            } else if i < keys.len() {
                assert(keys.contains(keys[i]));
            } else {
                assert(keys.contains(keys[j]));
            }
        }
    }
    assert forall|x: K| #[trigger] assoc_map(nk, nv).contains_key(x)
        implies assoc_map(nk, nv)[x] == assoc_map(keys, values).insert(k, v)[x] by {
        let i = nk.index_of(x);
        lemma_index_of_distinct(nk, i);
        if i < keys.len() {
            lemma_index_of_distinct(keys, i);
        }
    }
    assert forall|x: K| #[trigger] assoc_map(keys, values).insert(k, v).contains_key(x)
        implies assoc_map(nk, nv).contains_key(x) by {
        if x != k {
            let i = keys.index_of(x);
            assert(nk[i] == x);
        } else {
            assert(nk[keys.len() as int] == k);
        }
    }
    assert(assoc_map(nk, nv) =~= assoc_map(keys, values).insert(k, v));
}

/// Replacing the value at position `i` gives the key there that value.
pub proof fn lemma_assoc_update<K, V>(keys: Seq<K>, values: Seq<V>, i: int, v: V)
    requires
        assoc_wf(keys, values),
        0 <= i < keys.len(),
    ensures
        assoc_wf(keys, values.update(i, v)),
        assoc_map(keys, values.update(i, v)) == assoc_map(keys, values).insert(keys[i], v),
{
    let nv = values.update(i, v);
    lemma_index_of_distinct(keys, i);
    assert forall|x: K| #[trigger] assoc_map(keys, nv).contains_key(x)
        implies assoc_map(keys, nv)[x] == assoc_map(keys, values).insert(keys[i], v)[x] by {
        let j = keys.index_of(x);
        lemma_index_of_distinct(keys, j);
    }
    assert(assoc_map(keys, nv) =~= assoc_map(keys, values).insert(keys[i], v));
}

/// Removing position `i` from both sequences removes its key from the map.
pub proof fn lemma_assoc_remove<K, V>(keys: Seq<K>, values: Seq<V>, i: int)
    requires
        assoc_wf(keys, values),
        0 <= i < keys.len(),
    ensures
        assoc_wf(keys.remove(i), values.remove(i)),
        assoc_map(keys.remove(i), values.remove(i)) == assoc_map(keys, values).remove(keys[i]),
{
    let nk = keys.remove(i);
    let nv = values.remove(i);
    keys.remove_ensures(i);
    values.remove_ensures(i);
    assert(nk.no_duplicates()) by {
        assert forall|a: int, b: int| 0 <= a < nk.len() && 0 <= b < nk.len() && a != b
            implies nk[a] != nk[b] by {
            let a2 = if a < i { a } else { a + 1 };
            let b2 = if b < i { b } else { b + 1 };
            assert(nk[a] == keys[a2]);
            assert(nk[b] == keys[b2]);
        }
    }
    assert forall|x: K| #[trigger] assoc_map(nk, nv).contains_key(x)
        implies assoc_map(keys, values).remove(keys[i]).contains_key(x)
            && assoc_map(nk, nv)[x] == assoc_map(keys, values).remove(keys[i])[x] by {
        let a = nk.index_of(x);
        lemma_index_of_distinct(nk, a);
        let a2 = if a < i { a } else { a + 1 };
        assert(nk[a] == keys[a2]);
        lemma_index_of_distinct(keys, a2);
        assert(keys.contains(x));
    }
    assert forall|x: K| #[trigger] assoc_map(keys, values).remove(keys[i]).contains_key(x)
        implies assoc_map(nk, nv).contains_key(x) by {
        let j = keys.index_of(x);
        lemma_index_of_distinct(keys, j);
        assert(j != i);
        let j2 = if j < i { j } else { j - 1 };
        assert(nk[j2] == x);
    }
    assert(assoc_map(nk, nv) =~= assoc_map(keys, values).remove(keys[i]));
}

} // verus!

verus! {

/// The keys of the map are the members of the key sequence, and there are as
/// many of them as positions.
pub proof fn lemma_assoc_dom<K, V>(keys: Seq<K>, values: Seq<V>)
    requires
        assoc_wf(keys, values),
    ensures
        assoc_map(keys, values).dom() == keys.to_set(),
        assoc_map(keys, values).dom().len() == keys.len(),
{
    assert(assoc_map(keys, values).dom() =~= keys.to_set());
    keys.unique_seq_to_set();
}

} // verus!
