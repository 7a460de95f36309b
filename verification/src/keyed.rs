use vstd::prelude::*;

verus! {

/// The map that a sequence of entries stands for, when `keys[i]` is the key
/// of `vals[i]` and no key occurs twice.
pub open spec fn keyed<V>(keys: Seq<Seq<char>>, vals: Seq<V>) -> Map<Seq<char>, V> {
    Map::new(|t: Seq<char>| keys.contains(t), |t: Seq<char>| vals[keys.index_of(t)])
}

/// Each entry of the sequence is an entry of the map, and the map has no
/// other keys.
pub proof fn lemma_keyed_entries<V>(keys: Seq<Seq<char>>, vals: Seq<V>)
    requires
        keys.no_duplicates(),
        keys.len() == vals.len(),
    ensures
        forall|i: int|
            0 <= i < keys.len() ==> keyed(keys, vals).dom().contains(#[trigger] keys[i]) && keyed(
                keys,
                vals,
            )[keys[i]] == vals[i],
        forall|t: Seq<char>| #[trigger] keyed(keys, vals).dom().contains(t) <==> keys.contains(t),
{
    assert forall|i: int| 0 <= i < keys.len() implies keyed(keys, vals).dom().contains(
        #[trigger] keys[i],
    ) && keyed(keys, vals)[keys[i]] == vals[i] by {
        assert(keys.contains(keys[i]));
        let j = keys.index_of(keys[i]);
        assert(0 <= j < keys.len() && keys[j] == keys[i]);
    }
}

/// A map with exactly the sequence's entries is the map that the sequence
/// stands for.
pub proof fn lemma_keyed_is<V>(keys: Seq<Seq<char>>, vals: Seq<V>, m: Map<Seq<char>, V>)
    requires
        keys.no_duplicates(),
        keys.len() == vals.len(),
        forall|i: int|
            0 <= i < keys.len() ==> m.dom().contains(#[trigger] keys[i]) && m[keys[i]] == vals[i],
        forall|t: Seq<char>| #[trigger] m.dom().contains(t) ==> keys.contains(t),
    ensures
        keyed(keys, vals) == m,
{
    lemma_keyed_entries(keys, vals);
    assert forall|t: Seq<char>| keyed(keys, vals).dom().contains(t) implies #[trigger] keyed(
        keys,
        vals,
    )[t] == m[t] by {
        let i = keys.index_of(t);
        assert(0 <= i < keys.len() && keys[i] == t);
    }
    assert(keyed(keys, vals) =~= m);
}

/// Appending an entry under a new key inserts it into the map.
pub proof fn lemma_keyed_push<V>(keys: Seq<Seq<char>>, vals: Seq<V>, k: Seq<char>, v: V)
    requires
        keys.no_duplicates(),
        keys.len() == vals.len(),
        !keys.contains(k),
    ensures
        keys.push(k).no_duplicates(),
        keyed(keys.push(k), vals.push(v)) == keyed(keys, vals).insert(k, v),
{
    let keys2 = keys.push(k);
    let vals2 = vals.push(v);
    assert forall|i: int, j: int| 0 <= i < keys2.len() && 0 <= j < keys2.len() && i != j implies keys2[i]
        != keys2[j] by {
        if i < keys.len() {
            assert(keys.contains(keys[i]));
        }
        if j < keys.len() {
            assert(keys.contains(keys[j]));
        }
    }
    lemma_keyed_entries(keys, vals);
    let m = keyed(keys, vals).insert(k, v);
    assert forall|i: int| 0 <= i < keys2.len() implies m.dom().contains(#[trigger] keys2[i])
        && m[keys2[i]] == vals2[i] by {
        if i < keys.len() {
            assert(keys.contains(keys[i]));
            assert(keys2[i] == keys[i]);
        }
    }
    assert forall|t: Seq<char>| #[trigger] m.dom().contains(t) implies keys2.contains(t) by {
        if t == k {
            assert(keys2[keys.len() as int] == k);
        } else {
            let i = keys.index_of(t);
            assert(keys2[i] == t);
        }
    }
    lemma_keyed_is(keys2, vals2, m);
}

/// Dropping the entry at `i` removes its key from the map.
pub proof fn lemma_keyed_remove<V>(keys: Seq<Seq<char>>, vals: Seq<V>, i: int)
    requires
        keys.no_duplicates(),
        keys.len() == vals.len(),
        0 <= i < keys.len(),
    ensures
        keys.remove(i).no_duplicates(),
        keyed(keys.remove(i), vals.remove(i)) == keyed(keys, vals).remove(keys[i]),
{
    let keys2 = keys.remove(i);
    let vals2 = vals.remove(i);
    lemma_keyed_entries(keys, vals);
    let m = keyed(keys, vals).remove(keys[i]);
    assert forall|a: int| 0 <= a < keys2.len() implies m.dom().contains(#[trigger] keys2[a])
        && m[keys2[a]] == vals2[a] by {
        let b = if a < i { a } else { a + 1 };
        assert(keys2[a] == keys[b]);
        assert(vals2[a] == vals[b]);
    }
    assert forall|t: Seq<char>| #[trigger] m.dom().contains(t) implies keys2.contains(t) by {
        let b = keys.index_of(t);
        assert(0 <= b < keys.len() && keys[b] == t);
        let a = if b < i { b } else { b - 1 };
        assert(keys2[a] == t);
    }
    assert forall|a: int, c: int| 0 <= a < keys2.len() && 0 <= c < keys2.len() && a != c implies keys2[a]
        != keys2[c] by {
        let a1 = if a < i { a } else { a + 1 };
        let c1 = if c < i { c } else { c + 1 };
        assert(keys2[a] == keys[a1]);
        assert(keys2[c] == keys[c1]);
    }
    lemma_keyed_is(keys2, vals2, m);
}

/// Replacing the entry at `i` by one with the same key overwrites that key
/// in the map.
pub proof fn lemma_keyed_update<V>(keys: Seq<Seq<char>>, vals: Seq<V>, i: int, v: V)
    requires
        keys.no_duplicates(),
        keys.len() == vals.len(),
        0 <= i < keys.len(),
    ensures
        keyed(keys, vals.update(i, v)) == keyed(keys, vals).insert(keys[i], v),
{
    lemma_keyed_entries(keys, vals);
    let m = keyed(keys, vals).insert(keys[i], v);
    assert forall|t: Seq<char>| #[trigger] m.dom().contains(t) implies keys.contains(t) by {
        if t == keys[i] {
            assert(keys.contains(keys[i]));
        }
    }
    lemma_keyed_is(keys, vals.update(i, v), m);
}

} // verus!
