//! Maps keyed by environment name, kept as sequences of entries whose keys are distinct.

use vstd::prelude::*;

verus! {

/// No key occurs twice among the entries.
pub open spec fn keys_distinct<V>(entries: Seq<(Seq<char>, V)>) -> bool {
    forall|i: int, j: int|
        0 <= i < entries.len() && 0 <= j < entries.len() && i != j ==> #[trigger] entries[i].0
            != #[trigger] entries[j].0
}

/// Some entry has the key `k`.
pub open spec fn has_key<V>(entries: Seq<(Seq<char>, V)>, k: Seq<char>) -> bool {
    exists|i: int| 0 <= i < entries.len() && #[trigger] entries[i].0 == k
}

/// The map that the entries describe: each key to the value of its entry.
pub open spec fn entries_map<V>(entries: Seq<(Seq<char>, V)>) -> Map<Seq<char>, V> {
    Map::new(
        |k: Seq<char>| has_key(entries, k),
        |k: Seq<char>| entries[choose|i: int| 0 <= i < entries.len() && #[trigger] entries[i].0 == k].1,
    )
}

/// The entry at `i` is what the map holds for its key.
pub proof fn lemma_entry_in_map<V>(entries: Seq<(Seq<char>, V)>, i: int)
    requires
        keys_distinct(entries),
        0 <= i < entries.len(),
    ensures
        entries_map(entries).contains_key(entries[i].0),
        entries_map(entries)[entries[i].0] == entries[i].1,
{
    let k = entries[i].0;
    assert(has_key(entries, k));
    let j = choose|j: int| 0 <= j < entries.len() && #[trigger] entries[j].0 == k;
    assert(entries[j].0 == entries[i].0);
}

/// A key that no entry has is not in the map.
pub proof fn lemma_absent_key<V>(entries: Seq<(Seq<char>, V)>, k: Seq<char>)
    requires
        forall|i: int| 0 <= i < entries.len() ==> #[trigger] entries[i].0 != k,
    ensures
        !entries_map(entries).contains_key(k),
{
}

/// The empty sequence describes the empty map.
pub proof fn lemma_empty_entries<V>()
    ensures
        keys_distinct(Seq::<(Seq<char>, V)>::empty()),
        entries_map(Seq::<(Seq<char>, V)>::empty()) == Map::<Seq<char>, V>::empty(),
{
    assert(entries_map(Seq::<(Seq<char>, V)>::empty()) =~= Map::<Seq<char>, V>::empty());
}

/// Appending an entry with a new key inserts that key into the map.
pub proof fn lemma_push_new_key<V>(entries: Seq<(Seq<char>, V)>, k: Seq<char>, v: V)
    requires
        keys_distinct(entries),
        !entries_map(entries).contains_key(k),
    ensures
        keys_distinct(entries.push((k, v))),
        entries_map(entries.push((k, v))) == entries_map(entries).insert(k, v),
{
    let s = entries.push((k, v));
    assert forall|i: int| 0 <= i < entries.len() implies #[trigger] entries[i].0 != k by {
        if entries[i].0 == k {
            assert(has_key(entries, k));
        }
    }
    assert(keys_distinct(s));
    let m = entries_map(entries).insert(k, v);
    assert forall|key: Seq<char>| #[trigger] entries_map(s).contains_key(key) <==> m.contains_key(key) by {
        if has_key(s, key) {
            let i = choose|i: int| 0 <= i < s.len() && #[trigger] s[i].0 == key;
            if i < entries.len() {
                assert(entries[i].0 == key);
                assert(has_key(entries, key));
            }
        }
        if has_key(entries, key) {
            let i = choose|i: int| 0 <= i < entries.len() && #[trigger] entries[i].0 == key;
            assert(s[i].0 == key);
        }
        if key == k {
            assert(s[entries.len() as int].0 == k);
        }
    }
    assert forall|key: Seq<char>| #[trigger] entries_map(s).contains_key(key) implies entries_map(s)[key]
        == m[key] by {
        let i = choose|i: int| 0 <= i < s.len() && #[trigger] s[i].0 == key;
        lemma_entry_in_map(s, i);
        if i < entries.len() {
            lemma_entry_in_map(entries, i);
        }
    }
    assert(entries_map(s) =~= m);
}

/// Replacing the value of the entry at `i` sets its key to the new value in the map.
pub proof fn lemma_update_entry<V>(entries: Seq<(Seq<char>, V)>, i: int, v: V)
    requires
        keys_distinct(entries),
        0 <= i < entries.len(),
    ensures
        keys_distinct(entries.update(i, (entries[i].0, v))),
        entries_map(entries.update(i, (entries[i].0, v))) == entries_map(entries).insert(
            entries[i].0,
            v,
        ),
{
    let k = entries[i].0;
    let s = entries.update(i, (k, v));
    assert forall|a: int, b: int|
        0 <= a < s.len() && 0 <= b < s.len() && a != b implies #[trigger] s[a].0 != #[trigger] s[b].0 by {
        assert(s[a].0 == entries[a].0);
        assert(s[b].0 == entries[b].0);
    }
    lemma_entry_in_map(entries, i);
    let m = entries_map(entries).insert(k, v);
    assert forall|key: Seq<char>| #[trigger] entries_map(s).contains_key(key) <==> m.contains_key(key) by {
        if has_key(s, key) {
            let j = choose|j: int| 0 <= j < s.len() && #[trigger] s[j].0 == key;
            assert(entries[j].0 == key);
            assert(has_key(entries, key));
        }
        if has_key(entries, key) {
            let j = choose|j: int| 0 <= j < entries.len() && #[trigger] entries[j].0 == key;
            assert(s[j].0 == key);
        }
        if key == k {
            assert(s[i].0 == k);
        }
    }
    assert forall|key: Seq<char>| #[trigger] entries_map(s).contains_key(key) implies entries_map(s)[key]
        == m[key] by {
        let j = choose|j: int| 0 <= j < s.len() && #[trigger] s[j].0 == key;
        lemma_entry_in_map(s, j);
        if j != i {
            lemma_entry_in_map(entries, j);
        }
    }
    assert(entries_map(s) =~= m);
}

/// Two entry sequences with the same keys in the same order describe maps with the
/// same keys, and each key maps to the value at the same position in both.
pub proof fn lemma_same_keys<A, B>(a: Seq<(Seq<char>, A)>, b: Seq<(Seq<char>, B)>)
    requires
        keys_distinct(a),
        a.len() == b.len(),
        forall|i: int| 0 <= i < a.len() ==> #[trigger] a[i].0 == b[i].0,
    ensures
        keys_distinct(b),
        entries_map(a).dom() == entries_map(b).dom(),
        forall|i: int|
            0 <= i < b.len() ==> #[trigger] entries_map(b)[b[i].0] == b[i].1 && entries_map(a)[a[i].0]
                == a[i].1,
{
    assert forall|i: int, j: int|
        0 <= i < b.len() && 0 <= j < b.len() && i != j implies #[trigger] b[i].0 != #[trigger] b[j].0 by {
        assert(a[i].0 != a[j].0);
    }
    assert forall|k: Seq<char>| #[trigger] entries_map(a).contains_key(k) <==> entries_map(b).contains_key(k) by {
        if has_key(a, k) {
            let i = choose|i: int| 0 <= i < a.len() && #[trigger] a[i].0 == k;
            assert(b[i].0 == k);
        }
        if has_key(b, k) {
            let i = choose|i: int| 0 <= i < b.len() && #[trigger] b[i].0 == k;
            assert(a[i].0 == k);
        }
    }
    assert(entries_map(a).dom() =~= entries_map(b).dom());
    assert forall|i: int| 0 <= i < b.len() implies #[trigger] entries_map(b)[b[i].0] == b[i].1
        && entries_map(a)[a[i].0] == a[i].1 by {
        lemma_entry_in_map(a, i);
        lemma_entry_in_map(b, i);
    }
}

} // verus!
