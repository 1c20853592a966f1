//! Sequences of key and value pairs with unique keys, seen as maps.
use vstd::prelude::*;

verus! {

/// No key occurs twice.
pub open spec fn keys_unique<V>(s: Seq<(Seq<char>, V)>) -> bool {
    forall|i: int, j: int| 0 <= i < s.len() && 0 <= j < s.len() && i != j ==> s[i].0 != s[j].0
}

/// The key occurs in the entries.
pub open spec fn has_key<V>(s: Seq<(Seq<char>, V)>, k: Seq<char>) -> bool {
    exists|i: int| 0 <= i < s.len() && s[i].0 == k
}

/// The entries as a map from key to position.
pub open spec fn entries_map<V>(s: Seq<(Seq<char>, V)>) -> Map<Seq<char>, V> {
    Map::new(
        |k: Seq<char>| has_key(s, k),
        |k: Seq<char>| s[choose|i: int| 0 <= i < s.len() && s[i].0 == k].1,
    )
}

pub proof fn lemma_entries_map_at<V>(s: Seq<(Seq<char>, V)>, i: int)
    requires
        keys_unique(s),
        0 <= i < s.len(),
    ensures
        entries_map(s).contains_key(s[i].0),
        entries_map(s)[s[i].0] == s[i].1,
{
    let k = s[i].0;
    assert(has_key(s, k));
    let j = choose|j: int| 0 <= j < s.len() && s[j].0 == k;
    assert(j == i);
}

pub proof fn lemma_entries_map_update<V>(s: Seq<(Seq<char>, V)>, i: int, v: V)
    requires
        keys_unique(s),
        0 <= i < s.len(),
    ensures
        keys_unique(s.update(i, (s[i].0, v))),
        entries_map(s.update(i, (s[i].0, v))) == entries_map(s).insert(s[i].0, v),
{
    let t = s.update(i, (s[i].0, v));
    let k = s[i].0;
    assert(keys_unique(t));
    assert forall|key: Seq<char>| has_key(t, key) <==> has_key(s, key) || key == k by {
        if has_key(s, key) {
            let j = choose|j: int| 0 <= j < s.len() && s[j].0 == key;
            assert(t[j].0 == key);
        }
        if has_key(t, key) {
            let j = choose|j: int| 0 <= j < t.len() && t[j].0 == key;
            assert(s[j].0 == key);
        }
        if key == k {
            assert(t[i].0 == key);
        }
    }
    assert forall|key: Seq<char>| #[trigger] entries_map(t).contains_key(key) implies entries_map(t)[key]
        == entries_map(s).insert(k, v)[key] by {
        let j = choose|j: int| 0 <= j < t.len() && t[j].0 == key;
        if key == k {
            assert(j == i);
        } else {
            assert(has_key(s, key));
            let j2 = choose|j2: int| 0 <= j2 < s.len() && s[j2].0 == key;
            assert(j2 == j);
        }
    }
    assert(entries_map(t) =~= entries_map(s).insert(k, v));
}

pub proof fn lemma_entries_map_push<V>(s: Seq<(Seq<char>, V)>, k: Seq<char>, v: V)
    requires
        keys_unique(s),
        !has_key(s, k),
    ensures
        keys_unique(s.push((k, v))),
        entries_map(s.push((k, v))) == entries_map(s).insert(k, v),
{
    let t = s.push((k, v));
    assert(keys_unique(t));
    assert forall|key: Seq<char>| has_key(t, key) <==> has_key(s, key) || key == k by {
        if has_key(s, key) {
            let j = choose|j: int| 0 <= j < s.len() && s[j].0 == key;
            assert(t[j].0 == key);
        }
        if has_key(t, key) {
            let j = choose|j: int| 0 <= j < t.len() && t[j].0 == key;
            if j < s.len() {
                assert(s[j].0 == key);
            }
        }
        if key == k {
            assert(t[s.len() as int].0 == key);
        }
    }
    assert forall|key: Seq<char>| #[trigger] entries_map(t).contains_key(key) implies entries_map(t)[key]
        == entries_map(s).insert(k, v)[key] by {
        let j = choose|j: int| 0 <= j < t.len() && t[j].0 == key;
        if key == k {
            assert(j == s.len());
        } else {
            assert(j < s.len());
            assert(has_key(s, key));
            let j2 = choose|j2: int| 0 <= j2 < s.len() && s[j2].0 == key;
            assert(j2 == j);
        }
    }
    assert(entries_map(t) =~= entries_map(s).insert(k, v));
}

pub proof fn lemma_entries_map_remove<V>(s: Seq<(Seq<char>, V)>, i: int)
    requires
        keys_unique(s),
        0 <= i < s.len(),
    ensures
        keys_unique(s.remove(i)),
        entries_map(s.remove(i)) == entries_map(s).remove(s[i].0),
{
    let t = s.remove(i);
    let k = s[i].0;
    assert forall|a: int, b: int| 0 <= a < t.len() && 0 <= b < t.len() && a != b implies t[a].0 != t[b].0 by {
        let a2 = if a < i { a } else { a + 1 };
        let b2 = if b < i { b } else { b + 1 };
        assert(t[a] == s[a2]);
        assert(t[b] == s[b2]);
    }
    assert forall|key: Seq<char>| has_key(t, key) <==> has_key(s, key) && key != k by {
        if has_key(t, key) {
            let j = choose|j: int| 0 <= j < t.len() && t[j].0 == key;
            let j2 = if j < i { j } else { j + 1 };
            assert(s[j2].0 == key);
            assert(j2 != i);
        }
        if has_key(s, key) && key != k {
            let j = choose|j: int| 0 <= j < s.len() && s[j].0 == key;
            assert(j != i);
            let j2 = if j < i { j } else { j - 1 };
            assert(t[j2].0 == key);
        }
    }
    assert forall|key: Seq<char>| #[trigger] entries_map(t).contains_key(key) implies entries_map(t)[key]
        == entries_map(s).remove(k)[key] by {
        let j = choose|j: int| 0 <= j < t.len() && t[j].0 == key;
        let j2 = if j < i { j } else { j + 1 };
        assert(s[j2] == t[j]);
        let j3 = choose|j3: int| 0 <= j3 < s.len() && s[j3].0 == key;
        assert(j3 == j2);
    }
    assert(entries_map(t) =~= entries_map(s).remove(k));
}

} // verus!
