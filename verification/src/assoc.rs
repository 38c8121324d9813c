//! Association lists keyed by text: the mathematical model behind the
//! manifest's tool table, a tool's per-platform files and the version ledger.

use vstd::prelude::*;

verus! {

/// A list of `(key, value)` entries, in insertion order.
pub type Entries<V> = Seq<(Seq<char>, V)>;

/// Index of the first element of `s` that satisfies `p`.
pub open spec fn first_match<A>(s: Seq<A>, p: spec_fn(A) -> bool) -> Option<int>
    decreases s.len(),
{
    if s.len() == 0 {
        None
    } else if p(s[0]) {
        Some(0)
    } else {
        match first_match(s.drop_first(), p) {
            Some(i) => Some(i + 1),
            None => None,
        }
    }
}

/// `first_match` returns the least index whose element satisfies `p`, and
/// `None` exactly when no element does.
pub proof fn lemma_first_match<A>(s: Seq<A>, p: spec_fn(A) -> bool)
    ensures
        match first_match(s, p) {
            Some(i) => 0 <= i < s.len() && p(s[i]) && forall|j: int| 0 <= j < i ==> !p(#[trigger] s[j]),
            None => forall|j: int| 0 <= j < s.len() ==> !p(#[trigger] s[j]),
        },
    decreases s.len(),
{
    if s.len() > 0 && !p(s[0]) {
        let rest = s.drop_first();
        lemma_first_match(rest, p);
        match first_match(rest, p) {
            Some(i) => {
                assert forall|j: int| 0 <= j < i + 1 implies !p(#[trigger] s[j]) by {
                    if j > 0 {
                        assert(s[j] == rest[j - 1]);
                    }
                }
            },
            None => {
                assert forall|j: int| 0 <= j < s.len() implies !p(#[trigger] s[j]) by {
                    if j > 0 {
                        assert(s[j] == rest[j - 1]);
                    }
                }
            },
        }
    }
}

/// The predicate "this entry is stored under `key`".
pub open spec fn has_key<V>(key: Seq<char>) -> spec_fn((Seq<char>, V)) -> bool {
    |e: (Seq<char>, V)| e.0 == key
}

/// Index of the first entry stored under `key`.
pub open spec fn find_key<V>(s: Entries<V>, key: Seq<char>) -> Option<int> {
    first_match(s, has_key::<V>(key))
}

/// The value stored under `key`, if any.
pub open spec fn lookup<V>(s: Entries<V>, key: Seq<char>) -> Option<V> {
    match find_key(s, key) {
        Some(i) => Some(s[i].1),
        None => None,
    }
}

/// No key occurs twice.
pub open spec fn keys_distinct<V>(s: Entries<V>) -> bool {
    forall|i: int, j: int| 0 <= i < j < s.len() ==> (#[trigger] s[i]).0 != (#[trigger] s[j]).0
}

/// `s` after storing `value` under `key`: an entry already stored under
/// `key` keeps its place and gets the new value, a new key goes last.
pub open spec fn upsert<V>(s: Entries<V>, key: Seq<char>, value: V) -> Entries<V> {
    match find_key(s, key) {
        Some(i) => s.update(i, (s[i].0, value)),
        None => s.push((key, value)),
    }
}

/// `s` without the first entry stored under `key`.
pub open spec fn without_key<V>(s: Entries<V>, key: Seq<char>) -> Entries<V> {
    match find_key(s, key) {
        Some(i) => s.remove(i),
        None => s,
    }
}

/// The finite map that `s` denotes: each key with the value of its first entry.
pub open spec fn to_map<V>(s: Entries<V>) -> Map<Seq<char>, V> {
    Map::new(|k: Seq<char>| find_key(s, k) is Some, |k: Seq<char>| s[find_key(s, k).unwrap()].1)
}

/// What `find_key` returns, spelled out.
pub proof fn lemma_find_key<V>(s: Entries<V>, key: Seq<char>)
    ensures
        match find_key(s, key) {
            Some(i) => 0 <= i < s.len() && s[i].0 == key && forall|j: int|
                0 <= j < i ==> (#[trigger] s[j]).0 != key,
            None => forall|j: int| 0 <= j < s.len() ==> (#[trigger] s[j]).0 != key,
        },
{
    lemma_first_match(s, has_key::<V>(key));
}

/// In a list with distinct keys, the entry at `i` is the one `find_key`
/// finds for its key.
pub proof fn lemma_find_key_at<V>(s: Entries<V>, i: int)
    requires
        keys_distinct(s),
        0 <= i < s.len(),
    ensures
        find_key(s, s[i].0) == Some(i),
{
    lemma_find_key(s, s[i].0);
}

/// Storing a value keeps the keys distinct and changes the denoted map by
/// one `insert`.
pub proof fn lemma_upsert<V>(s: Entries<V>, key: Seq<char>, value: V)
    requires
        keys_distinct(s),
    ensures
        keys_distinct(upsert(s, key, value)),
        to_map(upsert(s, key, value)) == to_map(s).insert(key, value),
        forall|k: Seq<char>|
            lookup(upsert(s, key, value), k) == if k == key {
                Some(value)
            } else {
                lookup(s, k)
            },
{
    let t = upsert(s, key, value);
    lemma_find_key(s, key);
    assert forall|k: Seq<char>|
        lookup(t, k) == if k == key {
            Some(value)
        } else {
            lookup(s, k)
        } by {
        lemma_find_key(s, k);
        lemma_find_key(t, k);
        match find_key(s, key) {
            Some(i) => {
                assert(forall|j: int| 0 <= j < s.len() ==> (#[trigger] t[j]).0 == s[j].0);
                match find_key(s, k) {
                    Some(a) => {
                        assert(t[a].0 == k);
                        let b = find_key(t, k).unwrap();
                        assert(s[b].0 == k);
                    },
                    None => {
                        if find_key(t, k) is Some {
                            let b = find_key(t, k).unwrap();
                            assert(s[b].0 == k);
                        }
                    },
                }
            },
            None => {
                assert(forall|j: int| 0 <= j < s.len() ==> (#[trigger] t[j]) == s[j]);
                assert(t[s.len() as int] == (key, value));
                match find_key(s, k) {
                    Some(a) => {
                        assert(t[a].0 == k);
                        let b = find_key(t, k).unwrap();
                        if b < s.len() {
                            assert(s[b].0 == k);
                        }
                    },
                    None => {
                        if find_key(t, k) is Some {
                            let b = find_key(t, k).unwrap();
                            if b < s.len() {
                                assert(s[b].0 == k);
                            }
                        }
                    },
                }
            },
        }
    }
    assert(to_map(t) =~= to_map(s).insert(key, value)) by {
        assert forall|k: Seq<char>| to_map(t).dom().contains(k) <==> to_map(s).insert(
            key,
            value,
        ).dom().contains(k) by {
            assert(lookup(t, k) == if k == key {
                Some(value)
            } else {
                lookup(s, k)
            });
        }
        assert forall|k: Seq<char>| to_map(t).dom().contains(k) implies to_map(t)[k] == to_map(
            s,
        ).insert(key, value)[k] by {
            assert(lookup(t, k) == if k == key {
                Some(value)
            } else {
                lookup(s, k)
            });
        }
    }
}

/// Dropping a key keeps the keys distinct and changes the denoted map by one
/// `remove`.
pub proof fn lemma_without_key<V>(s: Entries<V>, key: Seq<char>)
    requires
        keys_distinct(s),
    ensures
        keys_distinct(without_key(s, key)),
        to_map(without_key(s, key)) == to_map(s).remove(key),
        forall|k: Seq<char>|
            lookup(without_key(s, key), k) == if k == key {
                None
            } else {
                lookup(s, k)
            },
{
    let t = without_key(s, key);
    lemma_find_key(s, key);
    assert forall|k: Seq<char>|
        lookup(t, k) == if k == key {
            None
        } else {
            lookup(s, k)
        } by {
        lemma_find_key(s, k);
        lemma_find_key(t, k);
        match find_key(s, key) {
            Some(i) => {
                assert(forall|j: int| 0 <= j < i ==> (#[trigger] t[j]) == s[j]);
                assert(forall|j: int| i <= j < t.len() ==> (#[trigger] t[j]) == s[j + 1]);
                if find_key(t, k) is Some {
                    let b = find_key(t, k).unwrap();
                    let b0 = if b < i { b } else { b + 1 };
                    assert(s[b0].0 == k);
                }
                match find_key(s, k) {
                    Some(a) => {
                        if a != i {
                            let a1 = if a < i { a } else { a - 1 };
                            assert(t[a1].0 == k);
                            let b = find_key(t, k).unwrap();
                            let b0 = if b < i { b } else { b + 1 };
                            assert(s[b0].0 == k);
                        }
                    },
                    None => {},
                }
            },
            None => {},
        }
    }
    assert(to_map(t) =~= to_map(s).remove(key)) by {
        assert forall|k: Seq<char>| to_map(t).dom().contains(k) <==> to_map(s).remove(
            key,
        ).dom().contains(k) by {
            assert(lookup(t, k) == if k == key {
                None
            } else {
                lookup(s, k)
            });
        }
        assert forall|k: Seq<char>| to_map(t).dom().contains(k) implies to_map(t)[k] == to_map(
            s,
        ).remove(key)[k] by {
            assert(lookup(t, k) == if k == key {
                None
            } else {
                lookup(s, k)
            });
        }
    }
}

} // verus!
