//! Registries keyed by device id: a list of entries in which each key
//! occurs at most once, with lookup and update-or-append.

use vstd::prelude::*;

verus! {

/// Whether some entry has key `k`.
pub open spec fn has_key<V>(e: Seq<(Seq<char>, V)>, k: Seq<char>) -> bool {
    exists|i: int| 0 <= i < e.len() && (#[trigger] e[i]).0 == k
}

/// The position of the entry with key `k` (meaningful when `has_key`).
pub open spec fn key_position<V>(e: Seq<(Seq<char>, V)>, k: Seq<char>) -> int {
    choose|i: int| 0 <= i < e.len() && (#[trigger] e[i]).0 == k
}

/// No key occurs twice.
pub open spec fn distinct_keys<V>(e: Seq<(Seq<char>, V)>) -> bool {
    forall|i: int, j: int| 0 <= i < j < e.len() ==> (#[trigger] e[i]).0 != (#[trigger] e[j]).0
}

/// The value recorded for key `k`, if any.
pub open spec fn lookup<V>(e: Seq<(Seq<char>, V)>, k: Seq<char>) -> Option<V> {
    if has_key(e, k) {
        Some(e[key_position(e, k)].1)
    } else {
        None
    }
}

/// Records `v` for `k`: the entry of `k` is updated in place when present,
/// otherwise a new entry is appended.
pub open spec fn upsert<V>(e: Seq<(Seq<char>, V)>, k: Seq<char>, v: V) -> Seq<(Seq<char>, V)> {
    if has_key(e, k) {
        e.update(key_position(e, k), (k, v))
    } else {
        e.push((k, v))
    }
}

/// Law: recording a value keeps the keys distinct, a lookup of the recorded
/// key gives back the recorded value, and the values of all other keys are
/// unchanged.
pub proof fn lemma_upsert_lookup<V>(e: Seq<(Seq<char>, V)>, k: Seq<char>, v: V, other: Seq<char>)
    requires
        distinct_keys(e),
    ensures
        distinct_keys(upsert(e, k, v)),
        lookup(upsert(e, k, v), k) == Some(v),
        other != k ==> lookup(upsert(e, k, v), other) == lookup(e, other),
        upsert(e, k, v).len() == if has_key(e, k) { e.len() } else { e.len() + 1 },
{
    let u = upsert(e, k, v);
    if has_key(e, k) {
        let p = key_position(e, k);
        assert(u[p].0 == k);
        assert(has_key(u, k));
        let q = key_position(u, k);
        assert(q == p) by {
            if q != p {
                assert(u[q].0 == e[q].0);
                if q < p {
                    assert(e[q].0 != e[p].0);
                } else {
                    assert(e[p].0 != e[q].0);
                }
            }
        }
        if has_key(e, other) && other != k {
            let r = key_position(e, other);
            assert(u[r] == e[r]);
            assert(has_key(u, other));
            let s = key_position(u, other);
            assert(s == r) by {
                if s != r {
                    assert(u[s].0 == other);
                    assert(s != p);
                    assert(u[s] == e[s]);
                    if s < r {
                        assert(e[s].0 != e[r].0);
                    } else {
                        assert(e[r].0 != e[s].0);
                    }
                }
            }
        }
        if !has_key(e, other) && other != k {
            if has_key(u, other) {
                let s = key_position(u, other);
                assert(s != p);
                assert(u[s] == e[s]);
            }
        }
    } else {
        let n = e.len() as int;
        assert(u[n].0 == k);
        assert(has_key(u, k));
        let q = key_position(u, k);
        assert(q == n) by {
            if q != n {
                assert(u[q] == e[q]);
            }
        }
        if has_key(e, other) && other != k {
            let r = key_position(e, other);
            assert(u[r] == e[r]);
            assert(has_key(u, other));
            let s = key_position(u, other);
            assert(s == r) by {
                if s != r {
                    assert(s != n);
                    assert(u[s] == e[s]);
                    if s < r {
                        assert(e[s].0 != e[r].0);
                    } else {
                        assert(e[r].0 != e[s].0);
                    }
                }
            }
        }
        if !has_key(e, other) && other != k {
            if has_key(u, other) {
                let s = key_position(u, other);
                assert(s != n);
                assert(u[s] == e[s]);
            }
        }
    }
}

/// The entries of a registry, each key taken as its characters.
pub open spec fn keyed<V>(entries: Seq<(String, V)>) -> Seq<(Seq<char>, V)> {
    entries.map_values(|p: (String, V)| (p.0@, p.1))
}

/// The position of the entry with key `key`, if any.
pub fn entry_position<V>(entries: &Vec<(String, V)>, key: &str) -> (pos: Option<usize>)
    requires
        distinct_keys(keyed(entries@)),
    ensures
        match pos {
            Some(i) => has_key(keyed(entries@), key@) && i as int == key_position(keyed(entries@), key@)
                && i < entries@.len(),
            None => !has_key(keyed(entries@), key@),
        },
{
    let ghost e = keyed(entries@);
    let k = String::from_str(key);
    let n = entries.len();
    let mut i: usize = 0;
    while i < n
        invariant
            n == entries@.len(),
            i <= n,
            e == keyed(entries@),
            distinct_keys(e),
            k@ == key@,
            forall|j: int| 0 <= j < i ==> (#[trigger] e[j]).0 != key@,
        decreases n - i,
    {
        assert(e[i as int].0 == entries@[i as int].0@);
        if entries[i].0 == k {
            proof {
                assert(has_key(e, key@));
                let p = key_position(e, key@);
                if p != i && p > i {
                    assert(e[i as int].0 != e[p].0);
                }
            }
            return Some(i);
        }
        i = i + 1;
    }
    None
}

/// The value recorded for `key`, if any.
pub fn entry_value<V: Copy>(entries: &Vec<(String, V)>, key: &str) -> (value: Option<V>)
    requires
        distinct_keys(keyed(entries@)),
    ensures
        value == lookup(keyed(entries@), key@),
{
    match entry_position(entries, key) {
        Some(i) => Some(entries[i].1),
        None => None,
    }
}

/// Records `value` for `key`: the entry of `key` is updated in place when
/// present, otherwise a new entry is appended.
pub fn upsert_entry<V>(entries: &mut Vec<(String, V)>, key: &str, value: V)
    requires
        distinct_keys(keyed(old(entries)@)),
    ensures
        keyed(final(entries)@) == upsert(keyed(old(entries)@), key@, value),
        distinct_keys(keyed(final(entries)@)),
{
    let ghost e = keyed(entries@);
    let k = String::from_str(key);
    proof {
        lemma_upsert_lookup(e, key@, value, key@);
    }
    match entry_position(entries, key) {
        Some(i) => {
            entries.set(i, (k, value));
            assert(keyed(entries@) =~= upsert(e, key@, value));
        },
        None => {
            entries.push((k, value));
            assert(keyed(entries@) =~= upsert(e, key@, value));
        },
    }
}

} // verus!
