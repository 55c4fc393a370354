//! Association lists with unique keys: the model of the runtime's
//! string-keyed and integer-keyed tables. Lookup is specified through
//! `has_key` / `val_of`, and every mutation states exactly which binding
//! changed and that all others kept their values.

use vstd::prelude::*;

use crate::strutil::str_eq;

verus! {

/// No two entries share a key.
pub open spec fn unique_keys<V>(s: Seq<(String, V)>) -> bool {
    forall|i: int, j: int| 0 <= i < j < s.len() ==> (#[trigger] s[i]).0@ != (#[trigger] s[j]).0@
}

/// Some entry has the given key.
pub open spec fn has_key<V>(s: Seq<(String, V)>, k: Seq<char>) -> bool {
    exists|i: int| 0 <= i < s.len() && (#[trigger] s[i]).0@ == k
}

/// The value bound to the given key (meaningful when `has_key` holds and
/// the keys are unique).
pub open spec fn val_of<V>(s: Seq<(String, V)>, k: Seq<char>) -> V {
    s[choose|i: int| 0 <= i < s.len() && (#[trigger] s[i]).0@ == k].1
}

/// The pair `x` occurs in `s`.
pub open spec fn entry_from<V>(s: Seq<(String, V)>, x: (String, V)) -> bool {
    exists|j0: int| 0 <= j0 < s.len() && (#[trigger] s[j0]) == x
}

/// Under unique keys, the entry found at index `i` is the binding that
/// `val_of` denotes.
pub proof fn lemma_unique_val<V>(s: Seq<(String, V)>, k: Seq<char>, i: int)
    requires
        unique_keys(s),
        0 <= i < s.len(),
        s[i].0@ == k,
    ensures
        has_key(s, k),
        val_of(s, k) == s[i].1,
{
    assert(has_key(s, k)) by {
        assert(0 <= i < s.len() && (s[i]).0@ == k);
    }
    let j = choose|j: int| 0 <= j < s.len() && (#[trigger] s[j]).0@ == k;
    if j != i {
        if j < i {
            assert((s[j]).0@ != (s[i]).0@);
        } else {
            assert((s[i]).0@ != (s[j]).0@);
        }
        assert(false);
    }
}

/// Finds the first entry with the given key, if any.
pub fn assoc_find<V>(entries: &Vec<(String, V)>, key: &str) -> (r: Option<usize>)
    ensures
        match r {
            Some(i) => i < entries@.len() && entries@[i as int].0@ == key@ && (forall|j: int|
                0 <= j < i ==> (#[trigger] entries@[j]).0@ != key@),
            None => !has_key(entries@, key@),
        },
{
    let n = entries.len();
    let mut i: usize = 0;
    while i < n
        invariant
            i <= n,
            n == entries@.len(),
            forall|j: int| 0 <= j < i ==> (#[trigger] entries@[j]).0@ != key@,
        decreases n - i,
    {
        if str_eq(entries[i].0.as_str(), key) {
            return Some(i);
        }
        i = i + 1;
    }
    None
}

/// Binds `key` to `val`, replacing any existing binding. Every other
/// binding keeps its value.
pub fn assoc_update<V>(entries: &mut Vec<(String, V)>, key: &str, val: V)
    requires
        unique_keys(old(entries)@),
    ensures
        unique_keys(final(entries)@),
        has_key(final(entries)@, key@),
        val_of(final(entries)@, key@) == val,
        forall|k2: Seq<char>|
            k2 != key@ ==> (#[trigger] has_key(final(entries)@, k2)) == has_key(old(entries)@, k2),
        forall|k2: Seq<char>|
            k2 != key@ && has_key(old(entries)@, k2) ==> #[trigger] val_of(final(entries)@, k2)
                == val_of(old(entries)@, k2),
        forall|j: int|
            0 <= j < final(entries)@.len() ==> ((#[trigger] final(entries)@[j]).0@ == key@
                && final(entries)@[j].1 == val) || entry_from(old(entries)@, final(entries)@[j]),
{
    let found = assoc_find(entries, key);
    match found {
        Some(i) => {
            let ghost prev = entries@;
            entries[i] = (key.to_owned(), val);
            proof {
                assert(entries@ =~= prev.update(i as int, entries@[i as int]));
                assert forall|a: int, b: int| 0 <= a < b < entries@.len() implies (#[trigger] entries@[a]).0@ != (#[trigger] entries@[b]).0@ by {
                    assert(prev[a].0@ != prev[b].0@);
                }
                lemma_unique_val(entries@, key@, i as int);
                assert forall|k2: Seq<char>| k2 != key@ implies (#[trigger] has_key(entries@, k2)) == has_key(prev, k2) by {
                    if has_key(entries@, k2) {
                        let j = choose|j: int|
                            0 <= j < entries@.len() && (#[trigger] entries@[j]).0@ == k2;
                        assert(j != i);
                        assert(prev[j].0@ == k2);
                    }
                    if has_key(prev, k2) {
                        let j = choose|j: int|
                            0 <= j < prev.len() && (#[trigger] prev[j]).0@ == k2;
                        assert(prev[i as int].0@ == key@);
                        assert(j != i);
                        assert(entries@[j].0@ == k2);
                    }
                }
                assert forall|k2: Seq<char>| k2 != key@ && has_key(prev, k2) implies #[trigger] val_of(entries@, k2) == val_of(prev, k2) by {
                    let j = choose|j: int| 0 <= j < prev.len() && (#[trigger] prev[j]).0@ == k2;
                    assert(prev[i as int].0@ == key@);
                    assert(j != i);
                    assert(entries@[j].0@ == k2);
                    lemma_unique_val(entries@, k2, j);
                    lemma_unique_val(prev, k2, j);
                }
                assert forall|j: int|
                    0 <= j < entries@.len() implies ((#[trigger] entries@[j]).0@ == key@
                        && entries@[j].1 == val) || entry_from(old(entries)@, entries@[j]) by {
                    if j != i {
                        assert(old(entries)@[j] == entries@[j]);
                    }
                }
            }
        },
        None => {
            let ghost prev = entries@;
            entries.push((key.to_owned(), val));
            proof {
                let n = prev.len() as int;
                assert(entries@[n].0@ == key@);
                assert forall|a: int, b: int| 0 <= a < b < entries@.len() implies (#[trigger] entries@[a]).0@ != (#[trigger] entries@[b]).0@ by {
                    if b < n {
                        assert(prev[a].0@ != prev[b].0@);
                    } else {
                        assert(entries@[a].0@ == prev[a].0@);
                        assert(!has_key(prev, key@));
                        if prev[a].0@ == key@ {
                            assert(has_key(prev, key@)) by {
                                assert(0 <= a < prev.len() && (prev[a]).0@ == key@);
                            }
                        }
                    }
                }
                lemma_unique_val(entries@, key@, n);
                assert forall|k2: Seq<char>| k2 != key@ implies (#[trigger] has_key(entries@, k2)) == has_key(prev, k2) by {
                    if has_key(entries@, k2) {
                        let j = choose|j: int|
                            0 <= j < entries@.len() && (#[trigger] entries@[j]).0@ == k2;
                        assert(j != n);
                        assert(prev[j].0@ == k2);
                    }
                    if has_key(prev, k2) {
                        let j = choose|j: int|
                            0 <= j < prev.len() && (#[trigger] prev[j]).0@ == k2;
                        assert(entries@[j].0@ == k2);
                    }
                }
                assert forall|k2: Seq<char>| k2 != key@ && has_key(prev, k2) implies #[trigger] val_of(entries@, k2) == val_of(prev, k2) by {
                    let j = choose|j: int| 0 <= j < prev.len() && (#[trigger] prev[j]).0@ == k2;
                    assert(entries@[j].0@ == k2);
                    lemma_unique_val(entries@, k2, j);
                    lemma_unique_val(prev, k2, j);
                }
                assert forall|j: int|
                    0 <= j < entries@.len() implies ((#[trigger] entries@[j]).0@ == key@
                        && entries@[j].1 == val) || entry_from(old(entries)@, entries@[j]) by {
                    if j != prev.len() {
                        assert(old(entries)@[j] == entries@[j]);
                    }
                }
            }
        },
    }
}

/// Removes the binding of `key`, if present. Every other binding keeps
/// its value.
pub fn assoc_remove<V>(entries: &mut Vec<(String, V)>, key: &str)
    requires
        unique_keys(old(entries)@),
    ensures
        unique_keys(final(entries)@),
        !has_key(final(entries)@, key@),
        forall|k2: Seq<char>|
            k2 != key@ ==> (#[trigger] has_key(final(entries)@, k2)) == has_key(old(entries)@, k2),
        forall|k2: Seq<char>|
            k2 != key@ && has_key(old(entries)@, k2) ==> #[trigger] val_of(final(entries)@, k2)
                == val_of(old(entries)@, k2),
        forall|j: int|
            0 <= j < final(entries)@.len() ==> entry_from(
                old(entries)@,
                #[trigger] final(entries)@[j],
            ),
{
    let found = assoc_find(entries, key);
    match found {
        Some(i) => {
            let ghost prev = entries@;
            let _ = entries.remove(i);
            proof {
                let n = prev.len() as int;
                assert(entries@ =~= prev.remove(i as int));
                // an index of the shortened list names the same entry of the
                // old list, shifted past the removal point
                assert forall|a: int, b: int| 0 <= a < b < entries@.len() implies (#[trigger] entries@[a]).0@ != (#[trigger] entries@[b]).0@ by {
                    let a0 = if a < i { a } else { a + 1 };
                    let b0 = if b < i { b } else { b + 1 };
                    assert(final(entries)@[a] == prev[a0]);
                    assert(final(entries)@[b] == prev[b0]);
                    assert(prev[a0].0@ != prev[b0].0@);
                }
                assert forall|k2: Seq<char>| has_key(entries@, k2) implies has_key(prev, k2) && k2 != key@ by {
                    let j = choose|j: int|
                        0 <= j < entries@.len() && (#[trigger] entries@[j]).0@ == k2;
                    let j0 = if j < i { j } else { j + 1 };
                    assert(entries@[j] == prev[j0]);
                    assert(prev[j0].0@ == k2);
                    if k2 == key@ {
                        if j0 < i {
                            assert(prev[j0].0@ != prev[i as int].0@);
                        } else {
                            assert(prev[i as int].0@ != prev[j0].0@);
                        }
                        assert(false);
                    }
                }
                assert forall|k2: Seq<char>| k2 != key@ && has_key(prev, k2) implies has_key(entries@, k2) && val_of(entries@, k2) == val_of(prev, k2) by {
                    let j = choose|j: int| 0 <= j < prev.len() && (#[trigger] prev[j]).0@ == k2;
                    assert(j != i);
                    let j1 = if j < i { j } else { j - 1 };
                    assert(entries@[j1] == prev[j]);
                    lemma_unique_val(entries@, k2, j1);
                    lemma_unique_val(prev, k2, j);
                }
                assert forall|j: int| 0 <= j < entries@.len() implies entry_from(
                    old(entries)@,
                    #[trigger] entries@[j],
                ) by {
                    let j0 = if j < i { j } else { j + 1 };
                    assert(old(entries)@[j0] == entries@[j]);
                }
            }
        },
        None => {
            proof {
                assert forall|j: int| 0 <= j < entries@.len() implies entry_from(
                    old(entries)@,
                    #[trigger] entries@[j],
                ) by {
                    assert(old(entries)@[j] == entries@[j]);
                }
            }
        },
    }
}

/// No two entries share an integer key.
pub open spec fn idx_unique<V>(s: Seq<(usize, V)>) -> bool {
    forall|i: int, j: int| 0 <= i < j < s.len() ==> (#[trigger] s[i]).0 != (#[trigger] s[j]).0
}

/// Some entry has the given integer key.
pub open spec fn idx_has_key<V>(s: Seq<(usize, V)>, k: int) -> bool {
    exists|i: int| 0 <= i < s.len() && (#[trigger] s[i]).0 == k
}

/// The value bound to the given integer key (meaningful when
/// `idx_has_key` holds and the keys are unique).
pub open spec fn idx_val_of<V>(s: Seq<(usize, V)>, k: int) -> V {
    s[choose|i: int| 0 <= i < s.len() && (#[trigger] s[i]).0 == k].1
}

/// Under unique integer keys, the entry found at index `i` is the
/// binding that `idx_val_of` denotes.
pub proof fn lemma_idx_unique_val<V>(s: Seq<(usize, V)>, k: int, i: int)
    requires
        idx_unique(s),
        0 <= i < s.len(),
        s[i].0 == k,
    ensures
        idx_has_key(s, k),
        idx_val_of(s, k) == s[i].1,
{
    assert(idx_has_key(s, k)) by {
        assert(0 <= i < s.len() && (s[i]).0 == k);
    }
    let j = choose|j: int| 0 <= j < s.len() && (#[trigger] s[j]).0 == k;
    if j != i {
        if j < i {
            assert((s[j]).0 != (s[i]).0);
        } else {
            assert((s[i]).0 != (s[j]).0);
        }
        assert(false);
    }
}

/// Finds the first entry with the given integer key, if any.
pub fn idx_find<V>(entries: &Vec<(usize, V)>, key: usize) -> (r: Option<usize>)
    ensures
        match r {
            Some(i) => i < entries@.len() && entries@[i as int].0 == key && (forall|j: int|
                0 <= j < i ==> (#[trigger] entries@[j]).0 != key),
            None => !idx_has_key(entries@, key as int),
        },
{
    let n = entries.len();
    let mut i: usize = 0;
    while i < n
        invariant
            i <= n,
            n == entries@.len(),
            forall|j: int| 0 <= j < i ==> (#[trigger] entries@[j]).0 != key,
        decreases n - i,
    {
        if entries[i].0 == key {
            return Some(i);
        }
        i = i + 1;
    }
    None
}

/// Binds the integer `key` to `val`, replacing any existing binding.
/// Every other binding keeps its value.
pub fn idx_update<V>(entries: &mut Vec<(usize, V)>, key: usize, val: V)
    requires
        idx_unique(old(entries)@),
    ensures
        idx_unique(final(entries)@),
        idx_has_key(final(entries)@, key as int),
        idx_val_of(final(entries)@, key as int) == val,
        forall|k2: int|
            k2 != key ==> (#[trigger] idx_has_key(final(entries)@, k2)) == idx_has_key(
                old(entries)@,
                k2,
            ),
        forall|k2: int|
            k2 != key && idx_has_key(old(entries)@, k2) ==> #[trigger] idx_val_of(
                final(entries)@,
                k2,
            ) == idx_val_of(old(entries)@, k2),
        forall|j: int|
            0 <= j < final(entries)@.len() ==> (#[trigger] final(entries)@[j]).0 == key
                || idx_has_key(old(entries)@, final(entries)@[j].0 as int),
{
    let found = idx_find(entries, key);
    match found {
        Some(i) => {
            let ghost prev = entries@;
            entries[i] = (key, val);
            proof {
                assert(entries@ =~= prev.update(i as int, entries@[i as int]));
                assert forall|a: int, b: int| 0 <= a < b < entries@.len() implies (
                #[trigger] entries@[a]).0 != (#[trigger] entries@[b]).0 by {
                    assert(prev[a].0 != prev[b].0);
                }
                lemma_idx_unique_val(entries@, key as int, i as int);
                assert forall|k2: int| k2 != key implies (#[trigger] idx_has_key(entries@, k2))
                    == idx_has_key(prev, k2) by {
                    if idx_has_key(entries@, k2) {
                        let j = choose|j: int|
                            0 <= j < entries@.len() && (#[trigger] entries@[j]).0 == k2;
                        assert(j != i);
                        assert(prev[j].0 == k2);
                    }
                    if idx_has_key(prev, k2) {
                        let j = choose|j: int| 0 <= j < prev.len() && (#[trigger] prev[j]).0 == k2;
                        assert(prev[i as int].0 == key);
                        assert(j != i);
                        assert(entries@[j].0 == k2);
                    }
                }
                assert forall|k2: int| k2 != key && idx_has_key(prev, k2) implies #[trigger] idx_val_of(
                    entries@,
                    k2,
                ) == idx_val_of(prev, k2) by {
                    let j = choose|j: int| 0 <= j < prev.len() && (#[trigger] prev[j]).0 == k2;
                    assert(prev[i as int].0 == key);
                    assert(j != i);
                    assert(entries@[j].0 == k2);
                    lemma_idx_unique_val(entries@, k2, j);
                    lemma_idx_unique_val(prev, k2, j);
                }
                assert forall|j: int| 0 <= j < entries@.len() implies (#[trigger] entries@[j]).0
                    == key || idx_has_key(prev, entries@[j].0 as int) by {
                    if j != i {
                        assert(entries@[j] == prev[j]);
                        assert(idx_has_key(prev, prev[j].0 as int)) by {
                            assert(0 <= j < prev.len() && (prev[j]).0 == prev[j].0);
                        }
                    }
                }
            }
        },
        None => {
            let ghost prev = entries@;
            entries.push((key, val));
            proof {
                let n = prev.len() as int;
                assert(entries@[n].0 == key);
                assert forall|a: int, b: int| 0 <= a < b < entries@.len() implies (
                #[trigger] entries@[a]).0 != (#[trigger] entries@[b]).0 by {
                    if b < n {
                        assert(prev[a].0 != prev[b].0);
                    } else {
                        assert(entries@[a].0 == prev[a].0);
                        if prev[a].0 == key {
                            assert(idx_has_key(prev, key as int)) by {
                                assert(0 <= a < prev.len() && (prev[a]).0 == key);
                            }
                        }
                    }
                }
                lemma_idx_unique_val(entries@, key as int, n);
                assert forall|k2: int| k2 != key implies (#[trigger] idx_has_key(entries@, k2))
                    == idx_has_key(prev, k2) by {
                    if idx_has_key(entries@, k2) {
                        let j = choose|j: int|
                            0 <= j < entries@.len() && (#[trigger] entries@[j]).0 == k2;
                        assert(j != n);
                        assert(prev[j].0 == k2);
                    }
                    if idx_has_key(prev, k2) {
                        let j = choose|j: int| 0 <= j < prev.len() && (#[trigger] prev[j]).0 == k2;
                        assert(entries@[j].0 == k2);
                    }
                }
                assert forall|k2: int| k2 != key && idx_has_key(prev, k2) implies #[trigger] idx_val_of(
                    entries@,
                    k2,
                ) == idx_val_of(prev, k2) by {
                    let j = choose|j: int| 0 <= j < prev.len() && (#[trigger] prev[j]).0 == k2;
                    assert(entries@[j].0 == k2);
                    lemma_idx_unique_val(entries@, k2, j);
                    lemma_idx_unique_val(prev, k2, j);
                }
                assert forall|j: int| 0 <= j < entries@.len() implies (#[trigger] entries@[j]).0
                    == key || idx_has_key(prev, entries@[j].0 as int) by {
                    if j != n {
                        assert(entries@[j] == prev[j]);
                        assert(idx_has_key(prev, prev[j].0 as int)) by {
                            assert(0 <= j < prev.len() && (prev[j]).0 == prev[j].0);
                        }
                    }
                }
            }
        },
    }
}

} // verus!
