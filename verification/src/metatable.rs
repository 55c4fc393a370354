//! A read-restricted view over the cached metatable of a userdata type:
//! reads and writes of reserved names fail, and the index and new-index
//! hooks are sealed after registration because their values are cached
//! for dispatch and would go stale.

use vstd::prelude::*;

use crate::assoc::{
    assoc_find, assoc_remove, assoc_update, entry_from, has_key, lemma_unique_val, unique_keys,
    val_of,
};
use crate::error::Error;
use crate::metamethod::MetaMethod;
use crate::runtime::Runtime;
use crate::strutil::str_eq;
use crate::value::{value_clone, Value};

verus! {

/// A handle to the cached metatable of a userdata type.
#[derive(Debug, Clone, Copy, PartialEq, Eq, Structural)]
pub struct UserDataMetatable {
    /// The index of the metatable in the runtime's cache.
    pub mt: usize,
}

/// An iterator over the non-reserved bindings of a metatable, taken as a
/// snapshot when it was created.
pub struct UserDataMetatablePairs {
    /// The snapshot of bindings.
    pub entries: Vec<(String, Value)>,
    /// The position of the next binding to yield.
    pub pos: usize,
}

impl UserDataMetatablePairs {
    /// Yields the next binding of the snapshot, if one is left.
    pub fn next(&mut self) -> (r: Option<(String, Value)>)
        requires
            old(self).pos <= old(self).entries@.len(),
        ensures
            final(self).entries == old(self).entries,
            match r {
                Some(p) => old(self).pos < old(self).entries@.len() && p.0@ == old(self).entries@[old(self).pos as int].0@ && p.1 == old(self).entries@[old(self).pos as int].1 && final(self).pos == old(self).pos + 1,
                None => old(self).pos == old(self).entries@.len() && final(self).pos == old(self).pos,
            },
    {
        if self.pos < self.entries.len() {
            let i = self.pos;
            let p = (self.entries[i].0.clone(), value_clone(&self.entries[i].1));
            self.pos = i + 1;
            Some(p)
        } else {
            None
        }
    }
}

impl UserDataMetatable {
    /// The handle references a metatable of the given runtime's cache.
    pub open spec fn valid<T>(self, rt: Runtime<T>) -> bool {
        self.mt < rt.registry@.len()
    }

    /// Reads the value bound to `key`: a metamethod callback appears as
    /// a function, a meta field as itself, an unbound key as the absent
    /// value. Reading a reserved name fails with `MetaMethodRestricted`.
    pub fn get<T>(&self, rt: &Runtime<T>, key: &str) -> (r: Result<Value, Error>)
        requires
            rt.wf(),
            self.valid(*rt),
        ensures
            match r {
                Ok(v) => !MetaMethod::reserved_spec(key@) && v
                    == rt.registry@[self.mt as int].entry_spec(key@),
                Err(e) => MetaMethod::reserved_spec(key@) && (e matches Error::MetaMethodRestricted(
                    m,
                ) && m@ == key@),
            },
    {
        let key = match MetaMethod::validate(key) {
            Ok(k) => k,
            Err(e) => {
                return Err(e);
            },
        };
        let mt = &rt.registry[self.mt];
        match assoc_find(&mt.meta_methods, key) {
            Some(i) => {
                proof {
                    lemma_unique_val(mt.meta_methods@, key@, i as int);
                }
                Ok(Value::Function(mt.meta_methods[i].1.id))
            },
            None => {
                match assoc_find(&mt.meta_fields, key) {
                    Some(i) => {
                        proof {
                            lemma_unique_val(mt.meta_fields@, key@, i as int);
                        }
                        Ok(value_clone(&mt.meta_fields[i].1))
                    },
                    None => Ok(Value::Nil),
                }
            },
        }
    }

    /// Binds `key` to `value` in the metatable; the absent value removes
    /// the binding. Writing a reserved name, or the index or new-index
    /// hook, fails with `MetaMethodRestricted` and changes nothing.
    pub fn set<T>(&self, rt: &mut Runtime<T>, key: &str, value: Value) -> (r: Result<(), Error>)
        requires
            old(rt).wf(),
            self.valid(*old(rt)),
        ensures
            final(rt).wf(),
            final(rt).objects == old(rt).objects,
            final(rt).shared == old(rt).shared,
            final(rt).stack == old(rt).stack,
            final(rt).registry@.len() == old(rt).registry@.len(),
            match r {
                Ok(()) => {
                    let m1 = old(rt).registry@[self.mt as int];
                    let m2 = final(rt).registry@[self.mt as int];
                    &&& !MetaMethod::reserved_spec(key@)
                    &&& key@ != "__index"@ && key@ != "__newindex"@
                    &&& (forall|j: int|
                        0 <= j < old(rt).registry@.len() && j != self.mt as int ==> final(rt).registry@[j] == old(rt).registry@[j])
                    &&& m2.tag == m1.tag
                    &&& m2.methods == m1.methods
                    &&& m2.field_getters == m1.field_getters
                    &&& m2.field_setters == m1.field_setters
                    &&& m2.entry_spec(key@) == value
                    &&& (forall|k2: Seq<char>|
                        k2 != key@ ==> #[trigger] m2.entry_spec(k2) == m1.entry_spec(k2))
                },
                Err(e) => *final(rt) == *old(rt) && (e matches Error::MetaMethodRestricted(m) && m@
                    == key@) && (MetaMethod::reserved_spec(key@) || key@ == "__index"@ || key@
                    == "__newindex"@),
            },
    {
        let key = match MetaMethod::validate(key) {
            Ok(k) => k,
            Err(e) => {
                return Err(e);
            },
        };
        if str_eq(key, "__index") || str_eq(key, "__newindex") {
            return Err(Error::MetaMethodRestricted(key.to_owned()));
        }
        let mtref = &mut rt.registry[self.mt];
        let ghost m1 = *mtref;
        assoc_remove(&mut mtref.meta_methods, key);
        let is_nil = match &value {
            Value::Nil => true,
            _ => false,
        };
        if is_nil {
            assoc_remove(&mut mtref.meta_fields, key);
        } else {
            assoc_update(&mut mtref.meta_fields, key, value);
        }
        proof {
            let m2 = rt.registry@[self.mt as int];
            assert forall|k2: Seq<char>| k2 != key@ implies #[trigger] m2.entry_spec(k2)
                == m1.entry_spec(k2) by {
                assert(has_key(m2.meta_methods@, k2) == has_key(m1.meta_methods@, k2));
                assert(has_key(m2.meta_fields@, k2) == has_key(m1.meta_fields@, k2));
            }
            assert(m1.wf());
            assert forall|a: int|
                0 <= a < m2.meta_methods@.len() implies !MetaMethod::reserved_spec(
                (#[trigger] m2.meta_methods@[a]).0@,
            ) by {
                assert(entry_from(m1.meta_methods@, m2.meta_methods@[a]));
                let j0 = choose|j0: int|
                    0 <= j0 < m1.meta_methods@.len() && (#[trigger] m1.meta_methods@[j0])
                        == m2.meta_methods@[a];
            }
            assert forall|a: int|
                0 <= a < m2.meta_fields@.len() implies !MetaMethod::reserved_spec(
                (#[trigger] m2.meta_fields@[a]).0@,
            ) && m2.meta_fields@[a].1 != Value::Nil && ((m2.meta_fields@[a].0@ == "__index"@
                || m2.meta_fields@[a].0@ == "__newindex"@)
                ==> m2.meta_fields@[a].1.is_indexable_hook()) by {
                if value == Value::Nil {
                    assert(entry_from(m1.meta_fields@, m2.meta_fields@[a]));
                    let j0 = choose|j0: int|
                        0 <= j0 < m1.meta_fields@.len() && (#[trigger] m1.meta_fields@[j0])
                            == m2.meta_fields@[a];
                } else if m2.meta_fields@[a].0@ == key@ && m2.meta_fields@[a].1 == value {
                    assert(!MetaMethod::reserved_spec(key@));
                    assert(key@ != "__index"@ && key@ != "__newindex"@);
                } else {
                    assert(entry_from(m1.meta_fields@, m2.meta_fields@[a]));
                    let j0 = choose|j0: int|
                        0 <= j0 < m1.meta_fields@.len() && (#[trigger] m1.meta_fields@[j0])
                            == m2.meta_fields@[a];
                }
            }
            assert(m2.wf());
            assert forall|j: int|
                0 <= j < rt.registry@.len() implies (#[trigger] rt.registry@[j]).wf() by {
                if j != self.mt as int {
                    assert(rt.registry@[j] == old(rt).registry@[j]);
                    assert(old(rt).registry@[j].wf());
                }
            }
            assert forall|j: int|
                0 <= j < rt.objects@.len() implies (#[trigger] rt.objects@[j]).wf(
                rt.registry@.len() as int,
                rt.shared@.len() as int,
            ) by {
                assert(old(rt).objects@[j].wf(
                    old(rt).registry@.len() as int,
                    old(rt).shared@.len() as int,
                ));
            }
        }
        Ok(())
    }

    /// Whether the metatable binds `key` to anything but the absent
    /// value. Asking about a reserved name fails with
    /// `MetaMethodRestricted`.
    pub fn contains<T>(&self, rt: &Runtime<T>, key: &str) -> (r: Result<bool, Error>)
        requires
            rt.wf(),
            self.valid(*rt),
        ensures
            match r {
                Ok(b) => !MetaMethod::reserved_spec(key@) && b == (rt.registry@[self.mt as int].entry_spec(
                    key@,
                ) != Value::Nil),
                Err(e) => MetaMethod::reserved_spec(key@) && (e matches Error::MetaMethodRestricted(
                    m,
                ) && m@ == key@),
            },
    {
        let key = match MetaMethod::validate(key) {
            Ok(k) => k,
            Err(e) => {
                return Err(e);
            },
        };
        let mt = &rt.registry[self.mt];
        match assoc_find(&mt.meta_methods, key) {
            Some(i) => {
                proof {
                    lemma_unique_val(mt.meta_methods@, key@, i as int);
                }
                Ok(true)
            },
            None => {
                match assoc_find(&mt.meta_fields, key) {
                    Some(i) => {
                        proof {
                            lemma_unique_val(mt.meta_fields@, key@, i as int);
                        }
                        Ok(true)
                    },
                    None => Ok(false),
                }
            },
        }
    }

    /// Takes a snapshot of the metatable's bindings as an iterator.
    /// Reserved names are skipped; every yielded binding is a current
    /// one, every current binding is yielded exactly once, and every
    /// metamethod callback appears as a function value.
    pub fn pairs<T>(self, rt: &Runtime<T>) -> (p: UserDataMetatablePairs)
        requires
            rt.wf(),
            self.valid(*rt),
        ensures
            p.pos == 0,
            unique_keys(p.entries@),
            forall|i: int|
                0 <= i < p.entries@.len() ==> !MetaMethod::reserved_spec(
                    (#[trigger] p.entries@[i]).0@,
                ) && rt.registry@[self.mt as int].entry_spec(p.entries@[i].0@) == p.entries@[i].1
                    && p.entries@[i].1 != Value::Nil,
            forall|k: Seq<char>|
                rt.registry@[self.mt as int].entry_spec(k) != Value::Nil ==> #[trigger] has_key(
                    p.entries@,
                    k,
                ),
    {
        let mt = &rt.registry[self.mt];
        let mut entries: Vec<(String, Value)> = Vec::new();
        let nm = mt.meta_methods.len();
        let mut i: usize = 0;
        while i < nm
            invariant
                rt.wf(),
                self.valid(*rt),
                mt == &rt.registry@[self.mt as int],
                nm == mt.meta_methods@.len(),
                i <= nm,
                unique_keys(entries@),
                entries@.len() == i,
                forall|a: int| 0 <= a < i ==> (#[trigger] entries@[a]).0 == mt.meta_methods@[a].0,
                forall|a: int|
                    0 <= a < entries@.len() ==> !MetaMethod::reserved_spec(
                        (#[trigger] entries@[a]).0@,
                    ) && rt.registry@[self.mt as int].entry_spec(entries@[a].0@) == entries@[a].1
                        && entries@[a].1 != Value::Nil,
            decreases nm - i,
        {
            let ghost pre = entries@;
            let name = mt.meta_methods[i].0.clone();
            let v = Value::Function(mt.meta_methods[i].1.id);
            proof {
                lemma_unique_val(mt.meta_methods@, name@, i as int);
            }
            entries.push((name, v));
            proof {
                assert forall|a: int, b: int| 0 <= a < b < entries@.len() implies (
                #[trigger] entries@[a]).0@ != (#[trigger] entries@[b]).0@ by {
                    assert(entries@[a].0 == mt.meta_methods@[a].0);
                    assert(entries@[b].0 == mt.meta_methods@[b].0);
                    assert(mt.meta_methods@[a].0@ != mt.meta_methods@[b].0@);
                }
            }
            i = i + 1;
        }
        let ghost after_mm = entries@;
        proof {
            assert forall|k: Seq<char>| has_key(mt.meta_methods@, k) implies #[trigger] has_key(
                after_mm,
                k,
            ) by {
                let a = choose|a: int|
                    0 <= a < mt.meta_methods@.len() && (#[trigger] mt.meta_methods@[a]).0@ == k;
                assert(after_mm[a].0@ == k);
            }
            assert forall|k: Seq<char>| has_key(after_mm, k) implies #[trigger] has_key(
                mt.meta_methods@,
                k,
            ) by {
                let a = choose|a: int| 0 <= a < after_mm.len() && (#[trigger] after_mm[a]).0@ == k;
                assert(mt.meta_methods@[a].0@ == k);
            }
        }
        let nf = mt.meta_fields.len();
        let mut j: usize = 0;
        while j < nf
            invariant
                rt.wf(),
                self.valid(*rt),
                mt == &rt.registry@[self.mt as int],
                nf == mt.meta_fields@.len(),
                j <= nf,
                unique_keys(entries@),
                after_mm.len() <= entries@.len(),
                forall|k: Seq<char>| has_key(after_mm, k) ==> #[trigger] has_key(entries@, k),
                forall|k: Seq<char>|
                    crate::registry::key_in_prefix(mt.meta_fields@, k, j as int)
                        ==> #[trigger] has_key(entries@, k) || has_key(mt.meta_methods@, k),
                forall|k: Seq<char>| has_key(mt.meta_methods@, k) ==> #[trigger] has_key(entries@, k),
                forall|k: Seq<char>|
                    #[trigger] has_key(entries@, k) ==> has_key(mt.meta_methods@, k)
                        || crate::registry::key_in_prefix(mt.meta_fields@, k, j as int),
                forall|a: int|
                    0 <= a < entries@.len() ==> !MetaMethod::reserved_spec(
                        (#[trigger] entries@[a]).0@,
                    ) && rt.registry@[self.mt as int].entry_spec(entries@[a].0@) == entries@[a].1
                        && entries@[a].1 != Value::Nil,
            decreases nf - j,
        {
            let ghost pre = entries@;
            let name = mt.meta_fields[j].0.clone();
            match assoc_find(&mt.meta_methods, name.as_str()) {
                Some(_) => {
                    proof {
                        assert(has_key(mt.meta_methods@, name@));
                        assert forall|k: Seq<char>|
                            #[trigger] has_key(entries@, k) implies has_key(mt.meta_methods@, k)
                            || crate::registry::key_in_prefix(mt.meta_fields@, k, j + 1) by {
                            if crate::registry::key_in_prefix(mt.meta_fields@, k, j as int) {
                                let b = choose|b: int|
                                    0 <= b < j && (#[trigger] mt.meta_fields@[b]).0@ == k;
                                assert(crate::registry::key_in_prefix(
                                    mt.meta_fields@,
                                    k,
                                    j + 1,
                                ));
                            }
                        }
                        assert forall|k: Seq<char>|
                            crate::registry::key_in_prefix(
                                mt.meta_fields@,
                                k,
                                j + 1,
                            ) implies #[trigger] has_key(entries@, k) || has_key(
                            mt.meta_methods@,
                            k,
                        ) by {
                            let b = choose|b: int|
                                0 <= b < j + 1 && (#[trigger] mt.meta_fields@[b]).0@ == k;
                            if b < j {
                                assert(crate::registry::key_in_prefix(
                                    mt.meta_fields@,
                                    k,
                                    j as int,
                                ));
                            }
                        }
                    }
                },
                None => {
                    proof {
                        lemma_unique_val(mt.meta_fields@, name@, j as int);
                        assert(!has_key(entries@, name@)) by {
                            if has_key(entries@, name@) {
                                assert(!has_key(mt.meta_methods@, name@));
                                assert(crate::registry::key_in_prefix(
                                    mt.meta_fields@,
                                    name@,
                                    j as int,
                                ));
                                let b = choose|b: int|
                                    0 <= b < j && (#[trigger] mt.meta_fields@[b]).0@ == name@;
                                assert(mt.meta_fields@[b].0@ != mt.meta_fields@[j as int].0@);
                            }
                        }
                    }
                    entries.push((name, value_clone(&mt.meta_fields[j].1)));
                    proof {
                        assert forall|a: int, b: int| 0 <= a < b < entries@.len() implies (
                        #[trigger] entries@[a]).0@ != (#[trigger] entries@[b]).0@ by {
                            if b < entries@.len() - 1 {
                                assert(pre[a].0@ != pre[b].0@);
                            } else {
                                assert(entries@[a] == pre[a]);
                                if pre[a].0@ == name@ {
                                    assert(has_key(pre, name@)) by {
                                        assert((pre[a]).0@ == name@);
                                    }
                                }
                            }
                        }
                        assert forall|k: Seq<char>| has_key(pre, k) implies #[trigger] has_key(
                            entries@,
                            k,
                        ) by {
                            let a = choose|a: int|
                                0 <= a < pre.len() && (#[trigger] pre[a]).0@ == k;
                            assert(entries@[a].0@ == k);
                        }
                        assert forall|k: Seq<char>|
                            crate::registry::key_in_prefix(
                                mt.meta_fields@,
                                k,
                                j + 1,
                            ) implies #[trigger] has_key(entries@, k) || has_key(
                            mt.meta_methods@,
                            k,
                        ) by {
                            let b = choose|b: int|
                                0 <= b < j + 1 && (#[trigger] mt.meta_fields@[b]).0@ == k;
                            if b < j {
                                assert(crate::registry::key_in_prefix(
                                    mt.meta_fields@,
                                    k,
                                    j as int,
                                ));
                                assert(has_key(pre, k) || has_key(mt.meta_methods@, k));
                            } else {
                                assert(entries@[entries@.len() - 1].0@ == k);
                            }
                        }
                        assert forall|k: Seq<char>|
                            #[trigger] has_key(entries@, k) implies has_key(mt.meta_methods@, k)
                            || crate::registry::key_in_prefix(mt.meta_fields@, k, j + 1) by {
                            let a = choose|a: int|
                                0 <= a < entries@.len() && (#[trigger] entries@[a]).0@ == k;
                            if a < entries@.len() - 1 {
                                assert(pre[a].0@ == k);
                                assert(has_key(pre, k)) by {
                                    assert((pre[a]).0@ == k);
                                }
                                if crate::registry::key_in_prefix(mt.meta_fields@, k, j as int) {
                                    let b = choose|b: int|
                                        0 <= b < j && (#[trigger] mt.meta_fields@[b]).0@ == k;
                                    assert(crate::registry::key_in_prefix(
                                        mt.meta_fields@,
                                        k,
                                        j + 1,
                                    ));
                                }
                            } else {
                                assert(mt.meta_fields@[j as int].0@ == k);
                                assert(crate::registry::key_in_prefix(
                                    mt.meta_fields@,
                                    k,
                                    j + 1,
                                ));
                            }
                        }
                    }
                },
            }
            j = j + 1;
        }
        proof {
            assert forall|k: Seq<char>|
                rt.registry@[self.mt as int].entry_spec(k) != Value::Nil implies #[trigger] has_key(
                entries@,
                k,
            ) by {
                if has_key(mt.meta_methods@, k) {
                } else {
                    assert(has_key(mt.meta_fields@, k));
                    let b = choose|b: int|
                        0 <= b < mt.meta_fields@.len() && (#[trigger] mt.meta_fields@[b]).0@ == k;
                    assert(crate::registry::key_in_prefix(
                        mt.meta_fields@,
                        k,
                        mt.meta_fields@.len() as int,
                    ));
                }
            }
        }
        UserDataMetatablePairs { entries, pos: 0 }
    }
}

} // verus!
