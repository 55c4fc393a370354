//! Ownership-aware dispatch: every call from the embedded runtime into a
//! host callback resolves the object's type identity, acquires the
//! borrow its ownership wrapper demands (failing fast on conflict, never
//! blocking), guards mutably-captured callbacks against re-entry, and
//! releases everything when the call ends.
//!
//! The ownership strategy is part of the exact type identity an object
//! carries from creation, so resolution reads the stored tag once
//! instead of trial-matching each recognized wrapper kind against the
//! payload type on every call; the bare type and each wrapper around it
//! remain distinct identities.

use vstd::prelude::*;

use crate::assoc::{assoc_find, has_key, lemma_unique_val, val_of};
use crate::cell::{can_borrow, can_borrow_mut, read_held, write_held, BorrowState};
use crate::error::Error;
use crate::handle::AnyUserData;
use crate::registry::{Callback, Metatable};
use crate::runtime::{OwnershipKind, Payload, Runtime};
use crate::value::Value;

verus! {

/// Which callback table of a metatable an entry lives in.
#[derive(Debug, Clone, Copy, PartialEq, Eq, Structural)]
pub enum CbList {
    /// Regular methods.
    Methods,
    /// Field getters.
    FieldGetters,
    /// Field setters.
    FieldSetters,
    /// Metamethod callbacks.
    MetaMethods,
}

/// The entries of the chosen callback table.
pub open spec fn cb_list_spec(mt: Metatable, list: CbList) -> Seq<(String, Callback)> {
    match list {
        CbList::Methods => mt.methods@,
        CbList::FieldGetters => mt.field_getters@,
        CbList::FieldSetters => mt.field_setters@,
        CbList::MetaMethods => mt.meta_methods@,
    }
}

/// A reference to one registered callback: metatable, table, slot.
#[derive(Debug, Clone, Copy, PartialEq, Eq, Structural)]
pub struct CallbackRef {
    /// The metatable's index in the runtime's cache.
    pub mt: usize,
    /// The callback table within the metatable.
    pub list: CbList,
    /// The entry's position in that table.
    pub slot: usize,
}

impl CallbackRef {
    /// The reference denotes an entry of the given runtime's cache.
    pub open spec fn valid<T>(self, rt: Runtime<T>) -> bool {
        self.mt < rt.registry@.len() && self.slot < cb_list_spec(
            rt.registry@[self.mt as int],
            self.list,
        ).len()
    }

    /// The referenced callback.
    pub open spec fn cb<T>(self, rt: Runtime<T>) -> Callback {
        cb_list_spec(rt.registry@[self.mt as int], self.list)[self.slot as int].1
    }
}

/// What an index access (`obj.key`) resolves to, in the documented
/// precedence order: a field getter first, then a regular method, then
/// the host-installed index hook as a fallback, else nothing.
#[derive(Debug, Clone, PartialEq)]
pub enum IndexLookup {
    /// A registered field getter.
    Getter(CallbackRef),
    /// A registered regular method.
    Method(CallbackRef),
    /// The index hook, registered as a metamethod callback.
    MetaCallback(CallbackRef),
    /// The index hook, registered as a plain meta-field value.
    MetaValue(Value),
    /// Nothing is registered under the key.
    Absent,
}

/// What an index write (`obj.key = v`) resolves to: a field setter
/// first, then the new-index hook as a fallback, else nothing.
#[derive(Debug, Clone, PartialEq)]
pub enum NewIndexLookup {
    /// A registered field setter.
    Setter(CallbackRef),
    /// The new-index hook, registered as a metamethod callback.
    MetaCallback(CallbackRef),
    /// The new-index hook, registered as a plain meta-field value.
    MetaValue(Value),
    /// Nothing is registered under the key.
    Absent,
}

/// Resolves an index access against a metatable, with field getters
/// before methods and the index hook consulted only as a fallback after
/// both built-in lookups fail.
pub fn lookup_index<T>(rt: &Runtime<T>, mt: usize, key: &str) -> (r: IndexLookup)
    requires
        rt.wf(),
        mt < rt.registry@.len(),
    ensures
        ({
            let m = rt.registry@[mt as int];
            match r {
                IndexLookup::Getter(cbr) => has_key(m.field_getters@, key@) && cbr.mt == mt
                    && cbr.list == CbList::FieldGetters && cbr.valid(*rt) && cbr.cb(*rt) == val_of(
                    m.field_getters@,
                    key@,
                ),
                IndexLookup::Method(cbr) => !has_key(m.field_getters@, key@) && has_key(
                    m.methods@,
                    key@,
                ) && cbr.mt == mt && cbr.list == CbList::Methods && cbr.valid(*rt) && cbr.cb(*rt)
                    == val_of(m.methods@, key@),
                IndexLookup::MetaCallback(cbr) => !has_key(m.field_getters@, key@) && !has_key(
                    m.methods@,
                    key@,
                ) && has_key(m.meta_methods@, "__index"@) && cbr.mt == mt && cbr.list
                    == CbList::MetaMethods && cbr.valid(*rt) && cbr.cb(*rt) == val_of(
                    m.meta_methods@,
                    "__index"@,
                ),
                IndexLookup::MetaValue(v) => !has_key(m.field_getters@, key@) && !has_key(
                    m.methods@,
                    key@,
                ) && !has_key(m.meta_methods@, "__index"@) && has_key(m.meta_fields@, "__index"@)
                    && v == val_of(m.meta_fields@, "__index"@),
                IndexLookup::Absent => !has_key(m.field_getters@, key@) && !has_key(
                    m.methods@,
                    key@,
                ) && !has_key(m.meta_methods@, "__index"@) && !has_key(m.meta_fields@, "__index"@),
            }
        }),
{
    let m = &rt.registry[mt];
    match assoc_find(&m.field_getters, key) {
        Some(i) => {
            proof {
                lemma_unique_val(m.field_getters@, key@, i as int);
            }
            return IndexLookup::Getter(CallbackRef { mt, list: CbList::FieldGetters, slot: i });
        },
        None => {},
    }
    match assoc_find(&m.methods, key) {
        Some(i) => {
            proof {
                lemma_unique_val(m.methods@, key@, i as int);
            }
            return IndexLookup::Method(CallbackRef { mt, list: CbList::Methods, slot: i });
        },
        None => {},
    }
    match assoc_find(&m.meta_methods, "__index") {
        Some(i) => {
            proof {
                lemma_unique_val(m.meta_methods@, "__index"@, i as int);
            }
            return IndexLookup::MetaCallback(
                CallbackRef { mt, list: CbList::MetaMethods, slot: i },
            );
        },
        None => {},
    }
    match assoc_find(&m.meta_fields, "__index") {
        Some(i) => {
            proof {
                lemma_unique_val(m.meta_fields@, "__index"@, i as int);
            }
            IndexLookup::MetaValue(crate::value::value_clone(&m.meta_fields[i].1))
        },
        None => IndexLookup::Absent,
    }
}

/// Resolves an index write against a metatable, with field setters
/// before the new-index hook.
pub fn lookup_newindex<T>(rt: &Runtime<T>, mt: usize, key: &str) -> (r: NewIndexLookup)
    requires
        rt.wf(),
        mt < rt.registry@.len(),
    ensures
        ({
            let m = rt.registry@[mt as int];
            match r {
                NewIndexLookup::Setter(cbr) => has_key(m.field_setters@, key@) && cbr.mt == mt
                    && cbr.list == CbList::FieldSetters && cbr.valid(*rt) && cbr.cb(*rt) == val_of(
                    m.field_setters@,
                    key@,
                ),
                NewIndexLookup::MetaCallback(cbr) => !has_key(m.field_setters@, key@) && has_key(
                    m.meta_methods@,
                    "__newindex"@,
                ) && cbr.mt == mt && cbr.list == CbList::MetaMethods && cbr.valid(*rt) && cbr.cb(
                    *rt,
                ) == val_of(m.meta_methods@, "__newindex"@),
                NewIndexLookup::MetaValue(v) => !has_key(m.field_setters@, key@) && !has_key(
                    m.meta_methods@,
                    "__newindex"@,
                ) && has_key(m.meta_fields@, "__newindex"@) && v == val_of(
                    m.meta_fields@,
                    "__newindex"@,
                ),
                NewIndexLookup::Absent => !has_key(m.field_setters@, key@) && !has_key(
                    m.meta_methods@,
                    "__newindex"@,
                ) && !has_key(m.meta_fields@, "__newindex"@),
            }
        }),
{
    let m = &rt.registry[mt];
    match assoc_find(&m.field_setters, key) {
        Some(i) => {
            proof {
                lemma_unique_val(m.field_setters@, key@, i as int);
            }
            return NewIndexLookup::Setter(CallbackRef { mt, list: CbList::FieldSetters, slot: i });
        },
        None => {},
    }
    match assoc_find(&m.meta_methods, "__newindex") {
        Some(i) => {
            proof {
                lemma_unique_val(m.meta_methods@, "__newindex"@, i as int);
            }
            return NewIndexLookup::MetaCallback(
                CallbackRef { mt, list: CbList::MetaMethods, slot: i },
            );
        },
        None => {},
    }
    match assoc_find(&m.meta_fields, "__newindex") {
        Some(i) => {
            proof {
                lemma_unique_val(m.meta_fields@, "__newindex"@, i as int);
            }
            NewIndexLookup::MetaValue(crate::value::value_clone(&m.meta_fields[i].1))
        },
        None => NewIndexLookup::Absent,
    }
}

/// The inner (shared-cell) acquisition is exclusive: always for a
/// mutex-guarded payload, whose lock knows no shared mode, and for any
/// write access.
pub open spec fn inner_is_exclusive(kind: OwnershipKind, write: bool) -> bool {
    kind == OwnershipKind::MutexGuarded || write
}

/// Payload access of the given mode can be granted on the object at heap
/// index `i`: the object is live, its own cell admits the borrow, and,
/// for a wrapped payload, the shared cell admits what the wrapper's
/// discipline demands.
pub open spec fn payload_access_ok<T>(rt: Runtime<T>, i: int, write: bool) -> bool {
    let o = rt.objects@[i];
    &&& !o.destructed()
    &&& (if write {
        can_borrow_mut(o.cell.state)
    } else {
        can_borrow(o.cell.state)
    })
    &&& match o.cell.value {
        Payload::Owned(_) => true,
        Payload::Shared(k) => if inner_is_exclusive(o.tag.kind, write) {
            can_borrow_mut(rt.shared@[k as int].state)
        } else {
            can_borrow(rt.shared@[k as int].state)
        },
        Payload::Destructed => false,
    }
}

/// A live call into a host callback: what was acquired, and must be
/// released when the call ends.
#[derive(Debug, Clone, Copy, PartialEq, Eq, Structural)]
pub struct Invocation {
    /// The callback being run.
    pub cbr: CallbackRef,
    /// The identity of the host closure to execute.
    pub cb_id: u64,
    /// The callback runs with write access and its re-entry guard set.
    pub mutable: bool,
    /// The dispatched object, for a callback that takes one.
    pub this: Option<usize>,
    /// The shared cell borrowed for a wrapped payload.
    pub inner: Option<usize>,
    /// The shared cell was acquired exclusively.
    pub inner_exclusive: bool,
}

/// The callback's re-entry flag, and nothing else in the runtime's
/// registry, was set to `b`.
pub open spec fn only_running_set<T>(pre: Runtime<T>, post: Runtime<T>, cbr: CallbackRef, b: bool) -> bool {
    &&& post.registry@.len() == pre.registry@.len()
    &&& (forall|j: int|
        0 <= j < pre.registry@.len() && j != cbr.mt as int ==> post.registry@[j]
            == pre.registry@[j])
    &&& ({
        let m1 = pre.registry@[cbr.mt as int];
        let m2 = post.registry@[cbr.mt as int];
        let l1 = cb_list_spec(m1, cbr.list);
        let l2 = cb_list_spec(m2, cbr.list);
        &&& m2.tag == m1.tag
        &&& (cbr.list != CbList::Methods ==> m2.methods == m1.methods)
        &&& (cbr.list != CbList::FieldGetters ==> m2.field_getters == m1.field_getters)
        &&& (cbr.list != CbList::FieldSetters ==> m2.field_setters == m1.field_setters)
        &&& (cbr.list != CbList::MetaMethods ==> m2.meta_methods == m1.meta_methods)
        &&& m2.meta_fields == m1.meta_fields
        &&& l2.len() == l1.len()
        &&& (forall|j: int| 0 <= j < l1.len() && j != cbr.slot as int ==> l2[j] == l1[j])
        &&& l2[cbr.slot as int].0 == l1[cbr.slot as int].0
        &&& l2[cbr.slot as int].1 == (Callback {
            running: b,
            ..l1[cbr.slot as int].1
        })
    })
}

/// Sets or clears the re-entry flag of one registered callback.
fn set_running_flag<T>(rt: &mut Runtime<T>, cbr: CallbackRef, b: bool)
    requires
        old(rt).wf(),
        cbr.valid(*old(rt)),
    ensures
        final(rt).wf(),
        cbr.valid(*final(rt)),
        only_running_set(*old(rt), *final(rt), cbr, b),
        final(rt).objects == old(rt).objects,
        final(rt).shared == old(rt).shared,
        final(rt).stack == old(rt).stack,
{
    let m = cbr.mt;
    let s = cbr.slot;
    match cbr.list {
        CbList::Methods => {
            let name = rt.registry[m].methods[s].0.clone();
            let cb = rt.registry[m].methods[s].1;
            rt.registry[m].methods[s] = (
                name,
                Callback { id: cb.id, takes_self: cb.takes_self, mutable: cb.mutable, running: b },
            );
        },
        CbList::FieldGetters => {
            let name = rt.registry[m].field_getters[s].0.clone();
            let cb = rt.registry[m].field_getters[s].1;
            rt.registry[m].field_getters[s] = (
                name,
                Callback { id: cb.id, takes_self: cb.takes_self, mutable: cb.mutable, running: b },
            );
        },
        CbList::FieldSetters => {
            let name = rt.registry[m].field_setters[s].0.clone();
            let cb = rt.registry[m].field_setters[s].1;
            rt.registry[m].field_setters[s] = (
                name,
                Callback { id: cb.id, takes_self: cb.takes_self, mutable: cb.mutable, running: b },
            );
        },
        CbList::MetaMethods => {
            let name = rt.registry[m].meta_methods[s].0.clone();
            let cb = rt.registry[m].meta_methods[s].1;
            rt.registry[m].meta_methods[s] = (
                name,
                Callback { id: cb.id, takes_self: cb.takes_self, mutable: cb.mutable, running: b },
            );
        },
    }
    proof {
        let m1 = old(rt).registry@[m as int];
        let m2 = rt.registry@[m as int];
        let l1 = cb_list_spec(m1, cbr.list);
        let l2 = cb_list_spec(m2, cbr.list);
        assert forall|a: int, c: int| 0 <= a < c < l2.len() implies (#[trigger] l2[a]).0@ != (
        #[trigger] l2[c]).0@ by {
            assert(l1[a].0@ != l1[c].0@);
            assert(l2[a].0@ == l1[a].0@);
            assert(l2[c].0@ == l1[c].0@);
        }
        assert forall|a: int|
            0 <= a < m2.meta_methods@.len() implies !crate::metamethod::MetaMethod::reserved_spec(
            (#[trigger] m2.meta_methods@[a]).0@,
        ) by {
            assert(m2.meta_methods@[a].0@ == m1.meta_methods@[a].0@);
        }
        assert(m2.wf());
        assert forall|j: int|
            0 <= j < rt.registry@.len() implies (#[trigger] rt.registry@[j]).wf() by {
            if j != m as int {
                assert(rt.registry@[j] == old(rt).registry@[j]);
            }
        }
        assert forall|j: int|
            0 <= j < rt.objects@.len() implies (#[trigger] rt.objects@[j]).wf(
            rt.registry@.len() as int,
            rt.shared@.len() as int,
        ) by {
            assert(old(rt).objects@[j].wf(
                old(rt).registry@.len() as int,
                old(rt).shared@.len() as int,
            ));
        }
    }
}

/// Read-only dispatch is granted identically under every ownership
/// wrapper: whatever kind the object was created with, a live object
/// with no borrow outstanding on its own cell, nor on the shared cell of
/// a wrapped payload, admits read access.
pub proof fn lemma_uniform_read_access<T>(rt: Runtime<T>, i: int)
    requires
        0 <= i < rt.objects@.len(),
        !rt.objects@[i].destructed(),
        rt.objects@[i].cell.state == BorrowState::Free,
        match rt.objects@[i].cell.value {
            Payload::Shared(k) => k < rt.shared@.len() && rt.shared@[k as int].state
                == BorrowState::Free,
            _ => true,
        },
    ensures
        payload_access_ok(rt, i, false),
{
}

/// A wrapped payload under contention fails fast: while the shared cell
/// is held exclusively (a mutex locked, a writer active, an exclusive
/// borrow outstanding), no dispatch against any object aliasing that
/// cell can be granted, for reading or for writing — the request is
/// refused rather than blocked on.
pub proof fn lemma_contended_cell_fails_fast<T>(rt: Runtime<T>, i: int, k: usize)
    requires
        0 <= i < rt.objects@.len(),
        k < rt.shared@.len(),
        rt.objects@[i].cell.value == Payload::<T>::Shared(k),
        rt.shared@[k as int].state == BorrowState::Exclusive,
    ensures
        !payload_access_ok(rt, i, false),
        !payload_access_ok(rt, i, true),
{
    assert(!can_borrow(rt.shared@[k as int].state));
    assert(!can_borrow_mut(rt.shared@[k as int].state));
}

/// Reads one registered callback.
fn get_callback<T>(rt: &Runtime<T>, cbr: CallbackRef) -> (c: Callback)
    requires
        cbr.valid(*rt),
    ensures
        c == cbr.cb(*rt),
{
    match cbr.list {
        CbList::Methods => rt.registry[cbr.mt].methods[cbr.slot].1,
        CbList::FieldGetters => rt.registry[cbr.mt].field_getters[cbr.slot].1,
        CbList::FieldSetters => rt.registry[cbr.mt].field_setters[cbr.slot].1,
        CbList::MetaMethods => rt.registry[cbr.mt].meta_methods[cbr.slot].1,
    }
}

/// The borrow transition performed by a successful dispatch on the
/// object at heap index `i`: its own cell acquired per the access mode,
/// the shared cell of a wrapped payload acquired per the wrapper's
/// discipline, and nothing else of the heap touched.
pub open spec fn acquired_state<T>(pre: Runtime<T>, post: Runtime<T>, i: int, write: bool) -> bool {
    let o1 = pre.objects@[i];
    let o2 = post.objects@[i];
    &&& post.objects@.len() == pre.objects@.len()
    &&& (forall|j: int|
        0 <= j < pre.objects@.len() && j != i ==> post.objects@[j] == pre.objects@[j])
    &&& o2.tag == o1.tag
    &&& o2.cell.value == o1.cell.value
    &&& o2.cell.serializable == o1.cell.serializable
    &&& o2.uv_inline == o1.uv_inline
    &&& o2.uv_overflow == o1.uv_overflow
    &&& o2.uv_named == o1.uv_named
    &&& o2.meta == o1.meta
    &&& o2.cell.state == (if write {
        BorrowState::Exclusive
    } else {
        crate::cell::after_borrow(o1.cell.state)
    })
    &&& match o1.cell.value {
        Payload::Owned(_) => post.shared == pre.shared,
        Payload::Shared(k) => {
            &&& post.shared@.len() == pre.shared@.len()
            &&& (forall|j: int|
                0 <= j < pre.shared@.len() && j != k ==> post.shared@[j] == pre.shared@[j])
            &&& post.shared@[k as int].value == pre.shared@[k as int].value
            &&& post.shared@[k as int].serializable == pre.shared@[k as int].serializable
            &&& post.shared@[k as int].state == (if inner_is_exclusive(o1.tag.kind, write) {
                BorrowState::Exclusive
            } else {
                crate::cell::after_borrow(pre.shared@[k as int].state)
            })
        },
        Payload::Destructed => false,
    }
}

/// Begins a call into a registered callback, performing the dispatch
/// protocol: a callback that takes an object needs one as its first
/// argument; a mutably-captured callback must not already be running;
/// the object must be live and its host type must be the one the
/// callback's metatable was built for; and the borrow its ownership
/// wrapper demands is acquired, failing fast with a borrow error rather
/// than blocking. On any failure nothing changes.
pub fn begin_method_call<T>(rt: &mut Runtime<T>, cbr: CallbackRef, this: Option<AnyUserData>) -> (r:
    Result<Invocation, Error>)
    requires
        old(rt).wf(),
        cbr.valid(*old(rt)),
        match this {
            Some(h) => h.valid(*old(rt)),
            None => true,
        },
    ensures
        final(rt).wf(),
        cbr.valid(*final(rt)),
        final(rt).stack@ == old(rt).stack@,
        final(rt).objects@.len() == old(rt).objects@.len(),
        final(rt).shared@.len() == old(rt).shared@.len(),
        final(rt).registry@.len() == old(rt).registry@.len(),
        ({
            let cb = cbr.cb(*old(rt));
            match r {
                Ok(inv) => {
                    &&& inv.cbr == cbr
                    &&& inv.cb_id == cb.id
                    &&& inv.mutable == cb.mutable
                    &&& !(cb.mutable && cb.running)
                    &&& (cb.mutable ==> only_running_set(*old(rt), *final(rt), cbr, true))
                    &&& (!cb.mutable ==> final(rt).registry == old(rt).registry)
                    &&& match this {
                        Some(h) => cb.takes_self ==> {
                            let i = h.index as int;
                            &&& payload_access_ok(*old(rt), i, cb.mutable)
                            &&& old(rt).objects@[i].tag.base == old(rt).registry@[cbr.mt as int].tag.base
                            &&& acquired_state(*old(rt), *final(rt), i, cb.mutable)
                            &&& inv.this == Some(h.index)
                            &&& inv.inner == (match old(rt).objects@[i].cell.value {
                                Payload::Shared(k) => Some(k),
                                _ => None::<usize>,
                            })
                            &&& inv.inner_exclusive == (inv.inner is Some && inner_is_exclusive(
                                old(rt).objects@[i].tag.kind,
                                cb.mutable,
                            ))
                            &&& read_held(final(rt).payload_guard(i))
                            &&& (cb.mutable ==> write_held(final(rt).payload_guard(i)))
                            &&& !final(rt).objects@[i].destructed()
                        },
                        None => true,
                    }
                    &&& (!cb.takes_self || this is None ==> inv.this == None::<usize> && inv.inner
                        == None::<usize> && final(rt).objects == old(rt).objects && final(rt).shared == old(rt).shared)
                    &&& (cb.takes_self ==> this is Some)
                },
                Err(e) => {
                    &&& final(rt).objects@ == old(rt).objects@
                    &&& final(rt).shared@ == old(rt).shared@
                    &&& final(rt).registry@ == old(rt).registry@
                    &&& match e {
                        Error::FromLuaConversionError { from, to } => cb.takes_self && this
                            is None && from@ == "missing argument"@ && to@ == "userdata"@,
                        Error::RecursiveMutCallback => !(cb.takes_self && this is None)
                            && cb.mutable && cb.running,
                        Error::UserDataDestructed => !(cb.takes_self && this is None) && !(
                        cb.mutable && cb.running) && cb.takes_self && old(rt).objects@[this->Some_0.index as int].destructed(),
                        Error::UserDataTypeMismatch => !(cb.takes_self && this is None) && !(
                        cb.mutable && cb.running) && cb.takes_self && {
                            let i = this->Some_0.index as int;
                            &&& !old(rt).objects@[i].destructed()
                            &&& old(rt).objects@[i].tag.base != old(rt).registry@[cbr.mt as int].tag.base
                        },
                        Error::UserDataBorrowError => !(cb.mutable && cb.running) && cb.takes_self
                            && this is Some && !cb.mutable && {
                            let i = this->Some_0.index as int;
                            &&& !old(rt).objects@[i].destructed()
                            &&& old(rt).objects@[i].tag.base == old(rt).registry@[cbr.mt as int].tag.base
                            &&& !payload_access_ok(*old(rt), i, false)
                        },
                        Error::UserDataBorrowMutError => !(cb.mutable && cb.running)
                            && cb.takes_self && this is Some && cb.mutable && {
                            let i = this->Some_0.index as int;
                            &&& !old(rt).objects@[i].destructed()
                            &&& old(rt).objects@[i].tag.base == old(rt).registry@[cbr.mt as int].tag.base
                            &&& !payload_access_ok(*old(rt), i, true)
                        },
                        _ => false,
                    }
                },
            }
        }),
{
    let cb = get_callback(rt, cbr);
    if cb.takes_self && this.is_none() {
        return Err(
            Error::FromLuaConversionError {
                from: "missing argument".to_owned(),
                to: "userdata".to_owned(),
            },
        );
    }
    if cb.mutable && cb.running {
        return Err(Error::RecursiveMutCallback);
    }
    if cb.takes_self {
        let h = match this {
            Some(h) => h,
            None => unreached(),
        };
        let i = h.index;
        let inner_slot: Option<usize> = match &rt.objects[i].cell.value {
            Payload::Owned(_) => None,
            Payload::Shared(k) => Some(*k),
            Payload::Destructed => {
                return Err(Error::UserDataDestructed);
            },
        };
        if rt.objects[i].tag.base != rt.registry[cbr.mt].tag.base {
            return Err(Error::UserDataTypeMismatch);
        }
        if cb.mutable {
            match rt.objects[i].cell.try_borrow_mut() {
                Err(_) => {
                    proof {
                        assert(rt.objects@ =~= old(rt).objects@);
                    }
                    return Err(Error::UserDataBorrowMutError);
                },
                Ok(()) => {},
            }
        } else {
            match rt.objects[i].cell.try_borrow() {
                Err(_) => {
                    proof {
                        assert(rt.objects@ =~= old(rt).objects@);
                    }
                    return Err(Error::UserDataBorrowError);
                },
                Ok(()) => {},
            }
        }
        let mut inner_excl = false;
        match inner_slot {
            None => {},
            Some(k) => {
                let excl = match rt.objects[i].tag.kind {
                    OwnershipKind::MutexGuarded => true,
                    _ => cb.mutable,
                };
                inner_excl = excl;
                let got = if excl {
                    rt.shared[k].try_borrow_mut()
                } else {
                    rt.shared[k].try_borrow()
                };
                match got {
                    Ok(()) => {},
                    Err(_) => {
                        if cb.mutable {
                            rt.objects[i].cell.release_borrow_mut();
                            proof {
                                assert(rt.objects@ =~= old(rt).objects@);
                                assert(rt.shared@ =~= old(rt).shared@);
                            }
                            return Err(Error::UserDataBorrowMutError);
                        } else {
                            rt.objects[i].cell.release_borrow();
                            proof {
                                let s0 = old(rt).objects@[i as int].cell.state;
                                assert(can_borrow(s0));
                                assert(crate::cell::after_release(crate::cell::after_borrow(s0))
                                    == s0) by {
                                    match s0 {
                                        BorrowState::Free => {},
                                        BorrowState::Shared(n) => {
                                            assert(n < usize::MAX);
                                        },
                                        BorrowState::Exclusive => {},
                                    }
                                }
                                assert(rt.objects@[i as int].cell == old(
                                    rt,
                                ).objects@[i as int].cell);
                                assert(rt.objects@ =~= old(rt).objects@);
                                assert(rt.shared@ =~= old(rt).shared@);
                            }
                            return Err(Error::UserDataBorrowError);
                        }
                    },
                }
            },
        }
        if cb.mutable {
            set_running_flag(rt, cbr, true);
        }
        proof {
            assert forall|j: int|
                0 <= j < rt.objects@.len() implies (#[trigger] rt.objects@[j]).wf(
                rt.registry@.len() as int,
                rt.shared@.len() as int,
            ) by {
                assert(old(rt).objects@[j].wf(
                    old(rt).registry@.len() as int,
                    old(rt).shared@.len() as int,
                ));
            }
        }
        Ok(
            Invocation {
                cbr,
                cb_id: cb.id,
                mutable: cb.mutable,
                this: Some(i),
                inner: inner_slot,
                inner_exclusive: inner_excl,
            },
        )
    } else {
        if cb.mutable {
            set_running_flag(rt, cbr, true);
        }
        Ok(
            Invocation {
                cbr,
                cb_id: cb.id,
                mutable: cb.mutable,
                this: None,
                inner: None,
                inner_exclusive: false,
            },
        )
    }
}

/// Ends a call begun by `begin_method_call`: releases the shared-cell
/// borrow of a wrapped payload, releases the object's own borrow, and
/// clears the re-entry guard of a mutably-captured callback. The stack
/// and everything not acquired by the call are untouched.
pub fn end_method_call<T>(rt: &mut Runtime<T>, inv: Invocation)
    requires
        old(rt).wf(),
        inv.cbr.valid(*old(rt)),
        match inv.this {
            Some(i) => i < old(rt).objects@.len() && (if inv.mutable {
                old(rt).objects@[i as int].cell.state == BorrowState::Exclusive
            } else {
                old(rt).objects@[i as int].cell.state matches BorrowState::Shared(_)
            }),
            None => inv.inner is None,
        },
        match inv.inner {
            Some(k) => k < old(rt).shared@.len() && (if inv.inner_exclusive {
                old(rt).shared@[k as int].state == BorrowState::Exclusive
            } else {
                old(rt).shared@[k as int].state matches BorrowState::Shared(_)
            }),
            None => true,
        },
    ensures
        final(rt).wf(),
        final(rt).stack@ == old(rt).stack@,
        final(rt).objects@.len() == old(rt).objects@.len(),
        final(rt).shared@.len() == old(rt).shared@.len(),
        final(rt).registry@.len() == old(rt).registry@.len(),
        (inv.mutable ==> only_running_set(*old(rt), *final(rt), inv.cbr, false)),
        (!inv.mutable ==> final(rt).registry == old(rt).registry),
        match inv.this {
            Some(i) => {
                let o1 = old(rt).objects@[i as int];
                let o2 = final(rt).objects@[i as int];
                &&& (forall|j: int|
                    0 <= j < old(rt).objects@.len() && j != i as int ==> final(rt).objects@[j]
                        == old(rt).objects@[j])
                &&& o2.tag == o1.tag
                &&& o2.cell.value == o1.cell.value
                &&& o2.cell.serializable == o1.cell.serializable
                &&& o2.uv_inline == o1.uv_inline
                &&& o2.uv_overflow == o1.uv_overflow
                &&& o2.uv_named == o1.uv_named
                &&& o2.meta == o1.meta
                &&& o2.cell.state == (if inv.mutable {
                    BorrowState::Free
                } else {
                    crate::cell::after_release(o1.cell.state)
                })
            },
            None => final(rt).objects == old(rt).objects,
        },
        match inv.inner {
            Some(k) => {
                &&& (forall|j: int|
                    0 <= j < old(rt).shared@.len() && j != k as int ==> final(rt).shared@[j] == old(rt).shared@[j])
                &&& final(rt).shared@[k as int].value == old(rt).shared@[k as int].value
                &&& final(rt).shared@[k as int].serializable == old(rt).shared@[k as int].serializable
                &&& final(rt).shared@[k as int].state == (if inv.inner_exclusive {
                    BorrowState::Free
                } else {
                    crate::cell::after_release(old(rt).shared@[k as int].state)
                })
            },
            None => final(rt).shared == old(rt).shared,
        },
{
    match inv.inner {
        Some(k) => {
            if inv.inner_exclusive {
                rt.shared[k].release_borrow_mut();
            } else {
                rt.shared[k].release_borrow();
            }
        },
        None => {},
    }
    match inv.this {
        Some(i) => {
            if inv.mutable {
                rt.objects[i].cell.release_borrow_mut();
            } else {
                rt.objects[i].cell.release_borrow();
            }
        },
        None => {},
    }
    if inv.mutable {
        set_running_flag(rt, inv.cbr, false);
    }
    proof {
        assert forall|j: int|
            0 <= j < rt.objects@.len() implies (#[trigger] rt.objects@[j]).wf(
            rt.registry@.len() as int,
            rt.shared@.len() as int,
        ) by {
            assert(old(rt).objects@[j].wf(
                old(rt).registry@.len() as int,
                old(rt).shared@.len() as int,
            ));
        }
    }
}

} // verus!
