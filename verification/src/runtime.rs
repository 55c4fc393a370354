//! The modelled embedded runtime: a heap of userdata objects, the cells
//! of host values shared between them, the per-instance metatable cache,
//! and the single call stack.

use vstd::prelude::*;

use crate::assoc::{
    assoc_find, assoc_update, has_key, idx_find, idx_has_key, idx_unique, idx_update, idx_val_of,
    lemma_idx_unique_val, lemma_unique_val, unique_keys, val_of,
};
use crate::cell::{state_ok, BorrowState, UserDataCell};
use crate::handle::AnyUserData;
use crate::registry::{has_tag, Metatable};
use crate::value::{value_clone, Value};

verus! {

/// One-based user-value indices strictly below this bound live in the
/// object's inline slots; greater indices live in the overflow table.
pub const USER_VALUE_MAXSLOT: usize = 8;

/// The greatest admissible user-value index.
pub const MAX_USER_VALUES: usize = 65535;

/// The capacity of the runtime's call stack, in slots.
pub const MAX_STACK: usize = 1000000;

/// The sharing strategy a host value was wrapped in when its object was
/// created. The strategy is decided once, at creation, and never changes.
#[derive(Debug, Clone, Copy, PartialEq, Eq, Structural, Hash)]
pub enum OwnershipKind {
    /// The object owns its host value exclusively.
    Exclusive,
    /// The host value is shared within one thread behind a borrow
    /// counter.
    SharedChecked,
    /// The host value is shared between threads behind a mutex; every
    /// access acquires the lock exclusively, without blocking.
    MutexGuarded,
    /// The host value is shared between threads behind a reader/writer
    /// lock; reads acquire it shared, writes exclusively, without
    /// blocking.
    RwLockGuarded,
}

/// The exact type identity of a live object: the host type it stores,
/// together with the ownership wrapper it was created with.
#[derive(Debug, Clone, Copy, PartialEq, Eq, Structural, Hash)]
pub struct TypeTag {
    /// The identity of the wrapped host type.
    pub base: u64,
    /// The ownership wrapper the object was created with.
    pub kind: OwnershipKind,
}

/// What an object's cell stores: the host value itself (exclusive
/// ownership), a reference to a cell shared with other objects, or
/// nothing, after the payload was taken.
pub enum Payload<T> {
    /// The object owns this host value.
    Owned(T),
    /// The host value lives in the runtime's shared-cell table, at this
    /// index, possibly aliased by other objects.
    Shared(usize),
    /// The payload was taken; the object rejects further payload access.
    Destructed,
}

/// One userdata object of the runtime's heap.
pub struct Object<T> {
    /// The exact type identity, decided at creation.
    pub tag: TypeTag,
    /// The payload behind the object's own borrow-checked cell.
    pub cell: UserDataCell<Payload<T>>,
    /// Inline user-value slots for indices `1..USER_VALUE_MAXSLOT`.
    pub uv_inline: Vec<Value>,
    /// Overflow user-value slots for indices
    /// `USER_VALUE_MAXSLOT..=MAX_USER_VALUES`, filled on first write.
    pub uv_overflow: Vec<(usize, Value)>,
    /// Named user values; an independent key namespace.
    pub uv_named: Vec<(String, Value)>,
    /// The index of the object's metatable in the runtime's cache.
    pub meta: usize,
}

impl<T> Object<T> {
    /// Well-formedness against a registry of `nreg` metatables and a
    /// shared-cell table of `nshared` cells.
    pub open spec fn wf(self, nreg: int, nshared: int) -> bool {
        &&& self.meta < nreg
        &&& self.uv_inline@.len() == USER_VALUE_MAXSLOT - 1
        &&& idx_unique(self.uv_overflow@)
        &&& forall|i: int|
            0 <= i < self.uv_overflow@.len() ==> USER_VALUE_MAXSLOT <= (
            #[trigger] self.uv_overflow@[i]).0 <= MAX_USER_VALUES
        &&& unique_keys(self.uv_named@)
        &&& state_ok(self.cell.state)
        &&& match self.cell.value {
            Payload::Owned(_) => self.tag.kind == OwnershipKind::Exclusive,
            Payload::Shared(k) => k < nshared && self.tag.kind != OwnershipKind::Exclusive,
            Payload::Destructed => true,
        }
    }

    /// The payload was taken from this object.
    pub open spec fn destructed(self) -> bool {
        self.cell.value matches Payload::Destructed
    }

    /// The user value stored at one-based index `n`, the absent value by
    /// default.
    pub open spec fn user_value_spec(self, n: int) -> Value {
        if 1 <= n < USER_VALUE_MAXSLOT {
            self.uv_inline@[n - 1]
        } else if idx_has_key(self.uv_overflow@, n) {
            idx_val_of(self.uv_overflow@, n)
        } else {
            Value::Nil
        }
    }

    /// The user value stored under a name, the absent value by default.
    pub open spec fn named_value_spec(self, k: Seq<char>) -> Value {
        if has_key(self.uv_named@, k) {
            val_of(self.uv_named@, k)
        } else {
            Value::Nil
        }
    }

    /// All fields of the object except its user-value storage are equal.
    pub open spec fn same_but_user_values(self, other: Object<T>) -> bool {
        &&& other.tag == self.tag
        &&& other.cell == self.cell
        &&& other.meta == self.meta
    }

    /// Stores `v` in the user-value slot of one-based index `n`, in an
    /// inline slot below `USER_VALUE_MAXSLOT` and in the overflow table
    /// from there on. Every other slot and every named user value keeps
    /// its value.
    pub fn set_uv(&mut self, n: usize, v: Value)
        requires
            1 <= n <= MAX_USER_VALUES,
            old(self).uv_inline@.len() == USER_VALUE_MAXSLOT - 1,
            idx_unique(old(self).uv_overflow@),
            forall|i: int|
                0 <= i < old(self).uv_overflow@.len() ==> USER_VALUE_MAXSLOT <= (#[trigger] old(self).uv_overflow@[i]).0 <= MAX_USER_VALUES,
        ensures
            old(self).same_but_user_values(*final(self)),
            final(self).uv_named == old(self).uv_named,
            final(self).uv_inline@.len() == USER_VALUE_MAXSLOT - 1,
            idx_unique(final(self).uv_overflow@),
            forall|i: int|
                0 <= i < final(self).uv_overflow@.len() ==> USER_VALUE_MAXSLOT <= (#[trigger] final(self).uv_overflow@[i]).0 <= MAX_USER_VALUES,
            final(self).user_value_spec(n as int) == v,
            forall|m: int|
                1 <= m <= MAX_USER_VALUES && m != n ==> final(self).user_value_spec(m) == old(self).user_value_spec(m),
    {
        if n < USER_VALUE_MAXSLOT {
            self.uv_inline[n - 1] = v;
            proof {
                assert(self.uv_inline@ =~= old(self).uv_inline@.update(n - 1, v));
                assert forall|m: int| 1 <= m <= MAX_USER_VALUES && m != n implies self.user_value_spec(
                    m,
                ) == old(self).user_value_spec(m) by {
                    if 1 <= m < USER_VALUE_MAXSLOT {
                        assert(self.uv_inline@[m - 1] == old(self).uv_inline@[m - 1]);
                    }
                }
            }
        } else {
            idx_update(&mut self.uv_overflow, n, v);
            proof {
                assert forall|i: int|
                    0 <= i < self.uv_overflow@.len() implies USER_VALUE_MAXSLOT <= (
                #[trigger] self.uv_overflow@[i]).0 <= MAX_USER_VALUES by {
                    if self.uv_overflow@[i].0 != n {
                        assert(idx_has_key(old(self).uv_overflow@, self.uv_overflow@[i].0 as int));
                        let j = choose|j: int|
                            0 <= j < old(self).uv_overflow@.len() && (#[trigger] old(self).uv_overflow@[j]).0 == self.uv_overflow@[i].0 as int;
                        assert(USER_VALUE_MAXSLOT <= old(self).uv_overflow@[j].0
                            <= MAX_USER_VALUES);
                    }
                }
                assert forall|m: int| 1 <= m <= MAX_USER_VALUES && m != n implies self.user_value_spec(
                    m,
                ) == old(self).user_value_spec(m) by {
                    if USER_VALUE_MAXSLOT <= m {
                        assert(idx_has_key(self.uv_overflow@, m) == idx_has_key(
                            old(self).uv_overflow@,
                            m,
                        ));
                    }
                }
            }
        }
    }

    /// Reads the user-value slot of one-based index `n`.
    pub fn get_uv(&self, n: usize) -> (r: Value)
        requires
            1 <= n <= MAX_USER_VALUES,
            self.uv_inline@.len() == USER_VALUE_MAXSLOT - 1,
            idx_unique(self.uv_overflow@),
        ensures
            r == self.user_value_spec(n as int),
    {
        if n < USER_VALUE_MAXSLOT {
            value_clone(&self.uv_inline[n - 1])
        } else {
            match idx_find(&self.uv_overflow, n) {
                Some(i) => {
                    proof {
                        lemma_idx_unique_val(self.uv_overflow@, n as int, i as int);
                    }
                    value_clone(&self.uv_overflow[i].1)
                },
                None => Value::Nil,
            }
        }
    }

    /// Stores `v` as the named user value of `name`. Every other named
    /// user value and every indexed slot keeps its value.
    pub fn set_named_uv(&mut self, name: &str, v: Value)
        requires
            unique_keys(old(self).uv_named@),
        ensures
            old(self).same_but_user_values(*final(self)),
            final(self).uv_inline == old(self).uv_inline,
            final(self).uv_overflow == old(self).uv_overflow,
            unique_keys(final(self).uv_named@),
            final(self).named_value_spec(name@) == v,
            forall|k: Seq<char>|
                k != name@ ==> #[trigger] final(self).named_value_spec(k) == old(self).named_value_spec(k),
    {
        assoc_update(&mut self.uv_named, name, v);
        proof {
            assert forall|k: Seq<char>| k != name@ implies #[trigger] self.named_value_spec(k)
                == old(self).named_value_spec(k) by {
                assert(has_key(self.uv_named@, k) == has_key(old(self).uv_named@, k));
            }
        }
    }

    /// Reads the named user value of `name`.
    pub fn get_named_uv(&self, name: &str) -> (r: Value)
        requires
            unique_keys(self.uv_named@),
        ensures
            r == self.named_value_spec(name@),
    {
        match assoc_find(&self.uv_named, name) {
            Some(i) => {
                proof {
                    lemma_unique_val(self.uv_named@, name@, i as int);
                }
                value_clone(&self.uv_named[i].1)
            },
            None => Value::Nil,
        }
    }
}

/// One instance of the embedded runtime, as the binding layer sees it.
pub struct Runtime<T> {
    /// The managed heap of userdata objects.
    pub objects: Vec<Object<T>>,
    /// Host values shared between objects (one cell per wrapped value).
    pub shared: Vec<UserDataCell<T>>,
    /// The per-instance metatable cache, one entry per registered type.
    pub registry: Vec<Metatable>,
    /// The runtime's single call stack.
    pub stack: Vec<Value>,
}

impl<T> Runtime<T> {
    /// Well-formedness of the whole instance: every object and metatable
    /// is well-formed and no type has two cached metatables.
    pub open spec fn wf(self) -> bool {
        &&& forall|i: int|
            0 <= i < self.objects@.len() ==> (#[trigger] self.objects@[i]).wf(
                self.registry@.len() as int,
                self.shared@.len() as int,
            )
        &&& forall|i: int|
            0 <= i < self.shared@.len() ==> state_ok((#[trigger] self.shared@[i]).state)
        &&& forall|i: int| 0 <= i < self.registry@.len() ==> (#[trigger] self.registry@[i]).wf()
        &&& forall|i: int, j: int|
            0 <= i < j < self.registry@.len() ==> (#[trigger] self.registry@[i]).tag != (
            #[trigger] self.registry@[j]).tag
    }

    /// The payload of the object at heap index `i` (meaningful while the
    /// object is not destructed).
    pub open spec fn payload_of(self, i: int) -> T
        recommends
            0 <= i < self.objects@.len(),
            !self.objects@[i].destructed(),
    {
        match self.objects@[i].cell.value {
            Payload::Owned(t) => t,
            Payload::Shared(k) => self.shared@[k as int].value,
            Payload::Destructed => arbitrary(),
        }
    }

    /// The borrow state that guards payload access of the object at heap
    /// index `i`: its own cell for an owned payload, the shared cell for
    /// a wrapped one.
    pub open spec fn payload_guard(self, i: int) -> BorrowState
        recommends
            0 <= i < self.objects@.len(),
    {
        match self.objects@[i].cell.value {
            Payload::Shared(k) => self.shared@[k as int].state,
            _ => self.objects@[i].cell.state,
        }
    }

    /// A fresh runtime instance: empty heap, no shared cells, empty
    /// metatable cache, empty stack.
    pub fn new() -> (rt: Runtime<T>)
        ensures
            rt.wf(),
            rt.objects@.len() == 0,
            rt.shared@.len() == 0,
            rt.registry@.len() == 0,
            rt.stack@.len() == 0,
    {
        Runtime { objects: Vec::new(), shared: Vec::new(), registry: Vec::new(), stack: Vec::new() }
    }

    /// Finds the cached metatable of a type, if one was already built.
    pub fn find_metatable(&self, tag: TypeTag) -> (r: Option<usize>)
        ensures
            match r {
                Some(i) => i < self.registry@.len() && self.registry@[i as int].tag == tag,
                None => !has_tag(self.registry@, tag),
            },
    {
        let n = self.registry.len();
        let mut i: usize = 0;
        while i < n
            invariant
                i <= n,
                n == self.registry@.len(),
                forall|j: int| 0 <= j < i ==> (#[trigger] self.registry@[j]).tag != tag,
            decreases n - i,
        {
            if self.registry[i].tag == tag {
                return Some(i);
            }
            i = i + 1;
        }
        None
    }
}

/// Builds the run of inline user-value slots of a fresh object, all
/// holding the absent value.
fn fresh_inline_slots() -> (v: Vec<Value>)
    ensures
        v@.len() == USER_VALUE_MAXSLOT - 1,
        forall|i: int| 0 <= i < v@.len() ==> v@[i] == Value::Nil,
{
    let mut v: Vec<Value> = Vec::new();
    while v.len() < USER_VALUE_MAXSLOT - 1
        invariant
            v@.len() <= USER_VALUE_MAXSLOT - 1,
            forall|i: int| 0 <= i < v@.len() ==> v@[i] == Value::Nil,
        decreases USER_VALUE_MAXSLOT - 1 - v@.len(),
    {
        v.push(Value::Nil);
    }
    v
}

/// Returns the index of the cached metatable of `tag`, building an empty
/// one on first use of the type in this instance.
fn ensure_metatable<T>(rt: &mut Runtime<T>, tag: TypeTag) -> (i: usize)
    requires
        old(rt).wf(),
    ensures
        final(rt).wf(),
        i < final(rt).registry@.len(),
        final(rt).registry@[i as int].tag == tag,
        final(rt).objects == old(rt).objects,
        final(rt).shared == old(rt).shared,
        final(rt).stack == old(rt).stack,
        old(rt).registry@.len() <= final(rt).registry@.len(),
        final(rt).registry@.subrange(0, old(rt).registry@.len() as int) == old(rt).registry@,
        has_tag(old(rt).registry@, tag) ==> final(rt).registry == old(rt).registry,
        !has_tag(old(rt).registry@, tag) ==> final(rt).registry@.len() == old(rt).registry@.len()
            + 1 && i == old(rt).registry@.len() && final(rt).registry@[i as int].is_empty_spec(tag),
{
    match rt.find_metatable(tag) {
        Some(i) => {
            proof {
                assert(rt.registry@.subrange(0, rt.registry@.len() as int) =~= rt.registry@);
            }
            i
        },
        None => {
            let ghost prevreg = rt.registry@;
            let i = rt.registry.len();
            rt.registry.push(Metatable::empty(tag));
            proof {
                assert(rt.registry@.subrange(0, prevreg.len() as int) =~= prevreg);
                assert forall|a: int|
                    0 <= a < rt.objects@.len() implies (#[trigger] rt.objects@[a]).wf(
                    rt.registry@.len() as int,
                    rt.shared@.len() as int,
                ) by {
                    assert(rt.objects@[a].wf(prevreg.len() as int, rt.shared@.len() as int));
                }
            }
            i
        },
    }
}

/// Creates a userdata object owning `value` exclusively, under the host
/// type identity `base`. The metatable of the type is reused if cached,
/// or an empty one is built on this first use.
pub fn create_userdata<T>(rt: &mut Runtime<T>, base: u64, value: T) -> (h: AnyUserData)
    requires
        old(rt).wf(),
    ensures
        final(rt).wf(),
        fresh_object_post(
            *old(rt),
            *final(rt),
            h,
            (TypeTag { base, kind: OwnershipKind::Exclusive }),
            false,
        ),
        final(rt).objects@.last().cell.value == Payload::Owned(value),
{
    let tag = TypeTag { base, kind: OwnershipKind::Exclusive };
    push_object(rt, tag, UserDataCell::new(Payload::Owned(value)))
}

/// Creates a userdata object owning `value` exclusively and marked as
/// supporting structured serialization.
pub fn create_ser_userdata<T>(rt: &mut Runtime<T>, base: u64, value: T) -> (h: AnyUserData)
    requires
        old(rt).wf(),
    ensures
        final(rt).wf(),
        fresh_object_post(
            *old(rt),
            *final(rt),
            h,
            (TypeTag { base, kind: OwnershipKind::Exclusive }),
            true,
        ),
        final(rt).objects@.last().cell.value == Payload::Owned(value),
{
    let tag = TypeTag { base, kind: OwnershipKind::Exclusive };
    push_object(rt, tag, UserDataCell::new_ser(Payload::Owned(value)))
}

/// Places a host value in a fresh shared cell, to be referenced by any
/// number of wrapped userdata objects.
pub fn create_shared_value<T>(rt: &mut Runtime<T>, value: T) -> (k: usize)
    requires
        old(rt).wf(),
    ensures
        final(rt).wf(),
        k == old(rt).shared@.len(),
        final(rt).shared@.len() == old(rt).shared@.len() + 1,
        final(rt).shared@.subrange(0, old(rt).shared@.len() as int) == old(rt).shared@,
        final(rt).shared@.last().value == value,
        final(rt).shared@.last().state == BorrowState::Free,
        final(rt).objects == old(rt).objects,
        final(rt).registry == old(rt).registry,
        final(rt).stack == old(rt).stack,
{
    let k = rt.shared.len();
    rt.shared.push(UserDataCell::new(value));
    proof {
        assert(rt.shared@.subrange(0, k as int) =~= old(rt).shared@);
        assert forall|a: int|
            0 <= a < rt.objects@.len() implies (#[trigger] rt.objects@[a]).wf(
            rt.registry@.len() as int,
            rt.shared@.len() as int,
        ) by {
            assert(rt.objects@[a].wf(rt.registry@.len() as int, k as int));
        }
    }
    k
}

/// Creates a userdata object whose payload is the shared cell at `slot`,
/// under the given non-exclusive ownership wrapper. Two objects created
/// over the same slot alias one host value.
pub fn create_wrapped_userdata<T>(
    rt: &mut Runtime<T>,
    base: u64,
    kind: OwnershipKind,
    slot: usize,
) -> (h: AnyUserData)
    requires
        old(rt).wf(),
        kind != OwnershipKind::Exclusive,
        slot < old(rt).shared@.len(),
    ensures
        final(rt).wf(),
        fresh_object_post(*old(rt), *final(rt), h, (TypeTag { base, kind }), false),
        final(rt).objects@.last().cell.value == Payload::<T>::Shared(slot),
{
    let tag = TypeTag { base, kind };
    push_object(rt, tag, UserDataCell::new(Payload::Shared(slot)))
}

/// What every object-creating function guarantees: the heap grew by one
/// object of the given tag, unborrowed, with empty user values and a
/// cached metatable of the tag; everything else is unchanged but for
/// metatables, where at most an empty one for `tag` was appended.
pub open spec fn fresh_object_post<T>(
    pre: Runtime<T>,
    post: Runtime<T>,
    h: AnyUserData,
    tag: TypeTag,
    ser: bool,
) -> bool {
    &&& h.index == pre.objects@.len()
    &&& post.objects@.len() == pre.objects@.len() + 1
    &&& post.objects@.subrange(0, pre.objects@.len() as int) == pre.objects@
    &&& post.objects@.last().tag == tag
    &&& post.objects@.last().cell.state == BorrowState::Free
    &&& post.objects@.last().cell.serializable == ser
    &&& (forall|n: int|
        1 <= n <= MAX_USER_VALUES ==> post.objects@.last().user_value_spec(n) == Value::Nil)
    &&& (forall|k: Seq<char>| post.objects@.last().named_value_spec(k) == Value::Nil)
    &&& post.registry@[post.objects@.last().meta as int].tag == tag
    &&& post.shared == pre.shared
    &&& post.stack == pre.stack
    &&& pre.registry@.len() <= post.registry@.len()
    &&& post.registry@.subrange(0, pre.registry@.len() as int) == pre.registry@
    &&& (has_tag(pre.registry@, tag) ==> post.registry == pre.registry)
    &&& (!has_tag(pre.registry@, tag) ==> post.registry@.len() == pre.registry@.len() + 1
        && post.registry@.last().is_empty_spec(tag))
}

/// Appends a fresh object with the given tag and cell to the heap.
fn push_object<T>(rt: &mut Runtime<T>, tag: TypeTag, cell: UserDataCell<Payload<T>>) -> (h:
    AnyUserData)
    requires
        old(rt).wf(),
        cell.state == BorrowState::Free,
        match cell.value {
            Payload::Owned(_) => tag.kind == OwnershipKind::Exclusive,
            Payload::Shared(k) => k < old(rt).shared@.len() && tag.kind
                != OwnershipKind::Exclusive,
            Payload::Destructed => false,
        },
    ensures
        final(rt).wf(),
        fresh_object_post(*old(rt), *final(rt), h, tag, cell.serializable),
        final(rt).objects@.last().cell.value == cell.value,
{
    let meta = ensure_metatable(rt, tag);
    let ghost mid = *rt;
    let obj = Object {
        tag,
        cell,
        uv_inline: fresh_inline_slots(),
        uv_overflow: Vec::new(),
        uv_named: Vec::new(),
        meta,
    };
    let h = AnyUserData { index: rt.objects.len() };
    rt.objects.push(obj);
    proof {
        assert(rt.objects@.subrange(0, old(rt).objects@.len() as int) =~= old(rt).objects@);
        let o = rt.objects@.last();
        assert forall|n: int| 1 <= n <= MAX_USER_VALUES implies o.user_value_spec(n)
            == Value::Nil by {
            if USER_VALUE_MAXSLOT <= n {
                assert(!idx_has_key(o.uv_overflow@, n));
            }
        }
        assert forall|a: int|
            0 <= a < rt.objects@.len() implies (#[trigger] rt.objects@[a]).wf(
            rt.registry@.len() as int,
            rt.shared@.len() as int,
        ) by {
            if a < rt.objects@.len() - 1 {
                assert(mid.objects@[a].wf(mid.registry@.len() as int, mid.shared@.len() as int));
            }
        }
    }
    h
}

} // verus!
