//! The opaque handle to a live userdata object: dynamic type testing,
//! checked borrowing, payload extraction, auxiliary user-value slots and
//! metatable introspection.

use vstd::prelude::*;

use crate::assoc::{assoc_find, lemma_unique_val};
use crate::cell::{
    after_borrow, after_release, can_borrow, can_borrow_mut, read_held, write_held, BorrowState,
};
use crate::error::Error;
use crate::metatable::UserDataMetatable;
use crate::runtime::{Object, OwnershipKind, Payload, Runtime, TypeTag, MAX_STACK, MAX_USER_VALUES};
use crate::stack::{check_stack, push_value, restore, StackGuard};
use crate::value::Value;

verus! {

/// A type-erased reference to a userdata object of the runtime's heap.
/// The handle does not own the payload; the heap does. Two handles are
/// equal exactly when they reference the same object.
#[derive(Debug, Clone, Copy, PartialEq, Eq, Structural)]
pub struct AnyUserData {
    /// The index of the referenced object in the runtime's heap.
    pub index: usize,
}

/// A handle variant that owns its place in the runtime's registry and is
/// not bound to a borrow of a runtime value.
#[derive(Debug, Clone, Copy, PartialEq, Eq, Structural)]
pub struct OwnedAnyUserData {
    /// The index of the referenced object in the runtime's heap.
    pub index: usize,
}

impl OwnedAnyUserData {
    /// Borrows the owned handle as an ordinary one.
    pub fn to_ref(&self) -> (h: AnyUserData)
        ensures
            h.index == self.index,
    {
        AnyUserData { index: self.index }
    }
}

/// How handle equality was resolved: by raw object identity, by a
/// definite mismatch, or deferred to the types' equality hook, which the
/// embedded runtime must invoke.
#[derive(Debug, Clone, Copy, PartialEq, Eq, Structural)]
pub enum EqOutcome {
    /// The handles reference the same object.
    Equal,
    /// The handles reference distinct objects and no equality hook
    /// applies.
    NotEqual,
    /// Both objects share a metatable that defines an equality hook; the
    /// hook function of this identity decides.
    Metamethod(u64),
}

/// Everything outside the object at heap index `i` is unchanged, and of
/// that object only the cell's borrow state may differ.
pub open spec fn only_cell_state_changed<T>(pre: Runtime<T>, post: Runtime<T>, i: int) -> bool {
    &&& post.objects@.len() == pre.objects@.len()
    &&& (forall|j: int|
        0 <= j < pre.objects@.len() && j != i ==> post.objects@[j] == pre.objects@[j])
    &&& post.objects@[i].tag == pre.objects@[i].tag
    &&& post.objects@[i].cell.value == pre.objects@[i].cell.value
    &&& post.objects@[i].cell.serializable == pre.objects@[i].cell.serializable
    &&& post.objects@[i].uv_inline == pre.objects@[i].uv_inline
    &&& post.objects@[i].uv_overflow == pre.objects@[i].uv_overflow
    &&& post.objects@[i].uv_named == pre.objects@[i].uv_named
    &&& post.objects@[i].meta == pre.objects@[i].meta
    &&& post.shared == pre.shared
    &&& post.registry == pre.registry
    &&& post.stack == pre.stack
}

/// Everything outside the object at heap index `i` is unchanged but for
/// the stack's contents being restored, and of that object only the
/// user-value storage may differ.
pub open spec fn only_user_values_changed<T>(pre: Runtime<T>, post: Runtime<T>, i: int) -> bool {
    &&& post.objects@.len() == pre.objects@.len()
    &&& (forall|j: int|
        0 <= j < pre.objects@.len() && j != i ==> post.objects@[j] == pre.objects@[j])
    &&& pre.objects@[i].same_but_user_values(post.objects@[i])
    &&& post.shared == pre.shared
    &&& post.registry == pre.registry
    &&& post.stack@ == pre.stack@
}

impl AnyUserData {
    /// The handle references an object of the given runtime's heap.
    pub open spec fn valid<T>(self, rt: Runtime<T>) -> bool {
        self.index < rt.objects@.len()
    }

    /// Converts this handle into an owned one referencing the same
    /// object.
    pub fn into_owned(self) -> (o: OwnedAnyUserData)
        ensures
            o.index == self.index,
    {
        OwnedAnyUserData { index: self.index }
    }

    /// Whether the live object's exact type identity is `tag`. An object
    /// whose payload was taken matches no identity. No side effects.
    pub fn is<T>(&self, rt: &Runtime<T>, tag: TypeTag) -> (r: bool)
        requires
            self.valid(*rt),
        ensures
            r == (!rt.objects@[self.index as int].destructed()
                && rt.objects@[self.index as int].tag == tag),
    {
        let o = &rt.objects[self.index];
        match &o.cell.value {
            Payload::Destructed => false,
            _ => o.tag == tag,
        }
    }

    /// Acquires a shared borrow of the payload, for the exact host type
    /// `base` owned exclusively. Fails with `UserDataDestructed` after a
    /// take, `UserDataTypeMismatch` on any other identity (wrappers
    /// too: this accessor never unwraps), and `UserDataBorrowError`
    /// while the exclusive borrow is outstanding. On failure nothing
    /// changes.
    pub fn borrow<T>(&self, rt: &mut Runtime<T>, base: u64) -> (r: Result<(), Error>)
        requires
            old(rt).wf(),
            self.valid(*old(rt)),
        ensures
            final(rt).wf(),
            only_cell_state_changed(*old(rt), *final(rt), self.index as int),
            ({
                let o = old(rt).objects@[self.index as int];
                let s2 = final(rt).objects@[self.index as int].cell.state;
                match r {
                    Ok(()) => !o.destructed() && o.tag == (TypeTag {
                        base,
                        kind: OwnershipKind::Exclusive,
                    }) && can_borrow(o.cell.state) && s2 == after_borrow(o.cell.state),
                    Err(e) => s2 == o.cell.state && match e {
                        Error::UserDataDestructed => o.destructed(),
                        Error::UserDataTypeMismatch => !o.destructed() && o.tag != (TypeTag {
                            base,
                            kind: OwnershipKind::Exclusive,
                        }),
                        Error::UserDataBorrowError => !o.destructed() && o.tag == (TypeTag {
                            base,
                            kind: OwnershipKind::Exclusive,
                        }) && !can_borrow(o.cell.state),
                        _ => false,
                    },
                }
            }),
    {
        let i = self.index;
        match &rt.objects[i].cell.value {
            Payload::Destructed => {
                return Err(Error::UserDataDestructed);
            },
            _ => {},
        }
        if !(rt.objects[i].tag == (TypeTag { base, kind: OwnershipKind::Exclusive })) {
            return Err(Error::UserDataTypeMismatch);
        }
        let r = rt.objects[i].cell.try_borrow();
        proof {
            assert forall|j: int|
                0 <= j < rt.objects@.len() implies (#[trigger] rt.objects@[j]).wf(
                rt.registry@.len() as int,
                rt.shared@.len() as int,
            ) by {
                assert(old(rt).objects@[j].wf(rt.registry@.len() as int, rt.shared@.len() as int));
            }
        }
        r
    }

    /// Acquires the exclusive borrow of the payload, for the exact host
    /// type `base` owned exclusively. Fails with `UserDataDestructed`
    /// after a take, `UserDataTypeMismatch` on any other identity, and
    /// `UserDataBorrowMutError` while any borrow is outstanding. On
    /// failure nothing changes.
    pub fn borrow_mut<T>(&self, rt: &mut Runtime<T>, base: u64) -> (r: Result<(), Error>)
        requires
            old(rt).wf(),
            self.valid(*old(rt)),
        ensures
            final(rt).wf(),
            only_cell_state_changed(*old(rt), *final(rt), self.index as int),
            ({
                let o = old(rt).objects@[self.index as int];
                let s2 = final(rt).objects@[self.index as int].cell.state;
                match r {
                    Ok(()) => !o.destructed() && o.tag == (TypeTag {
                        base,
                        kind: OwnershipKind::Exclusive,
                    }) && can_borrow_mut(o.cell.state) && s2 == BorrowState::Exclusive,
                    Err(e) => s2 == o.cell.state && match e {
                        Error::UserDataDestructed => o.destructed(),
                        Error::UserDataTypeMismatch => !o.destructed() && o.tag != (TypeTag {
                            base,
                            kind: OwnershipKind::Exclusive,
                        }),
                        Error::UserDataBorrowMutError => !o.destructed() && o.tag == (TypeTag {
                            base,
                            kind: OwnershipKind::Exclusive,
                        }) && !can_borrow_mut(o.cell.state),
                        _ => false,
                    },
                }
            }),
    {
        let i = self.index;
        match &rt.objects[i].cell.value {
            Payload::Destructed => {
                return Err(Error::UserDataDestructed);
            },
            _ => {},
        }
        if !(rt.objects[i].tag == (TypeTag { base, kind: OwnershipKind::Exclusive })) {
            return Err(Error::UserDataTypeMismatch);
        }
        let r = rt.objects[i].cell.try_borrow_mut();
        proof {
            assert forall|j: int|
                0 <= j < rt.objects@.len() implies (#[trigger] rt.objects@[j]).wf(
                rt.registry@.len() as int,
                rt.shared@.len() as int,
            ) by {
                assert(old(rt).objects@[j].wf(rt.registry@.len() as int, rt.shared@.len() as int));
            }
        }
        r
    }

    /// Releases one shared borrow acquired by `borrow`.
    pub fn release_borrow<T>(&self, rt: &mut Runtime<T>)
        requires
            old(rt).wf(),
            self.valid(*old(rt)),
            old(rt).objects@[self.index as int].cell.state matches BorrowState::Shared(_),
        ensures
            final(rt).wf(),
            only_cell_state_changed(*old(rt), *final(rt), self.index as int),
            final(rt).objects@[self.index as int].cell.state == after_release(
                old(rt).objects@[self.index as int].cell.state,
            ),
    {
        rt.objects[self.index].cell.release_borrow();
        proof {
            assert forall|j: int|
                0 <= j < rt.objects@.len() implies (#[trigger] rt.objects@[j]).wf(
                rt.registry@.len() as int,
                rt.shared@.len() as int,
            ) by {
                assert(old(rt).objects@[j].wf(rt.registry@.len() as int, rt.shared@.len() as int));
            }
        }
    }

    /// Releases the exclusive borrow acquired by `borrow_mut`.
    pub fn release_borrow_mut<T>(&self, rt: &mut Runtime<T>)
        requires
            old(rt).wf(),
            self.valid(*old(rt)),
            old(rt).objects@[self.index as int].cell.state == BorrowState::Exclusive,
        ensures
            final(rt).wf(),
            only_cell_state_changed(*old(rt), *final(rt), self.index as int),
            final(rt).objects@[self.index as int].cell.state == BorrowState::Free,
    {
        rt.objects[self.index].cell.release_borrow_mut();
        proof {
            assert forall|j: int|
                0 <= j < rt.objects@.len() implies (#[trigger] rt.objects@[j]).wf(
                rt.registry@.len() as int,
                rt.shared@.len() as int,
            ) by {
                assert(old(rt).objects@[j].wf(rt.registry@.len() as int, rt.shared@.len() as int));
            }
        }
    }

    /// Takes the payload out of the object, which must hold the exact
    /// host type `base` exclusively and be unborrowed. The object is left
    /// destructed: payload, method and metamethod access is rejected from
    /// here on, while its user values stay attached (they remain
    /// retrievable until the runtime itself reclaims the object).
    pub fn take<T>(&self, rt: &mut Runtime<T>, base: u64) -> (r: Result<T, Error>)
        requires
            old(rt).wf(),
            self.valid(*old(rt)),
        ensures
            final(rt).wf(),
            final(rt).stack@ == old(rt).stack@,
            final(rt).shared == old(rt).shared,
            final(rt).registry == old(rt).registry,
            final(rt).objects@.len() == old(rt).objects@.len(),
            forall|j: int|
                0 <= j < old(rt).objects@.len() && j != self.index as int ==> final(rt).objects@[j]
                    == old(rt).objects@[j],
            ({
                let o = old(rt).objects@[self.index as int];
                let o2 = final(rt).objects@[self.index as int];
                match r {
                    Ok(t) => old(rt).stack@.len() + 2 <= MAX_STACK && !o.destructed() && o.tag
                        == (TypeTag { base, kind: OwnershipKind::Exclusive }) && can_borrow_mut(
                        o.cell.state,
                    ) && t == old(rt).payload_of(self.index as int) && o2.destructed()
                        && o2.cell.state == o.cell.state && o2.cell.serializable
                        == o.cell.serializable && o2.tag == o.tag && o2.meta == o.meta
                        && o2.uv_inline == o.uv_inline && o2.uv_overflow == o.uv_overflow
                        && o2.uv_named == o.uv_named,
                    Err(e) => o2 == o && match e {
                        Error::StackError => old(rt).stack@.len() + 2 > MAX_STACK,
                        Error::UserDataDestructed => o.destructed(),
                        Error::UserDataTypeMismatch => !o.destructed() && o.tag != (TypeTag {
                            base,
                            kind: OwnershipKind::Exclusive,
                        }),
                        Error::UserDataBorrowMutError => !o.destructed() && o.tag == (TypeTag {
                            base,
                            kind: OwnershipKind::Exclusive,
                        }) && !can_borrow_mut(o.cell.state),
                        _ => false,
                    },
                }
            }),
    {
        let i = self.index;
        let g = StackGuard::new(rt);
        match check_stack(rt, 2) {
            Err(e) => {
                return Err(e);
            },
            Ok(()) => {},
        }
        match &rt.objects[i].cell.value {
            Payload::Destructed => {
                return Err(Error::UserDataDestructed);
            },
            _ => {},
        }
        if !(rt.objects[i].tag == (TypeTag { base, kind: OwnershipKind::Exclusive })) {
            return Err(Error::UserDataTypeMismatch);
        }
        match rt.objects[i].cell.state {
            BorrowState::Free => {},
            _ => {
                return Err(Error::UserDataBorrowMutError);
            },
        }
        push_value(rt, Value::UserData(i));
        let mut p: Payload<T> = Payload::Destructed;
        core::mem::swap(&mut p, &mut rt.objects[i].cell.value);
        restore(rt, g);
        proof {
            assert(rt.stack@ =~= old(rt).stack@);
            assert forall|j: int|
                0 <= j < rt.objects@.len() implies (#[trigger] rt.objects@[j]).wf(
                rt.registry@.len() as int,
                rt.shared@.len() as int,
            ) by {
                assert(old(rt).objects@[j].wf(rt.registry@.len() as int, rt.shared@.len() as int));
            }
        }
        match p {
            Payload::Owned(t) => Ok(t),
            _ => unreached(),
        }
    }

    /// Reads the payload of a live object. Some borrow of the payload's
    /// guarding cell must be outstanding: its own cell for an owned
    /// payload, the shared cell for a wrapped one.
    pub fn payload_read<'a, T>(&self, rt: &'a Runtime<T>) -> (r: &'a T)
        requires
            rt.wf(),
            self.valid(*rt),
            !rt.objects@[self.index as int].destructed(),
            read_held(rt.payload_guard(self.index as int)),
        ensures
            *r == rt.payload_of(self.index as int),
    {
        match &rt.objects[self.index].cell.value {
            Payload::Owned(t) => t,
            Payload::Shared(k) => &rt.shared[*k].value,
            Payload::Destructed => unreached(),
        }
    }

    /// Overwrites the payload of a live object with `v`. The exclusive
    /// borrow of the payload's guarding cell must be outstanding; the
    /// write replaces the whole value at once.
    pub fn payload_write<T>(&self, rt: &mut Runtime<T>, v: T)
        requires
            old(rt).wf(),
            self.valid(*old(rt)),
            !old(rt).objects@[self.index as int].destructed(),
            write_held(old(rt).payload_guard(self.index as int)),
        ensures
            final(rt).wf(),
            final(rt).payload_of(self.index as int) == v,
            final(rt).registry == old(rt).registry,
            final(rt).stack == old(rt).stack,
            final(rt).objects@.len() == old(rt).objects@.len(),
            final(rt).shared@.len() == old(rt).shared@.len(),
            ({
                let o = old(rt).objects@[self.index as int];
                match o.cell.value {
                    Payload::Owned(_) => {
                        let o2 = final(rt).objects@[self.index as int];
                        &&& final(rt).shared == old(rt).shared
                        &&& (forall|j: int|
                            0 <= j < old(rt).objects@.len() && j != self.index as int
                                ==> final(rt).objects@[j] == old(rt).objects@[j])
                        &&& o2.cell.value == Payload::<T>::Owned(v)
                        &&& o2.cell.state == o.cell.state
                        &&& o2.cell.serializable == o.cell.serializable
                        &&& o2.tag == o.tag
                        &&& o2.meta == o.meta
                        &&& o2.uv_inline == o.uv_inline
                        &&& o2.uv_overflow == o.uv_overflow
                        &&& o2.uv_named == o.uv_named
                    },
                    Payload::Shared(k) => {
                        &&& final(rt).objects == old(rt).objects
                        &&& (forall|j: int|
                            0 <= j < old(rt).shared@.len() && j != k ==> final(rt).shared@[j]
                                == old(rt).shared@[j])
                        &&& final(rt).shared@[k as int].value == v
                        &&& final(rt).shared@[k as int].state == old(rt).shared@[k as int].state
                        &&& final(rt).shared@[k as int].serializable == old(rt).shared@[k as int].serializable
                    },
                    Payload::Destructed => false,
                }
            }),
    {
        let i = self.index;
        let shared_slot: Option<usize> = match &rt.objects[i].cell.value {
            Payload::Owned(_) => None,
            Payload::Shared(k) => Some(*k),
            Payload::Destructed => unreached(),
        };
        match shared_slot {
            None => {
                rt.objects[i].cell.value = Payload::Owned(v);
            },
            Some(k) => {
                rt.shared[k].value = v;
            },
        }
        proof {
            assert forall|j: int|
                0 <= j < rt.objects@.len() implies (#[trigger] rt.objects@[j]).wf(
                rt.registry@.len() as int,
                rt.shared@.len() as int,
            ) by {
                assert(old(rt).objects@[j].wf(rt.registry@.len() as int, rt.shared@.len() as int));
            }
        }
    }

    /// Stores an associated value at the one-based user-value index `n`,
    /// which must lie in `1..=MAX_USER_VALUES`. The stored value is
    /// independent of the payload: it survives payload mutation and
    /// taking. Every other slot and named value is untouched.
    pub fn set_nth_user_value<T>(&self, rt: &mut Runtime<T>, n: usize, v: Value) -> (r: Result<
        (),
        Error,
    >)
        requires
            old(rt).wf(),
            self.valid(*old(rt)),
        ensures
            final(rt).wf(),
            match r {
                Ok(()) => {
                    &&& 1 <= n <= MAX_USER_VALUES
                    &&& old(rt).stack@.len() + 5 <= MAX_STACK
                    &&& only_user_values_changed(*old(rt), *final(rt), self.index as int)
                    &&& final(rt).objects@[self.index as int].user_value_spec(n as int) == v
                    &&& (forall|m: int|
                        1 <= m <= MAX_USER_VALUES && m != n ==> final(rt).objects@[self.index as int].user_value_spec(m) == old(rt).objects@[self.index as int].user_value_spec(m))
                    &&& (forall|k: Seq<char>|
                        final(rt).objects@[self.index as int].named_value_spec(k) == old(rt).objects@[self.index as int].named_value_spec(k))
                },
                Err(e) => *final(rt) == *old(rt) && match e {
                    Error::IndexOutOfBounds => n < 1 || n > MAX_USER_VALUES,
                    Error::StackError => 1 <= n <= MAX_USER_VALUES && old(rt).stack@.len() + 5
                        > MAX_STACK,
                    _ => false,
                },
            },
    {
        if n < 1 || n > MAX_USER_VALUES {
            return Err(Error::IndexOutOfBounds);
        }
        let i = self.index;
        let g = StackGuard::new(rt);
        match check_stack(rt, 5) {
            Err(e) => {
                return Err(e);
            },
            Ok(()) => {},
        }
        push_value(rt, Value::UserData(i));
        rt.objects[i].set_uv(n, v);
        restore(rt, g);
        proof {
            assert(rt.stack@ =~= old(rt).stack@);
            assert forall|j: int|
                0 <= j < rt.objects@.len() implies (#[trigger] rt.objects@[j]).wf(
                rt.registry@.len() as int,
                rt.shared@.len() as int,
            ) by {
                assert(old(rt).objects@[j].wf(rt.registry@.len() as int, rt.shared@.len() as int));
            }
        }
        Ok(())
    }

    /// Reads the associated value at the one-based user-value index `n`,
    /// which must lie in `1..=MAX_USER_VALUES`; a never-written slot
    /// reads as the absent value. Nothing is changed.
    pub fn get_nth_user_value<T>(&self, rt: &mut Runtime<T>, n: usize) -> (r: Result<Value, Error>)
        requires
            old(rt).wf(),
            self.valid(*old(rt)),
        ensures
            final(rt).wf(),
            final(rt).objects == old(rt).objects,
            final(rt).shared == old(rt).shared,
            final(rt).registry == old(rt).registry,
            final(rt).stack@ == old(rt).stack@,
            match r {
                Ok(v) => 1 <= n <= MAX_USER_VALUES && old(rt).stack@.len() + 4 <= MAX_STACK && v
                    == old(rt).objects@[self.index as int].user_value_spec(n as int),
                Err(e) => match e {
                    Error::IndexOutOfBounds => n < 1 || n > MAX_USER_VALUES,
                    Error::StackError => 1 <= n <= MAX_USER_VALUES && old(rt).stack@.len() + 4
                        > MAX_STACK,
                    _ => false,
                },
            },
    {
        if n < 1 || n > MAX_USER_VALUES {
            return Err(Error::IndexOutOfBounds);
        }
        let i = self.index;
        let g = StackGuard::new(rt);
        match check_stack(rt, 4) {
            Err(e) => {
                return Err(e);
            },
            Ok(()) => {},
        }
        push_value(rt, Value::UserData(i));
        let v = rt.objects[i].get_uv(n);
        restore(rt, g);
        proof {
            assert(rt.stack@ =~= old(rt).stack@);
        }
        Ok(v)
    }

    /// Stores an associated value at user-value index 1, the runtime's
    /// default slot.
    pub fn set_user_value<T>(&self, rt: &mut Runtime<T>, v: Value) -> (r: Result<(), Error>)
        requires
            old(rt).wf(),
            self.valid(*old(rt)),
        ensures
            final(rt).wf(),
            match r {
                Ok(()) => {
                    &&& old(rt).stack@.len() + 5 <= MAX_STACK
                    &&& only_user_values_changed(*old(rt), *final(rt), self.index as int)
                    &&& final(rt).objects@[self.index as int].user_value_spec(1) == v
                    &&& (forall|m: int|
                        1 < m <= MAX_USER_VALUES ==> final(rt).objects@[self.index as int].user_value_spec(m) == old(rt).objects@[self.index as int].user_value_spec(m))
                    &&& (forall|k: Seq<char>|
                        final(rt).objects@[self.index as int].named_value_spec(k) == old(rt).objects@[self.index as int].named_value_spec(k))
                },
                Err(e) => *final(rt) == *old(rt) && e == Error::StackError && old(rt).stack@.len()
                    + 5 > MAX_STACK,
            },
    {
        self.set_nth_user_value(rt, 1, v)
    }

    /// Reads the associated value at user-value index 1, the runtime's
    /// default slot.
    pub fn get_user_value<T>(&self, rt: &mut Runtime<T>) -> (r: Result<Value, Error>)
        requires
            old(rt).wf(),
            self.valid(*old(rt)),
        ensures
            final(rt).wf(),
            final(rt).objects == old(rt).objects,
            final(rt).shared == old(rt).shared,
            final(rt).registry == old(rt).registry,
            final(rt).stack@ == old(rt).stack@,
            match r {
                Ok(v) => old(rt).stack@.len() + 4 <= MAX_STACK && v == old(rt).objects@[self.index as int].user_value_spec(1),
                Err(e) => e == Error::StackError && old(rt).stack@.len() + 4 > MAX_STACK,
            },
    {
        self.get_nth_user_value(rt, 1)
    }

    /// Stores an associated value under a name. The name namespace is
    /// independent of the indexed slots. Every other binding is
    /// untouched.
    pub fn set_named_user_value<T>(&self, rt: &mut Runtime<T>, name: &str, v: Value) -> (r: Result<
        (),
        Error,
    >)
        requires
            old(rt).wf(),
            self.valid(*old(rt)),
        ensures
            final(rt).wf(),
            match r {
                Ok(()) => {
                    &&& old(rt).stack@.len() + 5 <= MAX_STACK
                    &&& only_user_values_changed(*old(rt), *final(rt), self.index as int)
                    &&& final(rt).objects@[self.index as int].named_value_spec(name@) == v
                    &&& (forall|k: Seq<char>|
                        k != name@ ==> #[trigger] final(rt).objects@[self.index as int].named_value_spec(k) == old(rt).objects@[self.index as int].named_value_spec(k))
                    &&& (forall|m: int|
                        1 <= m <= MAX_USER_VALUES ==> final(rt).objects@[self.index as int].user_value_spec(m) == old(rt).objects@[self.index as int].user_value_spec(m))
                },
                Err(e) => *final(rt) == *old(rt) && e == Error::StackError && old(rt).stack@.len()
                    + 5 > MAX_STACK,
            },
    {
        let i = self.index;
        let g = StackGuard::new(rt);
        match check_stack(rt, 5) {
            Err(e) => {
                return Err(e);
            },
            Ok(()) => {},
        }
        push_value(rt, Value::UserData(i));
        rt.objects[i].set_named_uv(name, v);
        restore(rt, g);
        proof {
            assert(rt.stack@ =~= old(rt).stack@);
            assert forall|j: int|
                0 <= j < rt.objects@.len() implies (#[trigger] rt.objects@[j]).wf(
                rt.registry@.len() as int,
                rt.shared@.len() as int,
            ) by {
                assert(old(rt).objects@[j].wf(rt.registry@.len() as int, rt.shared@.len() as int));
            }
        }
        Ok(())
    }

    /// Reads the associated value stored under a name; a never-written
    /// name reads as the absent value. Nothing is changed.
    pub fn get_named_user_value<T>(&self, rt: &mut Runtime<T>, name: &str) -> (r: Result<
        Value,
        Error,
    >)
        requires
            old(rt).wf(),
            self.valid(*old(rt)),
        ensures
            final(rt).wf(),
            final(rt).objects == old(rt).objects,
            final(rt).shared == old(rt).shared,
            final(rt).registry == old(rt).registry,
            final(rt).stack@ == old(rt).stack@,
            match r {
                Ok(v) => old(rt).stack@.len() + 4 <= MAX_STACK && v == old(rt).objects@[self.index as int].named_value_spec(name@),
                Err(e) => e == Error::StackError && old(rt).stack@.len() + 4 > MAX_STACK,
            },
    {
        let i = self.index;
        let g = StackGuard::new(rt);
        match check_stack(rt, 4) {
            Err(e) => {
                return Err(e);
            },
            Ok(()) => {},
        }
        push_value(rt, Value::UserData(i));
        let v = rt.objects[i].get_named_uv(name);
        restore(rt, g);
        proof {
            assert(rt.stack@ =~= old(rt).stack@);
        }
        Ok(v)
    }

    /// Returns a read-restricted view of the object's metatable. Fails
    /// with `UserDataDestructed` once the payload was taken: the
    /// destructed marker rejects metatable access.
    pub fn get_metatable<T>(&self, rt: &Runtime<T>) -> (r: Result<UserDataMetatable, Error>)
        requires
            rt.wf(),
            self.valid(*rt),
        ensures
            match r {
                Ok(m) => !rt.objects@[self.index as int].destructed() && m.mt
                    == rt.objects@[self.index as int].meta && m.valid(*rt),
                Err(e) => rt.objects@[self.index as int].destructed() && e
                    == Error::UserDataDestructed,
            },
    {
        let o = &rt.objects[self.index];
        match &o.cell.value {
            Payload::Destructed => Err(Error::UserDataDestructed),
            _ => Ok(UserDataMetatable { mt: o.meta }),
        }
    }

    /// Resolves equality of two handles: equal on raw object identity;
    /// otherwise unequal unless both live objects share a metatable that
    /// defines an equality hook, in which case the hook decides and its
    /// identity is returned for the runtime to invoke. A destructed
    /// object fails with `UserDataDestructed`; an equality hook that is
    /// not a function fails conversion.
    pub fn equals<T>(&self, rt: &Runtime<T>, other: &AnyUserData) -> (r: Result<EqOutcome, Error>)
        requires
            rt.wf(),
            self.valid(*rt),
            other.valid(*rt),
        ensures
            ({
                let o1 = rt.objects@[self.index as int];
                let o2 = rt.objects@[other.index as int];
                match r {
                    Ok(EqOutcome::Equal) => self.index == other.index,
                    Ok(EqOutcome::NotEqual) => self.index != other.index && !o1.destructed()
                        && !o2.destructed() && (o1.meta != o2.meta
                        || rt.registry@[o1.meta as int].entry_spec("__eq"@) == Value::Nil),
                    Ok(EqOutcome::Metamethod(id)) => self.index != other.index && !o1.destructed()
                        && !o2.destructed() && o1.meta == o2.meta
                        && rt.registry@[o1.meta as int].entry_spec("__eq"@) == Value::Function(id),
                    Err(e) => self.index != other.index && match e {
                        Error::UserDataDestructed => o1.destructed() || o2.destructed(),
                        Error::FromLuaConversionError { from, to } => !o1.destructed()
                            && !o2.destructed() && o1.meta == o2.meta && {
                            let hook = rt.registry@[o1.meta as int].entry_spec("__eq"@);
                            &&& hook != Value::Nil
                            &&& !(hook matches Value::Function(_))
                            &&& from@ == hook.kind_name_spec()
                            &&& to@ == "function"@
                        },
                        _ => false,
                    },
                }
            }),
    {
        if self.index == other.index {
            return Ok(EqOutcome::Equal);
        }
        let live1 = match &rt.objects[self.index].cell.value {
            Payload::Destructed => false,
            _ => true,
        };
        let live2 = match &rt.objects[other.index].cell.value {
            Payload::Destructed => false,
            _ => true,
        };
        if !live1 || !live2 {
            return Err(Error::UserDataDestructed);
        }
        let m1 = rt.objects[self.index].meta;
        let m2 = rt.objects[other.index].meta;
        if m1 != m2 {
            return Ok(EqOutcome::NotEqual);
        }
        let mt = &rt.registry[m1];
        match assoc_find(&mt.meta_methods, "__eq") {
            Some(i) => {
                proof {
                    lemma_unique_val(mt.meta_methods@, "__eq"@, i as int);
                }
                Ok(EqOutcome::Metamethod(mt.meta_methods[i].1.id))
            },
            None => {
                match assoc_find(&mt.meta_fields, "__eq") {
                    Some(i) => {
                        proof {
                            lemma_unique_val(mt.meta_fields@, "__eq"@, i as int);
                        }
                        match &mt.meta_fields[i].1 {
                            Value::Function(id) => Ok(EqOutcome::Metamethod(*id)),
                            v => Err(
                                Error::FromLuaConversionError {
                                    from: v.kind_name().to_owned(),
                                    to: "function".to_owned(),
                                },
                            ),
                        }
                    },
                    None => Ok(EqOutcome::NotEqual),
                }
            },
        }
    }

    /// Whether the object was created with structured-serialization
    /// support and its payload is currently readable: a destructed or
    /// exclusively borrowed object reports false rather than failing.
    pub fn is_serializable<T>(&self, rt: &Runtime<T>) -> (r: bool)
        requires
            rt.wf(),
            self.valid(*rt),
        ensures
            r == {
                let o = rt.objects@[self.index as int];
                !o.destructed() && can_borrow(o.cell.state) && o.cell.serializable
            },
    {
        let o = &rt.objects[self.index];
        let live = match &o.cell.value {
            Payload::Destructed => false,
            _ => true,
        };
        let borrowable = match o.cell.state {
            BorrowState::Free => true,
            BorrowState::Shared(n) => n < usize::MAX,
            BorrowState::Exclusive => false,
        };
        live && borrowable && o.cell.serializable
    }
}

/// Type identity is stable across dispatch and borrowing: any step that
/// leaves an object's tag and liveness alone — as acquiring or releasing
/// a borrow, running a method, or touching user values all do — leaves
/// the outcome of every identity test on it unchanged.
pub proof fn lemma_type_identity_stable<T>(pre: Runtime<T>, post: Runtime<T>, i: int, tag: TypeTag)
    requires
        0 <= i < pre.objects@.len(),
        0 <= i < post.objects@.len(),
        post.objects@[i].tag == pre.objects@[i].tag,
        post.objects@[i].destructed() == pre.objects@[i].destructed(),
    ensures
        (!post.objects@[i].destructed() && post.objects@[i].tag == tag) == (
        !pre.objects@[i].destructed() && pre.objects@[i].tag == tag),
{
}

/// Writing one user-value slot and reading slots back compose as a map
/// update: the written slot returns exactly the stored value, and every
/// other slot, and every named user value, returns what it held before.
pub proof fn lemma_user_value_round_trip<T>(pre: Object<T>, post: Object<T>, n: int, v: Value)
    requires
        1 <= n <= MAX_USER_VALUES,
        post.user_value_spec(n) == v,
        forall|m: int|
            1 <= m <= MAX_USER_VALUES && m != n ==> post.user_value_spec(m) == pre.user_value_spec(
                m,
            ),
    ensures
        post.user_value_spec(n) == v,
        forall|m: int|
            1 <= m <= MAX_USER_VALUES ==> post.user_value_spec(m) == (if m == n {
                v
            } else {
                pre.user_value_spec(m)
            }),
{
}

/// Taking the payload detaches payload access but leaves the auxiliary
/// user values attached: after a step that only removes the payload, the
/// object is destructed while every named and indexed user value reads
/// exactly as before.
pub proof fn lemma_take_preserves_user_values<T>(pre: Object<T>, post: Object<T>)
    requires
        post.destructed(),
        post.uv_inline == pre.uv_inline,
        post.uv_overflow == pre.uv_overflow,
        post.uv_named == pre.uv_named,
    ensures
        post.destructed(),
        forall|m: int| #[trigger] post.user_value_spec(m) == pre.user_value_spec(m),
        forall|k: Seq<char>| #[trigger] post.named_value_spec(k) == pre.named_value_spec(k),
{
}

} // verus!
