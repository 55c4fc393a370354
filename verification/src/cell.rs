//! A runtime-checked access cell: one host value behind an explicit
//! borrow-state field. At most one exclusive borrow, or any number of
//! shared borrows, may be outstanding; a violating request fails with a
//! borrow error and never changes the stored value.
//!
//! The same discipline models every sharing strategy of the binding
//! layer: the per-object cell, the single-thread shared wrapper's borrow
//! counter, and the try-lock behaviour of the mutex- and reader/writer-
//! guarded wrappers (lock acquisition is non-blocking and fails fast).

use vstd::prelude::*;

use crate::error::Error;

verus! {

/// The borrow state of a cell: free, shared by `n >= 1` readers, or
/// exclusively held by one writer.
#[derive(Debug, Clone, Copy, PartialEq, Eq, Structural)]
pub enum BorrowState {
    /// No borrow is outstanding.
    Free,
    /// The given number of shared borrows are outstanding.
    Shared(usize),
    /// One exclusive borrow is outstanding.
    Exclusive,
}

/// A shared borrow may be acquired: no exclusive borrow is outstanding
/// and the reader count is not saturated.
pub open spec fn can_borrow(s: BorrowState) -> bool {
    match s {
        BorrowState::Free => true,
        BorrowState::Shared(n) => n < usize::MAX,
        BorrowState::Exclusive => false,
    }
}

/// The state after acquiring a shared borrow.
pub open spec fn after_borrow(s: BorrowState) -> BorrowState {
    match s {
        BorrowState::Free => BorrowState::Shared(1),
        BorrowState::Shared(n) => BorrowState::Shared((n + 1) as usize),
        BorrowState::Exclusive => BorrowState::Exclusive,
    }
}

/// The state after releasing one shared borrow.
pub open spec fn after_release(s: BorrowState) -> BorrowState {
    match s {
        BorrowState::Shared(n) => if n > 1 {
            BorrowState::Shared((n - 1) as usize)
        } else {
            BorrowState::Free
        },
        _ => s,
    }
}

/// A meaningful borrow state: a shared count is at least one.
pub open spec fn state_ok(s: BorrowState) -> bool {
    match s {
        BorrowState::Shared(n) => n >= 1,
        _ => true,
    }
}

/// An exclusive borrow may be acquired: nothing is outstanding.
pub open spec fn can_borrow_mut(s: BorrowState) -> bool {
    s == BorrowState::Free
}

/// Some read access (shared or exclusive) is outstanding.
pub open spec fn read_held(s: BorrowState) -> bool {
    s != BorrowState::Free
}

/// Write access (an exclusive borrow) is outstanding.
pub open spec fn write_held(s: BorrowState) -> bool {
    s == BorrowState::Exclusive
}

/// One host value behind an explicit borrow-state field. A cell created
/// for structured serialization is marked `serializable`; the mark does
/// not affect the borrow discipline.
pub struct UserDataCell<T> {
    /// The stored host value.
    pub value: T,
    /// The outstanding-borrow state.
    pub state: BorrowState,
    /// Whether the stored value supports structured serialization.
    pub serializable: bool,
}

impl<T> UserDataCell<T> {
    /// Wraps a host value in a fresh, unborrowed cell.
    pub fn new(data: T) -> (c: UserDataCell<T>)
        ensures
            c.value == data,
            c.state == BorrowState::Free,
            !c.serializable,
    {
        UserDataCell { value: data, state: BorrowState::Free, serializable: false }
    }

    /// Wraps a host value in a fresh, unborrowed cell marked as
    /// supporting structured serialization.
    pub fn new_ser(data: T) -> (c: UserDataCell<T>)
        ensures
            c.value == data,
            c.state == BorrowState::Free,
            c.serializable,
    {
        UserDataCell { value: data, state: BorrowState::Free, serializable: true }
    }

    /// Acquires a shared borrow of the stored value. Fails with
    /// `UserDataBorrowError` while an exclusive borrow is outstanding;
    /// the stored value is never altered.
    pub fn try_borrow(&mut self) -> (r: Result<(), Error>)
        ensures
            final(self).value == old(self).value,
            final(self).serializable == old(self).serializable,
            match r {
                Ok(()) => can_borrow(old(self).state) && final(self).state == after_borrow(old(self).state),
                Err(e) => !can_borrow(old(self).state) && final(self).state == old(self).state && e
                    == Error::UserDataBorrowError,
            },
    {
        match self.state {
            BorrowState::Free => {
                self.state = BorrowState::Shared(1);
                Ok(())
            },
            BorrowState::Shared(n) => {
                if n < usize::MAX {
                    self.state = BorrowState::Shared(n + 1);
                    Ok(())
                } else {
                    Err(Error::UserDataBorrowError)
                }
            },
            BorrowState::Exclusive => Err(Error::UserDataBorrowError),
        }
    }

    /// Acquires the exclusive borrow of the stored value. Fails with
    /// `UserDataBorrowMutError` while any borrow is outstanding; the
    /// stored value is never altered.
    pub fn try_borrow_mut(&mut self) -> (r: Result<(), Error>)
        ensures
            final(self).value == old(self).value,
            final(self).serializable == old(self).serializable,
            match r {
                Ok(()) => can_borrow_mut(old(self).state) && final(self).state == BorrowState::Exclusive,
                Err(e) => !can_borrow_mut(old(self).state) && final(self).state == old(self).state && e
                    == Error::UserDataBorrowMutError,
            },
    {
        match self.state {
            BorrowState::Free => {
                self.state = BorrowState::Exclusive;
                Ok(())
            },
            _ => Err(Error::UserDataBorrowMutError),
        }
    }

    /// Releases one shared borrow.
    pub fn release_borrow(&mut self)
        requires
            old(self).state matches BorrowState::Shared(_),
        ensures
            final(self).value == old(self).value,
            final(self).serializable == old(self).serializable,
            final(self).state == after_release(old(self).state),
    {
        match self.state {
            BorrowState::Shared(n) => {
                if n > 1 {
                    self.state = BorrowState::Shared(n - 1);
                } else {
                    self.state = BorrowState::Free;
                }
            },
            _ => {
                proof {
                    assert(false);
                }
            },
        }
    }

    /// Releases the exclusive borrow.
    pub fn release_borrow_mut(&mut self)
        requires
            old(self).state == BorrowState::Exclusive,
        ensures
            final(self).value == old(self).value,
            final(self).serializable == old(self).serializable,
            final(self).state == BorrowState::Free,
    {
        self.state = BorrowState::Free;
    }

    /// Consumes an unborrowed cell, returning the stored value.
    pub fn into_inner(self) -> (t: T)
        requires
            self.state == BorrowState::Free,
        ensures
            t == self.value,
    {
        self.value
    }
}

/// While a shared borrow is outstanding, the exclusive borrow is refused;
/// releasing the one outstanding shared borrow makes it available again.
pub proof fn lemma_borrow_conflict_then_release()
    ensures
        after_borrow(BorrowState::Free) == BorrowState::Shared(1usize),
        !can_borrow_mut(after_borrow(BorrowState::Free)),
        after_release(after_borrow(BorrowState::Free)) == BorrowState::Free,
        can_borrow_mut(after_release(after_borrow(BorrowState::Free))),
{
}

/// Shared borrows never enable a concurrent writer, and an outstanding
/// writer blocks every other access, shared or exclusive: the two access
/// modes exclude one another in every state.
pub proof fn lemma_access_exclusion(s: BorrowState)
    ensures
        s matches BorrowState::Shared(_) ==> !can_borrow_mut(s),
        write_held(s) ==> !can_borrow(s) && !can_borrow_mut(s),
{
}

} // verus!
