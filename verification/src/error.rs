//! Error kinds surfaced by the binding layer. All failures are local and
//! synchronous: no operation panics or blocks in ordinary use.

use vstd::prelude::*;

verus! {

/// The result of a failed binding-layer operation.
#[derive(Debug, Clone, PartialEq)]
pub enum Error {
    /// A shared borrow was requested while an exclusive borrow is
    /// outstanding (or the shared count is saturated).
    UserDataBorrowError,
    /// An exclusive borrow was requested while any borrow is outstanding.
    UserDataBorrowMutError,
    /// The live object's type identity does not match the expected one.
    UserDataTypeMismatch,
    /// The object's payload was taken; further payload, method and
    /// metamethod access is rejected.
    UserDataDestructed,
    /// A mutably-captured callback was re-entered while already running.
    RecursiveMutCallback,
    /// The given metamethod name is reserved and may not be read, written
    /// or registered by host code.
    MetaMethodRestricted(String),
    /// A meta-field value failed a hook-specific type constraint.
    MetaMethodTypeError { method: String, found: String, message: String },
    /// An auxiliary user-value slot index lies outside `1..=65535`.
    IndexOutOfBounds,
    /// A value could not be converted between runtime and host
    /// representations; carries source and target descriptions.
    FromLuaConversionError { from: String, to: String },
    /// The runtime stack cannot hold the requested number of extra slots.
    StackError,
}

} // verus!
