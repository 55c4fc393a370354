//! A dynamic-type binding layer: host values are exposed as opaque
//! "userdata" objects inside an embedded, stack-based scripting runtime,
//! with host-defined methods, fields and operator hooks (metamethods),
//! while host-side aliasing safety is enforced by runtime borrow checks
//! that fail fast instead of blocking or corrupting state.
//!
//! The embedded runtime itself — parser, virtual machine, collector — is
//! an external collaborator; this crate models the state the binding
//! layer owns: the heap of userdata objects, their borrow discipline and
//! ownership wrappers, the per-instance metatable cache, the auxiliary
//! user-value slots, and the call-stack guard, with every operation
//! specified and verified.

pub mod assoc;
pub mod cell;
pub mod dispatch;
pub mod error;
pub mod handle;
pub mod metamethod;
pub mod metatable;
pub mod registry;
pub mod runtime;
pub mod stack;
pub mod strutil;
pub mod value;

pub use cell::{BorrowState, UserDataCell};
pub use dispatch::{
    begin_method_call, end_method_call, lookup_index, lookup_newindex, CallbackRef, CbList,
    IndexLookup, Invocation, NewIndexLookup,
};
pub use error::Error;
pub use handle::{AnyUserData, EqOutcome, OwnedAnyUserData};
pub use metamethod::MetaMethod;
pub use metatable::{UserDataMetatable, UserDataMetatablePairs};
pub use registry::{
    register_type, Callback, Metatable, StaticUserDataFields, StaticUserDataMethods, UserData,
    UserDataFields, UserDataMethods,
};
pub use stack::{check_stack, pop_value, push_value, restore, StackGuard};
pub use strutil::{str_eq, str_starts_with};
pub use runtime::{
    create_ser_userdata, create_shared_value, create_userdata, create_wrapped_userdata,
    OwnershipKind, Payload, Runtime, TypeTag, MAX_STACK, MAX_USER_VALUES, USER_VALUE_MAXSLOT,
};
pub use value::Value;
