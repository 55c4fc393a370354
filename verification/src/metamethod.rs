//! The closed catalog of operator and protocol hooks a userdata type may
//! override, and the validation rule that keeps the runtime's reserved
//! hook names out of host hands.

use vstd::prelude::*;

use crate::error::Error;
use crate::strutil::{has_prefix, str_eq, str_starts_with};

verus! {

/// Kinds of metamethods that can be overridden by a userdata type.
///
/// The finalizer hook and the metatable-protection hook are not listed:
/// they are reserved by the runtime and can never be set by host code.
#[derive(Debug, Clone, Copy, PartialEq, Eq, Structural, Hash)]
pub enum MetaMethod {
    /// The `+` operator.
    Add,
    /// The binary `-` operator.
    Sub,
    /// The `*` operator.
    Mul,
    /// The `/` operator.
    Div,
    /// The `%` operator.
    Mod,
    /// The `^` operator.
    Pow,
    /// The unary minus operator.
    Unm,
    /// The floor division operator.
    IDiv,
    /// The bitwise AND operator.
    BAnd,
    /// The bitwise OR operator.
    BOr,
    /// The bitwise XOR operator.
    BXor,
    /// The bitwise NOT operator.
    BNot,
    /// The bitwise left-shift operator.
    Shl,
    /// The bitwise right-shift operator.
    Shr,
    /// The string concatenation operator.
    Concat,
    /// The length operator.
    Len,
    /// The equality operator.
    Eq,
    /// The less-than operator.
    Lt,
    /// The less-than-or-equal operator.
    Le,
    /// Index read access, `obj[key]`.
    Index,
    /// Index write access, `obj[key] = value`.
    NewIndex,
    /// The call operator, `obj(args...)`.
    Call,
    /// String conversion.
    ToString,
    /// Start of generic iteration.
    Pairs,
    /// Start of integer-keyed iteration.
    IPairs,
    /// Custom iteration.
    Iter,
    /// Notification for to-be-closed values going out of scope.
    Close,
}

impl MetaMethod {
    /// The hook name of this metamethod in the runtime's key namespace.
    pub open spec fn name_spec(self) -> Seq<char> {
        match self {
            MetaMethod::Add => "__add"@,
            MetaMethod::Sub => "__sub"@,
            MetaMethod::Mul => "__mul"@,
            MetaMethod::Div => "__div"@,
            MetaMethod::Mod => "__mod"@,
            MetaMethod::Pow => "__pow"@,
            MetaMethod::Unm => "__unm"@,
            MetaMethod::IDiv => "__idiv"@,
            MetaMethod::BAnd => "__band"@,
            MetaMethod::BOr => "__bor"@,
            MetaMethod::BXor => "__bxor"@,
            MetaMethod::BNot => "__bnot"@,
            MetaMethod::Shl => "__shl"@,
            MetaMethod::Shr => "__shr"@,
            MetaMethod::Concat => "__concat"@,
            MetaMethod::Len => "__len"@,
            MetaMethod::Eq => "__eq"@,
            MetaMethod::Lt => "__lt"@,
            MetaMethod::Le => "__le"@,
            MetaMethod::Index => "__index"@,
            MetaMethod::NewIndex => "__newindex"@,
            MetaMethod::Call => "__call"@,
            MetaMethod::ToString => "__tostring"@,
            MetaMethod::Pairs => "__pairs"@,
            MetaMethod::IPairs => "__ipairs"@,
            MetaMethod::Iter => "__iter"@,
            MetaMethod::Close => "__close"@,
        }
    }

    /// Returns the hook name, prefixed by two underscores.
    pub fn name(self) -> (r: &'static str)
        ensures
            r@ == self.name_spec(),
    {
        match self {
            MetaMethod::Add => "__add",
            MetaMethod::Sub => "__sub",
            MetaMethod::Mul => "__mul",
            MetaMethod::Div => "__div",
            MetaMethod::Mod => "__mod",
            MetaMethod::Pow => "__pow",
            MetaMethod::Unm => "__unm",
            MetaMethod::IDiv => "__idiv",
            MetaMethod::BAnd => "__band",
            MetaMethod::BOr => "__bor",
            MetaMethod::BXor => "__bxor",
            MetaMethod::BNot => "__bnot",
            MetaMethod::Shl => "__shl",
            MetaMethod::Shr => "__shr",
            MetaMethod::Concat => "__concat",
            MetaMethod::Len => "__len",
            MetaMethod::Eq => "__eq",
            MetaMethod::Lt => "__lt",
            MetaMethod::Le => "__le",
            MetaMethod::Index => "__index",
            MetaMethod::NewIndex => "__newindex",
            MetaMethod::Call => "__call",
            MetaMethod::ToString => "__tostring",
            MetaMethod::Pairs => "__pairs",
            MetaMethod::IPairs => "__ipairs",
            MetaMethod::Iter => "__iter",
            MetaMethod::Close => "__close",
        }
    }

    /// A hook name that host code may never read, write or register:
    /// the finalizer hook, the metatable-protection hook, and every name
    /// under the runtime's internal prefix.
    pub open spec fn reserved_spec(s: Seq<char>) -> bool {
        s == "__gc"@ || s == "__metatable"@ || has_prefix(s, "__internal"@)
    }

    /// Checks a hook name against the reserved set; a reserved name is
    /// rejected with `MetaMethodRestricted`.
    pub fn validate<'a>(name: &'a str) -> (r: Result<&'a str, Error>)
        ensures
            match r {
                Ok(n) => !MetaMethod::reserved_spec(name@) && n@ == name@,
                Err(e) => MetaMethod::reserved_spec(name@) && (e matches Error::MetaMethodRestricted(
                    m,
                ) && m@ == name@),
            },
    {
        if str_eq(name, "__gc") || str_eq(name, "__metatable") || str_starts_with(
            name,
            "__internal",
        ) {
            Err(Error::MetaMethodRestricted(name.to_owned()))
        } else {
            Ok(name)
        }
    }
}

/// The finalizer hook and the metatable-protection hook are reserved for
/// every host type: validation rejects them whatever else is registered.
pub proof fn lemma_protected_hooks_reserved()
    ensures
        MetaMethod::reserved_spec("__gc"@),
        MetaMethod::reserved_spec("__metatable"@),
{
}

} // verus!
