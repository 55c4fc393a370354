//! The runtime's value model. Scripts and user-value slots traffic in
//! these values; tables, functions and userdata are carried as opaque
//! identities, since their contents belong to the embedded runtime.

use vstd::prelude::*;

verus! {

/// A value of the embedded runtime.
#[derive(Debug, Clone, PartialEq)]
pub enum Value {
    /// The absent value.
    Nil,
    /// A boolean.
    Bool(bool),
    /// An integer.
    Int(i64),
    /// A string.
    Str(String),
    /// A reference to a table of the runtime, by identity.
    Table(u64),
    /// A reference to a function of the runtime, by identity.
    Function(u64),
    /// A reference to a userdata object of the runtime's heap, by index.
    UserData(usize),
}

impl Value {
    /// The name of this value's runtime type.
    pub open spec fn kind_name_spec(self) -> Seq<char> {
        match self {
            Value::Nil => "nil"@,
            Value::Bool(_) => "boolean"@,
            Value::Int(_) => "integer"@,
            Value::Str(_) => "string"@,
            Value::Table(_) => "table"@,
            Value::Function(_) => "function"@,
            Value::UserData(_) => "userdata"@,
        }
    }

    /// Returns the name of this value's runtime type.
    pub fn kind_name(&self) -> (r: &'static str)
        ensures
            r@ == self.kind_name_spec(),
    {
        match self {
            Value::Nil => "nil",
            Value::Bool(_) => "boolean",
            Value::Int(_) => "integer",
            Value::Str(_) => "string",
            Value::Table(_) => "table",
            Value::Function(_) => "function",
            Value::UserData(_) => "userdata",
        }
    }

    /// Whether a value is acceptable as the index or new-index hook of a
    /// metatable: only `nil`, a table or a function may stand there.
    pub open spec fn is_indexable_hook(self) -> bool {
        match self {
            Value::Nil => true,
            Value::Table(_) => true,
            Value::Function(_) => true,
            _ => false,
        }
    }
}

/// Copies a value. The copy equals the source exactly.
pub fn value_clone(v: &Value) -> (r: Value)
    ensures
        r == *v,
{
    match v {
        Value::Nil => Value::Nil,
        Value::Bool(b) => Value::Bool(*b),
        Value::Int(i) => Value::Int(*i),
        Value::Str(s) => Value::Str(s.clone()),
        Value::Table(t) => Value::Table(*t),
        Value::Function(f) => Value::Function(*f),
        Value::UserData(u) => Value::UserData(*u),
    }
}

} // verus!
