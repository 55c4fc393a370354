//! Cached metatables and the callbacks they install. A metatable is
//! built once per host type and runtime instance, from the declarations
//! a builder collected, and is immutable but for the host-writable
//! meta-field entries.

use vstd::prelude::*;

use crate::assoc::{assoc_update, entry_from, has_key, unique_keys, val_of};
use crate::error::Error;
use crate::metamethod::MetaMethod;
use crate::runtime::{Runtime, TypeTag};
use crate::value::Value;

verus! {

/// A host callback as the dispatcher sees it: the host-side closure is
/// carried by identity only, together with its calling discipline.
#[derive(Debug, Clone, Copy, PartialEq, Eq, Structural)]
pub struct Callback {
    /// Host-chosen identity of the closure to run.
    pub id: u64,
    /// The callback receives the userdata object as its first argument
    /// and dispatches on its ownership strategy.
    pub takes_self: bool,
    /// The callback captures exclusively-owned state and must not be
    /// re-entered while running.
    pub mutable: bool,
    /// The callback is currently executing.
    pub running: bool,
}

/// A fresh method callback: dispatches on `self`, read-only access.
pub open spec fn method_callback(id: u64) -> Callback {
    Callback { id, takes_self: true, mutable: false, running: false }
}

/// A fresh mutable method callback: dispatches on `self`, exclusive
/// access, guarded against re-entry.
pub open spec fn method_mut_callback(id: u64) -> Callback {
    Callback { id, takes_self: true, mutable: true, running: false }
}

/// A fresh plain function callback: no dispatch on `self`.
pub open spec fn function_callback(id: u64) -> Callback {
    Callback { id, takes_self: false, mutable: false, running: false }
}

/// A fresh mutable function callback: no dispatch on `self`, guarded
/// against re-entry.
pub open spec fn function_mut_callback(id: u64) -> Callback {
    Callback { id, takes_self: false, mutable: true, running: false }
}

/// The materialized, cached metatable of one host type.
pub struct Metatable {
    /// The host type this metatable was built for.
    pub tag: TypeTag,
    /// Regular methods, found by index lookup before any index hook.
    pub methods: Vec<(String, Callback)>,
    /// Field getters, found by index lookup before methods.
    pub field_getters: Vec<(String, Callback)>,
    /// Field setters, found by new-index lookup before any hook.
    pub field_setters: Vec<(String, Callback)>,
    /// Metamethod callbacks, keyed by hook name.
    pub meta_methods: Vec<(String, Callback)>,
    /// Plain meta-field values, keyed by hook name.
    pub meta_fields: Vec<(String, Value)>,
}

impl Metatable {
    /// Well-formedness: every table has unique keys, no stored hook name
    /// is reserved, no meta field stores the absent value, and the index
    /// and new-index meta fields hold an acceptable hook value.
    pub open spec fn wf(self) -> bool {
        &&& unique_keys(self.methods@)
        &&& unique_keys(self.field_getters@)
        &&& unique_keys(self.field_setters@)
        &&& unique_keys(self.meta_methods@)
        &&& unique_keys(self.meta_fields@)
        &&& forall|i: int|
            0 <= i < self.meta_methods@.len() ==> !MetaMethod::reserved_spec(
                (#[trigger] self.meta_methods@[i]).0@,
            )
        &&& forall|i: int|
            0 <= i < self.meta_fields@.len() ==> !MetaMethod::reserved_spec(
                (#[trigger] self.meta_fields@[i]).0@,
            ) && self.meta_fields@[i].1 != Value::Nil
        &&& forall|i: int|
            0 <= i < self.meta_fields@.len() ==> (((#[trigger] self.meta_fields@[i]).0@
                == "__index"@ || self.meta_fields@[i].0@ == "__newindex"@)
                ==> self.meta_fields@[i].1.is_indexable_hook())
    }

    /// The metatable is the empty one of the given type: no methods,
    /// fields or hooks.
    pub open spec fn is_empty_spec(self, tag: TypeTag) -> bool {
        &&& self.tag == tag
        &&& self.methods@.len() == 0
        &&& self.field_getters@.len() == 0
        &&& self.field_setters@.len() == 0
        &&& self.meta_methods@.len() == 0
        &&& self.meta_fields@.len() == 0
    }

    /// An empty metatable for the given type: no methods, fields or
    /// hooks.
    pub fn empty(tag: TypeTag) -> (mt: Metatable)
        ensures
            mt.wf(),
            mt.is_empty_spec(tag),
    {
        Metatable {
            tag,
            methods: Vec::new(),
            field_getters: Vec::new(),
            field_setters: Vec::new(),
            meta_methods: Vec::new(),
            meta_fields: Vec::new(),
        }
    }

    /// The value a reader of the metatable sees under a key: a
    /// metamethod callback appears as a function of the runtime, a meta
    /// field as itself, anything else as the absent value.
    pub open spec fn entry_spec(self, k: Seq<char>) -> Value {
        if has_key(self.meta_methods@, k) {
            Value::Function(val_of(self.meta_methods@, k).id)
        } else if has_key(self.meta_fields@, k) {
            val_of(self.meta_fields@, k)
        } else {
            Value::Nil
        }
    }
}

/// Some cached metatable carries the given type tag.
pub open spec fn has_tag(s: Seq<Metatable>, tag: TypeTag) -> bool {
    exists|i: int| 0 <= i < s.len() && (#[trigger] s[i]).tag == tag
}

/// `post` is `pre` with one entry appended, named `name`.
pub open spec fn pushed<V>(post: Seq<(String, V)>, pre: Seq<(String, V)>, name: Seq<char>, v: V) -> bool {
    &&& post.len() == pre.len() + 1
    &&& post.subrange(0, pre.len() as int) == pre
    &&& post.last().0@ == name
    &&& post.last().1 == v
}

/// `post` is `pre` with exactly the pair `(name, v)` appended.
pub open spec fn pushed_pair<V>(post: Seq<(String, V)>, pre: Seq<(String, V)>, name: String, v: V) -> bool {
    &&& post.len() == pre.len() + 1
    &&& post.subrange(0, pre.len() as int) == pre
    &&& post.last().0 == name
    &&& post.last().1 == v
}

/// Some entry of `s` has a reserved name.
pub open spec fn any_reserved<V>(s: Seq<(String, V)>) -> bool {
    exists|i: int| 0 <= i < s.len() && MetaMethod::reserved_spec((#[trigger] s[i]).0@)
}

/// Some entry of `s` binds the index or new-index hook to a value that
/// is not an acceptable hook.
pub open spec fn any_bad_hook(s: Seq<(String, Value)>) -> bool {
    exists|i: int|
        0 <= i < s.len() && ((#[trigger] s[i]).0@ == "__index"@ || s[i].0@ == "__newindex"@)
            && !s[i].1.is_indexable_hook()
}

/// The first `n` entries of `src` hold a binding of `k` to `v`.
pub open spec fn binding_in_prefix<V>(src: Seq<(String, V)>, k: Seq<char>, v: V, n: int) -> bool {
    exists|j: int| 0 <= j < n && (#[trigger] src[j]).0@ == k && src[j].1 == v
}

/// The first `n` entries of `src` hold the key `k`.
pub open spec fn key_in_prefix<V>(src: Seq<(String, V)>, k: Seq<char>, n: int) -> bool {
    exists|j: int| 0 <= j < n && (#[trigger] src[j]).0@ == k
}

/// The first `n` entries of `src` bind `k` to something besides the
/// absent value.
pub open spec fn nonnil_in_prefix(src: Seq<(String, Value)>, k: Seq<char>, n: int) -> bool {
    exists|j: int| 0 <= j < n && (#[trigger] src[j]).0@ == k && src[j].1 != Value::Nil
}

/// `table` is the materialized form of the declaration list `src`: its
/// keys are exactly the declared keys, and each key is bound to one of
/// the callbacks declared under it.
pub open spec fn built_from<V>(table: Seq<(String, V)>, src: Seq<(String, V)>) -> bool {
    &&& unique_keys(table)
    &&& (forall|k: Seq<char>| #[trigger] has_key(table, k) == key_in_prefix(src, k, src.len() as int))
    &&& (forall|k: Seq<char>|
        #[trigger] has_key(table, k) ==> binding_in_prefix(src, k, val_of(table, k), src.len() as int))
}

/// `table` is the materialized form of the meta-field declarations
/// `src`, with declarations of the absent value dropped.
pub open spec fn built_from_fields(table: Seq<(String, Value)>, src: Seq<(String, Value)>) -> bool {
    &&& unique_keys(table)
    &&& (forall|k: Seq<char>|
        #[trigger] has_key(table, k) == nonnil_in_prefix(src, k, src.len() as int))
    &&& (forall|k: Seq<char>|
        #[trigger] has_key(table, k) ==> binding_in_prefix(src, k, val_of(table, k), src.len() as int)
            && val_of(table, k) != Value::Nil)
}

/// Materializes a callback declaration list into a table with unique
/// keys; for a key declared more than once, the declaration order
/// decides (the last one wins).
fn build_cb_table(src: &Vec<(String, Callback)>) -> (t: Vec<(String, Callback)>)
    ensures
        built_from(t@, src@),
{
    let mut t: Vec<(String, Callback)> = Vec::new();
    let n = src.len();
    let mut i: usize = 0;
    while i < n
        invariant
            i <= n,
            n == src@.len(),
            unique_keys(t@),
            forall|k: Seq<char>| #[trigger] has_key(t@, k) == key_in_prefix(src@, k, i as int),
            forall|k: Seq<char>|
                #[trigger] has_key(t@, k) ==> binding_in_prefix(src@, k, val_of(t@, k), i as int),
        decreases n - i,
    {
        let ghost pre = t@;
        let name = src[i].0.clone();
        let cb = src[i].1;
        assoc_update(&mut t, name.as_str(), cb);
        proof {
            assert forall|k: Seq<char>| #[trigger] has_key(t@, k) == key_in_prefix(
                src@,
                k,
                i + 1,
            ) by {
                if k == name@ {
                    assert(key_in_prefix(src@, k, i + 1)) by {
                        assert((src@[i as int]).0@ == k);
                    }
                } else {
                    assert(has_key(t@, k) == has_key(pre, k));
                    if key_in_prefix(src@, k, i + 1) {
                        let j = choose|j: int| 0 <= j < i + 1 && (#[trigger] src@[j]).0@ == k;
                        assert(j < i);
                        assert(key_in_prefix(src@, k, i as int));
                    }
                    if key_in_prefix(src@, k, i as int) {
                        let j = choose|j: int| 0 <= j < i && (#[trigger] src@[j]).0@ == k;
                        assert(key_in_prefix(src@, k, i + 1));
                    }
                }
            }
            assert forall|k: Seq<char>| #[trigger] has_key(t@, k) implies binding_in_prefix(
                src@,
                k,
                val_of(t@, k),
                i + 1,
            ) by {
                if k == name@ {
                    assert(val_of(t@, k) == cb);
                    assert((src@[i as int]).0@ == k && src@[i as int].1 == cb);
                } else {
                    assert(has_key(pre, k));
                    assert(val_of(t@, k) == val_of(pre, k));
                    assert(binding_in_prefix(src@, k, val_of(pre, k), i as int));
                    let j = choose|j: int|
                        0 <= j < i && (#[trigger] src@[j]).0@ == k && src@[j].1 == val_of(pre, k);
                    assert(binding_in_prefix(src@, k, val_of(t@, k), i + 1));
                }
            }
        }
        i = i + 1;
    }
    t
}

/// Materializes the meta-field declarations, dropping declarations of
/// the absent value; for a key declared more than once, the last
/// declaration that is not absent wins among those inserted.
fn build_field_table(src: &Vec<(String, Value)>) -> (t: Vec<(String, Value)>)
    ensures
        built_from_fields(t@, src@),
{
    let mut t: Vec<(String, Value)> = Vec::new();
    let n = src.len();
    let mut i: usize = 0;
    while i < n
        invariant
            i <= n,
            n == src@.len(),
            unique_keys(t@),
            forall|k: Seq<char>| #[trigger] has_key(t@, k) == nonnil_in_prefix(src@, k, i as int),
            forall|k: Seq<char>|
                #[trigger] has_key(t@, k) ==> binding_in_prefix(src@, k, val_of(t@, k), i as int)
                    && val_of(t@, k) != Value::Nil,
        decreases n - i,
    {
        let ghost pre = t@;
        let name = src[i].0.clone();
        let is_nil = match &src[i].1 {
            Value::Nil => true,
            _ => false,
        };
        if !is_nil {
            let v = crate::value::value_clone(&src[i].1);
            assoc_update(&mut t, name.as_str(), v);
        }
        proof {
            assert forall|k: Seq<char>| #[trigger] has_key(t@, k) == nonnil_in_prefix(
                src@,
                k,
                i + 1,
            ) by {
                if !is_nil && k == name@ {
                    assert(nonnil_in_prefix(src@, k, i + 1)) by {
                        assert((src@[i as int]).0@ == k && src@[i as int].1 != Value::Nil);
                    }
                } else {
                    assert(has_key(t@, k) == has_key(pre, k));
                    if nonnil_in_prefix(src@, k, i + 1) {
                        let j = choose|j: int|
                            0 <= j < i + 1 && (#[trigger] src@[j]).0@ == k && src@[j].1
                                != Value::Nil;
                        assert(j < i);
                        assert(nonnil_in_prefix(src@, k, i as int));
                    }
                    if nonnil_in_prefix(src@, k, i as int) {
                        let j = choose|j: int|
                            0 <= j < i && (#[trigger] src@[j]).0@ == k && src@[j].1 != Value::Nil;
                        assert(nonnil_in_prefix(src@, k, i + 1));
                    }
                }
            }
            assert forall|k: Seq<char>| #[trigger] has_key(t@, k) implies binding_in_prefix(
                src@,
                k,
                val_of(t@, k),
                i + 1,
            ) && val_of(t@, k) != Value::Nil by {
                if !is_nil && k == name@ {
                    assert((src@[i as int]).0@ == k && src@[i as int].1 == val_of(t@, k));
                } else {
                    assert(has_key(pre, k));
                    assert(val_of(t@, k) == val_of(pre, k));
                    let j = choose|j: int|
                        0 <= j < i && (#[trigger] src@[j]).0@ == k && src@[j].1 == val_of(pre, k);
                    assert(binding_in_prefix(src@, k, val_of(t@, k), i + 1));
                }
            }
        }
        i = i + 1;
    }
    t
}

/// The registration capability for methods: anything that collects
/// method and metamethod declarations for a type. The generic `add_*`
/// calls are the ergonomic interface; `add_callback` and
/// `add_meta_callback` are the lower-level one, used to hand an already
/// registered type's declarations on to an ownership wrapper around it.
pub trait UserDataMethods {
    /// The collected method declarations.
    spec fn methods_view(&self) -> Seq<(String, Callback)>;

    /// The collected metamethod declarations.
    spec fn meta_methods_view(&self) -> Seq<(String, Callback)>;

    /// Declares a regular method: dispatches on the object, shared
    /// access.
    fn add_method(&mut self, name: &str, id: u64)
        ensures
            pushed(final(self).methods_view(), old(self).methods_view(), name@, method_callback(id)),
            final(self).meta_methods_view() == old(self).meta_methods_view(),
    ;

    /// Declares a mutating method: dispatches on the object, exclusive
    /// access, guarded against re-entry.
    fn add_method_mut(&mut self, name: &str, id: u64)
        ensures
            pushed(
                final(self).methods_view(),
                old(self).methods_view(),
                name@,
                method_mut_callback(id),
            ),
            final(self).meta_methods_view() == old(self).meta_methods_view(),
    ;

    /// Declares a plain function under a method name: no dispatch on the
    /// object.
    fn add_function(&mut self, name: &str, id: u64)
        ensures
            pushed(
                final(self).methods_view(),
                old(self).methods_view(),
                name@,
                function_callback(id),
            ),
            final(self).meta_methods_view() == old(self).meta_methods_view(),
    ;

    /// Declares a mutably-captured plain function under a method name.
    fn add_function_mut(&mut self, name: &str, id: u64)
        ensures
            pushed(
                final(self).methods_view(),
                old(self).methods_view(),
                name@,
                function_mut_callback(id),
            ),
            final(self).meta_methods_view() == old(self).meta_methods_view(),
    ;

    /// Declares a metamethod: dispatches on the object, shared access.
    fn add_meta_method(&mut self, name: &str, id: u64)
        ensures
            pushed(
                final(self).meta_methods_view(),
                old(self).meta_methods_view(),
                name@,
                method_callback(id),
            ),
            final(self).methods_view() == old(self).methods_view(),
    ;

    /// Declares a mutating metamethod.
    fn add_meta_method_mut(&mut self, name: &str, id: u64)
        ensures
            pushed(
                final(self).meta_methods_view(),
                old(self).meta_methods_view(),
                name@,
                method_mut_callback(id),
            ),
            final(self).methods_view() == old(self).methods_view(),
    ;

    /// Declares a metamethod as a plain function.
    fn add_meta_function(&mut self, name: &str, id: u64)
        ensures
            pushed(
                final(self).meta_methods_view(),
                old(self).meta_methods_view(),
                name@,
                function_callback(id),
            ),
            final(self).methods_view() == old(self).methods_view(),
    ;

    /// Declares a metamethod as a mutably-captured plain function.
    fn add_meta_function_mut(&mut self, name: &str, id: u64)
        ensures
            pushed(
                final(self).meta_methods_view(),
                old(self).meta_methods_view(),
                name@,
                function_mut_callback(id),
            ),
            final(self).methods_view() == old(self).methods_view(),
    ;

    /// Declares a method from an already built callback.
    fn add_callback(&mut self, name: String, callback: Callback)
        ensures
            pushed_pair(final(self).methods_view(), old(self).methods_view(), name, callback),
            final(self).meta_methods_view() == old(self).meta_methods_view(),
    ;

    /// Declares a metamethod from an already built callback.
    fn add_meta_callback(&mut self, name: String, callback: Callback)
        ensures
            pushed_pair(
                final(self).meta_methods_view(),
                old(self).meta_methods_view(),
                name,
                callback,
            ),
            final(self).methods_view() == old(self).methods_view(),
    ;
}

/// The registration capability for fields: anything that collects field
/// getters and setters and meta-field initializers for a type.
pub trait UserDataFields {
    /// The collected field getters.
    spec fn field_getters_view(&self) -> Seq<(String, Callback)>;

    /// The collected field setters.
    spec fn field_setters_view(&self) -> Seq<(String, Callback)>;

    /// The collected meta-field values.
    spec fn meta_fields_view(&self) -> Seq<(String, Value)>;

    /// Declares a field getter as a method: dispatches on the object,
    /// shared access.
    fn add_field_method_get(&mut self, name: &str, id: u64)
        ensures
            pushed(
                final(self).field_getters_view(),
                old(self).field_getters_view(),
                name@,
                method_callback(id),
            ),
            final(self).field_setters_view() == old(self).field_setters_view(),
            final(self).meta_fields_view() == old(self).meta_fields_view(),
    ;

    /// Declares a field setter as a method: dispatches on the object,
    /// exclusive access, guarded against re-entry.
    fn add_field_method_set(&mut self, name: &str, id: u64)
        ensures
            pushed(
                final(self).field_setters_view(),
                old(self).field_setters_view(),
                name@,
                method_mut_callback(id),
            ),
            final(self).field_getters_view() == old(self).field_getters_view(),
            final(self).meta_fields_view() == old(self).meta_fields_view(),
    ;

    /// Declares a field getter as a plain function.
    fn add_field_function_get(&mut self, name: &str, id: u64)
        ensures
            pushed(
                final(self).field_getters_view(),
                old(self).field_getters_view(),
                name@,
                function_callback(id),
            ),
            final(self).field_setters_view() == old(self).field_setters_view(),
            final(self).meta_fields_view() == old(self).meta_fields_view(),
    ;

    /// Declares a field setter as a mutably-captured plain function.
    fn add_field_function_set(&mut self, name: &str, id: u64)
        ensures
            pushed(
                final(self).field_setters_view(),
                old(self).field_setters_view(),
                name@,
                function_mut_callback(id),
            ),
            final(self).field_getters_view() == old(self).field_getters_view(),
            final(self).meta_fields_view() == old(self).meta_fields_view(),
    ;

    /// Declares a meta-field value, installed when the type's metatable
    /// is built. Name validation and the hook-specific type constraints
    /// are enforced at that point, not here.
    fn add_meta_field_with(&mut self, name: &str, v: Value)
        ensures
            pushed(final(self).meta_fields_view(), old(self).meta_fields_view(), name@, v),
            final(self).field_getters_view() == old(self).field_getters_view(),
            final(self).field_setters_view() == old(self).field_setters_view(),
    ;

    /// Declares a field getter from an already built callback.
    fn add_field_getter(&mut self, name: String, callback: Callback)
        ensures
            pushed_pair(
                final(self).field_getters_view(),
                old(self).field_getters_view(),
                name,
                callback,
            ),
            final(self).field_setters_view() == old(self).field_setters_view(),
            final(self).meta_fields_view() == old(self).meta_fields_view(),
    ;

    /// Declares a field setter from an already built callback.
    fn add_field_setter(&mut self, name: String, callback: Callback)
        ensures
            pushed_pair(
                final(self).field_setters_view(),
                old(self).field_setters_view(),
                name,
                callback,
            ),
            final(self).field_getters_view() == old(self).field_getters_view(),
            final(self).meta_fields_view() == old(self).meta_fields_view(),
    ;
}

/// A host type that can be exposed as userdata: it declares its fields
/// and methods into the builders handed to it.
pub trait UserData {
    /// Declares the type's fields.
    fn add_fields(fields: &mut StaticUserDataFields) {
    }

    /// Declares the type's methods and metamethods.
    fn add_methods(methods: &mut StaticUserDataMethods) {
    }
}

/// The standard collector of method declarations.
pub struct StaticUserDataMethods {
    /// Method declarations, in declaration order.
    pub methods: Vec<(String, Callback)>,
    /// Metamethod declarations, in declaration order.
    pub meta_methods: Vec<(String, Callback)>,
}

/// The standard collector of field declarations.
pub struct StaticUserDataFields {
    /// Field-getter declarations, in declaration order.
    pub field_getters: Vec<(String, Callback)>,
    /// Field-setter declarations, in declaration order.
    pub field_setters: Vec<(String, Callback)>,
    /// Meta-field declarations, in declaration order.
    pub meta_fields: Vec<(String, Value)>,
}

impl Default for StaticUserDataMethods {
    /// An empty collector.
    fn default() -> (r: StaticUserDataMethods)
        ensures
            r.methods@.len() == 0,
            r.meta_methods@.len() == 0,
    {
        StaticUserDataMethods { methods: Vec::new(), meta_methods: Vec::new() }
    }
}

impl Default for StaticUserDataFields {
    /// An empty collector.
    fn default() -> (r: StaticUserDataFields)
        ensures
            r.field_getters@.len() == 0,
            r.field_setters@.len() == 0,
            r.meta_fields@.len() == 0,
    {
        StaticUserDataFields {
            field_getters: Vec::new(),
            field_setters: Vec::new(),
            meta_fields: Vec::new(),
        }
    }
}

impl StaticUserDataMethods {
    /// Builds the callback of a regular method.
    pub fn box_method(id: u64) -> (c: Callback)
        ensures
            c == method_callback(id),
    {
        Callback { id, takes_self: true, mutable: false, running: false }
    }

    /// Builds the callback of a mutating method, guarded against
    /// re-entry.
    pub fn box_method_mut(id: u64) -> (c: Callback)
        ensures
            c == method_mut_callback(id),
    {
        Callback { id, takes_self: true, mutable: true, running: false }
    }

    /// Builds the callback of a plain function.
    pub fn box_function(id: u64) -> (c: Callback)
        ensures
            c == function_callback(id),
    {
        Callback { id, takes_self: false, mutable: false, running: false }
    }

    /// Builds the callback of a mutably-captured plain function, guarded
    /// against re-entry.
    pub fn box_function_mut(id: u64) -> (c: Callback)
        ensures
            c == function_mut_callback(id),
    {
        Callback { id, takes_self: false, mutable: true, running: false }
    }

    /// Hands every declaration of `other` on to this collector through
    /// the low-level interface: how an ownership wrapper around an
    /// already registered type reuses its declarations.
    pub fn adopt_from(&mut self, other: &StaticUserDataMethods)
        ensures
            final(self).methods@ == old(self).methods@ + other.methods@,
            final(self).meta_methods@ == old(self).meta_methods@ + other.meta_methods@,
    {
        let n = other.methods.len();
        let mut i: usize = 0;
        while i < n
            invariant
                i <= n,
                n == other.methods@.len(),
                self.methods@ == old(self).methods@ + other.methods@.subrange(0, i as int),
                self.meta_methods@ == old(self).meta_methods@,
            decreases n - i,
        {
            let nm = other.methods[i].0.clone();
            let cb = other.methods[i].1;
            let ghost before = self.methods@;
            self.add_callback(nm, cb);
            proof {
                assert forall|idx: int| 0 <= idx < before.len() implies #[trigger] self.methods@[idx]
                    == before[idx] by {
                    assert(self.methods@.subrange(0, before.len() as int)[idx] == before[idx]);
                }
                assert(self.methods@ =~= old(self).methods@ + other.methods@.subrange(0, i + 1));
            }
            i = i + 1;
        }
        let m = other.meta_methods.len();
        let mut j: usize = 0;
        while j < m
            invariant
                j <= m,
                m == other.meta_methods@.len(),
                self.methods@ == old(self).methods@ + other.methods@.subrange(
                    0,
                    other.methods@.len() as int,
                ),
                self.meta_methods@ == old(self).meta_methods@ + other.meta_methods@.subrange(
                    0,
                    j as int,
                ),
            decreases m - j,
        {
            let ghost before = self.meta_methods@;
            self.add_meta_callback(other.meta_methods[j].0.clone(), other.meta_methods[j].1);
            proof {
                assert forall|idx: int|
                    0 <= idx < before.len() implies #[trigger] self.meta_methods@[idx]
                    == before[idx] by {
                    assert(self.meta_methods@.subrange(0, before.len() as int)[idx]
                        == before[idx]);
                }
                assert(self.meta_methods@ =~= old(self).meta_methods@
                    + other.meta_methods@.subrange(0, j + 1));
            }
            j = j + 1;
        }
        proof {
            assert(other.methods@.subrange(0, other.methods@.len() as int) =~= other.methods@);
            assert(other.meta_methods@.subrange(0, other.meta_methods@.len() as int)
                =~= other.meta_methods@);
        }
    }
}

impl UserDataMethods for StaticUserDataMethods {
    open spec fn methods_view(&self) -> Seq<(String, Callback)> {
        self.methods@
    }

    open spec fn meta_methods_view(&self) -> Seq<(String, Callback)> {
        self.meta_methods@
    }

    fn add_method(&mut self, name: &str, id: u64) {
        self.methods.push((name.to_owned(), StaticUserDataMethods::box_method(id)));
        proof {
            assert(self.methods@.subrange(0, old(self).methods@.len() as int)
                =~= old(self).methods@);
        }
    }

    fn add_method_mut(&mut self, name: &str, id: u64) {
        self.methods.push((name.to_owned(), StaticUserDataMethods::box_method_mut(id)));
        proof {
            assert(self.methods@.subrange(0, old(self).methods@.len() as int)
                =~= old(self).methods@);
        }
    }

    fn add_function(&mut self, name: &str, id: u64) {
        self.methods.push((name.to_owned(), StaticUserDataMethods::box_function(id)));
        proof {
            assert(self.methods@.subrange(0, old(self).methods@.len() as int)
                =~= old(self).methods@);
        }
    }

    fn add_function_mut(&mut self, name: &str, id: u64) {
        self.methods.push((name.to_owned(), StaticUserDataMethods::box_function_mut(id)));
        proof {
            assert(self.methods@.subrange(0, old(self).methods@.len() as int)
                =~= old(self).methods@);
        }
    }

    fn add_meta_method(&mut self, name: &str, id: u64) {
        self.meta_methods.push((name.to_owned(), StaticUserDataMethods::box_method(id)));
        proof {
            assert(self.meta_methods@.subrange(0, old(self).meta_methods@.len() as int) =~= old(
                self,
            ).meta_methods@);
        }
    }

    fn add_meta_method_mut(&mut self, name: &str, id: u64) {
        self.meta_methods.push((name.to_owned(), StaticUserDataMethods::box_method_mut(id)));
        proof {
            assert(self.meta_methods@.subrange(0, old(self).meta_methods@.len() as int) =~= old(
                self,
            ).meta_methods@);
        }
    }

    fn add_meta_function(&mut self, name: &str, id: u64) {
        self.meta_methods.push((name.to_owned(), StaticUserDataMethods::box_function(id)));
        proof {
            assert(self.meta_methods@.subrange(0, old(self).meta_methods@.len() as int) =~= old(
                self,
            ).meta_methods@);
        }
    }

    fn add_meta_function_mut(&mut self, name: &str, id: u64) {
        self.meta_methods.push((name.to_owned(), StaticUserDataMethods::box_function_mut(id)));
        proof {
            assert(self.meta_methods@.subrange(0, old(self).meta_methods@.len() as int) =~= old(
                self,
            ).meta_methods@);
        }
    }

    fn add_callback(&mut self, name: String, callback: Callback) {
        self.methods.push((name, callback));
        proof {
            assert(self.methods@.subrange(0, old(self).methods@.len() as int)
                =~= old(self).methods@);
        }
    }

    fn add_meta_callback(&mut self, name: String, callback: Callback) {
        self.meta_methods.push((name, callback));
        proof {
            assert(self.meta_methods@.subrange(0, old(self).meta_methods@.len() as int) =~= old(
                self,
            ).meta_methods@);
        }
    }
}

impl StaticUserDataFields {
    /// Hands every field getter and setter of `other` on to this
    /// collector through the low-level interface; meta fields are not
    /// carried over.
    pub fn adopt_from(&mut self, other: &StaticUserDataFields)
        ensures
            final(self).field_getters@ == old(self).field_getters@ + other.field_getters@,
            final(self).field_setters@ == old(self).field_setters@ + other.field_setters@,
            final(self).meta_fields@ == old(self).meta_fields@,
    {
        let n = other.field_getters.len();
        let mut i: usize = 0;
        while i < n
            invariant
                i <= n,
                n == other.field_getters@.len(),
                self.field_getters@ == old(self).field_getters@ + other.field_getters@.subrange(
                    0,
                    i as int,
                ),
                self.field_setters@ == old(self).field_setters@,
                self.meta_fields@ == old(self).meta_fields@,
            decreases n - i,
        {
            let ghost before = self.field_getters@;
            self.add_field_getter(other.field_getters[i].0.clone(), other.field_getters[i].1);
            proof {
                assert forall|idx: int|
                    0 <= idx < before.len() implies #[trigger] self.field_getters@[idx]
                    == before[idx] by {
                    assert(self.field_getters@.subrange(0, before.len() as int)[idx]
                        == before[idx]);
                }
                assert(self.field_getters@ =~= old(self).field_getters@
                    + other.field_getters@.subrange(0, i + 1));
            }
            i = i + 1;
        }
        let m = other.field_setters.len();
        let mut j: usize = 0;
        while j < m
            invariant
                j <= m,
                m == other.field_setters@.len(),
                self.field_getters@ == old(self).field_getters@ + other.field_getters@.subrange(
                    0,
                    other.field_getters@.len() as int,
                ),
                self.field_setters@ == old(self).field_setters@ + other.field_setters@.subrange(
                    0,
                    j as int,
                ),
                self.meta_fields@ == old(self).meta_fields@,
            decreases m - j,
        {
            let ghost before = self.field_setters@;
            self.add_field_setter(other.field_setters[j].0.clone(), other.field_setters[j].1);
            proof {
                assert forall|idx: int|
                    0 <= idx < before.len() implies #[trigger] self.field_setters@[idx]
                    == before[idx] by {
                    assert(self.field_setters@.subrange(0, before.len() as int)[idx]
                        == before[idx]);
                }
                assert(self.field_setters@ =~= old(self).field_setters@
                    + other.field_setters@.subrange(0, j + 1));
            }
            j = j + 1;
        }
        proof {
            assert(other.field_getters@.subrange(0, other.field_getters@.len() as int)
                =~= other.field_getters@);
            assert(other.field_setters@.subrange(0, other.field_setters@.len() as int)
                =~= other.field_setters@);
        }
    }
}

impl UserDataFields for StaticUserDataFields {
    open spec fn field_getters_view(&self) -> Seq<(String, Callback)> {
        self.field_getters@
    }

    open spec fn field_setters_view(&self) -> Seq<(String, Callback)> {
        self.field_setters@
    }

    open spec fn meta_fields_view(&self) -> Seq<(String, Value)> {
        self.meta_fields@
    }

    fn add_field_method_get(&mut self, name: &str, id: u64) {
        self.field_getters.push((name.to_owned(), StaticUserDataMethods::box_method(id)));
        proof {
            assert(self.field_getters@.subrange(0, old(self).field_getters@.len() as int) =~= old(
                self,
            ).field_getters@);
        }
    }

    fn add_field_method_set(&mut self, name: &str, id: u64) {
        self.field_setters.push((name.to_owned(), StaticUserDataMethods::box_method_mut(id)));
        proof {
            assert(self.field_setters@.subrange(0, old(self).field_setters@.len() as int) =~= old(
                self,
            ).field_setters@);
        }
    }

    fn add_field_function_get(&mut self, name: &str, id: u64) {
        self.field_getters.push((name.to_owned(), StaticUserDataMethods::box_function(id)));
        proof {
            assert(self.field_getters@.subrange(0, old(self).field_getters@.len() as int) =~= old(
                self,
            ).field_getters@);
        }
    }

    fn add_field_function_set(&mut self, name: &str, id: u64) {
        self.field_setters.push((name.to_owned(), StaticUserDataMethods::box_function_mut(id)));
        proof {
            assert(self.field_setters@.subrange(0, old(self).field_setters@.len() as int) =~= old(
                self,
            ).field_setters@);
        }
    }

    fn add_meta_field_with(&mut self, name: &str, v: Value) {
        self.meta_fields.push((name.to_owned(), v));
        proof {
            assert(self.meta_fields@.subrange(0, old(self).meta_fields@.len() as int) =~= old(
                self,
            ).meta_fields@);
        }
    }

    fn add_field_getter(&mut self, name: String, callback: Callback) {
        self.field_getters.push((name, callback));
        proof {
            assert(self.field_getters@.subrange(0, old(self).field_getters@.len() as int) =~= old(
                self,
            ).field_getters@);
        }
    }

    fn add_field_setter(&mut self, name: String, callback: Callback) {
        self.field_setters.push((name, callback));
        proof {
            assert(self.field_setters@.subrange(0, old(self).field_setters@.len() as int) =~= old(
                self,
            ).field_setters@);
        }
    }
}

/// Registers the host type `tag` in a runtime instance, materializing
/// the collected declarations into a cached metatable. The first build
/// wins: a type whose metatable is already cached (by an earlier
/// registration, or because an object of it was created before any) is
/// left as it is and its index returned. A reserved metamethod name
/// anywhere in the declarations fails with `MetaMethodRestricted`; an
/// index or new-index meta field holding anything but the absent value,
/// a table or a function fails with `MetaMethodTypeError`. On failure
/// nothing changes.
pub fn register_type<T>(
    rt: &mut Runtime<T>,
    tag: TypeTag,
    methods: StaticUserDataMethods,
    fields: StaticUserDataFields,
) -> (r: Result<usize, Error>)
    requires
        old(rt).wf(),
    ensures
        final(rt).wf(),
        final(rt).objects == old(rt).objects,
        final(rt).shared == old(rt).shared,
        final(rt).stack == old(rt).stack,
        old(rt).registry@.len() <= final(rt).registry@.len(),
        final(rt).registry@.subrange(0, old(rt).registry@.len() as int) == old(rt).registry@,
        r is Err <==> !has_tag(old(rt).registry@, tag) && (any_reserved(methods.meta_methods@)
            || any_reserved(fields.meta_fields@) || any_bad_hook(fields.meta_fields@)),
        match r {
            Ok(i) => {
                &&& i < final(rt).registry@.len()
                &&& final(rt).registry@[i as int].tag == tag
                &&& (has_tag(old(rt).registry@, tag) ==> final(rt).registry == old(rt).registry)
                &&& (!has_tag(old(rt).registry@, tag) ==> {
                    let mt = final(rt).registry@[i as int];
                    &&& final(rt).registry@.len() == old(rt).registry@.len() + 1
                    &&& i == old(rt).registry@.len()
                    &&& built_from(mt.methods@, methods.methods@)
                    &&& built_from(mt.meta_methods@, methods.meta_methods@)
                    &&& built_from(mt.field_getters@, fields.field_getters@)
                    &&& built_from(mt.field_setters@, fields.field_setters@)
                    &&& built_from_fields(mt.meta_fields@, fields.meta_fields@)
                })
            },
            Err(e) => final(rt).registry == old(rt).registry && match e {
                Error::MetaMethodRestricted(m) => (any_reserved(methods.meta_methods@)
                    || any_reserved(fields.meta_fields@)) && MetaMethod::reserved_spec(m@) && (
                has_key(methods.meta_methods@, m@) || has_key(fields.meta_fields@, m@)),
                Error::MetaMethodTypeError { method, found, message } => !any_reserved(
                    methods.meta_methods@,
                ) && !any_reserved(fields.meta_fields@) && any_bad_hook(fields.meta_fields@)
                    && has_key(fields.meta_fields@, method@),
                _ => false,
            },
        },
{
    match rt.find_metatable(tag) {
        Some(i) => {
            proof {
                assert(rt.registry@.subrange(0, rt.registry@.len() as int) =~= rt.registry@);
                assert(has_tag(rt.registry@, tag)) by {
                    assert((rt.registry@[i as int]).tag == tag);
                }
            }
            return Ok(i);
        },
        None => {},
    }
    let nmm = methods.meta_methods.len();
    let mut i: usize = 0;
    while i < nmm
        invariant
            rt.wf(),
            rt.objects == old(rt).objects,
            rt.shared == old(rt).shared,
            rt.stack == old(rt).stack,
            rt.registry == old(rt).registry,
            rt.registry@ == old(rt).registry@,
            !has_tag(old(rt).registry@, tag),
            i <= nmm,
            nmm == methods.meta_methods@.len(),
            forall|a: int|
                0 <= a < i ==> !MetaMethod::reserved_spec(
                    (#[trigger] methods.meta_methods@[a]).0@,
                ),
        decreases nmm - i,
    {
        match MetaMethod::validate(methods.meta_methods[i].0.as_str()) {
            Err(e) => {
                proof {
                    assert(any_reserved(methods.meta_methods@)) by {
                        assert(MetaMethod::reserved_spec((methods.meta_methods@[i as int]).0@));
                    }
                    assert(has_key(methods.meta_methods@, methods.meta_methods@[i as int].0@)) by {
                        assert((methods.meta_methods@[i as int]).0@
                            == methods.meta_methods@[i as int].0@);
                    }
                    assert(rt.registry@.subrange(0, rt.registry@.len() as int) =~= rt.registry@);
                }
                return Err(e);
            },
            Ok(_) => {},
        }
        i = i + 1;
    }
    let nmf = fields.meta_fields.len();
    let mut j: usize = 0;
    while j < nmf
        invariant
            rt.wf(),
            rt.objects == old(rt).objects,
            rt.shared == old(rt).shared,
            rt.stack == old(rt).stack,
            rt.registry == old(rt).registry,
            rt.registry@ == old(rt).registry@,
            !has_tag(old(rt).registry@, tag),
            j <= nmf,
            nmf == fields.meta_fields@.len(),
            forall|a: int|
                0 <= a < j ==> !MetaMethod::reserved_spec((#[trigger] fields.meta_fields@[a]).0@),
        decreases nmf - j,
    {
        match MetaMethod::validate(fields.meta_fields[j].0.as_str()) {
            Err(e) => {
                proof {
                    assert(any_reserved(fields.meta_fields@)) by {
                        assert(MetaMethod::reserved_spec((fields.meta_fields@[j as int]).0@));
                    }
                    assert(has_key(fields.meta_fields@, fields.meta_fields@[j as int].0@)) by {
                        assert((fields.meta_fields@[j as int]).0@
                            == fields.meta_fields@[j as int].0@);
                    }
                    assert(rt.registry@.subrange(0, rt.registry@.len() as int) =~= rt.registry@);
                }
                return Err(e);
            },
            Ok(_) => {},
        }
        j = j + 1;
    }
    let mut k: usize = 0;
    while k < nmf
        invariant
            rt.wf(),
            rt.objects == old(rt).objects,
            rt.shared == old(rt).shared,
            rt.stack == old(rt).stack,
            rt.registry == old(rt).registry,
            rt.registry@ == old(rt).registry@,
            !has_tag(old(rt).registry@, tag),
            k <= nmf,
            nmf == fields.meta_fields@.len(),
            forall|a: int|
                0 <= a < nmf ==> !MetaMethod::reserved_spec((#[trigger] fields.meta_fields@[a]).0@),
            forall|a: int|
                0 <= a < methods.meta_methods@.len() ==> !MetaMethod::reserved_spec(
                    (#[trigger] methods.meta_methods@[a]).0@,
                ),
            forall|a: int|
                0 <= a < k ==> (((#[trigger] fields.meta_fields@[a]).0@ == "__index"@
                    || fields.meta_fields@[a].0@ == "__newindex"@)
                    ==> fields.meta_fields@[a].1.is_indexable_hook()),
        decreases nmf - k,
    {
        let name = fields.meta_fields[k].0.as_str();
        if crate::strutil::str_eq(name, "__index") || crate::strutil::str_eq(name, "__newindex") {
            let ok = match &fields.meta_fields[k].1 {
                Value::Nil => true,
                Value::Table(_) => true,
                Value::Function(_) => true,
                _ => false,
            };
            if !ok {
                let e = Error::MetaMethodTypeError {
                    method: name.to_owned(),
                    found: fields.meta_fields[k].1.kind_name().to_owned(),
                    message: "expected nil, table or function".to_owned(),
                };
                proof {
                    assert(any_bad_hook(fields.meta_fields@)) by {
                        assert(((fields.meta_fields@[k as int]).0@ == "__index"@
                            || fields.meta_fields@[k as int].0@ == "__newindex"@)
                            && !fields.meta_fields@[k as int].1.is_indexable_hook());
                    }
                    assert(has_key(fields.meta_fields@, fields.meta_fields@[k as int].0@)) by {
                        assert((fields.meta_fields@[k as int]).0@
                            == fields.meta_fields@[k as int].0@);
                    }
                    assert(!any_reserved(methods.meta_methods@)) by {
                        if any_reserved(methods.meta_methods@) {
                            let a = choose|a: int|
                                0 <= a < methods.meta_methods@.len()
                                    && MetaMethod::reserved_spec(
                                    (#[trigger] methods.meta_methods@[a]).0@,
                                );
                        }
                    }
                    assert(!any_reserved(fields.meta_fields@)) by {
                        if any_reserved(fields.meta_fields@) {
                            let a = choose|a: int|
                                0 <= a < fields.meta_fields@.len() && MetaMethod::reserved_spec(
                                    (#[trigger] fields.meta_fields@[a]).0@,
                                );
                        }
                    }
                    assert(rt.registry@.subrange(0, rt.registry@.len() as int) =~= rt.registry@);
                }
                return Err(e);
            }
        }
        k = k + 1;
    }
    let mt = Metatable {
        tag,
        methods: build_cb_table(&methods.methods),
        field_getters: build_cb_table(&fields.field_getters),
        field_setters: build_cb_table(&fields.field_setters),
        meta_methods: build_cb_table(&methods.meta_methods),
        meta_fields: build_field_table(&fields.meta_fields),
    };
    proof {
        assert forall|a: int|
            0 <= a < mt.meta_methods@.len() implies !MetaMethod::reserved_spec(
            (#[trigger] mt.meta_methods@[a]).0@,
        ) by {
            let key = mt.meta_methods@[a].0@;
            assert(has_key(mt.meta_methods@, key)) by {
                assert((mt.meta_methods@[a]).0@ == key);
            }
            assert(key_in_prefix(methods.meta_methods@, key, methods.meta_methods@.len() as int));
            let b = choose|b: int|
                0 <= b < methods.meta_methods@.len() && (#[trigger] methods.meta_methods@[b]).0@
                    == key;
        }
        assert forall|a: int|
            0 <= a < mt.meta_fields@.len() implies !MetaMethod::reserved_spec(
            (#[trigger] mt.meta_fields@[a]).0@,
        ) && mt.meta_fields@[a].1 != Value::Nil && ((mt.meta_fields@[a].0@ == "__index"@
            || mt.meta_fields@[a].0@ == "__newindex"@)
            ==> mt.meta_fields@[a].1.is_indexable_hook()) by {
            let key = mt.meta_fields@[a].0@;
            assert(has_key(mt.meta_fields@, key)) by {
                assert((mt.meta_fields@[a]).0@ == key);
            }
            crate::assoc::lemma_unique_val(mt.meta_fields@, key, a);
            assert(nonnil_in_prefix(fields.meta_fields@, key, fields.meta_fields@.len() as int));
            let b = choose|b: int|
                0 <= b < fields.meta_fields@.len() && (#[trigger] fields.meta_fields@[b]).0@ == key
                    && fields.meta_fields@[b].1 != Value::Nil;
            assert(binding_in_prefix(
                fields.meta_fields@,
                key,
                val_of(mt.meta_fields@, key),
                fields.meta_fields@.len() as int,
            ));
            let c = choose|c: int|
                0 <= c < fields.meta_fields@.len() && (#[trigger] fields.meta_fields@[c]).0@ == key
                    && fields.meta_fields@[c].1 == val_of(mt.meta_fields@, key);
        }
        assert(mt.wf());
    }
    let idx = rt.registry.len();
    rt.registry.push(mt);
    proof {
        assert(rt.registry@.subrange(0, old(rt).registry@.len() as int) =~= old(rt).registry@);
        assert forall|a: int|
            0 <= a < rt.registry@.len() implies (#[trigger] rt.registry@[a]).wf() by {
            if a < idx {
                assert(rt.registry@[a] == old(rt).registry@[a]);
            }
        }
        assert forall|a: int, b: int|
            0 <= a < b < rt.registry@.len() implies (#[trigger] rt.registry@[a]).tag != (
        #[trigger] rt.registry@[b]).tag by {
            if b < idx {
                assert(old(rt).registry@[a].tag != old(rt).registry@[b].tag);
            } else {
                assert(rt.registry@[a] == old(rt).registry@[a]);
                if old(rt).registry@[a].tag == tag {
                    assert(has_tag(old(rt).registry@, tag)) by {
                        assert((old(rt).registry@[a]).tag == tag);
                    }
                }
            }
        }
        assert forall|a: int|
            0 <= a < rt.objects@.len() implies (#[trigger] rt.objects@[a]).wf(
            rt.registry@.len() as int,
            rt.shared@.len() as int,
        ) by {
            assert(old(rt).objects@[a].wf(
                old(rt).registry@.len() as int,
                old(rt).shared@.len() as int,
            ));
        }
    }
    Ok(idx)
}

} // verus!
