use userdata::{
    begin_method_call, create_shared_value, create_userdata, create_wrapped_userdata,
    end_method_call, lookup_index, lookup_newindex, register_type, AnyUserData, CallbackRef,
    EqOutcome, Error, IndexLookup, NewIndexLookup, OwnershipKind, Runtime, StaticUserDataFields,
    StaticUserDataMethods, TypeTag, UserDataFields, UserDataMethods, Value,
};

fn bare(base: u64) -> TypeTag {
    TypeTag { base, kind: OwnershipKind::Exclusive }
}

fn method_ref(rt: &Runtime<i64>, mt: usize, name: &str) -> CallbackRef {
    match lookup_index(rt, mt, name) {
        IndexLookup::Method(cbr) => cbr,
        other => panic!("expected a method under {name:?}, found {other:?}"),
    }
}

/// Registers a host type with a read method "ping", a mutating method
/// "bump" and nothing else, and returns its metatable index.
fn register_pingable(rt: &mut Runtime<i64>, tag: TypeTag) -> usize {
    let mut methods = StaticUserDataMethods::default();
    methods.add_method("ping", 1);
    methods.add_method_mut("bump", 2);
    register_type(rt, tag, methods, StaticUserDataFields::default()).unwrap()
}

#[test]
fn test_identity_stable_across_calls() {
    let mut rt: Runtime<i64> = Runtime::new();
    let mt = register_pingable(&mut rt, bare(7));
    let h = create_userdata(&mut rt, 7, 5);

    let cbr = method_ref(&rt, mt, "ping");
    let inv = begin_method_call(&mut rt, cbr, Some(h)).unwrap();
    assert_eq!(inv.cb_id, 1);
    assert_eq!(*h.payload_read(&rt), 5);
    end_method_call(&mut rt, inv);

    // after a successful call the handle still resolves to the same type
    assert!(h.is(&rt, bare(7)));
    // and to no unrelated one
    assert!(!h.is(&rt, bare(8)));
    assert!(!h.is(&rt, TypeTag { base: 7, kind: OwnershipKind::RwLockGuarded }));
}

#[test]
fn test_dispatch_all_wrapper_kinds() {
    // a read-only method call is granted identically whatever the
    // ownership wrapper of the payload is
    for kind in [
        OwnershipKind::Exclusive,
        OwnershipKind::SharedChecked,
        OwnershipKind::MutexGuarded,
        OwnershipKind::RwLockGuarded,
    ] {
        let mut rt: Runtime<i64> = Runtime::new();
        let tag = TypeTag { base: 7, kind };
        let mt = register_pingable(&mut rt, tag);
        let h = if kind == OwnershipKind::Exclusive {
            create_userdata(&mut rt, 7, 21)
        } else {
            let cell = create_shared_value(&mut rt, 21);
            create_wrapped_userdata(&mut rt, 7, kind, cell)
        };
        let cbr = method_ref(&rt, mt, "ping");
        let inv = begin_method_call(&mut rt, cbr, Some(h)).unwrap();
        assert_eq!(inv.cb_id, 1);
        assert_eq!(*h.payload_read(&rt), 21);
        end_method_call(&mut rt, inv);
    }
}

#[test]
fn test_contended_lock_fails_fast() {
    // two objects alias one mutex-guarded value; while one call holds
    // the lock, a dispatch through the other fails with a borrow
    // conflict instead of blocking
    let mut rt: Runtime<i64> = Runtime::new();
    let tag = TypeTag { base: 7, kind: OwnershipKind::MutexGuarded };
    let mt = register_pingable(&mut rt, tag);
    let cell = create_shared_value(&mut rt, 0);
    let a = create_wrapped_userdata(&mut rt, 7, OwnershipKind::MutexGuarded, cell);
    let b = create_wrapped_userdata(&mut rt, 7, OwnershipKind::MutexGuarded, cell);

    let cbr = method_ref(&rt, mt, "ping");
    let inv_a = begin_method_call(&mut rt, cbr, Some(a)).unwrap();
    assert_eq!(
        begin_method_call(&mut rt, cbr, Some(b)).unwrap_err(),
        Error::UserDataBorrowError
    );
    end_method_call(&mut rt, inv_a);
    let inv_b = begin_method_call(&mut rt, cbr, Some(b)).unwrap();
    end_method_call(&mut rt, inv_b);
}

#[test]
fn test_rwlock_readers_coexist_writer_excludes() {
    let mut rt: Runtime<i64> = Runtime::new();
    let tag = TypeTag { base: 7, kind: OwnershipKind::RwLockGuarded };
    let mt = register_pingable(&mut rt, tag);
    let cell = create_shared_value(&mut rt, 0);
    let a = create_wrapped_userdata(&mut rt, 7, OwnershipKind::RwLockGuarded, cell);
    let b = create_wrapped_userdata(&mut rt, 7, OwnershipKind::RwLockGuarded, cell);

    // two concurrent readers are fine under a reader/writer lock
    let ping = method_ref(&rt, mt, "ping");
    let inv_a = begin_method_call(&mut rt, ping, Some(a)).unwrap();
    let inv_b = begin_method_call(&mut rt, ping, Some(b)).unwrap();

    // a writer is refused while readers are active
    let bump = method_ref(&rt, mt, "bump");
    assert_eq!(
        begin_method_call(&mut rt, bump, Some(b)).unwrap_err(),
        Error::UserDataBorrowMutError
    );

    end_method_call(&mut rt, inv_a);
    end_method_call(&mut rt, inv_b);
    let inv = begin_method_call(&mut rt, bump, Some(b)).unwrap();
    end_method_call(&mut rt, inv);
}

#[test]
fn test_shared_checked_borrow_counter() {
    // the single-thread shared wrapper uses a borrow counter: readers
    // coexist, a writer is refused while any of them is outstanding
    let mut rt: Runtime<i64> = Runtime::new();
    let tag = TypeTag { base: 7, kind: OwnershipKind::SharedChecked };
    let mt = register_pingable(&mut rt, tag);
    let cell = create_shared_value(&mut rt, 0);
    let a = create_wrapped_userdata(&mut rt, 7, OwnershipKind::SharedChecked, cell);
    let b = create_wrapped_userdata(&mut rt, 7, OwnershipKind::SharedChecked, cell);

    let ping = method_ref(&rt, mt, "ping");
    let bump = method_ref(&rt, mt, "bump");
    let inv_a = begin_method_call(&mut rt, ping, Some(a)).unwrap();
    let inv_b = begin_method_call(&mut rt, ping, Some(b)).unwrap();
    assert_eq!(
        begin_method_call(&mut rt, bump, Some(a)).unwrap_err(),
        Error::UserDataBorrowMutError
    );
    end_method_call(&mut rt, inv_a);
    end_method_call(&mut rt, inv_b);
    let inv = begin_method_call(&mut rt, bump, Some(a)).unwrap();
    end_method_call(&mut rt, inv);
}

#[test]
fn test_method_mutation_round_trip() {
    // register "get" returning the integer payload and "set" mutating
    // it; set(5) then get() observes 5
    let mut rt: Runtime<i64> = Runtime::new();
    let mut methods = StaticUserDataMethods::default();
    methods.add_method("get", 10);
    methods.add_method_mut("set", 11);
    let mt = register_type(&mut rt, bare(1), methods, StaticUserDataFields::default()).unwrap();
    let h = create_userdata(&mut rt, 1, 0);

    let set = method_ref(&rt, mt, "set");
    let inv = begin_method_call(&mut rt, set, Some(h)).unwrap();
    assert_eq!(inv.cb_id, 11);
    h.payload_write(&mut rt, 5);
    end_method_call(&mut rt, inv);

    let get = method_ref(&rt, mt, "get");
    let inv = begin_method_call(&mut rt, get, Some(h)).unwrap();
    assert_eq!(inv.cb_id, 10);
    assert_eq!(*h.payload_read(&rt), 5);
    end_method_call(&mut rt, inv);
}

#[test]
fn test_mutex_mutation_never_interleaves() {
    // while one wrapper instance's "set" holds the lock, the other
    // instance can neither read nor write; once released, it observes
    // the whole write
    let mut rt: Runtime<i64> = Runtime::new();
    let tag = TypeTag { base: 1, kind: OwnershipKind::MutexGuarded };
    let mut methods = StaticUserDataMethods::default();
    methods.add_method("get", 10);
    methods.add_method_mut("set", 11);
    let mt = register_type(&mut rt, tag, methods, StaticUserDataFields::default()).unwrap();
    let cell = create_shared_value(&mut rt, 0);
    let a = create_wrapped_userdata(&mut rt, 1, OwnershipKind::MutexGuarded, cell);
    let b = create_wrapped_userdata(&mut rt, 1, OwnershipKind::MutexGuarded, cell);

    let set = method_ref(&rt, mt, "set");
    let get = method_ref(&rt, mt, "get");

    let inv = begin_method_call(&mut rt, set, Some(a)).unwrap();
    a.payload_write(&mut rt, 5);
    // the same mutably-captured "set" closure may not be re-entered at
    // all while it runs
    assert_eq!(
        begin_method_call(&mut rt, set, Some(b)).unwrap_err(),
        Error::RecursiveMutCallback
    );
    // and the lock it holds turns any other access away at once
    assert_eq!(
        begin_method_call(&mut rt, get, Some(b)).unwrap_err(),
        Error::UserDataBorrowError
    );
    end_method_call(&mut rt, inv);

    let inv = begin_method_call(&mut rt, get, Some(b)).unwrap();
    assert_eq!(*b.payload_read(&rt), 5);
    end_method_call(&mut rt, inv);
}

#[test]
fn test_recursive_mut_callback() {
    let mut rt: Runtime<i64> = Runtime::new();
    let mut methods = StaticUserDataMethods::default();
    methods.add_function_mut("tick", 3);
    let mt = register_type(&mut rt, bare(1), methods, StaticUserDataFields::default()).unwrap();

    let cbr = method_ref(&rt, mt, "tick");
    let inv = begin_method_call(&mut rt, cbr, None).unwrap();
    // re-entering the mutably-captured callback while it runs is refused
    assert_eq!(
        begin_method_call(&mut rt, cbr, None).unwrap_err(),
        Error::RecursiveMutCallback
    );
    end_method_call(&mut rt, inv);
    let inv = begin_method_call(&mut rt, cbr, None).unwrap();
    end_method_call(&mut rt, inv);
}

#[test]
fn test_missing_argument() {
    let mut rt: Runtime<i64> = Runtime::new();
    let mt = register_pingable(&mut rt, bare(7));
    let cbr = method_ref(&rt, mt, "ping");
    match begin_method_call(&mut rt, cbr, None).unwrap_err() {
        Error::FromLuaConversionError { from, to } => {
            assert_eq!(from, "missing argument");
            assert_eq!(to, "userdata");
        },
        other => panic!("unexpected error: {other:?}"),
    }
}

#[test]
fn test_dispatch_wrong_or_dead_self() {
    let mut rt: Runtime<i64> = Runtime::new();
    let mt = register_pingable(&mut rt, bare(7));
    let other = create_userdata(&mut rt, 9, 0);
    let cbr = method_ref(&rt, mt, "ping");
    assert_eq!(
        begin_method_call(&mut rt, cbr, Some(other)).unwrap_err(),
        Error::UserDataTypeMismatch
    );

    let dead = create_userdata(&mut rt, 7, 0);
    dead.take(&mut rt, 7).unwrap();
    assert_eq!(
        begin_method_call(&mut rt, cbr, Some(dead)).unwrap_err(),
        Error::UserDataDestructed
    );
}

#[test]
fn test_lookup_precedence() {
    let mut rt: Runtime<i64> = Runtime::new();
    let mut methods = StaticUserDataMethods::default();
    methods.add_method("x", 1);
    methods.add_method("y", 2);
    methods.add_meta_method("__index", 3);
    let mut fields = StaticUserDataFields::default();
    fields.add_field_method_get("x", 4);
    fields.add_field_method_set("w", 5);
    let mt = register_type(&mut rt, bare(1), methods, fields).unwrap();
    let h = create_userdata(&mut rt, 1, 0);

    // a field getter shadows a method of the same name
    match lookup_index(&rt, mt, "x") {
        IndexLookup::Getter(cbr) => {
            let inv = begin_method_call(&mut rt, cbr, Some(h)).unwrap();
            assert_eq!(inv.cb_id, 4);
            end_method_call(&mut rt, inv);
        },
        other => panic!("expected the getter, found {other:?}"),
    }
    // a method is found before the index hook
    match lookup_index(&rt, mt, "y") {
        IndexLookup::Method(cbr) => {
            let inv = begin_method_call(&mut rt, cbr, Some(h)).unwrap();
            assert_eq!(inv.cb_id, 2);
            end_method_call(&mut rt, inv);
        },
        other => panic!("expected the method, found {other:?}"),
    }
    // the index hook is only the fallback
    match lookup_index(&rt, mt, "z") {
        IndexLookup::MetaCallback(_) => {},
        other => panic!("expected the index hook, found {other:?}"),
    }

    // index writes: the setter first, else the new-index hook, else
    // nothing
    match lookup_newindex(&rt, mt, "w") {
        NewIndexLookup::Setter(_) => {},
        other => panic!("expected the setter, found {other:?}"),
    }
    assert_eq!(lookup_newindex(&rt, mt, "q"), NewIndexLookup::Absent);
}

#[test]
fn test_index_hook_as_value_fallback() {
    let mut rt: Runtime<i64> = Runtime::new();
    let mut fields = StaticUserDataFields::default();
    fields.add_meta_field_with("__index", Value::Table(77));
    fields.add_meta_field_with("__newindex", Value::Function(78));
    let mt = register_type(&mut rt, bare(1), StaticUserDataMethods::default(), fields).unwrap();
    assert_eq!(lookup_index(&rt, mt, "anything"), IndexLookup::MetaValue(Value::Table(77)));
    assert_eq!(
        lookup_newindex(&rt, mt, "anything"),
        NewIndexLookup::MetaValue(Value::Function(78))
    );
}

#[test]
fn test_equals() {
    let mut rt: Runtime<i64> = Runtime::new();
    let mut methods = StaticUserDataMethods::default();
    methods.add_meta_method("__eq", 5);
    register_type(&mut rt, bare(1), methods, StaticUserDataFields::default()).unwrap();

    let a = create_userdata(&mut rt, 1, 0);
    let b = create_userdata(&mut rt, 1, 0);
    let c = create_userdata(&mut rt, 2, 0);

    // raw identity decides first
    assert_eq!(a.equals(&rt, &a).unwrap(), EqOutcome::Equal);
    // one shared metatable with an equality hook: the hook decides
    assert_eq!(a.equals(&rt, &b).unwrap(), EqOutcome::Metamethod(5));
    // different metatables are never equal
    assert_eq!(a.equals(&rt, &c).unwrap(), EqOutcome::NotEqual);

    // without a hook, distinct objects of one type are not equal
    let mut rt2: Runtime<i64> = Runtime::new();
    let d = create_userdata(&mut rt2, 1, 0);
    let e = create_userdata(&mut rt2, 1, 0);
    assert_eq!(d.equals(&rt2, &e).unwrap(), EqOutcome::NotEqual);

    // a destructed object cannot be compared
    b.take(&mut rt, 1).unwrap();
    assert_eq!(a.equals(&rt, &b).unwrap_err(), Error::UserDataDestructed);
}

#[test]
fn test_equals_hook_must_be_function() {
    let mut rt: Runtime<i64> = Runtime::new();
    let mut fields = StaticUserDataFields::default();
    fields.add_meta_field_with("__eq", Value::Str("not a function".to_string()));
    register_type(&mut rt, bare(1), StaticUserDataMethods::default(), fields).unwrap();
    let a = create_userdata(&mut rt, 1, 0);
    let b = create_userdata(&mut rt, 1, 0);
    match a.equals(&rt, &b).unwrap_err() {
        Error::FromLuaConversionError { from, to } => {
            assert_eq!(from, "string");
            assert_eq!(to, "function");
        },
        other => panic!("unexpected error: {other:?}"),
    }
}
