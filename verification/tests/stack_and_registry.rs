use userdata::{
    check_stack, create_shared_value, create_userdata, create_wrapped_userdata, lookup_index,
    pop_value, push_value, register_type, restore, str_eq, str_starts_with, Callback, IndexLookup,
    OwnershipKind, Runtime, StackGuard, StaticUserDataFields, StaticUserDataMethods, TypeTag,
    UserData, UserDataFields, UserDataMethods, Value, MAX_STACK,
};

fn bare(base: u64) -> TypeTag {
    TypeTag { base, kind: OwnershipKind::Exclusive }
}

#[test]
fn test_stack_guard_restores() {
    let mut rt: Runtime<i64> = Runtime::new();
    push_value(&mut rt, Value::Int(1));
    push_value(&mut rt, Value::Int(2));

    let g = StackGuard::new(&rt);
    check_stack(&rt, 3).unwrap();
    push_value(&mut rt, Value::Int(3));
    push_value(&mut rt, Value::Str("tmp".to_string()));
    push_value(&mut rt, Value::Nil);
    assert_eq!(rt.stack.len(), 5);

    // restoring the guard discards everything pushed since, whatever it
    // was, and leaves the stack as the guard saw it
    restore(&mut rt, g);
    assert_eq!(rt.stack.len(), 2);
    assert_eq!(pop_value(&mut rt), Value::Int(2));
    assert_eq!(pop_value(&mut rt), Value::Int(1));
}

#[test]
fn test_check_stack_limit() {
    let mut rt: Runtime<i64> = Runtime::new();
    check_stack(&rt, 0).unwrap();
    check_stack(&rt, MAX_STACK).unwrap();
    assert!(check_stack(&rt, MAX_STACK + 1).is_err());
    push_value(&mut rt, Value::Nil);
    assert!(check_stack(&rt, MAX_STACK).is_err());
    check_stack(&rt, MAX_STACK - 1).unwrap();
}

#[test]
fn test_callback_builders() {
    let m = StaticUserDataMethods::box_method(4);
    assert_eq!(
        m,
        Callback { id: 4, takes_self: true, mutable: false, running: false }
    );
    let mm = StaticUserDataMethods::box_method_mut(5);
    assert!(mm.takes_self && mm.mutable && !mm.running);
    let f = StaticUserDataMethods::box_function(6);
    assert!(!f.takes_self && !f.mutable);
    let fm = StaticUserDataMethods::box_function_mut(7);
    assert!(!fm.takes_self && fm.mutable);

    let mut methods = StaticUserDataMethods::default();
    assert!(methods.methods.is_empty() && methods.meta_methods.is_empty());
    methods.add_method("a", 1);
    methods.add_function("b", 2);
    methods.add_meta_function_mut("__call", 3);
    methods.add_callback("c".to_string(), f);
    assert_eq!(methods.methods.len(), 3);
    assert_eq!(methods.meta_methods.len(), 1);

    let fields = StaticUserDataFields::default();
    assert!(fields.field_getters.is_empty());
    assert!(fields.field_setters.is_empty());
    assert!(fields.meta_fields.is_empty());
}

#[test]
fn test_wrapper_adopts_declarations() {
    // an ownership wrapper around an already registered type reuses the
    // type's declarations through the low-level callback interface
    let mut orig = StaticUserDataMethods::default();
    orig.add_method("ping", 1);
    orig.add_method_mut("bump", 2);

    let mut wrapped = StaticUserDataMethods::default();
    wrapped.adopt_from(&orig);
    assert_eq!(wrapped.methods.len(), 2);

    let mut rt: Runtime<i64> = Runtime::new();
    let tag = TypeTag { base: 3, kind: OwnershipKind::SharedChecked };
    let mt = register_type(&mut rt, tag, wrapped, StaticUserDataFields::default()).unwrap();

    let cell = create_shared_value(&mut rt, 8);
    let h = create_wrapped_userdata(&mut rt, 3, OwnershipKind::SharedChecked, cell);
    match lookup_index(&rt, mt, "ping") {
        IndexLookup::Method(cbr) => {
            let inv = userdata::begin_method_call(&mut rt, cbr, Some(h)).unwrap();
            assert_eq!(inv.cb_id, 1);
            assert_eq!(*h.payload_read(&rt), 8);
            userdata::end_method_call(&mut rt, inv);
        },
        other => panic!("expected the adopted method, found {other:?}"),
    }
}

#[test]
fn test_creation_and_identity() {
    let mut rt: Runtime<i64> = Runtime::new();
    let a = create_userdata(&mut rt, 1, 10);
    let b = create_userdata(&mut rt, 1, 20);
    assert_ne!(a, b);

    let cell = create_shared_value(&mut rt, 30);
    let w = create_wrapped_userdata(&mut rt, 1, OwnershipKind::RwLockGuarded, cell);

    // the wrapper kind is part of the exact identity
    assert!(a.is(&rt, bare(1)));
    assert!(w.is(&rt, TypeTag { base: 1, kind: OwnershipKind::RwLockGuarded }));
    assert!(!w.is(&rt, bare(1)));

    // direct borrowing never unwraps: a wrapped object is not the bare
    // type
    assert_eq!(
        w.borrow(&mut rt, 1).unwrap_err(),
        userdata::Error::UserDataTypeMismatch
    );
}

struct Counter;

impl userdata::UserData for Counter {
    fn add_fields(fields: &mut StaticUserDataFields) {
        fields.add_field_method_get("value", 20);
    }

    fn add_methods(methods: &mut StaticUserDataMethods) {
        methods.add_method("get", 10);
        methods.add_method_mut("set", 11);
    }
}

#[test]
fn test_userdata_trait_registration() {
    let mut rt: Runtime<i64> = Runtime::new();
    let mut methods = StaticUserDataMethods::default();
    let mut fields = StaticUserDataFields::default();
    Counter::add_methods(&mut methods);
    Counter::add_fields(&mut fields);
    let mt = register_type(&mut rt, bare(5), methods, fields).unwrap();

    let h = create_userdata(&mut rt, 5, 7);
    match lookup_index(&rt, mt, "value") {
        IndexLookup::Getter(cbr) => {
            let inv = userdata::begin_method_call(&mut rt, cbr, Some(h)).unwrap();
            assert_eq!(inv.cb_id, 20);
            assert_eq!(*h.payload_read(&rt), 7);
            userdata::end_method_call(&mut rt, inv);
        },
        other => panic!("expected the field getter, found {other:?}"),
    }
    match lookup_index(&rt, mt, "get") {
        IndexLookup::Method(_) => {},
        other => panic!("expected the method, found {other:?}"),
    }
}

#[test]
fn test_str_helpers() {
    assert!(str_eq("", ""));
    assert!(str_eq("abc", "abc"));
    assert!(!str_eq("abc", "abd"));
    assert!(!str_eq("abc", "ab"));
    assert!(str_starts_with("__gc", "__"));
    assert!(str_starts_with("abc", ""));
    assert!(!str_starts_with("ab", "abc"));
    assert!(!str_starts_with("axc", "ab"));
}

#[test]
fn test_value_kind_names() {
    assert_eq!(Value::Nil.kind_name(), "nil");
    assert_eq!(Value::Bool(true).kind_name(), "boolean");
    assert_eq!(Value::Int(0).kind_name(), "integer");
    assert_eq!(Value::Str(String::new()).kind_name(), "string");
    assert_eq!(Value::Table(0).kind_name(), "table");
    assert_eq!(Value::Function(0).kind_name(), "function");
    assert_eq!(Value::UserData(0).kind_name(), "userdata");
}
