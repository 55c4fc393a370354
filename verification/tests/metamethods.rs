use userdata::{
    register_type, Error, MetaMethod, OwnershipKind, Runtime, StaticUserDataFields,
    StaticUserDataMethods, TypeTag, UserDataFields, UserDataMethods, Value,
};

fn bare(base: u64) -> TypeTag {
    TypeTag { base, kind: OwnershipKind::Exclusive }
}

#[test]
fn test_metamethod_names() {
    assert_eq!(MetaMethod::Add.name(), "__add");
    assert_eq!(MetaMethod::Sub.name(), "__sub");
    assert_eq!(MetaMethod::Mul.name(), "__mul");
    assert_eq!(MetaMethod::Div.name(), "__div");
    assert_eq!(MetaMethod::Mod.name(), "__mod");
    assert_eq!(MetaMethod::Pow.name(), "__pow");
    assert_eq!(MetaMethod::Unm.name(), "__unm");
    assert_eq!(MetaMethod::IDiv.name(), "__idiv");
    assert_eq!(MetaMethod::BAnd.name(), "__band");
    assert_eq!(MetaMethod::BOr.name(), "__bor");
    assert_eq!(MetaMethod::BXor.name(), "__bxor");
    assert_eq!(MetaMethod::BNot.name(), "__bnot");
    assert_eq!(MetaMethod::Shl.name(), "__shl");
    assert_eq!(MetaMethod::Shr.name(), "__shr");
    assert_eq!(MetaMethod::Concat.name(), "__concat");
    assert_eq!(MetaMethod::Len.name(), "__len");
    assert_eq!(MetaMethod::Eq.name(), "__eq");
    assert_eq!(MetaMethod::Lt.name(), "__lt");
    assert_eq!(MetaMethod::Le.name(), "__le");
    assert_eq!(MetaMethod::Index.name(), "__index");
    assert_eq!(MetaMethod::NewIndex.name(), "__newindex");
    assert_eq!(MetaMethod::Call.name(), "__call");
    assert_eq!(MetaMethod::ToString.name(), "__tostring");
    assert_eq!(MetaMethod::Pairs.name(), "__pairs");
    assert_eq!(MetaMethod::IPairs.name(), "__ipairs");
    assert_eq!(MetaMethod::Iter.name(), "__iter");
    assert_eq!(MetaMethod::Close.name(), "__close");
}

#[test]
fn test_validate_accepts_ordinary_names() {
    assert_eq!(MetaMethod::validate("__add").unwrap(), "__add");
    assert_eq!(MetaMethod::validate("__tostring").unwrap(), "__tostring");
    assert_eq!(MetaMethod::validate("custom").unwrap(), "custom");
    assert_eq!(MetaMethod::validate("").unwrap(), "");
    // a name that merely begins like the reserved words is fine
    assert_eq!(MetaMethod::validate("__g").unwrap(), "__g");
    assert_eq!(MetaMethod::validate("__meta").unwrap(), "__meta");
}

#[test]
fn test_validate_rejects_reserved() {
    assert_eq!(
        MetaMethod::validate("__gc").unwrap_err(),
        Error::MetaMethodRestricted("__gc".to_string())
    );
    assert_eq!(
        MetaMethod::validate("__metatable").unwrap_err(),
        Error::MetaMethodRestricted("__metatable".to_string())
    );
    assert_eq!(
        MetaMethod::validate("__internal_marker").unwrap_err(),
        Error::MetaMethodRestricted("__internal_marker".to_string())
    );
}

#[test]
fn test_register_reserved_meta_method_fails() {
    // the finalizer and metatable-protection hooks are rejected whatever
    // the host type is
    for base in [1u64, 2, 99] {
        let mut rt: Runtime<i64> = Runtime::new();
        let mut methods = StaticUserDataMethods::default();
        methods.add_meta_method("__gc", 1);
        let r = register_type(&mut rt, bare(base), methods, StaticUserDataFields::default());
        assert_eq!(r.unwrap_err(), Error::MetaMethodRestricted("__gc".to_string()));

        let mut methods = StaticUserDataMethods::default();
        methods.add_meta_method("__metatable", 1);
        let r = register_type(&mut rt, bare(base), methods, StaticUserDataFields::default());
        assert_eq!(r.unwrap_err(), Error::MetaMethodRestricted("__metatable".to_string()));

        let mut fields = StaticUserDataFields::default();
        fields.add_meta_field_with("__gc", Value::Function(3));
        let r = register_type(&mut rt, bare(base), StaticUserDataMethods::default(), fields);
        assert_eq!(r.unwrap_err(), Error::MetaMethodRestricted("__gc".to_string()));
    }
}

#[test]
fn test_metatable_set_reserved_fails() {
    let mut rt: Runtime<i64> = Runtime::new();
    let h = userdata::create_userdata(&mut rt, 1, 0);
    let mt = h.get_metatable(&rt).unwrap();
    assert_eq!(
        mt.set(&mut rt, "__gc", Value::Function(1)).unwrap_err(),
        Error::MetaMethodRestricted("__gc".to_string())
    );
    assert_eq!(
        mt.set(&mut rt, "__metatable", Value::Bool(false)).unwrap_err(),
        Error::MetaMethodRestricted("__metatable".to_string())
    );
    // the index and new-index hooks are sealed after registration
    assert_eq!(
        mt.set(&mut rt, "__index", Value::Table(1)).unwrap_err(),
        Error::MetaMethodRestricted("__index".to_string())
    );
    assert_eq!(
        mt.set(&mut rt, "__newindex", Value::Table(1)).unwrap_err(),
        Error::MetaMethodRestricted("__newindex".to_string())
    );
    assert_eq!(
        mt.get(&rt, "__gc").unwrap_err(),
        Error::MetaMethodRestricted("__gc".to_string())
    );
    assert_eq!(
        mt.contains(&rt, "__metatable").unwrap_err(),
        Error::MetaMethodRestricted("__metatable".to_string())
    );
}

#[test]
fn test_metatable_get_set_contains() {
    let mut rt: Runtime<i64> = Runtime::new();
    let h = userdata::create_userdata(&mut rt, 1, 0);
    let mt = h.get_metatable(&rt).unwrap();

    assert_eq!(mt.get(&rt, "__tostring").unwrap(), Value::Nil);
    assert!(!mt.contains(&rt, "__tostring").unwrap());

    mt.set(&mut rt, "__tostring", Value::Function(42)).unwrap();
    assert_eq!(mt.get(&rt, "__tostring").unwrap(), Value::Function(42));
    assert!(mt.contains(&rt, "__tostring").unwrap());

    mt.set(&mut rt, "__len", Value::Str("len".to_string())).unwrap();
    assert_eq!(mt.get(&rt, "__len").unwrap(), Value::Str("len".to_string()));

    // the absent value removes the binding
    mt.set(&mut rt, "__tostring", Value::Nil).unwrap();
    assert_eq!(mt.get(&rt, "__tostring").unwrap(), Value::Nil);
    assert!(!mt.contains(&rt, "__tostring").unwrap());
    assert!(mt.contains(&rt, "__len").unwrap());
}

#[test]
fn test_metatable_pairs() {
    let mut rt: Runtime<i64> = Runtime::new();
    let mut methods = StaticUserDataMethods::default();
    methods.add_meta_method(MetaMethod::Add.name(), 7);
    register_type(&mut rt, bare(1), methods, StaticUserDataFields::default()).unwrap();
    let h = userdata::create_userdata(&mut rt, 1, 0);
    let mt = h.get_metatable(&rt).unwrap();
    mt.set(&mut rt, "__len", Value::Int(3)).unwrap();

    let mut pairs = mt.pairs(&rt);
    let mut seen = Vec::new();
    while let Some((k, v)) = pairs.next() {
        seen.push((k, v));
    }
    assert_eq!(seen.len(), 2);
    assert!(seen.contains(&("__add".to_string(), Value::Function(7))));
    assert!(seen.contains(&("__len".to_string(), Value::Int(3))));
    assert!(pairs.next().is_none());
}

#[test]
fn test_pairs_prefers_callback_over_field() {
    // when a hook name is declared both as a callback and as a plain
    // meta field, readers see the callback; the snapshot yields that one
    // binding only once
    let mut rt: Runtime<i64> = Runtime::new();
    let mut methods = StaticUserDataMethods::default();
    methods.add_meta_method("__eq", 7);
    let mut fields = StaticUserDataFields::default();
    fields.add_meta_field_with("__eq", Value::Function(8));
    register_type(&mut rt, bare(1), methods, fields).unwrap();
    let h = userdata::create_userdata(&mut rt, 1, 0);
    let mt = h.get_metatable(&rt).unwrap();

    assert_eq!(mt.get(&rt, "__eq").unwrap(), Value::Function(7));
    let mut pairs = mt.pairs(&rt);
    let mut seen = Vec::new();
    while let Some(p) = pairs.next() {
        seen.push(p);
    }
    assert_eq!(seen, vec![("__eq".to_string(), Value::Function(7))]);
}

#[test]
fn test_creation_fixes_empty_metatable() {
    // an object created before any registration builds the type's
    // metatable as the empty one on first use; a later registration
    // finds it cached and is ignored
    let mut rt: Runtime<i64> = Runtime::new();
    let h = userdata::create_userdata(&mut rt, 1, 0);
    let mut methods = StaticUserDataMethods::default();
    methods.add_method("late", 1);
    let mt = register_type(&mut rt, bare(1), methods, StaticUserDataFields::default()).unwrap();
    assert_eq!(mt, h.get_metatable(&rt).unwrap().mt);
    assert_eq!(userdata::lookup_index(&rt, mt, "late"), userdata::IndexLookup::Absent);
}

#[test]
fn test_register_bad_index_hook() {
    let mut rt: Runtime<i64> = Runtime::new();
    let mut fields = StaticUserDataFields::default();
    fields.add_meta_field_with("__index", Value::Int(5));
    let r = register_type(&mut rt, bare(1), StaticUserDataMethods::default(), fields);
    match r.unwrap_err() {
        Error::MetaMethodTypeError { method, found, message } => {
            assert_eq!(method, "__index");
            assert_eq!(found, "integer");
            assert_eq!(message, "expected nil, table or function");
        },
        other => panic!("unexpected error: {other:?}"),
    }

    // a table is an acceptable hook value
    let mut fields = StaticUserDataFields::default();
    fields.add_meta_field_with("__index", Value::Table(9));
    register_type(&mut rt, bare(1), StaticUserDataMethods::default(), fields).unwrap();
}

#[test]
fn test_first_registration_wins() {
    let mut rt: Runtime<i64> = Runtime::new();
    let mut methods = StaticUserDataMethods::default();
    methods.add_method("first", 1);
    let i1 = register_type(&mut rt, bare(1), methods, StaticUserDataFields::default()).unwrap();

    let mut methods = StaticUserDataMethods::default();
    methods.add_method("second", 2);
    let i2 = register_type(&mut rt, bare(1), methods, StaticUserDataFields::default()).unwrap();
    assert_eq!(i1, i2);

    match userdata::lookup_index(&rt, i1, "first") {
        userdata::IndexLookup::Method(_) => {},
        other => panic!("unexpected lookup: {other:?}"),
    }
    assert_eq!(userdata::lookup_index(&rt, i1, "second"), userdata::IndexLookup::Absent);
}
