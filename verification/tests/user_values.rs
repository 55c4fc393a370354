use userdata::{create_userdata, push_value, Error, Runtime, Value, MAX_STACK};

#[test]
fn test_user_value_inline_and_overflow() {
    let mut rt: Runtime<i64> = Runtime::new();
    let h = create_userdata(&mut rt, 1, 0);

    // index 1 lives in an inline slot, index 9 in the overflow table
    h.set_nth_user_value(&mut rt, 1, Value::Int(100)).unwrap();
    h.set_nth_user_value(&mut rt, 9, Value::Str("nine".to_string())).unwrap();
    assert_eq!(h.get_nth_user_value(&mut rt, 1).unwrap(), Value::Int(100));
    assert_eq!(
        h.get_nth_user_value(&mut rt, 9).unwrap(),
        Value::Str("nine".to_string())
    );

    // both bounds of the admissible range are rejected from outside
    assert_eq!(
        h.set_nth_user_value(&mut rt, 0, Value::Int(1)).unwrap_err(),
        Error::IndexOutOfBounds
    );
    assert_eq!(
        h.set_nth_user_value(&mut rt, 65536, Value::Int(1)).unwrap_err(),
        Error::IndexOutOfBounds
    );
    assert_eq!(h.get_nth_user_value(&mut rt, 0).unwrap_err(), Error::IndexOutOfBounds);
    assert_eq!(h.get_nth_user_value(&mut rt, 65536).unwrap_err(), Error::IndexOutOfBounds);

    // the greatest admissible index works
    h.set_nth_user_value(&mut rt, 65535, Value::Bool(true)).unwrap();
    assert_eq!(h.get_nth_user_value(&mut rt, 65535).unwrap(), Value::Bool(true));

    // never-written slots read as the absent value
    assert_eq!(h.get_nth_user_value(&mut rt, 5).unwrap(), Value::Nil);
    assert_eq!(h.get_nth_user_value(&mut rt, 100).unwrap(), Value::Nil);

    // overwriting a slot replaces its value
    h.set_nth_user_value(&mut rt, 9, Value::Int(-1)).unwrap();
    assert_eq!(h.get_nth_user_value(&mut rt, 9).unwrap(), Value::Int(-1));
    assert_eq!(h.get_nth_user_value(&mut rt, 1).unwrap(), Value::Int(100));
}

#[test]
fn test_user_value_default_slot() {
    let mut rt: Runtime<i64> = Runtime::new();
    let h = create_userdata(&mut rt, 1, 0);
    h.set_user_value(&mut rt, Value::Int(8)).unwrap();
    assert_eq!(h.get_user_value(&mut rt).unwrap(), Value::Int(8));
    assert_eq!(h.get_nth_user_value(&mut rt, 1).unwrap(), Value::Int(8));
    h.set_nth_user_value(&mut rt, 1, Value::Int(9)).unwrap();
    assert_eq!(h.get_user_value(&mut rt).unwrap(), Value::Int(9));
}

#[test]
fn test_named_user_values() {
    let mut rt: Runtime<i64> = Runtime::new();
    let h = create_userdata(&mut rt, 1, 0);

    h.set_named_user_value(&mut rt, "alpha", Value::Int(1)).unwrap();
    h.set_named_user_value(&mut rt, "beta", Value::Bool(true)).unwrap();
    assert_eq!(h.get_named_user_value(&mut rt, "alpha").unwrap(), Value::Int(1));
    assert_eq!(h.get_named_user_value(&mut rt, "beta").unwrap(), Value::Bool(true));
    assert_eq!(h.get_named_user_value(&mut rt, "gamma").unwrap(), Value::Nil);

    h.set_named_user_value(&mut rt, "alpha", Value::Int(2)).unwrap();
    assert_eq!(h.get_named_user_value(&mut rt, "alpha").unwrap(), Value::Int(2));

    // the name namespace is independent of the indexed slots
    h.set_nth_user_value(&mut rt, 1, Value::Int(50)).unwrap();
    assert_eq!(h.get_named_user_value(&mut rt, "alpha").unwrap(), Value::Int(2));
    assert_eq!(h.get_nth_user_value(&mut rt, 1).unwrap(), Value::Int(50));
}

#[test]
fn test_user_values_survive_payload_mutation() {
    let mut rt: Runtime<i64> = Runtime::new();
    let h = create_userdata(&mut rt, 1, 0);
    h.set_nth_user_value(&mut rt, 2, Value::Int(7)).unwrap();

    h.borrow_mut(&mut rt, 1).unwrap();
    h.payload_write(&mut rt, 1000);
    h.release_borrow_mut(&mut rt);

    assert_eq!(h.get_nth_user_value(&mut rt, 2).unwrap(), Value::Int(7));
}

#[test]
fn test_stack_error_when_full() {
    let mut rt: Runtime<i64> = Runtime::new();
    let h = create_userdata(&mut rt, 1, 0);

    // fill the call stack to one slot under its capacity: the guarded
    // operations need more headroom than that and must fail fast
    while rt.stack.len() < MAX_STACK - 1 {
        push_value(&mut rt, Value::Nil);
    }
    assert_eq!(
        h.set_user_value(&mut rt, Value::Int(1)).unwrap_err(),
        Error::StackError
    );
    assert_eq!(h.get_user_value(&mut rt).unwrap_err(), Error::StackError);
    assert_eq!(
        h.set_named_user_value(&mut rt, "n", Value::Int(1)).unwrap_err(),
        Error::StackError
    );
    assert_eq!(h.take(&mut rt, 1).unwrap_err(), Error::StackError);

    // with the stack drained the same operations go through
    rt.stack.clear();
    h.set_user_value(&mut rt, Value::Int(1)).unwrap();
    assert_eq!(h.get_user_value(&mut rt).unwrap(), Value::Int(1));
}
