use userdata::{
    create_ser_userdata, create_userdata, BorrowState, Error, OwnershipKind, Runtime, TypeTag,
    UserDataCell, Value,
};

fn bare(base: u64) -> TypeTag {
    TypeTag { base, kind: OwnershipKind::Exclusive }
}

#[test]
fn test_cell_borrow_discipline() {
    let mut c: UserDataCell<i64> = UserDataCell::new(41);
    assert_eq!(c.state, BorrowState::Free);
    assert!(!c.serializable);

    c.try_borrow().unwrap();
    c.try_borrow().unwrap();
    assert_eq!(c.state, BorrowState::Shared(2));
    assert_eq!(c.try_borrow_mut().unwrap_err(), Error::UserDataBorrowMutError);

    c.release_borrow();
    c.release_borrow();
    assert_eq!(c.state, BorrowState::Free);

    c.try_borrow_mut().unwrap();
    assert_eq!(c.state, BorrowState::Exclusive);
    assert_eq!(c.try_borrow().unwrap_err(), Error::UserDataBorrowError);
    assert_eq!(c.try_borrow_mut().unwrap_err(), Error::UserDataBorrowMutError);
    c.release_borrow_mut();

    assert_eq!(c.into_inner(), 41);

    let c2: UserDataCell<i64> = UserDataCell::new_ser(7);
    assert!(c2.serializable);
}

#[test]
fn test_borrow_conflict_then_release() {
    let mut rt: Runtime<i64> = Runtime::new();
    let h = create_userdata(&mut rt, 1, 10);

    // an outstanding shared borrow blocks the exclusive one
    h.borrow(&mut rt, 1).unwrap();
    assert_eq!(h.borrow_mut(&mut rt, 1).unwrap_err(), Error::UserDataBorrowMutError);

    // releasing it lets the exclusive borrow through
    h.release_borrow(&mut rt);
    h.borrow_mut(&mut rt, 1).unwrap();
    assert_eq!(h.borrow(&mut rt, 1).unwrap_err(), Error::UserDataBorrowError);
    h.release_borrow_mut(&mut rt);
}

#[test]
fn test_borrow_type_mismatch() {
    let mut rt: Runtime<i64> = Runtime::new();
    let h = create_userdata(&mut rt, 1, 10);
    assert!(h.is(&rt, bare(1)));
    assert!(!h.is(&rt, bare(2)));
    assert!(!h.is(&rt, TypeTag { base: 1, kind: OwnershipKind::MutexGuarded }));
    assert_eq!(h.borrow(&mut rt, 2).unwrap_err(), Error::UserDataTypeMismatch);
    assert_eq!(h.borrow_mut(&mut rt, 2).unwrap_err(), Error::UserDataTypeMismatch);
}

#[test]
fn test_take_detaches_payload() {
    let mut rt: Runtime<i64> = Runtime::new();
    let h = create_userdata(&mut rt, 1, 99);
    h.set_named_user_value(&mut rt, "note", Value::Str("kept".to_string())).unwrap();

    assert_eq!(h.take(&mut rt, 1).unwrap(), 99);

    // payload access is rejected from here on
    assert_eq!(h.borrow(&mut rt, 1).unwrap_err(), Error::UserDataDestructed);
    assert_eq!(h.borrow_mut(&mut rt, 1).unwrap_err(), Error::UserDataDestructed);
    assert!(!h.is(&rt, bare(1)));
    assert_eq!(h.get_metatable(&rt).unwrap_err(), Error::UserDataDestructed);

    // while the object is alive in the heap, its user values stay
    // attached and retrievable (until the runtime itself reclaims it)
    assert_eq!(
        h.get_named_user_value(&mut rt, "note").unwrap(),
        Value::Str("kept".to_string())
    );
}

#[test]
fn test_take_under_borrow_fails() {
    let mut rt: Runtime<i64> = Runtime::new();
    let h = create_userdata(&mut rt, 1, 5);
    h.borrow(&mut rt, 1).unwrap();
    assert_eq!(h.take(&mut rt, 1).unwrap_err(), Error::UserDataBorrowMutError);
    h.release_borrow(&mut rt);
    assert_eq!(h.take(&mut rt, 1).unwrap(), 5);
    assert_eq!(h.take(&mut rt, 1).unwrap_err(), Error::UserDataDestructed);
}

#[test]
fn test_take_wrong_type() {
    let mut rt: Runtime<i64> = Runtime::new();
    let h = create_userdata(&mut rt, 1, 5);
    assert_eq!(h.take(&mut rt, 2).unwrap_err(), Error::UserDataTypeMismatch);
    // the failed take left the payload in place
    assert_eq!(h.take(&mut rt, 1).unwrap(), 5);
}

#[test]
fn test_is_serializable() {
    let mut rt: Runtime<i64> = Runtime::new();
    let plain = create_userdata(&mut rt, 1, 1);
    let ser = create_ser_userdata(&mut rt, 1, 2);
    assert!(!plain.is_serializable(&rt));
    assert!(ser.is_serializable(&rt));

    // while the exclusive borrow is out, the payload cannot be read
    ser.borrow_mut(&mut rt, 1).unwrap();
    assert!(!ser.is_serializable(&rt));
    ser.release_borrow_mut(&mut rt);
    assert!(ser.is_serializable(&rt));

    ser.take(&mut rt, 1).unwrap();
    assert!(!ser.is_serializable(&rt));
}

#[test]
fn test_payload_read_write_round_trip() {
    let mut rt: Runtime<i64> = Runtime::new();
    let h = create_userdata(&mut rt, 1, 3);

    h.borrow(&mut rt, 1).unwrap();
    assert_eq!(*h.payload_read(&rt), 3);
    h.release_borrow(&mut rt);

    h.borrow_mut(&mut rt, 1).unwrap();
    h.payload_write(&mut rt, 12);
    assert_eq!(*h.payload_read(&rt), 12);
    h.release_borrow_mut(&mut rt);

    assert_eq!(h.take(&mut rt, 1).unwrap(), 12);
}

#[test]
fn test_owned_handle() {
    let mut rt: Runtime<i64> = Runtime::new();
    let h = create_userdata(&mut rt, 1, 3);
    let owned = h.into_owned();
    let back = owned.to_ref();
    assert_eq!(back, h);
    assert!(back.is(&rt, bare(1)));
}
