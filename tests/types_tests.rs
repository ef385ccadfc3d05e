use devices::types::{ensure_root, ensure_signed, DispatchError, MaximumDataSize, Origin};

#[test]
fn maximum_data_size_is_512() {
    assert_eq!(MaximumDataSize(), 512);
}

#[test]
fn origins_resolve() {
    assert_eq!(ensure_root(Origin::Root), Ok(()));
    assert_eq!(ensure_root(Origin::Signed(3)), Err(DispatchError::BadOrigin));
    assert_eq!(ensure_signed(Origin::Signed(3)), Ok(3));
    assert_eq!(ensure_signed(Origin::Root), Err(DispatchError::BadOrigin));
    assert_eq!(ensure_signed(Origin::Unsigned), Err(DispatchError::BadOrigin));
}
