use btmesh::buffer::ByteVec;

#[test]
fn push_until_full() {
    let mut v: ByteVec<2> = ByteVec::new();
    assert_eq!(v.capacity(), 2);
    assert_eq!(v.push(1), Ok(()));
    assert_eq!(v.push(2), Ok(()));
    assert_eq!(v.push(3), Err(3));
    assert_eq!(v.len(), 2);
    assert_eq!(v.as_slice(), &[1, 2]);
}

#[test]
fn extend_is_all_or_nothing() {
    let mut v: ByteVec<4> = ByteVec::from_slice(&[9]).unwrap();
    assert_eq!(v.extend_from_slice(&[1, 2, 3, 4]), Err(()));
    assert_eq!(v.as_slice(), &[9]);
    assert_eq!(v.extend_from_slice(&[1, 2, 3]), Ok(()));
    assert_eq!(v.as_slice(), &[9, 1, 2, 3]);
}

#[test]
fn from_slice_checks_capacity() {
    assert!(ByteVec::<3>::from_slice(&[1, 2, 3, 4]).is_err());
    let v = ByteVec::<3>::from_slice(&[1, 2, 3]).unwrap();
    assert_eq!(v.clone().as_slice(), &[1, 2, 3]);
}
