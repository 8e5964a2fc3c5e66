use puzzled::offset::CellOffset;

#[test]
fn add_and_subtract_offsets() {
    let a = CellOffset(3, -4);
    let b = CellOffset(-1, 7);
    assert_eq!(a.add_other(&b), CellOffset(2, 3));
    assert_eq!(a.subtract_other(&b), CellOffset(4, -11));
    assert_eq!(a.add_other(&b).subtract_other(&b), a);
    assert_eq!(a.add_tuple((10, 20)), CellOffset(13, 16));
}

#[test]
fn componentwise_max_and_min() {
    let a = CellOffset(3, -4);
    let b = CellOffset(-1, 7);
    assert_eq!(a.max(b), CellOffset(3, 7));
    assert_eq!(a.min(b), CellOffset(-1, -4));
}
