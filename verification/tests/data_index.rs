use jpk_reader::qi_map::DataIndex;

#[test]
fn data_index_order_chain() {
    let a = DataIndex::new(0, 0, "a");
    let b = DataIndex::new(0, 0, "b");
    let c = DataIndex::new(0, 1, "a");
    let d = DataIndex::new(1, 0, "a");
    assert!(a < b);
    assert!(b < c);
    assert!(c < d);
    assert!(a < d);
    assert!(!(b < a));
    assert!(a == DataIndex::new(0, 0, "a"));
}
