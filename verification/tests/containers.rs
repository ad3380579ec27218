use jpk_reader::dataset::properties::Properties;
use jpk_reader::qi_map::metadata::Metadata;
use jpk_reader::qi_map::{Data, DataIndex, MetadataIndex};
use jpk_reader::table::{Table, TableKey};

fn index(i: usize, s: u8, c: &str) -> DataIndex {
    DataIndex::new(i, s, c)
}

#[test]
fn data_rejects_lengths_that_differ() {
    assert!(Data::new(vec![index(0, 0, "a")], Vec::<Vec<f64>>::new()).is_err());
    assert!(Data::new(Vec::new(), vec![vec![1.0]]).is_err());
    assert!(Data::new(vec![index(0, 0, "a"), index(0, 0, "b")], vec![vec![1.0]]).is_err());
    assert_eq!(Data::new(Vec::new(), Vec::<Vec<f64>>::new()).unwrap().len(), 0);
}

#[test]
fn data_gives_each_index_its_value_in_any_order() {
    let indices = vec![index(1, 0, "a"), index(0, 1, "a"), index(0, 0, "b"), index(0, 0, "a")];
    let values = vec![vec![4.0], vec![3.0], vec![2.0, 2.5], vec![1.0]];
    let data = Data::new(indices, values).unwrap();
    assert_eq!(data.len(), 4);
    assert_eq!(data.get(&index(0, 0, "a")).unwrap(), &vec![1.0]);
    assert_eq!(data.get(&index(0, 0, "b")).unwrap(), &vec![2.0, 2.5]);
    assert_eq!(data.get(&index(0, 1, "a")).unwrap(), &vec![3.0]);
    assert_eq!(data.get(&index(1, 0, "a")).unwrap(), &vec![4.0]);
    assert!(data.get(&index(1, 0, "b")).is_none());
    assert!(data.get(&index(0, 0, "")).is_none());

    let indices = vec![index(0, 0, "b"), index(0, 0, "a"), index(1, 0, "a"), index(0, 1, "a")];
    let values = vec![vec![2.0, 2.5], vec![1.0], vec![4.0], vec![3.0]];
    let other = Data::new(indices, values).unwrap();
    assert_eq!(data.into_parts(), other.into_parts());
}

#[test]
fn data_is_sorted_and_holds_no_index_twice() {
    let indices = vec![index(2, 0, "x"), index(0, 0, "x"), index(2, 0, "x"), index(1, 9, "x"), index(0, 0, "x")];
    let data = Data::new(indices, vec![1, 2, 3, 4, 5]).unwrap();
    assert_eq!(data.len(), 3);
    assert_eq!(data.get(&index(2, 0, "x")), Some(&3));
    assert_eq!(data.get(&index(0, 0, "x")), Some(&5));
    let (indices, values) = data.into_parts();
    assert_eq!(indices, vec![index(0, 0, "x"), index(1, 9, "x"), index(2, 0, "x")]);
    assert_eq!(values, vec![5, 4, 3]);
}

#[test]
fn data_index_from_a_tuple() {
    let made = DataIndex::from((3usize, 2u8, "height".to_string()));
    assert_eq!(made, index(3, 2, "height"));
    assert!(made != index(3, 2, "Height"));
    assert!(made.before(&index(3, 2, "heights")));
    assert!(!made.before(&made.clone()));
    assert!(index(3, 1, "z").before(&made));
    assert!(index(2, 9, "z").before(&made));
}

#[test]
fn data_index_order_agrees_with_cmp() {
    let all = [index(0, 0, "a"), index(0, 0, "b"), index(0, 1, "a"), index(1, 0, "a"), index(1, 0, "")];
    for a in &all {
        for b in &all {
            assert_eq!(a.partial_cmp(b), Some(a.cmp(b)));
            assert_eq!(a < b, a.before(b));
            assert_eq!(a == b, !a.before(b) && !b.before(a));
        }
    }
}

#[test]
fn table_replaces_the_value_of_a_key() {
    let mut table: Table<String, u32> = Table::new();
    assert_eq!(table.len(), 0);
    table.insert("b".to_string(), 1);
    table.insert("a".to_string(), 2);
    table.insert("c".to_string(), 3);
    table.insert("b".to_string(), 4);
    assert_eq!(table.len(), 3);
    assert_eq!(table.get(&"a".to_string()), Some(&2));
    assert_eq!(table.get(&"b".to_string()), Some(&4));
    assert_eq!(table.get(&"c".to_string()), Some(&3));
    assert_eq!(table.get(&"d".to_string()), None);
    assert_eq!(table.key_at(0), "a");
    assert_eq!(*table.value_at(2), 3);
    let (keys, values) = table.into_parts();
    assert_eq!(keys, vec!["a", "b", "c"]);
    assert_eq!(values, vec![2, 4, 3]);
}

#[test]
fn table_from_pairs_writes_in_turn() {
    let keys: Vec<String> = ["q", "a", "q", "m", "a"].iter().map(|k| k.to_string()).collect();
    let table = Table::from_pairs(keys, vec![1, 2, 3, 4, 5]);
    let (keys, values) = table.into_parts();
    assert_eq!(keys, vec!["a", "m", "q"]);
    assert_eq!(values, vec![5, 4, 3]);
}

#[test]
fn metadata_holds_files_by_scope() {
    let file = |text: &str| Properties::new(text).unwrap();
    let scopes = vec![
        MetadataIndex::Segment { index: 0, segment: 1 },
        MetadataIndex::Index(4),
        MetadataIndex::SharedData,
        MetadataIndex::Segment { index: 0, segment: 0 },
        MetadataIndex::Dataset,
        MetadataIndex::Index(10),
    ];
    let files = vec![file("k=s01"), file("k=i4"), file("k=shared"), file("k=s00"), file("k=dataset"), file("k=i10")];
    let mut metadata = Metadata::from_parts(scopes, files).unwrap();
    assert_eq!(metadata.len(), 6);
    assert_eq!(metadata.get(&MetadataIndex::Index(4)).unwrap().get("k").unwrap(), "i4");
    assert_eq!(metadata.get(&MetadataIndex::Dataset).unwrap().get("k").unwrap(), "dataset");
    assert!(metadata.get(&MetadataIndex::Index(0)).is_none());
    metadata.insert(MetadataIndex::Index(4), file("k=again"));
    metadata.insert(MetadataIndex::Index(0), file("k=i0"));
    assert_eq!(metadata.len(), 7);
    assert_eq!(metadata.get(&MetadataIndex::Index(4)).unwrap().get("k").unwrap(), "again");
    let (scopes, files) = metadata.into_parts();
    assert_eq!(
        scopes,
        vec![
            MetadataIndex::Dataset,
            MetadataIndex::SharedData,
            MetadataIndex::Index(0),
            MetadataIndex::Index(4),
            MetadataIndex::Index(10),
            MetadataIndex::Segment { index: 0, segment: 0 },
            MetadataIndex::Segment { index: 0, segment: 1 },
        ]
    );
    assert_eq!(files[2].get("k").unwrap(), "i0");
    assert!(Metadata::from_parts(vec![MetadataIndex::Dataset], Vec::new()).is_err());
    assert_eq!(Metadata::with_capacity(8).len(), 0);
}
