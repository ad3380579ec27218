use jpk_reader::dataset::v2_0::utils as dataset_paths;
use jpk_reader::qi_map::v2_0::segment_data::SegmentProperties;
use jpk_reader::qi_map::v2_0::utils::{
    data_file_path, index_properties_path, index_segment_path, index_segment_properties_path,
    metadata_index_from_file_path, properties_path, shared_data_properties_path,
};
use jpk_reader::qi_map::MetadataIndex;

#[test]
fn paths_of_a_map() {
    assert_eq!(properties_path(), "header.properties");
    assert_eq!(shared_data_properties_path(), "shared-data/header.properties");
    assert_eq!(index_properties_path(0), "index/0/header.properties");
    assert_eq!(index_properties_path(16383), "index/16383/header.properties");
    assert_eq!(index_segment_path(12, 3), "index/12/segments/3");
    assert_eq!(index_segment_properties_path(12, 255), "index/12/segments/255/segment-header.properties");
    assert_eq!(data_file_path(7, 1, "channels/height.dat"), "index/7/segments/1/channels/height.dat");
    assert_eq!(
        index_properties_path(usize::MAX),
        format!("index/{}/header.properties", usize::MAX)
    );
}

#[test]
fn paths_of_a_dataset() {
    assert_eq!(dataset_paths::segment_path(0), "segments/0/");
    assert_eq!(dataset_paths::segment_path(255), "segments/255/");
    assert_eq!(dataset_paths::index_properties_path(4_294_967_295), "index/4294967295/header.properties");
    assert_eq!(dataset_paths::index_segment_path(10, 2), "index/10/segments/2/");
    assert_eq!(
        dataset_paths::index_segment_properties_path(10, 2),
        "index/10/segments/2/segment-header.properties"
    );
    assert_eq!(dataset_paths::join("segments/0/", "channels/a.dat"), "segments/0/channels/a.dat");
    assert_eq!(dataset_paths::join("segments/0", "channels/a.dat"), "segments/0/channels/a.dat");
    assert_eq!(dataset_paths::join("", "a.dat"), "a.dat");
    assert_eq!(dataset_paths::join("segments/0", "/a.dat"), "/a.dat");
    assert_eq!(dataset_paths::join("segments/0/", ""), "segments/0/");
    assert_eq!(dataset_paths::join("segments/0", ""), "segments/0/");
}

#[test]
fn keys_of_a_channel() {
    assert_eq!(SegmentProperties::channel_data_file_name_key("height"), "channel.height.data.file.name");
    assert_eq!(SegmentProperties::channel_data_file_format_key("height"), "channel.height.data.file.format");
    assert_eq!(SegmentProperties::channel_data_num_points_key("height"), "channel.height.data.num-points");
    assert_eq!(SegmentProperties::channel_shared_data_index_key("vDeflection"), "channel.vDeflection.lcd-info.*");
}

#[test]
fn scope_of_a_path() {
    assert_eq!(metadata_index_from_file_path("header.properties"), Some(MetadataIndex::Dataset));
    assert_eq!(metadata_index_from_file_path("shared-data/header.properties"), Some(MetadataIndex::SharedData));
    for index in [0usize, 1, 9, 10, 99, 100, 16383, usize::MAX] {
        assert_eq!(
            metadata_index_from_file_path(&index_properties_path(index)),
            Some(MetadataIndex::Index(index))
        );
        for segment in [0u8, 1, 9, 10, 99, 100, 255] {
            assert_eq!(
                metadata_index_from_file_path(&index_segment_properties_path(index, segment)),
                Some(MetadataIndex::Segment { index, segment })
            );
        }
    }
}

#[test]
fn scope_of_a_path_of_another_shape() {
    for name in [
        "",
        "header.properties ",
        "/header.properties",
        "Header.properties",
        "shared-data/",
        "shared-data/header.propertie",
        "index",
        "index/",
        "index/0",
        "index/0/",
        "index//header.properties",
        "index/+1/header.properties",
        "index/-1/header.properties",
        "index/01/header.properties",
        "index/00/header.properties",
        "index/1a/header.properties",
        "index/ 1/header.properties",
        "index/99999999999999999999999/header.properties",
        "index/1/header.properties/",
        "index/1/x/header.properties",
        "index/1/segment-header.properties",
        "index/1/segments/header.properties",
        "index/1/segments/0/header.properties",
        "index/1/segments/0",
        "index/1/segments/0/",
        "index/1/segments//segment-header.properties",
        "index/1/segments/256/segment-header.properties",
        "index/1/segments/00/segment-header.properties",
        "index/1/segments/0/channels/segment-header.properties",
        "index/1/segments/0/segment-header.properties.bak",
        "index/1/segments/0/channels/height.dat",
        "indexes/1/header.properties",
        "x/index/1/header.properties",
        "segments/0/segment-header.properties",
    ] {
        assert_eq!(metadata_index_from_file_path(name), None, "{name:?}");
    }
}
