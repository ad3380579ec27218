use jpk_reader::archive::Archive;
use jpk_reader::dataset::properties::error::Property;
use jpk_reader::dataset::v2_0::error;
use jpk_reader::dataset::v2_0::DatasetReader;
use jpk_reader::dataset::DatasetError;
use jpk_reader::voltage_spectroscopy::v2_0::Reader;
use std::io::Write;

const DATASET: &str = "file-format-version=2.0\n\
type=voltage-spectroscopy-segment-series\n\
jpk-data-file=spm-voltage-ramp-data-file\n\
voltage-spectroscopy-segment-series.force-segments.count=2\n\
voltage-spectroscopy-segment-series.header.position.x=1.25E-5\n\
voltage-spectroscopy-segment-series.header.position.y=-3.0E-6\n";

const SHARED: &str = "lcd-infos.count=1\n\
lcd-info.0.encoder.type=signedshort\n\
lcd-info.0.encoder.scaling.type=linear\n\
lcd-info.0.encoder.scaling.style=offsetmultiplier\n\
lcd-info.0.encoder.scaling.offset=0.0\n\
lcd-info.0.encoder.scaling.multiplier=1.0\n\
lcd-info.0.encoder.scaling.unit.unit=V\n";

const SEGMENT: &str = "channels.list=current height\n\
force-segment-header.num-points=2\n\
channel.current.data.file.name=channels/current.dat\n\
channel.current.data.file.format=raw\n\
channel.current.data.num-points=2\n\
channel.current.lcd-info.*=0\n\
channel.height.data.file.name=channels/height.dat\n\
channel.height.data.file.format=raw\n\
channel.height.data.num-points=2\n\
channel.height.lcd-info.*=3\n";

fn zip_of(members: &[(&str, &[u8])]) -> Vec<u8> {
    let mut writer = zip::ZipWriter::new(std::io::Cursor::new(Vec::new()));
    for (name, data) in members {
        writer.start_file(*name, zip::write::SimpleFileOptions::default()).unwrap();
        writer.write_all(data).unwrap();
    }
    writer.finish().unwrap().into_inner()
}

fn archive() -> Archive {
    Archive::open(zip_of(&[
        ("header.properties", DATASET.as_bytes()),
        ("shared-data/header.properties", SHARED.as_bytes()),
        ("segments/0/segment-header.properties", SEGMENT.as_bytes()),
        ("segments/0/channels/current.dat", &[0x00, 0x05, 0xff, 0xfb]),
        ("segments/0/channels/height.dat", &[0x00, 0x01, 0x00, 0x02]),
        ("segments/1/segment-header.properties", b"channels.list=current\nno separator\n"),
        ("segments/2/segment-header.properties", SEGMENT.replace("raw", "cooked").as_bytes()),
        ("segments/3/segment-header.properties", SEGMENT.as_bytes()),
        ("segments/3/channels/current.dat", &[0x00, 0x05, 0xff]),
    ]))
    .unwrap()
}

#[test]
fn archive_reads_members_by_path() {
    let mut archive = archive();
    assert_eq!(archive.len(), 9);
    assert_eq!(archive.name(0).unwrap(), "header.properties");
    assert_eq!(archive.name(8).unwrap(), "segments/3/channels/current.dat");
    assert!(archive.name(9).is_none());
    assert_eq!(archive.file_names().len(), 9);
    assert_eq!(archive.read("segments/0/channels/current.dat").unwrap(), vec![0x00, 0x05, 0xff, 0xfb]);
    assert_eq!(archive.read("header.properties").unwrap(), DATASET.as_bytes());
    assert!(archive.read("segments/0/channels/none.dat").is_err());
    assert_eq!(archive.read("segments/0/channels/current.dat").unwrap(), vec![0x00, 0x05, 0xff, 0xfb]);
    let mut copy = archive.clone();
    assert_eq!(copy.read("segments/0/channels/height.dat").unwrap(), vec![0x00, 0x01, 0x00, 0x02]);
    assert_eq!(archive.read("segments/0/channels/height.dat").unwrap(), vec![0x00, 0x01, 0x00, 0x02]);
    assert!(archive.read_properties("segments/1/segment-header.properties").unwrap().is_none());
    assert!(archive.read_properties("segments/0/channels/current.dat").unwrap().is_none());
    assert!(archive.read_properties("none").is_err());
    let file = archive.read_properties("shared-data/header.properties").unwrap().unwrap();
    assert_eq!(file.get("lcd-infos.count").unwrap(), "1");
    assert!(Archive::open(vec![0x50, 0x4b]).is_err());
}

#[test]
fn dataset_reader_reads_a_channel() {
    let mut reader = DatasetReader::new(archive()).unwrap();
    assert_eq!(reader.dataset_properties().dataset_type().unwrap(), "voltage-spectroscopy-segment-series");
    assert_eq!(reader.dataset_properties().data_file().unwrap(), "spm-voltage-ramp-data-file");
    assert_eq!(reader.dataset_properties().file_format_version().unwrap(), "2.0");
    assert_eq!(reader.shared_properties().inner.get("lcd-infos.count").unwrap(), "1");
    assert!(reader.lcd_info_for_index(0).is_some());
    assert!(reader.lcd_info_for_index(1).is_none());
    assert_eq!(reader.channel_data("segments/0/", "current").unwrap(), vec![5, -5]);
    assert_eq!(reader.channel_data("segments/0", "current").unwrap(), vec![5, -5]);
    let info = reader.channel_info("segments/0/", "height").unwrap();
    assert_eq!(info.file_path(), "channels/height.dat");
    assert_eq!(info.num_points(), 2);
    assert_eq!(info.lcd_info_index(), 3);
    let properties = reader.segment_properties("segments/0/").unwrap();
    assert_eq!(properties.channel_list().unwrap(), vec!["current", "height"]);
    assert_eq!(properties.channel_info("current").unwrap().lcd_info_index(), 0);
}

#[test]
fn dataset_reader_tells_the_failures_apart() {
    let mut reader = DatasetReader::new(archive()).unwrap();
    assert!(matches!(reader.segment_properties("segments/9/"), Err(error::Properties::Zip(_))));
    assert!(matches!(reader.segment_properties("segments/1/"), Err(error::Properties::InvalidFormat)));
    assert!(matches!(
        reader.channel_info("segments/1/", "current"),
        Err(error::ChannelInfo::SegmentProperties(error::Properties::InvalidFormat))
    ));
    match reader.channel_info("segments/0/", "force") {
        Err(error::ChannelInfo::Property(Property::NotFound(key))) => {
            assert_eq!(key, "channel.force.data.file.name")
        }
        _ => panic!("the segment has no such channel"),
    }
    match reader.channel_data("segments/2/", "current") {
        Err(error::ChannelData::Property(Property::InvalidValue(key))) => {
            assert_eq!(key, "channel.current.data.file.format")
        }
        _ => panic!("the format is not known"),
    }
    match reader.channel_data("segments/0/", "height") {
        Err(error::ChannelData::Property(Property::InvalidValue(key))) => {
            assert_eq!(key, "channel.height.lcd-info.*")
        }
        _ => panic!("the table has one entry"),
    }
    assert!(matches!(reader.channel_data("segments/3/", "current"), Err(error::ChannelData::InvalidDataLength)));
    assert!(matches!(reader.channel_data("segments/3/", "height"), Err(error::ChannelData::Zip(_))));
    assert!(matches!(
        reader.channel_data("segments/9/", "height"),
        Err(error::ChannelData::SegmentProperties(error::Properties::Zip(_)))
    ));
    assert_eq!(reader.channel_data("segments/0/", "current").unwrap(), vec![5, -5]);
}

#[test]
fn dataset_reader_fails_to_open_without_shared_data() {
    let bytes = zip_of(&[("header.properties", DATASET.as_bytes())]);
    match DatasetReader::new(Archive::open(bytes).unwrap()) {
        Err(DatasetError::Zip { path, .. }) => assert_eq!(path, "shared-data/header.properties"),
        _ => panic!("the shared data is missing"),
    }
    let bytes = zip_of(&[("header.properties", b"x"), ("shared-data/header.properties", SHARED.as_bytes())]);
    match DatasetReader::new(Archive::open(bytes).unwrap()) {
        Err(DatasetError::InvalidFormat { path, cause }) => {
            assert_eq!(path, "header.properties");
            assert_eq!(cause, "invalid properties file");
        }
        _ => panic!("the property file is malformed"),
    }
    let bytes = zip_of(&[("header.properties", DATASET.as_bytes()), ("shared-data/header.properties", b"a=b\n")]);
    match DatasetReader::new(Archive::open(bytes).unwrap()) {
        Err(DatasetError::InvalidFormat { path, cause }) => {
            assert_eq!(path, "shared-data/header.properties");
            assert_eq!(cause, "property `lcd-infos.count` not found");
        }
        _ => panic!("the table has no count"),
    }
}

#[test]
fn dataset_reader_names_the_format_version() {
    let mut archive = archive();
    assert_eq!(DatasetReader::format_version(&mut archive).unwrap(), "2.0");
    let mut other = Archive::open(zip_of(&[("header.properties", b"type=x\n")])).unwrap();
    match DatasetReader::format_version(&mut other) {
        Err(DatasetError::InvalidFormat { path, cause }) => {
            assert_eq!(path, "header.properties");
            assert_eq!(cause, "property `file-format-version` not found");
        }
        _ => panic!("the version is missing"),
    }
    let mut empty = Archive::open(zip_of(&[])).unwrap();
    assert!(matches!(DatasetReader::format_version(&mut empty), Err(DatasetError::Zip { .. })));
}

#[test]
fn voltage_spectroscopy_reader_reads_segments() {
    let mut reader = Reader::new(archive()).unwrap();
    assert!(reader.validate_dataset_type());
    assert_eq!(reader.segments_count().unwrap(), 2);
    let (x, y) = reader.position().unwrap();
    assert_eq!(x, "1.25E-5");
    assert_eq!(y, "-3.0E-6");
    assert_eq!(reader.channel_data(0, "current").unwrap(), vec![5, -5]);
    let properties = reader.segment_properties(0).unwrap();
    assert_eq!(properties.inner.get("force-segment-header.num-points").unwrap(), "2");
    assert!(matches!(reader.segment_properties(1), Err(error::Properties::InvalidFormat)));
    assert!(matches!(reader.channel_data(3, "current"), Err(error::ChannelData::InvalidDataLength)));
}

#[test]
fn voltage_spectroscopy_reader_checks_the_dataset_type() {
    let dataset = DATASET.replace("type=voltage-spectroscopy-segment-series\n", "type=quantitative-imaging-map\n");
    let bytes = zip_of(&[
        ("header.properties", dataset.replace("position.y", "position.z").as_bytes()),
        ("shared-data/header.properties", SHARED.as_bytes()),
    ]);
    let reader = Reader::new(Archive::open(bytes).unwrap()).unwrap();
    assert!(!reader.validate_dataset_type());
    match reader.position() {
        Err(Property::NotFound(key)) => assert_eq!(key, "voltage-spectroscopy-segment-series.header.position.y"),
        _ => panic!("a coordinate is missing"),
    }
    let bytes = zip_of(&[
        ("header.properties", b"a=b\n"),
        ("shared-data/header.properties", SHARED.as_bytes()),
    ]);
    let reader = Reader::new(Archive::open(bytes).unwrap()).unwrap();
    assert!(!reader.validate_dataset_type());
    assert!(matches!(reader.segments_count(), Err(Property::NotFound(_))));
}
