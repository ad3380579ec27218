use jpk_reader::qi_map::v2_0::fetch::{decode_data, read_data};
use jpk_reader::qi_map::v2_0::DataError;
use jpk_reader::qi_map::v2_0::resolve::{index_segments, segment_jobs};
use jpk_reader::qi_map::Data;
use jpk_reader::qi_map::{
    ChannelQuery, DataIndex, Error, FormatVersion, IndexQuery, MetadataIndex, MetadataQuery, Pixel, PixelRect,
    QIMapReader, Query, QueryError, Reader, SegmentQuery,
};
use jpk_reader::ArchiveReader;
use std::io::Write;

const DATASET: &str = "# dataset\n\
file-format-version=2.0\n\
type=quantitative-imaging-map\n\
jpk-data-file=spm-quantitative-image-data-file\n\
quantitative-imaging-map.indexes.type=range\n\
quantitative-imaging-map.indexes.min=0\n\
quantitative-imaging-map.indexes.max=3\n\
quantitative-imaging-map.position-pattern.type=grid-position-pattern\n\
quantitative-imaging-map.position-pattern.numbering=left-to-right\n\
quantitative-imaging-map.position-pattern.grid.xcenter=1.0E-5\n\
quantitative-imaging-map.position-pattern.grid.ycenter=-2.0E-5\n\
quantitative-imaging-map.position-pattern.grid.ulength=1.0E-6\n\
quantitative-imaging-map.position-pattern.grid.vlength=1.0E-6\n\
quantitative-imaging-map.position-pattern.grid.unit.unit=m\n\
quantitative-imaging-map.position-pattern.grid.ilength=2\n\
quantitative-imaging-map.position-pattern.grid.jlength=2\n";

const SHARED: &str = "lcd-infos.count=2\n\
lcd-info.0.encoder.type=signedinteger-limited\n\
lcd-info.0.encoder.scaling.type=linear\n\
lcd-info.0.encoder.scaling.style=offsetmultiplier\n\
lcd-info.0.encoder.scaling.offset=0.5\n\
lcd-info.0.encoder.scaling.multiplier=2.0\n\
lcd-info.0.encoder.scaling.unit.unit=m\n\
lcd-info.1.encoder.type=unsignedshort\n\
lcd-info.1.encoder.scaling.type=linear\n\
lcd-info.1.encoder.scaling.style=offsetmultiplier\n\
lcd-info.1.encoder.scaling.offset=0.0\n\
lcd-info.1.encoder.scaling.multiplier=1.0\n\
lcd-info.1.encoder.scaling.unit.unit=V\n";

const INDEX: &str = "quantitative-imaging-series.force-segments.count=2\n";

const SEGMENT: &str = "channels.list=measuredHeight smoothedMeasuredHeight vDeflection\n\
channel.measuredHeight.data.file.name=channels/measuredHeight.dat\n\
channel.measuredHeight.data.file.format=raw\n\
channel.measuredHeight.data.num-points=3\n\
channel.measuredHeight.lcd-info.*=0\n\
channel.smoothedMeasuredHeight.data.file.name=channels/smoothedMeasuredHeight.dat\n\
channel.smoothedMeasuredHeight.data.file.format=raw\n\
channel.smoothedMeasuredHeight.data.num-points=3\n\
channel.smoothedMeasuredHeight.lcd-info.*=0\n\
channel.vDeflection.data.file.name=channels/vDeflection.dat\n\
channel.vDeflection.data.file.format=raw\n\
channel.vDeflection.data.num-points=2\n\
channel.vDeflection.lcd-info.*=1\n";

fn zip_of(members: &[(String, Vec<u8>)]) -> Vec<u8> {
    let mut writer = zip::ZipWriter::new(std::io::Cursor::new(Vec::new()));
    for (name, data) in members {
        writer.start_file(name.as_str(), zip::write::SimpleFileOptions::default()).unwrap();
        writer.write_all(data).unwrap();
    }
    writer.finish().unwrap().into_inner()
}

fn height(index: usize, segment: u8) -> Vec<i64> {
    vec![index as i64 * 100 + segment as i64, -1, -2_000_000_000]
}

fn smoothed(index: usize, segment: u8) -> Vec<i64> {
    vec![index as i64 * 10 + segment as i64, 0, 2_147_483_647]
}

fn deflection(index: usize, segment: u8) -> Vec<i64> {
    vec![65_535, index as i64 * 2 + segment as i64]
}

fn be32(values: &[i64]) -> Vec<u8> {
    values.iter().flat_map(|v| (*v as i32).to_be_bytes()).collect()
}

fn be16(values: &[i64]) -> Vec<u8> {
    values.iter().flat_map(|v| (*v as u16).to_be_bytes()).collect()
}

fn members() -> Vec<(String, Vec<u8>)> {
    let mut all = vec![
        ("header.properties".to_string(), DATASET.as_bytes().to_vec()),
        ("shared-data/header.properties".to_string(), SHARED.as_bytes().to_vec()),
        ("thumbnail.png".to_string(), vec![0x89, 0x50, 0x4e, 0x47]),
    ];
    for index in 0..4usize {
        all.push((format!("index/{index}/header.properties"), INDEX.as_bytes().to_vec()));
        for segment in 0..2u8 {
            let dir = format!("index/{index}/segments/{segment}");
            all.push((format!("{dir}/segment-header.properties"), SEGMENT.as_bytes().to_vec()));
            all.push((format!("{dir}/channels/measuredHeight.dat"), be32(&height(index, segment))));
            all.push((format!("{dir}/channels/smoothedMeasuredHeight.dat"), be32(&smoothed(index, segment))));
            all.push((format!("{dir}/channels/vDeflection.dat"), be16(&deflection(index, segment))));
        }
    }
    all
}

fn replaced(name: &str, data: &[u8]) -> Vec<(String, Vec<u8>)> {
    members().into_iter().map(|(n, d)| if n == name { (n, data.to_vec()) } else { (n, d) }).collect()
}

fn without(name: &str) -> Vec<(String, Vec<u8>)> {
    members().into_iter().filter(|(n, _)| n != name).collect()
}

fn reader() -> jpk_reader::qi_map::v2_0::Reader {
    Reader::new(zip_of(&members())).unwrap()
}

#[test]
fn qi_map_file_reader_format_version() {
    let properties = jpk_reader::dataset::properties::Properties::new(DATASET).unwrap();
    let version_str = properties.get("file-format-version").unwrap();
    let version = FormatVersion::from_str(version_str).unwrap();
    assert!(matches!(version, FormatVersion::V2_0));
    assert!(FormatVersion::from_str("2").is_none());
    assert!(FormatVersion::from_str("2.0 ").is_none());
    assert!(FormatVersion::from_str("").is_none());
}

#[test]
fn qi_map_reader() {
    let mut data = reader();
    let pixel = Pixel::new(0, 0);
    let query = Query {
        index: IndexQuery::Pixel(pixel.clone()),
        segment: SegmentQuery::Indices(vec![0]),
        channel: ChannelQuery::including(vec!["measuredHeight", "smoothedMeasuredHeight"]),
    };
    let result = data.query_data(&query).unwrap();
    assert_eq!(result.len(), 2);
    let idx = DataIndex::new(0, 0, "measuredHeight");
    let values = result.get(&idx).unwrap();
    assert_eq!(values.values, height(0, 0));
    let idx = DataIndex::new(0, 0, "smoothedMeasuredHeight");
    let values = result.get(&idx).unwrap();
    assert_eq!(values.values, smoothed(0, 0));
}

#[test]
fn qi_map_reader_v2_query_metadata() {
    let mut data = reader();

    let query = MetadataQuery::All;
    let result = data.query_metadata(&query).unwrap();
    assert_eq!(result.len(), 2 + 4 + 8);

    let query = MetadataQuery::Dataset;
    let result = data.query_metadata(&query).unwrap();
    assert_eq!(result.len(), 1);

    let query = MetadataQuery::SharedData;
    let result = data.query_metadata(&query).unwrap();
    assert_eq!(result.len(), 1);

    let pixel = Pixel::new(0, 0);
    let query = MetadataQuery::Index(IndexQuery::Pixel(pixel));
    let result = data.query_metadata(&query).unwrap();
    assert_eq!(result.len(), 1);
}

#[test]
fn qi_map() {
    let mut data = reader();
    let m_height = data.get_data_index_segment_channel(0, 0, "measuredHeight").unwrap();
    let sm_height = data.get_data_index_segment_channel(0, 0, "smoothedMeasuredHeight").unwrap();

    let query = Query {
        index: IndexQuery::Pixel(Pixel::new(0, 0)),
        segment: SegmentQuery::Indices(vec![0]),
        channel: ChannelQuery::including(vec!["measuredHeight", "smoothedMeasuredHeight"]),
    };
    let result = data.query_data(&query).unwrap();
    assert_eq!(result.len(), 2);
    let idx = DataIndex::new(0, 0, "measuredHeight");
    let values = result.get(&idx).unwrap();
    assert_eq!(values.values, m_height.values);

    let idx = DataIndex::new(0, 0, "smoothedMeasuredHeight");
    let values = result.get(&idx).unwrap();
    assert_eq!(values.values, sm_height.values);
}

#[test]
fn query_one_channel_of_one_pixel() {
    let mut data = reader();
    let query = Query {
        index: IndexQuery::Pixel(Pixel::new(0, 0)),
        segment: SegmentQuery::Indices(vec![0]),
        channel: ChannelQuery::including(vec!["measuredHeight"]),
    };
    let result = data.query_data(&query).unwrap();
    assert_eq!(result.len(), 1);
    let (indices, values) = result.into_parts();
    assert_eq!(indices.len(), 1);
    assert_eq!(indices[0].index, 0);
    assert_eq!(indices[0].segment, 0);
    assert_eq!(indices[0].channel, "measuredHeight");
    assert_eq!(values[0].values, height(0, 0));
    assert_eq!(values[0].lcd_info, 0);
}

#[test]
fn query_pixel_outside_the_grid_fails() {
    let mut data = reader();
    let query = Query {
        index: IndexQuery::Pixel(Pixel { x: 5, y: 5 }),
        segment: SegmentQuery::All,
        channel: ChannelQuery::All,
    };
    match data.query_data(&query) {
        Err(QueryError::OutOfBounds(pixel)) => {
            assert_eq!(pixel.x, 5);
            assert_eq!(pixel.y, 5);
        }
        _ => panic!("the query must fail with the pixel"),
    }
}

#[test]
fn query_rect_with_one_pixel_outside_gives_nothing() {
    let mut data = reader();
    let query = Query {
        index: IndexQuery::PixelRect(PixelRect::new(Pixel::new(2, 1), Pixel::new(0, 0))),
        segment: SegmentQuery::All,
        channel: ChannelQuery::All,
    };
    match data.query_data(&query) {
        Err(QueryError::OutOfBounds(pixel)) => {
            assert_eq!(pixel.x, 2);
            assert_eq!(pixel.y, 0);
        }
        _ => panic!("the query must fail with the first pixel outside"),
    }
}

#[test]
fn query_channel_that_the_segment_lacks_gives_no_entry() {
    let mut data = reader();
    let query = Query {
        index: IndexQuery::Index(1),
        segment: SegmentQuery::Indices(vec![1]),
        channel: ChannelQuery::including(vec!["nonexistentChannel"]),
    };
    let result = data.query_data(&query).unwrap();
    assert_eq!(result.len(), 0);

    let query = Query {
        index: IndexQuery::Index(1),
        segment: SegmentQuery::Indices(vec![1]),
        channel: ChannelQuery::including(vec!["nonexistentChannel", "vDeflection"]),
    };
    let result = data.query_data(&query).unwrap();
    assert_eq!(result.len(), 1);
    assert_eq!(result.get(&DataIndex::new(1, 1, "vDeflection")).unwrap().values, deflection(1, 1));
    assert!(result.get(&DataIndex::new(1, 1, "nonexistentChannel")).is_none());
}

#[test]
fn query_everything() {
    let mut data = reader();
    let result = data.query_data(&Query::select_all()).unwrap();
    assert_eq!(result.len(), 4 * 2 * 3);
    for index in 0..4usize {
        for segment in 0..2u8 {
            let found = result.get(&DataIndex::new(index, segment, "measuredHeight")).unwrap();
            assert_eq!(found.values, height(index, segment));
            assert_eq!(found.lcd_info, 0);
            let found = result.get(&DataIndex::new(index, segment, "smoothedMeasuredHeight")).unwrap();
            assert_eq!(found.values, smoothed(index, segment));
            let found = result.get(&DataIndex::new(index, segment, "vDeflection")).unwrap();
            assert_eq!(found.values, deflection(index, segment));
            assert_eq!(found.lcd_info, 1);
        }
    }
    let (indices, _) = result.into_parts();
    for pair in indices.windows(2) {
        assert!(pair[0] < pair[1]);
    }
}

#[test]
fn query_rect_selects_its_pixels_row_by_row() {
    let mut data = reader();
    let query = Query {
        index: IndexQuery::PixelRect(PixelRect::new(Pixel::new(1, 1), Pixel::new(1, 0))),
        segment: SegmentQuery::Indices(vec![1]),
        channel: ChannelQuery::including(vec!["vDeflection"]),
    };
    let indices = data._data_query_indices(&query).unwrap();
    assert_eq!(indices, vec![1, 3]);
    let result = data.query_data(&query).unwrap();
    assert_eq!(result.len(), 2);
    assert_eq!(result.get(&DataIndex::new(1, 1, "vDeflection")).unwrap().values, deflection(1, 1));
    assert_eq!(result.get(&DataIndex::new(3, 1, "vDeflection")).unwrap().values, deflection(3, 1));
}

#[test]
fn query_segment_that_is_not_there_fails_at_the_archive() {
    let mut data = reader();
    let query = Query {
        index: IndexQuery::Index(0),
        segment: SegmentQuery::Indices(vec![7]),
        channel: ChannelQuery::All,
    };
    match data.query_data(&query) {
        Err(QueryError::Zip { path, .. }) => {
            assert_eq!(path, "index/0/segments/7/segment-header.properties");
        }
        _ => panic!("the segment's property file cannot be found"),
    }
}

#[test]
fn query_fails_on_data_of_a_wrong_length() {
    let mut data =
        Reader::new(zip_of(&replaced("index/2/segments/1/channels/measuredHeight.dat", &[0, 0, 0, 1, 2]))).unwrap();
    let query = Query { index: IndexQuery::Index(2), segment: SegmentQuery::All, channel: ChannelQuery::All };
    match data.query_data(&query) {
        Err(QueryError::InvalidData { path }) => {
            assert_eq!(path, "index/2/segments/1/channels/measuredHeight.dat");
        }
        _ => panic!("the data file is too long by one byte"),
    }
    match data.get_data_index_segment_channel(2, 1, "measuredHeight") {
        Err(DataError::InvalidData { path }) => {
            assert_eq!(path, "index/2/segments/1/channels/measuredHeight.dat");
        }
        _ => panic!("the data file is too long by one byte"),
    }
    let query = Query { index: IndexQuery::Index(1), segment: SegmentQuery::All, channel: ChannelQuery::All };
    assert_eq!(data.query_data(&query).unwrap().len(), 6);
}

#[test]
fn query_fails_on_a_missing_property() {
    let segment = SEGMENT.replace("channel.vDeflection.data.num-points=2\n", "");
    let mut data =
        Reader::new(zip_of(&replaced("index/0/segments/0/segment-header.properties", segment.as_bytes()))).unwrap();
    let query = Query { index: IndexQuery::Index(0), segment: SegmentQuery::All, channel: ChannelQuery::All };
    match data.query_data(&query) {
        Err(QueryError::InvalidFormat { path, cause }) => {
            assert_eq!(path, "index/0/segments/0/segment-header.properties");
            assert_eq!(cause, "property `channel.vDeflection.data.num-points` not found");
        }
        _ => panic!("a property of the channel is missing"),
    }
    let query = Query {
        index: IndexQuery::Index(0),
        segment: SegmentQuery::All,
        channel: ChannelQuery::including(vec!["measuredHeight"]),
    };
    assert_eq!(data.query_data(&query).unwrap().len(), 2);
}

#[test]
fn query_fails_on_an_invalid_property() {
    let mut data = Reader::new(
        zip_of(&replaced("index/3/header.properties", b"quantitative-imaging-series.force-segments.count=many\n")),
    )
    .unwrap();
    let query = Query { index: IndexQuery::All, segment: SegmentQuery::All, channel: ChannelQuery::All };
    match data.query_data(&query) {
        Err(QueryError::InvalidFormat { path, cause }) => {
            assert_eq!(path, "index/3/header.properties");
            assert_eq!(cause, "invalid value of `quantitative-imaging-series.force-segments.count`");
        }
        _ => panic!("the segment count is no number"),
    }
}

#[test]
fn query_fails_on_an_encoding_that_the_table_lacks() {
    let segment = SEGMENT.replace("channel.vDeflection.lcd-info.*=1\n", "channel.vDeflection.lcd-info.*=2\n");
    let mut data =
        Reader::new(zip_of(&replaced("index/0/segments/1/segment-header.properties", segment.as_bytes()))).unwrap();
    let query = Query {
        index: IndexQuery::Index(0),
        segment: SegmentQuery::Indices(vec![1]),
        channel: ChannelQuery::including(vec!["vDeflection"]),
    };
    match data.query_data(&query) {
        Err(QueryError::InvalidFormat { path, cause }) => {
            assert_eq!(path, "index/0/segments/1/segment-header.properties");
            assert_eq!(cause, "invalid value of `channel.vDeflection.lcd-info.*`");
        }
        _ => panic!("the table has two entries"),
    }
    match data.get_data_index_segment_channel(0, 1, "vDeflection") {
        Err(DataError::InvalidFormat { path, cause }) => {
            assert_eq!(path, "index/0/segments/1/segment-header.properties");
            assert_eq!(cause, "invalid value of `channel.vDeflection.lcd-info.*`");
        }
        _ => panic!("the table has two entries"),
    }
}

#[test]
fn get_data_of_a_missing_channel_fails() {
    let mut data = reader();
    match data.get_data_index_segment_channel(0, 0, "nonexistentChannel") {
        Err(DataError::InvalidFormat { path, cause }) => {
            assert_eq!(path, "index/0/segments/0/segment-header.properties");
            assert_eq!(cause, "property `channel.nonexistentChannel.data.file.name` not found");
        }
        _ => panic!("the segment has no such channel"),
    }
    match data.get_data_index_segment_channel(9, 0, "measuredHeight") {
        Err(DataError::Zip { path, .. }) => {
            assert_eq!(path, "index/9/segments/0/segment-header.properties");
        }
        _ => panic!("the dataset has no such position"),
    }
}

#[test]
fn open_fails_on_bytes_that_are_no_archive() {
    assert!(matches!(Reader::new(vec![1, 2, 3]), Err(Error::OpenArchive(_))));
    assert!(matches!(Reader::new(Vec::new()), Err(Error::OpenArchive(_))));
}

#[test]
fn open_fails_without_the_property_file() {
    match Reader::new(zip_of(&without("header.properties"))) {
        Err(Error::Zip { path, .. }) => assert_eq!(path, "header.properties"),
        _ => panic!("the dataset's property file is missing"),
    }
    match Reader::new(zip_of(&without("shared-data/header.properties"))) {
        Err(Error::Zip { path, .. }) => assert_eq!(path, "shared-data/header.properties"),
        _ => panic!("the property file of the shared data is missing"),
    }
}

#[test]
fn open_fails_on_a_line_without_separator() {
    match Reader::new(zip_of(&replaced("header.properties", b"file-format-version=2.0\nno separator here\n"))) {
        Err(Error::InvalidFormat { path, cause }) => {
            assert_eq!(path, "header.properties");
            assert_eq!(cause, "invalid format");
        }
        _ => panic!("a line of the property file is malformed"),
    }
    match Reader::new(zip_of(&replaced("header.properties", &[b'a', b'=', 0xff, 0xfe, b'\n']))) {
        Err(Error::InvalidFormat { path, .. }) => assert_eq!(path, "header.properties"),
        _ => panic!("the property file is no text"),
    }
}

#[test]
fn open_fails_on_an_unknown_version() {
    let dataset = DATASET.replace("file-format-version=2.0\n", "file-format-version=3.1\n");
    match Reader::new(zip_of(&replaced("header.properties", dataset.as_bytes()))) {
        Err(Error::FileFormatNotSupported { version }) => assert_eq!(version, "3.1"),
        _ => panic!("no reader handles this version"),
    }
    let dataset = DATASET.replace("file-format-version=2.0\n", "");
    match Reader::new(zip_of(&replaced("header.properties", dataset.as_bytes()))) {
        Err(Error::InvalidFormat { path, cause }) => {
            assert_eq!(path, "header.properties");
            assert_eq!(cause, "property `file-format-version` not found");
        }
        _ => panic!("the version is missing"),
    }
}

#[test]
fn open_fails_on_an_unknown_position_pattern() {
    let dataset = DATASET.replace("numbering=left-to-right\n", "numbering=right-to-left\n");
    match Reader::new(zip_of(&replaced("header.properties", dataset.as_bytes()))) {
        Err(Error::InvalidFormat { path, cause }) => {
            assert_eq!(path, "header.properties");
            assert_eq!(cause, "invalid value of `quantitative-imaging-map.position-pattern.numbering`");
        }
        _ => panic!("only one numbering is known"),
    }
    let dataset = DATASET.replace("type=grid-position-pattern\n", "type=spiral\n");
    match Reader::new(zip_of(&replaced("header.properties", dataset.as_bytes()))) {
        Err(Error::InvalidFormat { cause, .. }) => {
            assert_eq!(cause, "invalid value of `quantitative-imaging-map.position-pattern.type`");
        }
        _ => panic!("only grids are known"),
    }
    let dataset = DATASET.replace("quantitative-imaging-map.position-pattern.grid.jlength=2\n", "");
    match Reader::new(zip_of(&replaced("header.properties", dataset.as_bytes()))) {
        Err(Error::InvalidFormat { cause, .. }) => {
            assert_eq!(cause, "property `quantitative-imaging-map.position-pattern.grid.jlength` not found");
        }
        _ => panic!("the grid has no rows"),
    }
    let dataset = DATASET.replace("indexes.type=range\n", "indexes.type=list\n");
    match Reader::new(zip_of(&replaced("header.properties", dataset.as_bytes()))) {
        Err(Error::InvalidFormat { cause, .. }) => {
            assert_eq!(cause, "invalid value of `quantitative-imaging-map.indexes.type`");
        }
        _ => panic!("only ranges are known"),
    }
}

#[test]
fn open_fails_on_an_invalid_encoding_table() {
    let shared = SHARED.replace("lcd-info.1.encoder.type=unsignedshort\n", "lcd-info.1.encoder.type=float\n");
    match Reader::new(zip_of(&replaced("shared-data/header.properties", shared.as_bytes()))) {
        Err(Error::InvalidFormat { path, cause }) => {
            assert_eq!(path, "shared-data/header.properties");
            assert_eq!(cause, "invalid value of `lcd-info.1.encoder.type`");
        }
        _ => panic!("the encoder is not known"),
    }
    let shared = SHARED.replace("lcd-infos.count=2\n", "lcd-infos.count=3\n");
    match Reader::new(zip_of(&replaced("shared-data/header.properties", shared.as_bytes()))) {
        Err(Error::InvalidFormat { path, cause }) => {
            assert_eq!(path, "shared-data/header.properties");
            assert_eq!(cause, "property `lcd-info.2.encoder.type` not found");
        }
        _ => panic!("the table is shorter than it says"),
    }
}

#[test]
fn reader_knows_the_encoding_table() {
    let data = reader();
    let table = data.lcd_info();
    assert_eq!(table.len(), 2);
    assert_eq!(table[0].offset(), "0.5");
    assert_eq!(table[0].multiplier(), "2.0");
    assert_eq!(table[0].unit(), "m");
    assert_eq!(table[0].encoder().width(), 4);
    assert!(table[0].encoder().signed());
    assert_eq!(table[1].encoder().width(), 2);
    assert!(!table[1].encoder().signed());
    assert_eq!(table[1].unit(), "V");
    let pattern = data.dataset_info().position_pattern();
    assert_eq!(pattern.pixel_to_index(&Pixel::new(1, 1)), Some(3));
}

#[test]
fn reader_lists_the_members() {
    let data = reader();
    let names: Vec<String> = members().into_iter().map(|(name, _)| name).collect();
    assert_eq!(ArchiveReader::len(&data), names.len());
    assert_eq!(ArchiveReader::files(&data), names);
}

#[test]
fn metadata_of_the_dataset_holds_its_properties() {
    let mut data = reader();
    let result = data.query_metadata(&MetadataQuery::Dataset).unwrap();
    let file = result.get(&MetadataIndex::Dataset).unwrap();
    assert_eq!(file.get("file-format-version").unwrap(), "2.0");
    assert!(result.get(&MetadataIndex::SharedData).is_none());
    let result = data.query_metadata(&MetadataQuery::SharedData).unwrap();
    let file = result.get(&MetadataIndex::SharedData).unwrap();
    assert_eq!(file.get("lcd-infos.count").unwrap(), "2");
}

#[test]
fn metadata_of_everything_passes_over_other_members() {
    let mut all = members();
    all.push(("index/1/notes.txt".to_string(), b"no property file".to_vec()));
    all.push(("index/x/header.properties".to_string(), b"no separator".to_vec()));
    all.push(("index/01/header.properties".to_string(), b"no separator".to_vec()));
    all.push(("index/2/segments/256/segment-header.properties".to_string(), b"no separator".to_vec()));
    let mut data = Reader::new(zip_of(&all)).unwrap();
    let result = data.query_metadata(&MetadataQuery::All).unwrap();
    assert_eq!(result.len(), 14);
    assert!(result.get(&MetadataIndex::Dataset).is_some());
    assert!(result.get(&MetadataIndex::SharedData).is_some());
    for index in 0..4usize {
        let file = result.get(&MetadataIndex::Index(index)).unwrap();
        assert_eq!(file.get("quantitative-imaging-series.force-segments.count").unwrap(), "2");
        for segment in 0..2u8 {
            let file = result.get(&MetadataIndex::Segment { index, segment }).unwrap();
            assert_eq!(file.get("channel.vDeflection.lcd-info.*").unwrap(), "1");
        }
    }
    let (scopes, _) = result.into_parts();
    assert_eq!(scopes[0], MetadataIndex::Dataset);
    assert_eq!(scopes[1], MetadataIndex::SharedData);
    assert_eq!(scopes[2], MetadataIndex::Index(0));
    assert_eq!(scopes[6], MetadataIndex::Segment { index: 0, segment: 0 });
    assert_eq!(scopes[13], MetadataIndex::Segment { index: 3, segment: 1 });
}

#[test]
fn metadata_of_everything_fails_on_a_malformed_property_file() {
    let mut data = Reader::new(zip_of(&replaced("index/2/header.properties", b"no separator"))).unwrap();
    match data.query_metadata(&MetadataQuery::All) {
        Err(QueryError::InvalidFormat { path, cause }) => {
            assert_eq!(path, "index/2/header.properties");
            assert_eq!(cause, "file could not be read as properties");
        }
        _ => panic!("a property file is malformed"),
    }
}

#[test]
fn metadata_of_positions_and_segments() {
    let mut data = reader();
    let result = data.query_metadata(&MetadataQuery::Index(IndexQuery::All)).unwrap();
    assert_eq!(result.len(), 4);
    let result = data.query_metadata(&MetadataQuery::Index(IndexQuery::Pixel(Pixel::new(1, 0)))).unwrap();
    assert_eq!(result.len(), 1);
    assert!(result.get(&MetadataIndex::Index(1)).is_some());
    match data.query_metadata(&MetadataQuery::Index(IndexQuery::Pixel(Pixel::new(2, 0)))) {
        Err(QueryError::OutOfBounds(pixel)) => assert_eq!(pixel, Pixel::new(2, 0)),
        _ => panic!("the grid has two columns"),
    }
    let result = data
        .query_metadata(&MetadataQuery::Segment { index: IndexQuery::Index(3), segment: SegmentQuery::All })
        .unwrap();
    assert_eq!(result.len(), 2);
    assert!(result.get(&MetadataIndex::Segment { index: 3, segment: 1 }).is_some());
}

#[test]
fn query_steps_in_any_order_give_the_same_data() {
    let mut data = reader();
    let query = Query {
        index: IndexQuery::PixelRect(PixelRect::new(Pixel::new(0, 0), Pixel::new(1, 1))),
        segment: SegmentQuery::All,
        channel: ChannelQuery::including(vec!["vDeflection", "measuredHeight"]),
    };
    let whole = data.query_data(&query).unwrap();

    let mut first = data.archive();
    let mut second = data.archive();
    let mut indices = data._data_query_indices(&query).unwrap();
    indices.reverse();
    let mut jobs = Vec::new();
    for index in indices {
        let mut segments = index_segments(&mut first, index, &query.segment).unwrap();
        segments.reverse();
        for segment in segments {
            jobs.extend(segment_jobs(&mut second, index, segment, &query.channel).unwrap());
        }
    }
    jobs.rotate_left(5);
    let mut keys = Vec::new();
    let mut values = Vec::new();
    for job in jobs {
        let raw = read_data(&mut first, &job).unwrap();
        values.push(decode_data(data.lcd_info(), &job, &raw).unwrap());
        keys.push(job.index);
    }
    let pieces = Data::new(keys, values).unwrap();

    assert_eq!(whole.len(), 16);
    let (whole_keys, whole_values) = whole.into_parts();
    let (piece_keys, piece_values) = pieces.into_parts();
    assert_eq!(whole_keys, piece_keys);
    assert_eq!(whole_values.len(), piece_values.len());
    for (a, b) in whole_values.iter().zip(piece_values.iter()) {
        assert_eq!(a.lcd_info, b.lcd_info);
        assert_eq!(a.values, b.values);
    }
}

#[test]
fn query_in_phases_gives_what_the_query_gives() {
    let queries = vec![
        Query::select_all(),
        Query {
            index: IndexQuery::PixelRect(PixelRect::new(Pixel::new(1, 0), Pixel::new(0, 1))),
            segment: SegmentQuery::Indices(vec![1, 0, 1]),
            channel: ChannelQuery::including(vec!["vDeflection", "none", "measuredHeight", "vDeflection"]),
        },
        Query { index: IndexQuery::Index(2), segment: SegmentQuery::Indices(Vec::new()), channel: ChannelQuery::All },
        Query { index: IndexQuery::Pixel(Pixel::new(1, 1)), segment: SegmentQuery::All, channel: ChannelQuery::All },
    ];
    for query in queries {
        let mut data = reader();
        let one = data.query_data(&query).unwrap();
        let other = data.query_data_in_phases(&query).unwrap();
        let (one_keys, one_values) = one.into_parts();
        let (other_keys, other_values) = other.into_parts();
        assert_eq!(one_keys, other_keys);
        assert_eq!(one_values.len(), other_values.len());
        for (a, b) in one_values.iter().zip(other_values.iter()) {
            assert_eq!(a.lcd_info, b.lcd_info);
            assert_eq!(a.values, b.values);
        }
    }
}

#[test]
fn query_in_phases_fails_where_the_query_fails() {
    let segment = SEGMENT.replace("channel.vDeflection.data.num-points=2\n", "");
    let mut members = replaced("index/3/segments/0/segment-header.properties", segment.as_bytes());
    members.retain(|(name, _)| name != "index/1/header.properties");
    let mut data = Reader::new(zip_of(&members)).unwrap();
    let query = Query::select_all();
    match data.query_data(&query) {
        Err(QueryError::Zip { path, .. }) => assert_eq!(path, "index/1/header.properties"),
        _ => panic!("a position has no property file"),
    }
    match data.query_data_in_phases(&query) {
        Err(QueryError::Zip { path, .. }) => assert_eq!(path, "index/1/header.properties"),
        _ => panic!("a position has no property file"),
    }
    let mut data =
        Reader::new(zip_of(&replaced("index/0/segments/1/channels/vDeflection.dat", &[1, 2, 3]))).unwrap();
    assert!(matches!(data.query_data(&query), Err(QueryError::InvalidData { .. })));
    assert!(matches!(data.query_data_in_phases(&query), Err(QueryError::InvalidData { .. })));
    let query = Query { index: IndexQuery::Pixel(Pixel::new(0, 9)), ..Query::select_all() };
    assert!(matches!(data.query_data_in_phases(&query), Err(QueryError::OutOfBounds(_))));
}
