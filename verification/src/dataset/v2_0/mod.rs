//! Dataset reader for JPK file format version 2.0.
use vstd::prelude::*;

pub mod error;
pub mod lcd_info;
pub mod properties;
pub mod reader;
pub mod utils;

pub use reader::DatasetReader;

verus! {

/// Number of a position.
pub type IndexType = u32;

/// Number of a segment.
pub type SegmentType = u8;

/// Number of an entry of the encoding table.
pub type LcdInfoIndexType = u8;

/// One sample of a channel as its data file holds it, before any scaling.
pub type DataValue = i64;

/// The path of the property file of a dataset's shared data.
pub const DATASET_PROPERTIES_SHARED_DATA_FILE_PATH: &'static str = "shared-data/header.properties";

/// The directory of the data files of a segment.
pub const DATASET_SEGMENT_CHANNEL_DIR: &'static str = "channels";

/// The name of the property file of a segment.
pub const SEGMENT_PROPERTIES_FILE: &'static str = "segment-header.properties";

} // verus!
