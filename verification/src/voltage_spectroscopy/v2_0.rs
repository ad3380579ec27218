//! Reader for voltage spectroscopy datasets of file format version 2.0.
use crate::archive::Archive;
use crate::dataset::properties::error::{Property, PropertyView};
use crate::dataset::properties::{extract_u8, extract_value, spec_extract_unsigned, spec_value};
use crate::dataset::v2_0::lcd_info::LcdInfoView;
use crate::dataset::v2_0::properties::{segment, DATASET_TYPE_KEY};
use crate::dataset::v2_0::reader::{
    data_failure, properties_failure, spec_channel_data, spec_new, spec_segment_properties, DatasetReader,
};
use crate::dataset::v2_0::utils::{segment_path, spec_join, spec_segment_path};
use crate::dataset::v2_0::{error, DataValue, SegmentType, SEGMENT_PROPERTIES_FILE};
use crate::dataset::DatasetError;
use crate::text::str_eq;
use vstd::prelude::*;

verus! {

/// The extension of the name of a voltage spectroscopy file.
pub const VOLTAGE_SPECTROSCOPY_FILE_EXT: &'static str = "jpk-voltage-ramp";

/// The value of the type property of a voltage spectroscopy dataset.
pub const DATASET_TYPE_PROPERTY_VALUE: &'static str = "voltage-spectroscopy-segment-series";

/// `voltage-spectroscopy-segment-series.force-segments.count`
pub const SEGMENT_COUNTS_PROPERTY_KEY: &'static str = "voltage-spectroscopy-segment-series.force-segments.count";

/// `force-segment-header.num-points`
pub const SEGMENT_NUM_POINTS_PROPERTY_KEY: &'static str = "force-segment-header.num-points";

/// `voltage-spectroscopy-segment-series.header.position.x`
pub const POSITION_X_PROPERTY_KEY: &'static str = "voltage-spectroscopy-segment-series.header.position.x";

/// `voltage-spectroscopy-segment-series.header.position.y`
pub const POSITION_Y_PROPERTY_KEY: &'static str = "voltage-spectroscopy-segment-series.header.position.y";

/// Reads one voltage spectroscopy dataset.
#[derive(Debug)]
pub struct Reader {
    inner: DatasetReader,
}

/// Where the measurement was taken, or the first coordinate that is
/// missing. The coordinates are given as the property file writes them.
pub open spec fn spec_position(properties: Map<Seq<char>, Seq<char>>) -> Result<(Seq<char>, Seq<char>), PropertyView> {
    match spec_value(properties, POSITION_X_PROPERTY_KEY@) {
        Err(e) => Err(e),
        Ok(x) => match spec_value(properties, POSITION_Y_PROPERTY_KEY@) {
            Err(e) => Err(e),
            Ok(y) => Ok((x, y)),
        },
    }
}

impl Reader {
    /// The bytes of each member of the archive that can be read, by its
    /// path.
    pub closed spec fn files(&self) -> Map<Seq<char>, Seq<u8>> {
        self.inner.files()
    }

    /// The properties of the dataset.
    pub closed spec fn dataset(&self) -> Map<Seq<char>, Seq<char>> {
        self.inner.dataset()
    }

    /// The encoding table.
    pub closed spec fn lcd(&self) -> Seq<LcdInfoView> {
        self.inner.lcd()
    }

    /// Opens the dataset that `archive` holds.
    pub fn new(archive: Archive) -> (r: Result<Self, DatasetError>)
        ensures
            match spec_new(archive.files()) {
                Ok((dataset, shared, table)) => r matches Ok(reader) && reader.files() == archive.files()
                    && reader.dataset() == dataset && reader.lcd() == table,
                Err(e) => r matches Err(error) && error@ == e,
            },
    {
        match DatasetReader::new(archive) {
            Ok(inner) => Ok(Self { inner }),
            Err(error) => Err(error),
        }
    }

    /// The dataset reader underneath.
    pub fn dataset_reader(&self) -> (r: &DatasetReader)
        ensures
            r.files() == self.files(),
            r.dataset() == self.dataset(),
            r.lcd() == self.lcd(),
    {
        &self.inner
    }

    /// Reads the property file of the segment `segment`.
    pub fn segment_properties(&mut self, segment: SegmentType) -> (r: Result<
        segment::Properties,
        error::Properties,
    >)
        ensures
            final(self).files() == old(self).files(),
            final(self).dataset() == old(self).dataset(),
            final(self).lcd() == old(self).lcd(),
            match spec_segment_properties(old(self).files(), spec_segment_path(segment as nat)) {
                Ok(found) => r matches Ok(properties) && properties.inner@ == found,
                Err(e) => r matches Err(error) && properties_failure(
                    error,
                    spec_join(spec_segment_path(segment as nat), SEGMENT_PROPERTIES_FILE@),
                ) == e,
            },
    {
        let path = segment_path(segment);
        self.inner.segment_properties(path.as_str())
    }

    /// The samples of `channel` in the segment `segment`, before any
    /// scaling.
    pub fn channel_data(&mut self, segment: SegmentType, channel: &str) -> (r: Result<
        Vec<DataValue>,
        error::ChannelData,
    >)
        ensures
            final(self).files() == old(self).files(),
            final(self).dataset() == old(self).dataset(),
            final(self).lcd() == old(self).lcd(),
            match spec_channel_data(old(self).files(), old(self).lcd(), spec_segment_path(segment as nat), channel@) {
                Ok(values) => r matches Ok(found) && found@ == values,
                Err(e) => r matches Err(error) && exists|path: Seq<char>| data_failure(error, path) == e,
            },
    {
        let path = segment_path(segment);
        self.inner.channel_data(path.as_str(), channel)
    }

    /// # Returns
    /// If the dataset type property matches the expected value.
    pub fn validate_dataset_type(&self) -> (r: bool)
        ensures
            r == (self.dataset().contains_key(DATASET_TYPE_KEY@) && self.dataset()[DATASET_TYPE_KEY@]
                == DATASET_TYPE_PROPERTY_VALUE@),
    {
        match self.inner.dataset_properties().dataset_type() {
            Some(dataset_type) => str_eq(dataset_type.as_str(), DATASET_TYPE_PROPERTY_VALUE),
            None => false,
        }
    }

    /// Number of segments in the dataset as indicated in the dataset properties.
    pub fn segments_count(&self) -> (r: Result<SegmentType, Property>)
        ensures
            match r {
                Ok(n) => spec_extract_unsigned(self.dataset(), SEGMENT_COUNTS_PROPERTY_KEY@, u8::MAX as nat) == Ok::<
                    nat,
                    PropertyView,
                >(n as nat),
                Err(e) => spec_extract_unsigned(self.dataset(), SEGMENT_COUNTS_PROPERTY_KEY@, u8::MAX as nat)
                    == Err::<nat, PropertyView>(e@),
            },
    {
        extract_u8(&self.inner.dataset_properties().inner, SEGMENT_COUNTS_PROPERTY_KEY)
    }

    /// `(x, y)` coordinate, each as the property file writes it.
    pub fn position(&self) -> (r: Result<(&String, &String), Property>)
        ensures
            match spec_position(self.dataset()) {
                Ok((x, y)) => r matches Ok(found) && found.0@ == x && found.1@ == y,
                Err(e) => r matches Err(error) && error@ == e,
            },
    {
        let properties = &self.inner.dataset_properties().inner;
        let x = match extract_value(properties, POSITION_X_PROPERTY_KEY) {
            Ok(x) => x,
            Err(e) => {
                return Err(e);
            },
        };
        let y = match extract_value(properties, POSITION_Y_PROPERTY_KEY) {
            Ok(y) => y,
            Err(e) => {
                return Err(e);
            },
        };
        Ok((x, y))
    }
}

} // verus!
