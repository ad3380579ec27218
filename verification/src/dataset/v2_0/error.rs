//! What can go wrong when a dataset is read.
use super::lcd_info;
use crate::dataset::properties as dataset_properties;
use vstd::prelude::*;
use vstd::std_specs::convert::FromSpecImpl;

verus! {

/// Why the property file of a segment could not be had.
#[derive(Debug)]
pub enum Properties {
    /// Error reading the zip archive.
    Zip(zip::result::ZipError),
    /// The member is no property file.
    InvalidFormat,
}

impl From<zip::result::ZipError> for Properties {
    fn from(error: zip::result::ZipError) -> (made: Self) {
        Properties::Zip(error)
    }
}

impl FromSpecImpl<zip::result::ZipError> for Properties {
    open spec fn obeys_from_spec() -> bool {
        true
    }

    open spec fn from_spec(error: zip::result::ZipError) -> Self {
        Properties::Zip(error)
    }
}

impl From<dataset_properties::error::InvalidFormat> for Properties {
    fn from(_value: dataset_properties::error::InvalidFormat) -> (made: Self) {
        Properties::InvalidFormat
    }
}

impl FromSpecImpl<dataset_properties::error::InvalidFormat> for Properties {
    open spec fn obeys_from_spec() -> bool {
        true
    }

    open spec fn from_spec(_value: dataset_properties::error::InvalidFormat) -> Self {
        Properties::InvalidFormat
    }
}

/// Why what a segment says of a channel could not be had.
#[derive(Debug)]
pub enum ChannelInfo {
    /// Error reading the zip archive.
    Zip(zip::result::ZipError),
    /// The segment's property file could not be had.
    SegmentProperties(Properties),
    /// A property of the channel is missing or invalid.
    Property(dataset_properties::error::Property),
}

impl From<zip::result::ZipError> for ChannelInfo {
    fn from(error: zip::result::ZipError) -> (made: Self) {
        ChannelInfo::Zip(error)
    }
}

impl FromSpecImpl<zip::result::ZipError> for ChannelInfo {
    open spec fn obeys_from_spec() -> bool {
        true
    }

    open spec fn from_spec(error: zip::result::ZipError) -> Self {
        ChannelInfo::Zip(error)
    }
}

impl From<Properties> for ChannelInfo {
    fn from(error: Properties) -> (made: Self) {
        ChannelInfo::SegmentProperties(error)
    }
}

impl FromSpecImpl<Properties> for ChannelInfo {
    open spec fn obeys_from_spec() -> bool {
        true
    }

    open spec fn from_spec(error: Properties) -> Self {
        ChannelInfo::SegmentProperties(error)
    }
}

impl From<dataset_properties::error::Property> for ChannelInfo {
    fn from(error: dataset_properties::error::Property) -> (made: Self) {
        ChannelInfo::Property(error)
    }
}

impl FromSpecImpl<dataset_properties::error::Property> for ChannelInfo {
    open spec fn obeys_from_spec() -> bool {
        true
    }

    open spec fn from_spec(error: dataset_properties::error::Property) -> Self {
        ChannelInfo::Property(error)
    }
}

/// Why the data of a channel could not be had.
#[derive(Debug)]
pub enum ChannelData {
    /// Error reading the zip archive.
    Zip(zip::result::ZipError),
    /// The segment's property file could not be had.
    SegmentProperties(Properties),
    /// A property of the channel is missing or invalid.
    Property(dataset_properties::error::Property),
    /// The data's length is no multiple of the width of a sample.
    InvalidDataLength,
}

impl From<zip::result::ZipError> for ChannelData {
    fn from(error: zip::result::ZipError) -> (made: Self) {
        ChannelData::Zip(error)
    }
}

impl FromSpecImpl<zip::result::ZipError> for ChannelData {
    open spec fn obeys_from_spec() -> bool {
        true
    }

    open spec fn from_spec(error: zip::result::ZipError) -> Self {
        ChannelData::Zip(error)
    }
}

impl From<Properties> for ChannelData {
    fn from(error: Properties) -> (made: Self) {
        ChannelData::SegmentProperties(error)
    }
}

impl FromSpecImpl<Properties> for ChannelData {
    open spec fn obeys_from_spec() -> bool {
        true
    }

    open spec fn from_spec(error: Properties) -> Self {
        ChannelData::SegmentProperties(error)
    }
}

impl From<dataset_properties::error::Property> for ChannelData {
    fn from(error: dataset_properties::error::Property) -> (made: Self) {
        ChannelData::Property(error)
    }
}

impl FromSpecImpl<dataset_properties::error::Property> for ChannelData {
    open spec fn obeys_from_spec() -> bool {
        true
    }

    open spec fn from_spec(error: dataset_properties::error::Property) -> Self {
        ChannelData::Property(error)
    }
}

impl From<ChannelInfo> for ChannelData {
    fn from(value: ChannelInfo) -> (made: Self) {
        match value {
            ChannelInfo::Zip(err) => Self::Zip(err),
            ChannelInfo::Property(err) => Self::Property(err),
            ChannelInfo::SegmentProperties(err) => Self::SegmentProperties(err),
        }
    }
}

impl FromSpecImpl<ChannelInfo> for ChannelData {
    open spec fn obeys_from_spec() -> bool {
        true
    }

    open spec fn from_spec(value: ChannelInfo) -> Self {
        match value {
            ChannelInfo::Zip(err) => ChannelData::Zip(err),
            ChannelInfo::Property(err) => ChannelData::Property(err),
            ChannelInfo::SegmentProperties(err) => ChannelData::SegmentProperties(err),
        }
    }
}

impl From<lcd_info::InvalidDataLength> for ChannelData {
    fn from(_value: lcd_info::InvalidDataLength) -> (made: Self) {
        ChannelData::InvalidDataLength
    }
}

impl FromSpecImpl<lcd_info::InvalidDataLength> for ChannelData {
    open spec fn obeys_from_spec() -> bool {
        true
    }

    open spec fn from_spec(_value: lcd_info::InvalidDataLength) -> Self {
        ChannelData::InvalidDataLength
    }
}

} // verus!
