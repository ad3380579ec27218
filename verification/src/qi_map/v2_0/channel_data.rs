//! What the property file of a segment says of one channel.
use super::segment_data::{channel_key, SegmentProperties};
use crate::dataset::properties::error::{Property, PropertyView};
use crate::dataset::properties::{extract_usize, extract_value, spec_extract_unsigned, spec_value};
use crate::text::str_eq;
use vstd::prelude::*;

verus! {

/// How a data file holds its samples.
#[derive(Debug, Clone, Copy, PartialEq, Eq, Structural)]
pub enum DataFileFormat {
    /// One sample after the other, nothing between them.
    Raw,
}

impl DataFileFormat {
    pub fn from_str(input: &str) -> (r: Option<Self>)
        ensures
            r == (if input@ == "raw"@ {
                Some(DataFileFormat::Raw)
            } else {
                None
            }),
    {
        if str_eq(input, "raw") {
            Some(Self::Raw)
        } else {
            None
        }
    }
}

/// Where the data of a channel lies and how it is encoded.
#[derive(Debug, Clone)]
pub struct ChannelData {
    file_path: String,
    file_format: DataFileFormat,
    num_points: usize,
    shared_data_index: usize,
}

/// A `ChannelData` as numbers and a sequence of characters.
pub struct ChannelDataView {
    pub file_path: Seq<char>,
    pub file_format: DataFileFormat,
    pub num_points: nat,
    pub shared_data_index: nat,
}

impl View for ChannelData {
    type V = ChannelDataView;

    closed spec fn view(&self) -> ChannelDataView {
        ChannelDataView {
            file_path: self.file_path@,
            file_format: self.file_format,
            num_points: self.num_points as nat,
            shared_data_index: self.shared_data_index as nat,
        }
    }
}

/// What a segment's properties say of `channel`, or the first property,
/// in the order of `ChannelDataView`'s fields, that is missing or invalid.
pub open spec fn spec_channel_data(properties: Map<Seq<char>, Seq<char>>, channel: Seq<char>) -> Result<
    ChannelDataView,
    PropertyView,
> {
    let format_key = channel_key(channel, ".data.file.format"@);
    match spec_value(properties, channel_key(channel, ".data.file.name"@)) {
        Err(e) => Err(e),
        Ok(file_path) => match spec_value(properties, format_key) {
            Err(e) => Err(e),
            Ok(format) => if format != "raw"@ {
                Err(PropertyView::InvalidValue(format_key))
            } else {
                match spec_extract_unsigned(
                    properties,
                    channel_key(channel, ".data.num-points"@),
                    usize::MAX as nat,
                ) {
                    Err(e) => Err(e),
                    Ok(num_points) => match spec_extract_unsigned(
                        properties,
                        channel_key(channel, ".lcd-info.*"@),
                        usize::MAX as nat,
                    ) {
                        Err(e) => Err(e),
                        Ok(shared_data_index) => Ok(
                            ChannelDataView {
                                file_path,
                                file_format: DataFileFormat::Raw,
                                num_points,
                                shared_data_index,
                            },
                        ),
                    },
                }
            },
        },
    }
}

impl ChannelData {
    pub fn from(properties: &SegmentProperties, channel: &str) -> (r: Result<Self, Property>)
        ensures
            match r {
                Ok(data) => spec_channel_data(properties.inner@, channel@) == Ok::<ChannelDataView, PropertyView>(
                    data@,
                ),
                Err(e) => spec_channel_data(properties.inner@, channel@) == Err::<ChannelDataView, PropertyView>(
                    e@,
                ),
            },
    {
        let key = SegmentProperties::channel_data_file_name_key(channel);
        let file_path = match extract_value(&properties.inner, key.as_str()) {
            Ok(value) => value.clone(),
            Err(e) => {
                return Err(e);
            },
        };
        let key = SegmentProperties::channel_data_file_format_key(channel);
        let file_format = match extract_value(&properties.inner, key.as_str()) {
            Ok(value) => match DataFileFormat::from_str(value.as_str()) {
                Some(format) => format,
                None => {
                    return Err(Property::InvalidValue(key));
                },
            },
            Err(e) => {
                return Err(e);
            },
        };
        let key = SegmentProperties::channel_data_num_points_key(channel);
        let num_points = match extract_usize(&properties.inner, key.as_str()) {
            Ok(value) => value,
            Err(e) => {
                return Err(e);
            },
        };
        let key = SegmentProperties::channel_shared_data_index_key(channel);
        let shared_data_index = match extract_usize(&properties.inner, key.as_str()) {
            Ok(value) => value,
            Err(e) => {
                return Err(e);
            },
        };
        Ok(Self { file_path, file_format, num_points, shared_data_index })
    }

    /// The data file's path from the directory of the segment.
    pub fn file_path(&self) -> (r: &String)
        ensures
            r@ == self@.file_path,
    {
        &self.file_path
    }

    pub fn file_format(&self) -> (r: DataFileFormat)
        ensures
            r == self@.file_format,
    {
        self.file_format
    }

    /// Number of samples that the data file is said to hold.
    pub fn num_points(&self) -> (r: usize)
        ensures
            r == self@.num_points,
    {
        self.num_points
    }

    /// Which entry of the encoding table the data file goes by.
    pub fn shared_data_index(&self) -> (r: usize)
        ensures
            r == self@.shared_data_index,
    {
        self.shared_data_index
    }
}

} // verus!
