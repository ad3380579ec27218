//! What the property file of a segment says of one channel.
use super::segment::{channel_key, Properties};
use crate::dataset::properties::error::{Property, PropertyView};
use crate::dataset::properties::{extract_u32, extract_u8, extract_value, spec_extract_unsigned, spec_value};
use crate::dataset::v2_0::LcdInfoIndexType;
use crate::text::str_eq;
use vstd::prelude::*;

verus! {

/// How a data file holds its samples.
#[derive(Debug, Clone, Copy, PartialEq, Eq, Structural)]
pub enum DataFileFormat {
    /// One sample after the other, nothing between them.
    Raw,
}

impl DataFileFormat {
    pub fn from_str(input: &str) -> (r: Option<Self>)
        ensures
            r == (if input@ == "raw"@ {
                Some(DataFileFormat::Raw)
            } else {
                None
            }),
    {
        if str_eq(input, "raw") {
            Some(Self::Raw)
        } else {
            None
        }
    }
}

/// Where the data of a channel lies and how it is encoded.
#[derive(Debug, Clone)]
pub struct Info {
    file_path: String,
    file_format: DataFileFormat,
    num_points: u32,
    lcd_info_index: LcdInfoIndexType,
}

/// An `Info` as numbers and a sequence of characters.
pub struct InfoView {
    pub file_path: Seq<char>,
    pub file_format: DataFileFormat,
    pub num_points: nat,
    pub lcd_info_index: nat,
}

impl View for Info {
    type V = InfoView;

    closed spec fn view(&self) -> InfoView {
        InfoView {
            file_path: self.file_path@,
            file_format: self.file_format,
            num_points: self.num_points as nat,
            lcd_info_index: self.lcd_info_index as nat,
        }
    }
}

/// What a segment's properties say of `channel`, or the first property,
/// in the order of `InfoView`'s fields, that is missing or invalid.
pub open spec fn spec_info(properties: Map<Seq<char>, Seq<char>>, channel: Seq<char>) -> Result<
    InfoView,
    PropertyView,
> {
    let format_key = channel_key(channel, ".data.file.format"@);
    match spec_value(properties, channel_key(channel, ".data.file.name"@)) {
        Err(e) => Err(e),
        Ok(file_path) => match spec_value(properties, format_key) {
            Err(e) => Err(e),
            Ok(format) => if format != "raw"@ {
                Err(PropertyView::InvalidValue(format_key))
            } else {
                match spec_extract_unsigned(properties, channel_key(channel, ".data.num-points"@), u32::MAX as nat) {
                    Err(e) => Err(e),
                    Ok(num_points) => match spec_extract_unsigned(
                        properties,
                        channel_key(channel, ".lcd-info.*"@),
                        u8::MAX as nat,
                    ) {
                        Err(e) => Err(e),
                        Ok(lcd_info_index) => Ok(
                            InfoView { file_path, file_format: DataFileFormat::Raw, num_points, lcd_info_index },
                        ),
                    },
                }
            },
        },
    }
}

impl Info {
    pub fn from(properties: &Properties, channel: &str) -> (r: Result<Self, Property>)
        ensures
            match r {
                Ok(info) => spec_info(properties.inner@, channel@) == Ok::<InfoView, PropertyView>(info@),
                Err(e) => spec_info(properties.inner@, channel@) == Err::<InfoView, PropertyView>(e@),
            },
    {
        let key = Properties::channel_data_file_name_key(channel);
        let file_path = match extract_value(&properties.inner, key.as_str()) {
            Ok(value) => value.clone(),
            Err(e) => {
                return Err(e);
            },
        };
        let key = Properties::channel_data_file_format_key(channel);
        let file_format = match extract_value(&properties.inner, key.as_str()) {
            Ok(value) => match DataFileFormat::from_str(value.as_str()) {
                Some(format) => format,
                None => {
                    return Err(Property::InvalidValue(key));
                },
            },
            Err(e) => {
                return Err(e);
            },
        };
        let key = Properties::channel_data_num_points_key(channel);
        let num_points = match extract_u32(&properties.inner, key.as_str()) {
            Ok(value) => value,
            Err(e) => {
                return Err(e);
            },
        };
        let key = Properties::channel_lcd_info_index_key(channel);
        let lcd_info_index = match extract_u8(&properties.inner, key.as_str()) {
            Ok(value) => value,
            Err(e) => {
                return Err(e);
            },
        };
        Ok(Self { file_path, file_format, num_points, lcd_info_index })
    }

    /// The data file's path from the directory of the segment.
    pub fn file_path(&self) -> (r: &String)
        ensures
            r@ == self@.file_path,
    {
        &self.file_path
    }

    pub fn file_format(&self) -> (r: DataFileFormat)
        ensures
            r == self@.file_format,
    {
        self.file_format
    }

    /// Number of samples that the data file is said to hold.
    pub fn num_points(&self) -> (r: u32)
        ensures
            r == self@.num_points,
    {
        self.num_points
    }

    /// Which entry of the encoding table the data file goes by.
    pub fn lcd_info_index(&self) -> (r: LcdInfoIndexType)
        ensures
            r == self@.lcd_info_index,
    {
        self.lcd_info_index
    }
}

} // verus!
