//! JPK version 2.0 specific properties.
use crate::dataset::properties::Properties;
use crate::text::{decimal_digits, push_decimal};
use vstd::prelude::*;
use vstd::string::StringExecFns;

pub mod channel;
pub mod index;
pub mod segment;

verus! {

/// `type`
pub const DATASET_TYPE_KEY: &'static str = "type";

/// `jpk-data-file`
pub const DATA_FILE_KEY: &'static str = "jpk-data-file";

/// `file-format-version`
pub const FILE_FORMAT_VERSION_KEY: &'static str = "file-format-version";

/// The property file of a dataset.
#[derive(Debug)]
pub struct Dataset {
    pub inner: Properties,
}

impl Dataset {
    /// What kind of data file the dataset is.
    pub fn data_file(&self) -> (r: Option<&String>)
        ensures
            r is Some <==> self.inner@.contains_key(DATA_FILE_KEY@),
            r matches Some(value) ==> value@ == self.inner@[DATA_FILE_KEY@],
    {
        self.inner.get(DATA_FILE_KEY)
    }

    /// The version of the file format.
    pub fn file_format_version(&self) -> (r: Option<&String>)
        ensures
            r is Some <==> self.inner@.contains_key(FILE_FORMAT_VERSION_KEY@),
            r matches Some(value) ==> value@ == self.inner@[FILE_FORMAT_VERSION_KEY@],
    {
        self.inner.get(FILE_FORMAT_VERSION_KEY)
    }

    /// What kind of measurement the dataset holds.
    pub fn dataset_type(&self) -> (r: Option<&String>)
        ensures
            r is Some <==> self.inner@.contains_key(DATASET_TYPE_KEY@),
            r matches Some(value) ==> value@ == self.inner@[DATASET_TYPE_KEY@],
    {
        self.inner.get(DATASET_TYPE_KEY)
    }
}

/// `lcd-infos.count`
pub const LCD_INFOS_COUNT_KEY: &'static str = "lcd-infos.count";

/// The key `lcd-info.{index}` followed by `tail`.
pub open spec fn lcd_info_key(index: nat, tail: Seq<char>) -> Seq<char> {
    "lcd-info."@ + decimal_digits(index) + tail
}

/// Writes the key `lcd-info.{index}` followed by `tail`.
fn make_key(index: usize, tail: &str) -> (key: String)
    ensures
        key@ == lcd_info_key(index as nat, tail@),
{
    let mut key = String::from_str("lcd-info.");
    push_decimal(&mut key, index as u64);
    key.append(tail);
    key
}

/// The property file of the shared data.
#[derive(Debug)]
pub struct SharedData {
    pub inner: Properties,
}

impl SharedData {
    /// `lcd-info.{index}.encoder.type`
    pub fn lcd_info_encoder_type_key(index: usize) -> (key: String)
        ensures
            key@ == lcd_info_key(index as nat, ".encoder.type"@),
    {
        make_key(index, ".encoder.type")
    }

    /// `lcd-info.{index}.encoder.scaling.unit.unit`
    pub fn lcd_info_encoder_unit_key(index: usize) -> (key: String)
        ensures
            key@ == lcd_info_key(index as nat, ".encoder.scaling.unit.unit"@),
    {
        make_key(index, ".encoder.scaling.unit.unit")
    }

    /// `lcd-info.{index}.encoder.scaling.type`
    pub fn lcd_info_encoder_scaling_type_key(index: usize) -> (key: String)
        ensures
            key@ == lcd_info_key(index as nat, ".encoder.scaling.type"@),
    {
        make_key(index, ".encoder.scaling.type")
    }

    /// `lcd-info.{index}.encoder.scaling.style`
    pub fn lcd_info_encoder_scaling_style_key(index: usize) -> (key: String)
        ensures
            key@ == lcd_info_key(index as nat, ".encoder.scaling.style"@),
    {
        make_key(index, ".encoder.scaling.style")
    }

    /// `lcd-info.{index}.encoder.scaling.offset`
    pub fn lcd_info_encoder_scaling_offset_key(index: usize) -> (key: String)
        ensures
            key@ == lcd_info_key(index as nat, ".encoder.scaling.offset"@),
    {
        make_key(index, ".encoder.scaling.offset")
    }

    /// `lcd-info.{index}.encoder.scaling.multiplier`
    pub fn lcd_info_encoder_scaling_multiplier_key(index: usize) -> (key: String)
        ensures
            key@ == lcd_info_key(index as nat, ".encoder.scaling.multiplier"@),
    {
        make_key(index, ".encoder.scaling.multiplier")
    }
}

} // verus!
