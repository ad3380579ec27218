//! Where the members of a dataset's archive lie.
use super::{IndexType, SegmentType};
use crate::text::{decimal_digits, push_decimal};
use vstd::prelude::*;
use vstd::string::StringExecFns;

verus! {

pub const INDEX_DIR: &'static str = "index";

pub const SEGMENT_DIR: &'static str = "segments";

pub const DATASET_PROPERTIES_FILE: &'static str = "header.properties";

pub const INDEX_PROPERTIES_FILE: &'static str = "header.properties";

pub const SHARED_DATA_PROPERTIES_FILE: &'static str = "header.properties";

pub const PROPERTIES_KEY_SEGMENT_CHANNELS_LIST: &'static str = "channels.list";

/// `segments/{segment}/`
pub open spec fn spec_segment_path(segment: nat) -> Seq<char> {
    "segments/"@ + decimal_digits(segment) + "/"@
}

/// `index/{index}/header.properties`
pub open spec fn spec_index_properties_path(index: nat) -> Seq<char> {
    "index/"@ + decimal_digits(index) + "/header.properties"@
}

/// `index/{index}/segments/{segment}/`
pub open spec fn spec_index_segment_path(index: nat, segment: nat) -> Seq<char> {
    "index/"@ + decimal_digits(index) + "/segments/"@ + decimal_digits(segment) + "/"@
}

/// `index/{index}/segments/{segment}/segment-header.properties`
pub open spec fn spec_index_segment_properties_path(index: nat, segment: nat) -> Seq<char> {
    "index/"@ + decimal_digits(index) + "/segments/"@ + decimal_digits(segment) + "/segment-header.properties"@
}

/// The path of the directory of the segment `segment` of a dataset with
/// one position.
pub fn segment_path(segment: SegmentType) -> (path: String)
    ensures
        path@ == spec_segment_path(segment as nat),
{
    let mut path = String::from_str("segments/");
    push_decimal(&mut path, segment as u64);
    path.append("/");
    path
}

/// The path of the property file of the position `index`.
pub fn index_properties_path(index: IndexType) -> (path: String)
    ensures
        path@ == spec_index_properties_path(index as nat),
{
    let mut path = String::from_str("index/");
    push_decimal(&mut path, index as u64);
    path.append("/header.properties");
    path
}

/// The path of the directory of the segment `segment` at the position
/// `index`.
pub fn index_segment_path(index: IndexType, segment: SegmentType) -> (path: String)
    ensures
        path@ == spec_index_segment_path(index as nat, segment as nat),
{
    let mut path = String::from_str("index/");
    push_decimal(&mut path, index as u64);
    path.append("/segments/");
    push_decimal(&mut path, segment as u64);
    path.append("/");
    path
}

/// The path of the property file of the segment `segment` at the position
/// `index`.
pub fn index_segment_properties_path(index: IndexType, segment: SegmentType) -> (path: String)
    ensures
        path@ == spec_index_segment_properties_path(index as nat, segment as nat),
{
    let mut path = String::from_str("index/");
    push_decimal(&mut path, index as u64);
    path.append("/segments/");
    push_decimal(&mut path, segment as u64);
    path.append("/segment-header.properties");
    path
}

/// The path of `file` as seen from the directory `base`: `file` itself
/// where it starts at the root or `base` is empty, else `base` and `file`
/// with one `/` between them.
pub open spec fn spec_join(base: Seq<char>, file: Seq<char>) -> Seq<char> {
    if base.len() == 0 || (file.len() > 0 && file[0] == '/') {
        file
    } else if base.last() == '/' {
        base + file
    } else {
        base + "/"@ + file
    }
}

/// Writes `spec_join`.
pub fn join(base: &str, file: &str) -> (path: String)
    ensures
        path@ == spec_join(base@, file@),
{
    let base_chars = crate::text::chars_of(base);
    let file_chars = crate::text::chars_of(file);
    if base_chars.len() == 0 || (file_chars.len() > 0 && file_chars[0] == '/') {
        return String::from_str(file);
    }
    let mut path = String::from_str(base);
    if base_chars[base_chars.len() - 1] != '/' {
        path.append("/");
    }
    path.append(file);
    path
}

} // verus!
