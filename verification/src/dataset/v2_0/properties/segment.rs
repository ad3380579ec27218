//! The property file of a segment.
use super::channel::{spec_info, Info, InfoView};
use crate::dataset::properties as dataset_properties;
use crate::dataset::properties::error::{Property, PropertyView};
use crate::dataset::properties::{extract_value, spec_value};
use crate::text::{fields, split_at};
use vstd::prelude::*;
use vstd::string::StringExecFns;

verus! {

/// `channels.list`
pub const CHANNELS_LIST_KEY: &'static str = "channels.list";

/// The key `channel.{channel}` followed by `tail`.
pub open spec fn channel_key(channel: Seq<char>, tail: Seq<char>) -> Seq<char> {
    "channel."@ + channel + tail
}

/// Writes the key `channel.{channel}` followed by `tail`.
fn make_key(channel: &str, tail: &str) -> (key: String)
    ensures
        key@ == channel_key(channel@, tail@),
{
    let mut key = String::from_str("channel.");
    key.append(channel);
    key.append(tail);
    key
}

/// The property file of a segment.
#[derive(Debug)]
pub struct Properties {
    pub inner: dataset_properties::Properties,
}

/// The channels that a segment's properties list: the pieces of its
/// channel list between single spaces.
pub open spec fn spec_channel_list(properties: Map<Seq<char>, Seq<char>>) -> Result<
    Seq<Seq<char>>,
    PropertyView,
> {
    match spec_value(properties, CHANNELS_LIST_KEY@) {
        Err(e) => Err(e),
        Ok(list) => Ok(fields(list, ' ')),
    }
}

impl Properties {
    /// `channel.{channel}.data.file.name`
    pub fn channel_data_file_name_key(channel: &str) -> (key: String)
        ensures
            key@ == channel_key(channel@, ".data.file.name"@),
    {
        make_key(channel, ".data.file.name")
    }

    /// `channel.{channel}.data.file.format`
    pub fn channel_data_file_format_key(channel: &str) -> (key: String)
        ensures
            key@ == channel_key(channel@, ".data.file.format"@),
    {
        make_key(channel, ".data.file.format")
    }

    /// `channel.{channel}.data.num-points`
    pub fn channel_data_num_points_key(channel: &str) -> (key: String)
        ensures
            key@ == channel_key(channel@, ".data.num-points"@),
    {
        make_key(channel, ".data.num-points")
    }

    /// `channel.{channel}.lcd-info.*`
    pub fn channel_lcd_info_index_key(channel: &str) -> (key: String)
        ensures
            key@ == channel_key(channel@, ".lcd-info.*"@),
    {
        make_key(channel, ".lcd-info.*")
    }

    /// The names of the segment's channels, in the order of the list.
    pub fn channel_list(&self) -> (r: Result<Vec<String>, Property>)
        ensures
            match spec_channel_list(self.inner@) {
                Ok(channels) => r matches Ok(found) && found.len() == channels.len() && forall|i: int|
                    0 <= i < found.len() ==> (#[trigger] found[i])@ == channels[i],
                Err(e) => r matches Err(error) && error@ == e,
            },
    {
        match extract_value(&self.inner, CHANNELS_LIST_KEY) {
            Ok(list) => Ok(split_at(list.as_str(), ' ')),
            Err(e) => Err(e),
        }
    }

    /// What the properties say of `channel`.
    pub fn channel_info(&self, channel: &str) -> (r: Result<Info, Property>)
        ensures
            match r {
                Ok(info) => spec_info(self.inner@, channel@) == Ok::<InfoView, PropertyView>(info@),
                Err(e) => spec_info(self.inner@, channel@) == Err::<InfoView, PropertyView>(e@),
            },
    {
        Info::from(self, channel)
    }
}

} // verus!
