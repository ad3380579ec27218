//! What the property file of a segment says.
use crate::dataset::properties::error::{Property, PropertyView};
use crate::dataset::properties::{extract_value, spec_value, Properties};
use crate::text::{split_words, words};
use vstd::prelude::*;
use vstd::string::StringExecFns;

verus! {

/// `channels.list`
pub const CHANNEL_LIST_KEY: &'static str = "channels.list";

/// The key `channel.{channel}` followed by `tail`.
pub open spec fn channel_key(channel: Seq<char>, tail: Seq<char>) -> Seq<char> {
    "channel."@ + channel + tail
}

/// Writes the key `channel.{channel}` followed by `tail`.
fn make_key(channel: &str, tail: &str) -> (key: String)
    ensures
        key@ == channel_key(channel@, tail@),
{
    let mut key = String::from_str("channel.");
    key.append(channel);
    key.append(tail);
    key
}

/// The property file of a segment.
#[derive(Debug)]
pub struct SegmentProperties {
    pub inner: Properties,
}

impl SegmentProperties {
    /// `channel.{channel}.data.file.name`
    pub fn channel_data_file_name_key(channel: &str) -> (key: String)
        ensures
            key@ == channel_key(channel@, ".data.file.name"@),
    {
        make_key(channel, ".data.file.name")
    }

    /// `channel.{channel}.data.file.format`
    pub fn channel_data_file_format_key(channel: &str) -> (key: String)
        ensures
            key@ == channel_key(channel@, ".data.file.format"@),
    {
        make_key(channel, ".data.file.format")
    }

    /// `channel.{channel}.data.num-points`
    pub fn channel_data_num_points_key(channel: &str) -> (key: String)
        ensures
            key@ == channel_key(channel@, ".data.num-points"@),
    {
        make_key(channel, ".data.num-points")
    }

    /// `channel.{channel}.lcd-info.*`
    pub fn channel_shared_data_index_key(channel: &str) -> (key: String)
        ensures
            key@ == channel_key(channel@, ".lcd-info.*"@),
    {
        make_key(channel, ".lcd-info.*")
    }
}

/// What the property file of a segment says of the segment itself.
#[derive(Debug)]
pub struct SegmentData {
    channels: Vec<String>,
}

/// The names of `channels`, in the same order.
pub open spec fn names_of(channels: Seq<String>) -> Seq<Seq<char>> {
    Seq::new(channels.len(), |i: int| channels[i]@)
}

/// The channels that a segment's properties declare: the words of its
/// channel list.
pub open spec fn spec_channel_list(properties: Map<Seq<char>, Seq<char>>) -> Result<
    Seq<Seq<char>>,
    PropertyView,
> {
    match spec_value(properties, CHANNEL_LIST_KEY@) {
        Err(e) => Err(e),
        Ok(list) => Ok(words(list)),
    }
}

impl SegmentData {
    /// The names of the segment's channels, in the order of the list.
    pub closed spec fn spec_channels(&self) -> Seq<Seq<char>> {
        names_of(self.channels@)
    }

    pub fn from(properties: &SegmentProperties) -> (r: Result<Self, Property>)
        ensures
            match r {
                Ok(data) => spec_channel_list(properties.inner@) == Ok::<Seq<Seq<char>>, PropertyView>(
                    data.spec_channels(),
                ),
                Err(e) => spec_channel_list(properties.inner@) == Err::<Seq<Seq<char>>, PropertyView>(e@),
            },
    {
        let list = match extract_value(&properties.inner, CHANNEL_LIST_KEY) {
            Ok(list) => list,
            Err(e) => {
                return Err(e);
            },
        };
        let channels = split_words(list.as_str());
        assert(names_of(channels@) =~= words(list@));
        Ok(Self { channels })
    }

    pub fn channels(&self) -> (channels: &Vec<String>)
        ensures
            names_of(channels@) == self.spec_channels(),
    {
        &self.channels
    }
}

} // verus!
