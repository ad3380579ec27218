//! Reader for quantitative imaging maps.
use vstd::prelude::*;

pub mod data;
pub mod data_index;
pub mod error;
pub mod metadata;
pub mod open;
pub mod query;
pub mod v2_0;

pub use data::{Data, InvalidDataIndices, Samples};
pub use data_index::DataIndex;
pub use error::{Error, QueryError};
pub use metadata::{Metadata, MetadataIndex};
pub use open::{FormatVersion, Reader};
pub use query::{ChannelQuery, IndexQuery, MetadataQuery, Pixel, PixelRect, PixelRectIter, Query, SegmentQuery};

verus! {

/// What every reader of a quantitative imaging map offers.
pub trait QIMapReader {
    type Error;

    /// Get the data of a specific `(index, segment, channel)`.
    fn get_data_index_segment_channel(&mut self, index: IndexId, segment: SegmentId, channel: &str) -> Result<
        Samples,
        Self::Error,
    >;

    /// Query data.
    fn query_data(&mut self, query: &Query) -> Result<Data<Samples>, QueryError>;

    /// Query metadata.
    fn query_metadata(&mut self, query: &MetadataQuery) -> Result<Metadata, QueryError>;
}

impl QIMapReader for v2_0::Reader {
    type Error = v2_0::reader::DataError;

    fn get_data_index_segment_channel(&mut self, index: IndexId, segment: SegmentId, channel: &str) -> (r: Result<
        Samples,
        Self::Error,
    >)
        ensures
            final(self).members() == old(self).members(),
            final(self).names() == old(self).names(),
            final(self).info() == old(self).info(),
            final(self).lcd() == old(self).lcd(),
            match v2_0::reader::spec_get_data(old(self).members(), old(self).lcd(), index, segment, channel@) {
                Ok(samples) => r matches Ok(found) && found@ == samples,
                Err(e) => r matches Err(error) && error@ == e,
            },
    {
        v2_0::Reader::get_data_index_segment_channel(self, index, segment, channel)
    }

    fn query_data(&mut self, query: &Query) -> (r: Result<Data<Samples>, QueryError>)
        ensures
            final(self).members() == old(self).members(),
            final(self).names() == old(self).names(),
            final(self).info() == old(self).info(),
            final(self).lcd() == old(self).lcd(),
            match v2_0::reader::spec_query_data(old(self).members(), old(self).info(), old(self).lcd(), *query) {
                Ok(found) => r matches Ok(data) && data@.map_values(data::samples_viewer()) == found,
                Err(e) => r matches Err(error) && error@ == e,
            },
    {
        v2_0::Reader::query_data(self, query)
    }

    fn query_metadata(&mut self, query: &MetadataQuery) -> (r: Result<Metadata, QueryError>)
        ensures
            final(self).members() == old(self).members(),
            final(self).names() == old(self).names(),
            final(self).info() == old(self).info(),
            final(self).lcd() == old(self).lcd(),
            match v2_0::metadata::spec_query_metadata(old(self).members(), old(self).names(), old(self).info(), *query) {
                Ok(found) => r matches Ok(metadata) && metadata@ == found,
                Err(e) => r matches Err(error) && error@ == e,
            },
    {
        v2_0::Reader::query_metadata(self, query)
    }
}

/// Number of a position.
pub type IndexId = usize;

/// Number of a segment at a position.
pub type SegmentId = u8;

/// Name of a channel.
pub type ChannelId = String;

/// One sample of a channel as its data file holds it, before any scaling.
pub type Sample = i64;

} // verus!
