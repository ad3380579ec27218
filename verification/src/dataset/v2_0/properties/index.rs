//! What the property file of a position says.
use crate::dataset::properties::error::{Property, PropertyView};
use crate::dataset::properties::{extract_u8, spec_extract_unsigned, Properties};
use crate::dataset::v2_0::SegmentType;
use vstd::prelude::*;

verus! {

/// `quantitative-imaging-series.force-segments.count`
pub const SEGMENT_COUNT_KEY: &'static str = "quantitative-imaging-series.force-segments.count";

/// The property file of a position.
#[derive(Debug)]
pub struct IndexProperties {
    pub inner: Properties,
}

/// What the property file of a position says.
#[derive(Debug, Clone, Copy)]
pub struct IndexData {
    segment_count: SegmentType,
}

/// The number of segments that a position's properties declare.
pub open spec fn spec_segment_count(properties: Map<Seq<char>, Seq<char>>) -> Result<nat, PropertyView> {
    spec_extract_unsigned(properties, SEGMENT_COUNT_KEY@, u8::MAX as nat)
}

impl IndexData {
    /// Number of segments at the position.
    pub closed spec fn spec_count(&self) -> nat {
        self.segment_count as nat
    }

    pub fn from_properties(properties: &Properties) -> (r: Result<Self, Property>)
        ensures
            match r {
                Ok(data) => spec_segment_count(properties@) == Ok::<nat, PropertyView>(data.spec_count()),
                Err(e) => spec_segment_count(properties@) == Err::<nat, PropertyView>(e@),
            },
    {
        match extract_u8(properties, SEGMENT_COUNT_KEY) {
            Ok(segment_count) => Ok(Self { segment_count }),
            Err(e) => Err(e),
        }
    }

    pub fn segment_count(&self) -> (n: SegmentType)
        ensures
            n == self.spec_count(),
    {
        self.segment_count
    }
}

} // verus!
