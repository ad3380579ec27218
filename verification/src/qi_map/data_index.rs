//! The key of one channel's data: position, segment and channel.
use super::{ChannelId, IndexId, SegmentId};
use crate::table::TableKey;
use crate::text::{lemma_lex_order, lex_lt, str_lt};
use core::cmp::Ordering;
use vstd::prelude::*;
use vstd::std_specs::cmp::{PartialEqSpecImpl, PartialOrdSpecImpl};
use vstd::std_specs::convert::FromSpecImpl;

verus! {

/// Position, segment and channel of one sequence of values.
#[derive(Debug, Clone, Eq, Ord)]
pub struct DataIndex {
    pub index: IndexId,
    pub segment: SegmentId,
    pub channel: ChannelId,
}

/// A `DataIndex` as numbers and a sequence of characters.
pub struct DataIndexView {
    pub index: nat,
    pub segment: nat,
    pub channel: Seq<char>,
}

/// Whether `a` stands before `b`: by position first, then by segment, then
/// by channel as `str` orders names.
pub open spec fn index_lt(a: DataIndexView, b: DataIndexView) -> bool {
    ||| a.index < b.index
    ||| a.index == b.index && a.segment < b.segment
    ||| a.index == b.index && a.segment == b.segment && lex_lt(a.channel, b.channel)
}

/// The order of data indices is a strict total order: no index stands
/// before itself, the order is transitive, and of two different indices one
/// stands before the other.
pub proof fn lemma_index_order(a: DataIndexView, b: DataIndexView, c: DataIndexView)
    ensures
        !index_lt(a, a),
        index_lt(a, b) && index_lt(b, c) ==> index_lt(a, c),
        a == b || index_lt(a, b) || index_lt(b, a),
        !(index_lt(a, b) && index_lt(b, a)),
{
    lemma_lex_order(a.channel, b.channel, c.channel);
    lemma_lex_order(a.channel, b.channel, a.channel);
}

impl View for DataIndex {
    type V = DataIndexView;

    open spec fn view(&self) -> DataIndexView {
        DataIndexView { index: self.index as nat, segment: self.segment as nat, channel: self.channel@ }
    }
}

impl DataIndex {
    pub fn new(index: IndexId, segment: SegmentId, channel: &str) -> (made: Self)
        ensures
            made.index == index,
            made.segment == segment,
            made.channel@ == channel@,
    {
        Self { index, segment, channel: channel.to_owned() }
    }
}

impl TableKey for DataIndex {
    open spec fn precedes(a: DataIndexView, b: DataIndexView) -> bool {
        index_lt(a, b)
    }

    proof fn order_laws(a: DataIndexView, b: DataIndexView, c: DataIndexView) {
        lemma_index_order(a, b, c);
    }

    fn before(&self, other: &Self) -> (r: bool) {
        if self.index != other.index {
            self.index < other.index
        } else if self.segment != other.segment {
            self.segment < other.segment
        } else {
            str_lt(self.channel.as_str(), other.channel.as_str())
        }
    }
}

impl PartialEq for DataIndex {
    fn eq(&self, other: &Self) -> (r: bool) {
        self.index == other.index && self.segment == other.segment && self.channel == other.channel
    }
}

impl PartialEqSpecImpl for DataIndex {
    open spec fn obeys_eq_spec() -> bool {
        true
    }

    open spec fn eq_spec(&self, other: &DataIndex) -> bool {
        self.index == other.index && self.segment == other.segment && self.channel@ == other.channel@
    }
}

impl PartialOrd for DataIndex {
    /// Order by `(index, segment, channel)`.
    fn partial_cmp(&self, other: &Self) -> (r: Option<Ordering>) {
        if self.before(other) {
            Some(Ordering::Less)
        } else if other.before(self) {
            Some(Ordering::Greater)
        } else {
            Some(Ordering::Equal)
        }
    }
}

impl PartialOrdSpecImpl for DataIndex {
    open spec fn obeys_partial_cmp_spec() -> bool {
        true
    }

    open spec fn partial_cmp_spec(&self, other: &DataIndex) -> Option<Ordering> {
        if index_lt(self@, other@) {
            Some(Ordering::Less)
        } else if index_lt(other@, self@) {
            Some(Ordering::Greater)
        } else {
            Some(Ordering::Equal)
        }
    }
}

impl From<(IndexId, SegmentId, ChannelId)> for DataIndex {
    fn from(value: (IndexId, SegmentId, ChannelId)) -> (made: Self) {
        let (index, segment, channel) = value;
        Self { index, segment, channel }
    }
}

impl FromSpecImpl<(IndexId, SegmentId, ChannelId)> for DataIndex {
    open spec fn obeys_from_spec() -> bool {
        true
    }

    open spec fn from_spec(value: (IndexId, SegmentId, ChannelId)) -> Self {
        DataIndex { index: value.0, segment: value.1, channel: value.2 }
    }
}

} // verus!
