//! The result of a data query: values under their data indices.
use super::data_index::{DataIndex, DataIndexView, index_lt};
use super::Sample;
use crate::table::{ranks_of, written, Table};
use vstd::prelude::*;

verus! {

/// Indices size does not match data size.
#[derive(Debug)]
pub struct InvalidDataIndices;

/// Values under data indices, held in the order of the indices. No index
/// occurs twice.
#[derive(Debug)]
pub struct Data<V> {
    entries: Table<DataIndex, V>,
}

impl<V> View for Data<V> {
    type V = Map<DataIndexView, V>;

    closed spec fn view(&self) -> Map<DataIndexView, V> {
        self.entries@
    }
}

impl<V> Data<V> {
    /// Pairs each index with the value at the same place. Where an index
    /// occurs more than once, its last value stays.
    pub fn new(indices: Vec<DataIndex>, data: Vec<V>) -> (r: Result<Self, InvalidDataIndices>)
        ensures
            indices.len() != data.len() ==> r is Err,
            indices.len() == data.len() ==> (r matches Ok(made) && made@ == written(ranks_of(indices@), data@)),
    {
        if data.len() != indices.len() {
            return Err(InvalidDataIndices);
        }
        Ok(Self { entries: Table::from_pairs(indices, data) })
    }

    /// As `new`, for as many values as indices.
    pub(crate) fn from_pairs(indices: Vec<DataIndex>, data: Vec<V>) -> (made: Self)
        requires
            indices.len() == data.len(),
        ensures
            made@ == written(ranks_of(indices@), data@),
    {
        Self { entries: Table::from_pairs(indices, data) }
    }

    /// Number of indices.
    pub fn len(&self) -> (n: usize)
        ensures
            self@.dom().finite(),
            n == self@.dom().len(),
    {
        let n = self.entries.len();
        proof {
            self.entries.lemma_wf();
        }
        n
    }

    /// The value under `index`, if there is one.
    pub fn get(&self, index: &DataIndex) -> (r: Option<&V>)
        ensures
            r is Some <==> self@.contains_key(index@),
            r matches Some(value) ==> *value == self@[index@],
    {
        self.entries.get(index)
    }

    /// The indices in increasing order, and the value of each at the same
    /// place.
    pub fn into_parts(self) -> (parts: (Vec<DataIndex>, Vec<V>))
        ensures
            parts.0.len() == parts.1.len(),
            parts.0.len() == self@.dom().len(),
            forall|i: int, j: int|
                0 <= i < j < parts.0.len() ==> index_lt((#[trigger] parts.0[i])@, (#[trigger] parts.0[j])@),
            forall|i: int|
                0 <= i < parts.0.len() ==> self@.contains_key((#[trigger] parts.0[i])@) && self@[parts.0[i]@]
                    == parts.1[i],
    {
        let parts = self.entries.into_parts();
        proof {
            self.entries.lemma_wf();
            assert forall|i: int, j: int| 0 <= i < j < parts.0.len() implies index_lt(
                (#[trigger] parts.0[i])@,
                (#[trigger] parts.0[j])@,
            ) by {
                assert(self.entries.ranks()[i] == parts.0[i]@);
                assert(self.entries.ranks()[j] == parts.0[j]@);
            }
            assert forall|i: int| 0 <= i < parts.0.len() implies self@.contains_key((#[trigger] parts.0[i])@)
                && self@[parts.0[i]@] == parts.1[i] by {
                assert(self.entries.ranks()[i] == parts.0[i]@);
                assert(self.entries@.dom().contains(self.entries.ranks()[i]));
            }
        }
        parts
    }
}

/// The samples of one channel, before any scaling, with the entry of the
/// encoding table that says how to scale them.
#[derive(Debug, Clone)]
pub struct Samples {
    /// Which entry of the encoding table the samples go by.
    pub lcd_info: usize,
    /// The samples in the order of the data file.
    pub values: Vec<Sample>,
}

/// `Samples` as a number and a sequence.
pub struct SamplesView {
    pub lcd_info: nat,
    pub values: Seq<Sample>,
}

impl View for Samples {
    type V = SamplesView;

    open spec fn view(&self) -> SamplesView {
        SamplesView { lcd_info: self.lcd_info as nat, values: self.values@ }
    }
}

/// The function that takes `Samples` to their view.
pub open spec fn samples_viewer() -> spec_fn(Samples) -> SamplesView {
    |one: Samples| one@
}

/// The views of `samples`, in the same order.
pub open spec fn samples_views(samples: Seq<Samples>) -> Seq<SamplesView> {
    samples.map_values(samples_viewer())
}

/// Whether no two of `indices` are equal.
pub open spec fn distinct(indices: Seq<DataIndexView>) -> bool {
    indices.no_duplicates()
}

/// Where no index occurs twice, a container made of indices and values
/// holds under each index the value that stood at its place, and holds
/// nothing else, in whatever order the pairs were given.
pub proof fn lemma_new_keeps_pairs<V>(indices: Seq<DataIndexView>, data: Seq<V>)
    requires
        indices.len() == data.len(),
        distinct(indices),
    ensures
        written(indices, data).dom() == indices.to_set(),
        forall|i: int| 0 <= i < indices.len() ==> written(indices, data)[#[trigger] indices[i]] == data[i],
{
    crate::table::lemma_written_distinct(indices, data);
}

/// Two lists of pairs that hold the same pairs, each index once, make the
/// same container: the order in which results come in does not show.
pub proof fn lemma_new_ignores_order<V>(
    indices: Seq<DataIndexView>,
    data: Seq<V>,
    other_indices: Seq<DataIndexView>,
    other_data: Seq<V>,
)
    requires
        indices.len() == data.len(),
        other_indices.len() == other_data.len(),
        distinct(indices),
        distinct(other_indices),
        forall|i: int|
            0 <= i < indices.len() ==> exists|j: int|
                0 <= j < other_indices.len() && other_indices[j] == #[trigger] indices[i] && other_data[j]
                    == data[i],
        forall|j: int|
            0 <= j < other_indices.len() ==> exists|i: int|
                0 <= i < indices.len() && indices[i] == #[trigger] other_indices[j] && data[i] == other_data[j],
    ensures
        written(indices, data) == written(other_indices, other_data),
{
    crate::table::lemma_written_distinct(indices, data);
    crate::table::lemma_written_distinct(other_indices, other_data);
    let a = written(indices, data);
    let b = written(other_indices, other_data);
    assert forall|k: DataIndexView| a.dom().contains(k) implies b.dom().contains(k) && a[k] == b[k] by {
        let i = choose|i: int| 0 <= i < indices.len() && indices[i] == k;
        let j = choose|j: int|
            0 <= j < other_indices.len() && other_indices[j] == indices[i] && other_data[j] == data[i];
        assert(b[other_indices[j]] == other_data[j]);
        assert(a[indices[i]] == data[i]);
    }
    assert forall|k: DataIndexView| b.dom().contains(k) implies a.dom().contains(k) by {
        let j = choose|j: int| 0 <= j < other_indices.len() && other_indices[j] == k;
        let i = choose|i: int| 0 <= i < indices.len() && indices[i] == other_indices[j] && data[i] == other_data[j];
        assert(a.dom().contains(indices[i]));
    }
    assert(a =~= b);
}

} // verus!
