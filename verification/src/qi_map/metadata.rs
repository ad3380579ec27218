//! The result of a metadata query: property files under their scopes.
use super::data::InvalidDataIndices;
use super::{IndexId, SegmentId};
use crate::dataset::properties::Properties;
use crate::table::{ranks_of, written, Table, TableKey};
use vstd::prelude::*;

verus! {

/// The scope of a property file.
#[derive(Debug, Clone, Copy, PartialEq, Eq, Structural)]
pub enum MetadataIndex {
    /// The whole dataset.
    Dataset,
    /// The data that all positions share.
    SharedData,
    /// One position.
    Index(IndexId),
    /// One segment at one position.
    Segment { index: IndexId, segment: SegmentId },
}

/// Place of a scope's kind in the order of scopes.
pub open spec fn scope_rank(scope: MetadataIndex) -> int {
    match scope {
        MetadataIndex::Dataset => 0,
        MetadataIndex::SharedData => 1,
        MetadataIndex::Index(_) => 2,
        MetadataIndex::Segment { .. } => 3,
    }
}

/// Whether `a` stands before `b`: the dataset first, then the shared data,
/// then the positions by number, then the segments by position and number.
pub open spec fn scope_lt(a: MetadataIndex, b: MetadataIndex) -> bool {
    if scope_rank(a) != scope_rank(b) {
        scope_rank(a) < scope_rank(b)
    } else {
        match (a, b) {
            (MetadataIndex::Index(i), MetadataIndex::Index(j)) => i < j,
            (
                MetadataIndex::Segment { index: i, segment: s },
                MetadataIndex::Segment { index: j, segment: t },
            ) => i < j || (i == j && s < t),
            _ => false,
        }
    }
}

impl View for MetadataIndex {
    type V = MetadataIndex;

    open spec fn view(&self) -> MetadataIndex {
        *self
    }
}

impl TableKey for MetadataIndex {
    open spec fn precedes(a: MetadataIndex, b: MetadataIndex) -> bool {
        scope_lt(a, b)
    }

    proof fn order_laws(a: MetadataIndex, b: MetadataIndex, c: MetadataIndex) {
    }

    fn before(&self, other: &Self) -> (r: bool) {
        match (self, other) {
            (MetadataIndex::Dataset, MetadataIndex::Dataset) => false,
            (MetadataIndex::Dataset, _) => true,
            (MetadataIndex::SharedData, MetadataIndex::Dataset) => false,
            (MetadataIndex::SharedData, MetadataIndex::SharedData) => false,
            (MetadataIndex::SharedData, _) => true,
            (MetadataIndex::Index(i), MetadataIndex::Index(j)) => *i < *j,
            (MetadataIndex::Index(_), MetadataIndex::Segment { .. }) => true,
            (MetadataIndex::Index(_), _) => false,
            (
                MetadataIndex::Segment { index: i, segment: s },
                MetadataIndex::Segment { index: j, segment: t },
            ) => *i < *j || (*i == *j && *s < *t),
            (MetadataIndex::Segment { .. }, _) => false,
        }
    }
}

/// The view of each property file of `files`, in the same order.
pub open spec fn file_views(files: Seq<Properties>) -> Seq<Map<Seq<char>, Seq<char>>> {
    Seq::new(files.len(), |i: int| files[i]@)
}

/// Property files under their scopes, held in the order of the scopes. No
/// scope occurs twice.
#[derive(Debug)]
pub struct Metadata {
    entries: Table<MetadataIndex, Properties>,
}

impl View for Metadata {
    type V = Map<MetadataIndex, Map<Seq<char>, Seq<char>>>;

    closed spec fn view(&self) -> Map<MetadataIndex, Map<Seq<char>, Seq<char>>> {
        self.entries@.map_values(|file: Properties| file@)
    }
}

/// Writing the views of property files is the same as viewing the written
/// property files.
proof fn lemma_written_views(scopes: Seq<MetadataIndex>, files: Seq<Properties>)
    requires
        scopes.len() == files.len(),
    ensures
        written(scopes, files).map_values(|file: Properties| file@) == written(scopes, file_views(files)),
    decreases scopes.len(),
{
    if scopes.len() == 0 {
        assert(written(scopes, files).map_values(|file: Properties| file@) =~= written(
            scopes,
            file_views(files),
        ));
    } else {
        lemma_written_views(scopes.drop_last(), files.drop_last());
        assert(file_views(files).drop_last() =~= file_views(files.drop_last()));
        assert(written(scopes, files).map_values(|file: Properties| file@) =~= written(
            scopes,
            file_views(files),
        ));
    }
}

impl Metadata {
    /// A container without entries, with room for `capacity` of them.
    pub fn with_capacity(capacity: usize) -> (made: Self)
        ensures
            made@ == Map::<MetadataIndex, Map<Seq<char>, Seq<char>>>::empty(),
    {
        let made = Self { entries: Table::with_capacity(capacity) };
        assert(made@ =~= Map::<MetadataIndex, Map<Seq<char>, Seq<char>>>::empty());
        made
    }

    /// Pairs each scope with the property file at the same place. Where a
    /// scope occurs more than once, its last file stays.
    pub fn from_parts(indices: Vec<MetadataIndex>, data: Vec<Properties>) -> (r: Result<Self, InvalidDataIndices>)
        ensures
            indices.len() != data.len() ==> r is Err,
            indices.len() == data.len() ==> (r matches Ok(made) && made@ == written(indices@, file_views(data@))),
    {
        if data.len() != indices.len() {
            return Err(InvalidDataIndices);
        }
        proof {
            assert(ranks_of(indices@) =~= indices@);
            lemma_written_views(indices@, data@);
        }
        Ok(Self { entries: Table::from_pairs(indices, data) })
    }

    /// Puts `properties` under `index`, in place of what stood there.
    pub fn insert(&mut self, index: MetadataIndex, properties: Properties)
        ensures
            final(self)@ == old(self)@.insert(index, properties@),
    {
        self.entries.insert(index, properties);
        assert(self@ =~= old(self)@.insert(index, properties@));
    }

    /// Number of scopes.
    pub fn len(&self) -> (n: usize)
        ensures
            self@.dom().finite(),
            n == self@.dom().len(),
    {
        let n = self.entries.len();
        proof {
            self.entries.lemma_wf();
            assert(self@.dom() =~= self.entries@.dom());
        }
        n
    }

    /// The property file under `index`, if there is one.
    pub fn get(&self, index: &MetadataIndex) -> (r: Option<&Properties>)
        ensures
            r is Some <==> self@.contains_key(*index),
            r matches Some(file) ==> file@ == self@[*index],
    {
        self.entries.get(index)
    }

    /// The scopes in increasing order, and the property file of each at the
    /// same place.
    pub fn into_parts(self) -> (parts: (Vec<MetadataIndex>, Vec<Properties>))
        ensures
            parts.0.len() == parts.1.len(),
            parts.0.len() == self@.dom().len(),
            forall|i: int, j: int| 0 <= i < j < parts.0.len() ==> scope_lt(#[trigger] parts.0[i], #[trigger] parts.0[j]),
            forall|i: int|
                0 <= i < parts.0.len() ==> self@.contains_key(#[trigger] parts.0[i]) && self@[parts.0[i]]
                    == parts.1[i]@,
    {
        let parts = self.entries.into_parts();
        proof {
            self.entries.lemma_wf();
            assert(self@.dom() =~= self.entries@.dom());
            assert forall|i: int, j: int| 0 <= i < j < parts.0.len() implies scope_lt(
                #[trigger] parts.0[i],
                #[trigger] parts.0[j],
            ) by {
                assert(self.entries.ranks()[i] == parts.0[i]);
                assert(self.entries.ranks()[j] == parts.0[j]);
            }
            assert forall|i: int| 0 <= i < parts.0.len() implies self@.contains_key(#[trigger] parts.0[i])
                && self@[parts.0[i]] == parts.1[i]@ by {
                assert(self.entries.ranks()[i] == parts.0[i]);
                assert(self.entries@.dom().contains(self.entries.ranks()[i]));
            }
        }
        parts
    }
}

} // verus!
