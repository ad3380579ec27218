//! From a metadata query to the property files it selects.
use super::reader::{DatasetInfoView, Reader};
use super::resolve::{index_segments, query_indices, spec_query_indices, spec_segments};
use super::utils::{
    index_properties_path, index_segment_properties_path, metadata_index_from_file_path, properties_at,
    shared_data_properties_path, spec_index_properties_path, spec_index_segment_properties_path,
    spec_properties_at, spec_scope, DATASET_PROPERTIES_FILE,
};
use crate::archive::Archive;
use crate::qi_map::error::{QueryError, QueryErrorView};
use crate::qi_map::metadata::{Metadata, MetadataIndex};
use crate::qi_map::{IndexId, IndexQuery, MetadataQuery, Pixel, SegmentId, SegmentQuery};
use vstd::prelude::*;

verus! {

/// Property files by their scopes, each file as the properties it holds.
pub type Scopes = Map<MetadataIndex, Map<Seq<char>, Seq<char>>>;

/// The reason given for a member that is no property file.
pub const NO_PROPERTIES: &'static str = "file could not be read as properties";

/// `seen` with the property file at `path` put under `scope`.
pub open spec fn spec_put(files: Map<Seq<char>, Seq<u8>>, seen: Scopes, scope: MetadataIndex, path: Seq<char>) -> Result<
    Scopes,
    QueryErrorView,
> {
    match spec_properties_at(files, path, NO_PROPERTIES@) {
        Err(e) => Err(e),
        Ok(found) => Ok(seen.insert(scope, found)),
    }
}

/// `seen` with every member of `names` that is a property file of a
/// dataset put under its scope, in the order of `names`. A member that is
/// none is passed over; the first one that cannot be read as a property
/// file is an error.
pub open spec fn spec_all_onto(files: Map<Seq<char>, Seq<u8>>, names: Seq<Option<Seq<char>>>, seen: Scopes) -> Result<
    Scopes,
    QueryErrorView,
>
    decreases names.len(),
{
    if names.len() == 0 {
        Ok(seen)
    } else {
        match names[0] {
            None => spec_all_onto(files, names.drop_first(), seen),
            Some(name) => match spec_scope(name) {
                None => spec_all_onto(files, names.drop_first(), seen),
                Some(scope) => match spec_put(files, seen, scope, name) {
                    Err(e) => Err(e),
                    Ok(more) => spec_all_onto(files, names.drop_first(), more),
                },
            },
        }
    }
}

/// `seen` with the property file of each position of `indices` put under
/// that position, in the order of `indices`.
pub open spec fn spec_indices_onto(files: Map<Seq<char>, Seq<u8>>, indices: Seq<IndexId>, seen: Scopes) -> Result<
    Scopes,
    QueryErrorView,
>
    decreases indices.len(),
{
    if indices.len() == 0 {
        Ok(seen)
    } else {
        match spec_put(
            files,
            seen,
            MetadataIndex::Index(indices[0]),
            spec_index_properties_path(indices[0] as nat),
        ) {
            Err(e) => Err(e),
            Ok(more) => spec_indices_onto(files, indices.drop_first(), more),
        }
    }
}

/// `seen` with the property file of each segment of `segments` at the
/// position `index` put under that segment, in the order of `segments`.
pub open spec fn spec_segments_onto(
    files: Map<Seq<char>, Seq<u8>>,
    index: IndexId,
    segments: Seq<SegmentId>,
    seen: Scopes,
) -> Result<Scopes, QueryErrorView>
    decreases segments.len(),
{
    if segments.len() == 0 {
        Ok(seen)
    } else {
        match spec_put(
            files,
            seen,
            MetadataIndex::Segment { index, segment: segments[0] },
            spec_index_segment_properties_path(index as nat, segments[0] as nat),
        ) {
            Err(e) => Err(e),
            Ok(more) => spec_segments_onto(files, index, segments.drop_first(), more),
        }
    }
}

/// `seen` with the property files of the segments that `query` selects at
/// each position of `indices`, position by position.
pub open spec fn spec_positions_onto(
    files: Map<Seq<char>, Seq<u8>>,
    indices: Seq<IndexId>,
    query: SegmentQuery,
    seen: Scopes,
) -> Result<Scopes, QueryErrorView>
    decreases indices.len(),
{
    if indices.len() == 0 {
        Ok(seen)
    } else {
        match spec_segments(files, indices[0], query) {
            Err(e) => Err(e),
            Ok(segments) => match spec_segments_onto(files, indices[0], segments, seen) {
                Err(e) => Err(e),
                Ok(more) => spec_positions_onto(files, indices.drop_first(), query, more),
            },
        }
    }
}

/// What a metadata query gives: the property files it selects, each under
/// its scope.
pub open spec fn spec_query_metadata(
    files: Map<Seq<char>, Seq<u8>>,
    names: Seq<Option<Seq<char>>>,
    info: DatasetInfoView,
    query: MetadataQuery,
) -> Result<Scopes, QueryErrorView> {
    match query {
        MetadataQuery::All => spec_all_onto(files, names, Map::empty()),
        MetadataQuery::Dataset => spec_put(files, Map::empty(), MetadataIndex::Dataset, DATASET_PROPERTIES_FILE@),
        MetadataQuery::SharedData => spec_put(
            files,
            Map::empty(),
            MetadataIndex::SharedData,
            "shared-data/header.properties"@,
        ),
        MetadataQuery::Index(index) => match spec_query_indices(info, index) {
            Err(e) => Err(e),
            Ok(indices) => spec_indices_onto(files, indices, Map::empty()),
        },
        MetadataQuery::Segment { index, segment } => match spec_query_indices(info, index) {
            Err(e) => Err(e),
            Ok(indices) => spec_positions_onto(files, indices, segment, Map::empty()),
        },
    }
}

/// Puts the property file at `path` under `scope`.
pub fn put(archive: &mut Archive, seen: &mut Metadata, scope: MetadataIndex, path: String) -> (r: Result<
    (),
    QueryError,
>)
    ensures
        final(archive).files() == old(archive).files(),
        final(archive).names() == old(archive).names(),
        match spec_put(old(archive).files(), old(seen)@, scope, path@) {
            Ok(more) => r is Ok && final(seen)@ == more,
            Err(e) => r matches Err(error) && error@ == e,
        },
{
    match properties_at(archive, path, NO_PROPERTIES) {
        Ok(properties) => {
            seen.insert(scope, properties);
            Ok(())
        },
        Err(error) => Err(error),
    }
}

/// Puts the property files of the segments `segments` at the position
/// `index` under their scopes.
fn put_segments(archive: &mut Archive, seen: &mut Metadata, index: IndexId, segments: &Vec<SegmentId>) -> (r:
    Result<(), QueryError>)
    ensures
        final(archive).files() == old(archive).files(),
        final(archive).names() == old(archive).names(),
        match spec_segments_onto(old(archive).files(), index, segments@, old(seen)@) {
            Ok(more) => r is Ok && final(seen)@ == more,
            Err(e) => r matches Err(error) && error@ == e,
        },
{
    let ghost files = archive.files();
    let mut i: usize = 0;
    assert(segments@.skip(0) =~= segments@);
    while i < segments.len()
        invariant
            i <= segments.len(),
            archive.files() == files,
            files == old(archive).files(),
            archive.names() == old(archive).names(),
            spec_segments_onto(files, index, segments@, old(seen)@) == spec_segments_onto(
                files,
                index,
                segments@.skip(i as int),
                seen@,
            ),
        decreases segments.len() - i,
    {
        assert(segments@.skip(i as int).drop_first() =~= segments@.skip(i + 1));
        match put(
            archive,
            seen,
            MetadataIndex::Segment { index, segment: segments[i] },
            index_segment_properties_path(index, segments[i]),
        ) {
            Ok(()) => {},
            Err(error) => {
                return Err(error);
            },
        }
        i += 1;
    }
    assert(segments@.skip(segments.len() as int) =~= Seq::<SegmentId>::empty());
    Ok(())
}

impl Reader {
    /// Every property file of the archive under its scope.
    pub fn metadata_all(&mut self) -> (r: Result<Metadata, QueryError>)
        ensures
            final(self).members() == old(self).members(),
            final(self).names() == old(self).names(),
            final(self).info() == old(self).info(),
            final(self).lcd() == old(self).lcd(),
            match spec_all_onto(old(self).members(), old(self).names(), Map::empty()) {
                Ok(found) => r matches Ok(metadata) && metadata@ == found,
                Err(e) => r matches Err(error) && error@ == e,
            },
    {
        let ghost files = self.archive.files();
        let ghost names = self.archive.names();
        let count = self.archive.len();
        let mut metadata = Metadata::with_capacity(count / 2);
        let mut i: usize = 0;
        assert(names.skip(0) =~= names);
        while i < count
            invariant
                i <= count,
                count == names.len(),
                self.archive.files() == files,
                self.archive.names() == names,
                files == old(self).members(),
                names == old(self).names(),
                self.info() == old(self).info(),
                self.lcd() == old(self).lcd(),
                spec_all_onto(files, names, Map::empty()) == spec_all_onto(files, names.skip(i as int), metadata@),
            decreases count - i,
        {
            assert(names.skip(i as int).drop_first() =~= names.skip(i + 1));
            assert(names.skip(i as int)[0] == names[i as int]);
            match self.archive.name(i) {
                None => {},
                Some(name) => match metadata_index_from_file_path(name.as_str()) {
                    None => {},
                    Some(scope) => match put(&mut self.archive, &mut metadata, scope, name) {
                        Ok(()) => {},
                        Err(error) => {
                            return Err(error);
                        },
                    },
                },
            }
            i += 1;
        }
        assert(names.skip(count as int) =~= Seq::<Option<Seq<char>>>::empty());
        Ok(metadata)
    }

    /// The property file of the dataset.
    pub fn metadata_dataset(&mut self) -> (r: Result<Metadata, QueryError>)
        ensures
            final(self).members() == old(self).members(),
            final(self).names() == old(self).names(),
            final(self).info() == old(self).info(),
            final(self).lcd() == old(self).lcd(),
            match spec_put(old(self).members(), Map::empty(), MetadataIndex::Dataset, DATASET_PROPERTIES_FILE@) {
                Ok(found) => r matches Ok(metadata) && metadata@ == found,
                Err(e) => r matches Err(error) && error@ == e,
            },
    {
        let mut metadata = Metadata::with_capacity(1);
        match put(
            &mut self.archive,
            &mut metadata,
            MetadataIndex::Dataset,
            String::from_str(DATASET_PROPERTIES_FILE),
        ) {
            Ok(()) => Ok(metadata),
            Err(error) => Err(error),
        }
    }

    /// The property file of the shared data.
    pub fn metadata_shared(&mut self) -> (r: Result<Metadata, QueryError>)
        ensures
            final(self).members() == old(self).members(),
            final(self).names() == old(self).names(),
            final(self).info() == old(self).info(),
            final(self).lcd() == old(self).lcd(),
            match spec_put(
                old(self).members(),
                Map::empty(),
                MetadataIndex::SharedData,
                "shared-data/header.properties"@,
            ) {
                Ok(found) => r matches Ok(metadata) && metadata@ == found,
                Err(e) => r matches Err(error) && error@ == e,
            },
    {
        let mut metadata = Metadata::with_capacity(1);
        match put(&mut self.archive, &mut metadata, MetadataIndex::SharedData, shared_data_properties_path()) {
            Ok(()) => Ok(metadata),
            Err(error) => Err(error),
        }
    }

    /// The property files of the positions that `query` selects.
    pub fn metadata_indices(&mut self, query: &IndexQuery) -> (r: Result<Metadata, QueryError>)
        ensures
            final(self).members() == old(self).members(),
            final(self).names() == old(self).names(),
            final(self).info() == old(self).info(),
            final(self).lcd() == old(self).lcd(),
            match spec_query_metadata(
                old(self).members(),
                old(self).names(),
                old(self).info(),
                MetadataQuery::Index(*query),
            ) {
                Ok(found) => r matches Ok(metadata) && metadata@ == found,
                Err(e) => r matches Err(error) && error@ == e,
            },
    {
        let ghost files = self.archive.files();
        let indices = match query_indices(&self.dataset_info, query) {
            Ok(indices) => indices,
            Err(error) => {
                return Err(error);
            },
        };
        let mut metadata = Metadata::with_capacity(indices.len());
        let mut i: usize = 0;
        assert(indices@.skip(0) =~= indices@);
        while i < indices.len()
            invariant
                i <= indices.len(),
                self.archive.files() == files,
                files == old(self).members(),
                self.names() == old(self).names(),
                self.info() == old(self).info(),
                self.lcd() == old(self).lcd(),
                spec_query_metadata(files, old(self).names(), old(self).info(), MetadataQuery::Index(*query))
                    == spec_indices_onto(files, indices@, Map::empty()),
                spec_indices_onto(files, indices@, Map::empty()) == spec_indices_onto(
                    files,
                    indices@.skip(i as int),
                    metadata@,
                ),
            decreases indices.len() - i,
        {
            assert(indices@.skip(i as int).drop_first() =~= indices@.skip(i + 1));
            match put(
                &mut self.archive,
                &mut metadata,
                MetadataIndex::Index(indices[i]),
                index_properties_path(indices[i]),
            ) {
                Ok(()) => {},
                Err(error) => {
                    return Err(error);
                },
            }
            i += 1;
        }
        assert(indices@.skip(indices.len() as int) =~= Seq::<IndexId>::empty());
        Ok(metadata)
    }

    /// The property file of the position at `pixel`.
    pub fn metadata_index_pixel(&mut self, pixel: &Pixel) -> (r: Result<Metadata, QueryError>)
        ensures
            final(self).members() == old(self).members(),
            final(self).names() == old(self).names(),
            final(self).info() == old(self).info(),
            final(self).lcd() == old(self).lcd(),
            match spec_query_metadata(
                old(self).members(),
                old(self).names(),
                old(self).info(),
                MetadataQuery::Index(IndexQuery::Pixel(*pixel)),
            ) {
                Ok(found) => r matches Ok(metadata) && metadata@ == found,
                Err(e) => r matches Err(error) && error@ == e,
            },
    {
        self.metadata_indices(&IndexQuery::Pixel(*pixel))
    }

    /// The property files of the segments that `segment` selects at the
    /// positions that `index` selects.
    pub fn metadata_segments(&mut self, index: &IndexQuery, segment: &SegmentQuery) -> (r: Result<
        Metadata,
        QueryError,
    >)
        ensures
            final(self).members() == old(self).members(),
            final(self).names() == old(self).names(),
            final(self).info() == old(self).info(),
            final(self).lcd() == old(self).lcd(),
            match spec_query_metadata(
                old(self).members(),
                old(self).names(),
                old(self).info(),
                MetadataQuery::Segment { index: *index, segment: *segment },
            ) {
                Ok(found) => r matches Ok(metadata) && metadata@ == found,
                Err(e) => r matches Err(error) && error@ == e,
            },
    {
        let ghost files = self.archive.files();
        let indices = match query_indices(&self.dataset_info, index) {
            Ok(indices) => indices,
            Err(error) => {
                return Err(error);
            },
        };
        let mut metadata = Metadata::with_capacity(indices.len());
        let mut i: usize = 0;
        assert(indices@.skip(0) =~= indices@);
        while i < indices.len()
            invariant
                i <= indices.len(),
                self.archive.files() == files,
                files == old(self).members(),
                self.names() == old(self).names(),
                self.info() == old(self).info(),
                self.lcd() == old(self).lcd(),
                spec_query_metadata(
                    files,
                    old(self).names(),
                    old(self).info(),
                    MetadataQuery::Segment { index: *index, segment: *segment },
                ) == spec_positions_onto(files, indices@, *segment, Map::empty()),
                spec_positions_onto(files, indices@, *segment, Map::empty()) == spec_positions_onto(
                    files,
                    indices@.skip(i as int),
                    *segment,
                    metadata@,
                ),
            decreases indices.len() - i,
        {
            assert(indices@.skip(i as int).drop_first() =~= indices@.skip(i + 1));
            let segments = match index_segments(&mut self.archive, indices[i], segment) {
                Ok(segments) => segments,
                Err(error) => {
                    return Err(error);
                },
            };
            match put_segments(&mut self.archive, &mut metadata, indices[i], &segments) {
                Ok(()) => {},
                Err(error) => {
                    return Err(error);
                },
            }
            i += 1;
        }
        assert(indices@.skip(indices.len() as int) =~= Seq::<IndexId>::empty());
        Ok(metadata)
    }

    /// Query metadata.
    pub fn query_metadata(&mut self, query: &MetadataQuery) -> (r: Result<Metadata, QueryError>)
        ensures
            final(self).members() == old(self).members(),
            final(self).names() == old(self).names(),
            final(self).info() == old(self).info(),
            final(self).lcd() == old(self).lcd(),
            match spec_query_metadata(old(self).members(), old(self).names(), old(self).info(), *query) {
                Ok(found) => r matches Ok(metadata) && metadata@ == found,
                Err(e) => r matches Err(error) && error@ == e,
            },
    {
        match query {
            MetadataQuery::All => self.metadata_all(),
            MetadataQuery::Dataset => self.metadata_dataset(),
            MetadataQuery::SharedData => self.metadata_shared(),
            MetadataQuery::Index(index) => self.metadata_indices(index),
            MetadataQuery::Segment { index, segment } => self.metadata_segments(index, segment),
        }
    }
}

} // verus!
