//! From a query to the channels it selects.
//!
//! A query is resolved in three steps: to the numbers of the positions, at
//! each position to the numbers of the segments, and in each segment to the
//! channels with the place of their data. Each step stops at the first
//! property file that cannot be read or that lacks what the step needs.
use super::channel_data::ChannelDataView;
use super::position::{grid_pixel_to_index, PositionPatternView};
use super::reader::{DatasetInfo, DatasetInfoView, Index};
use super::segment_data::names_of;
use super::utils::{
    channel_data, index_data, segment_data, segment_properties, spec_channel, spec_index_data,
    spec_segment_data, spec_segment_properties,
};
use crate::archive::Archive;
use crate::qi_map::data_index::{DataIndex, DataIndexView};
use crate::qi_map::error::{QueryError, QueryErrorView};
use crate::qi_map::{ChannelQuery, IndexId, IndexQuery, Pixel, Query, SegmentId, SegmentQuery};
use vstd::prelude::*;

verus! {

/// `found` followed by what `rest` found, or the error of `rest`.
pub open spec fn then<T>(found: Seq<T>, rest: Result<Seq<T>, QueryErrorView>) -> Result<Seq<T>, QueryErrorView> {
    match rest {
        Ok(more) => Ok(found + more),
        Err(e) => Err(e),
    }
}

/// The numbers of the positions at `pixels`, in the same order; out of
/// bounds with the first pixel that the pattern does not hold.
pub open spec fn spec_pixel_indices(pattern: PositionPatternView, pixels: Seq<Pixel>) -> Result<
    Seq<IndexId>,
    QueryErrorView,
>
    decreases pixels.len(),
{
    if pixels.len() == 0 {
        Ok(Seq::empty())
    } else {
        match grid_pixel_to_index(pattern.grid.i_length, pattern.grid.j_length, pixels[0]) {
            None => Err(QueryErrorView::OutOfBounds(pixels[0])),
            Some(index) => then(seq![index as usize], spec_pixel_indices(pattern, pixels.drop_first())),
        }
    }
}

/// The numbers from `min` to `max`, both included, in increasing order.
pub open spec fn spec_range(min: IndexId, max: IndexId) -> Seq<IndexId> {
    if min <= max {
        Seq::new((max - min + 1) as nat, |k: int| (min + k) as usize)
    } else {
        Seq::empty()
    }
}

/// The numbers of the positions that `query` selects.
pub open spec fn spec_query_indices(info: DatasetInfoView, query: IndexQuery) -> Result<
    Seq<IndexId>,
    QueryErrorView,
> {
    match query {
        IndexQuery::All => match info.index {
            Index::Range { min, max } => Ok(spec_range(min, max)),
        },
        IndexQuery::Index(index) => Ok(seq![index]),
        IndexQuery::PixelRect(rect) => spec_pixel_indices(info.position_pattern, rect@),
        IndexQuery::Pixel(pixel) => spec_pixel_indices(info.position_pattern, seq![pixel]),
    }
}

/// Resolves the position part of a query.
pub fn query_indices(info: &DatasetInfo, query: &IndexQuery) -> (r: Result<Vec<IndexId>, QueryError>)
    ensures
        match spec_query_indices(info@, *query) {
            Ok(indices) => r matches Ok(found) && found@ == indices,
            Err(e) => r matches Err(error) && error@ == e,
        },
{
    let pattern = info.position_pattern();
    match query {
        IndexQuery::All => match info.index() {
            Index::Range { min, max } => {
                let mut found: Vec<IndexId> = Vec::new();
                if min <= max {
                    let mut next: usize = min;
                    loop
                        invariant_except_break
                            found@ == spec_range(min, max).take(next - min),
                        invariant
                            min <= next <= max,
                        ensures
                            found@ == spec_range(min, max),
                        decreases max - next,
                    {
                        found.push(next);
                        assert(found@ =~= spec_range(min, max).take(next - min + 1));
                        if next == max {
                            assert(spec_range(min, max).take(next - min + 1) =~= spec_range(min, max));
                            break ;
                        }
                        next += 1;
                    }
                } else {
                    assert(found@ =~= spec_range(min, max));
                }
                Ok(found)
            },
        },
        IndexQuery::Index(index) => {
            let mut found: Vec<IndexId> = Vec::new();
            found.push(*index);
            assert(found@ =~= seq![*index]);
            Ok(found)
        },
        IndexQuery::PixelRect(rect) => {
            let mut found: Vec<IndexId> = Vec::new();
            let mut walk = rect.iter();
            assert(Seq::<IndexId>::empty() + spec_pixel_indices(info@.position_pattern, rect@)->Ok_0
                =~= spec_pixel_indices(info@.position_pattern, rect@)->Ok_0);
            loop
                invariant_except_break
                    spec_pixel_indices(info@.position_pattern, rect@) == then(
                        found@,
                        spec_pixel_indices(info@.position_pattern, walk.remaining()),
                    ),
                invariant
                    pattern@ == info@.position_pattern,
                    spec_query_indices(info@, *query) == spec_pixel_indices(info@.position_pattern, rect@),
                ensures
                    spec_pixel_indices(info@.position_pattern, rect@) == Ok::<Seq<IndexId>, QueryErrorView>(
                        found@,
                    ),
                decreases walk.remaining().len(),
            {
                let ghost before = found@;
                let ghost rest = walk.remaining();
                match walk.next() {
                    None => {
                        assert(found@ + Seq::<IndexId>::empty() =~= found@);
                        break ;
                    },
                    Some(pixel) => match pattern.pixel_to_index(&pixel) {
                        None => {
                            return Err(QueryError::OutOfBounds(pixel));
                        },
                        Some(index) => {
                            found.push(index);
                            proof {
                                let more = spec_pixel_indices(info@.position_pattern, rest.drop_first());
                                if more is Ok {
                                    assert(before + (seq![index] + more->Ok_0) =~= found@ + more->Ok_0);
                                }
                            }
                        },
                    },
                }
            }
            Ok(found)
        },
        IndexQuery::Pixel(pixel) => {
            assert(seq![*pixel].drop_first() =~= Seq::<Pixel>::empty());
            match pattern.pixel_to_index(pixel) {
                None => Err(QueryError::OutOfBounds(*pixel)),
                Some(index) => {
                    let mut found: Vec<IndexId> = Vec::new();
                    found.push(index);
                    assert(found@ =~= seq![index] + Seq::<IndexId>::empty());
                    assert(spec_pixel_indices(info@.position_pattern, Seq::<Pixel>::empty()) == Ok::<
                        Seq<IndexId>,
                        QueryErrorView,
                    >(Seq::empty()));
                    Ok(found)
                },
            }
        },
    }
}

/// The numbers of the first `count` segments.
pub open spec fn spec_first_segments(count: nat) -> Seq<SegmentId> {
    Seq::new(count, |k: int| k as u8)
}

/// The numbers of the segments that `query` selects at the position
/// `index`. The position's property file is read whatever the query is;
/// numbers that the query lists are not held against the count it gives.
pub open spec fn spec_segments(files: Map<Seq<char>, Seq<u8>>, index: IndexId, query: SegmentQuery) -> Result<
    Seq<SegmentId>,
    QueryErrorView,
> {
    match spec_index_data(files, index as nat) {
        Err(e) => Err(e),
        Ok(count) => Ok(
            match query {
                SegmentQuery::All => spec_first_segments(count),
                SegmentQuery::Indices(list) => list@,
            },
        ),
    }
}

/// Resolves the segment part of a query at the position `index`.
pub fn index_segments(archive: &mut Archive, index: IndexId, query: &SegmentQuery) -> (r: Result<
    Vec<SegmentId>,
    QueryError,
>)
    ensures
        final(archive).files() == old(archive).files(),
        final(archive).names() == old(archive).names(),
        match spec_segments(old(archive).files(), index, *query) {
            Ok(segments) => r matches Ok(found) && found@ == segments,
            Err(e) => r matches Err(error) && error@ == e,
        },
{
    let data = match index_data(archive, index) {
        Ok(data) => data,
        Err(error) => {
            return Err(error);
        },
    };
    match query {
        SegmentQuery::All => {
            let count = data.segment_count();
            let mut found: Vec<SegmentId> = Vec::new();
            let mut next: u8 = 0;
            while next < count
                invariant
                    next <= count,
                    found@ == spec_first_segments(next as nat),
                decreases count - next,
            {
                found.push(next);
                next += 1;
                assert(found@ =~= spec_first_segments(next as nat));
            }
            Ok(found)
        },
        SegmentQuery::Indices(list) => {
            let mut found: Vec<SegmentId> = Vec::new();
            let mut i: usize = 0;
            while i < list.len()
                invariant
                    i <= list.len(),
                    found@ == list@.take(i as int),
                decreases list.len() - i,
            {
                found.push(list[i]);
                i += 1;
                assert(found@ =~= list@.take(i as int));
            }
            assert(list@.take(list.len() as int) =~= list@);
            Ok(found)
        },
    }
}

/// One channel that a query selects, with the place of its data.
#[derive(Debug, Clone)]
pub struct Job {
    /// Position, segment and channel.
    pub index: DataIndex,
    /// Which entry of the encoding table the data goes by.
    pub shared_data_index: usize,
    /// The data file's path from the directory of the segment.
    pub file_path: String,
}

/// A `Job` as numbers and sequences of characters.
pub struct JobView {
    pub index: DataIndexView,
    pub shared_data_index: nat,
    pub file_path: Seq<char>,
}

impl View for Job {
    type V = JobView;

    open spec fn view(&self) -> JobView {
        JobView { index: self.index@, shared_data_index: self.shared_data_index as nat, file_path: self.file_path@ }
    }
}

/// The views of `jobs`, in the same order.
pub open spec fn job_views(jobs: Seq<Job>) -> Seq<JobView> {
    Seq::new(jobs.len(), |i: int| jobs[i]@)
}

/// Those of the names `asked` that are among `declared`, in the order in
/// which they were asked for.
pub open spec fn spec_kept(asked: Seq<Seq<char>>, declared: Seq<Seq<char>>) -> Seq<Seq<char>>
    decreases asked.len(),
{
    if asked.len() == 0 {
        Seq::empty()
    } else if declared.contains(asked[0]) {
        seq![asked[0]] + spec_kept(asked.drop_first(), declared)
    } else {
        spec_kept(asked.drop_first(), declared)
    }
}

/// The channels that `query` selects of those that a segment declares.
/// A channel that the query names and the segment lacks is left out.
pub open spec fn spec_selected(declared: Seq<Seq<char>>, query: ChannelQuery) -> Seq<Seq<char>> {
    match query {
        ChannelQuery::All => declared,
        ChannelQuery::Include(list) => spec_kept(names_of(list@), declared),
    }
}

/// The job for `channel` of the segment `segment` at the position `index`.
pub open spec fn spec_job(data: ChannelDataView, index: IndexId, segment: SegmentId, channel: Seq<char>) -> JobView {
    JobView {
        index: DataIndexView { index: index as nat, segment: segment as nat, channel },
        shared_data_index: data.shared_data_index,
        file_path: data.file_path,
    }
}

/// The jobs for `channels` of the segment `segment` at the position
/// `index`, in the same order.
pub open spec fn spec_channel_jobs(
    properties: Map<Seq<char>, Seq<char>>,
    index: IndexId,
    segment: SegmentId,
    channels: Seq<Seq<char>>,
) -> Result<Seq<JobView>, QueryErrorView>
    decreases channels.len(),
{
    if channels.len() == 0 {
        Ok(Seq::empty())
    } else {
        match spec_channel(properties, channels[0], index as nat, segment as nat) {
            Err(e) => Err(e),
            Ok(data) => then(
                seq![spec_job(data, index, segment, channels[0])],
                spec_channel_jobs(properties, index, segment, channels.drop_first()),
            ),
        }
    }
}

/// The jobs for the channels that `query` selects in the segment `segment`
/// at the position `index`.
pub open spec fn spec_segment_jobs(
    files: Map<Seq<char>, Seq<u8>>,
    index: IndexId,
    segment: SegmentId,
    query: ChannelQuery,
) -> Result<Seq<JobView>, QueryErrorView> {
    match spec_segment_properties(files, index as nat, segment as nat) {
        Err(e) => Err(e),
        Ok(properties) => match spec_segment_data(properties, index as nat, segment as nat) {
            Err(e) => Err(e),
            Ok(declared) => spec_channel_jobs(properties, index, segment, spec_selected(declared, query)),
        },
    }
}

/// Whether one of `names` equals `name`.
fn has_name(names: &Vec<String>, name: &String) -> (r: bool)
    ensures
        r == names_of(names@).contains(name@),
{
    let mut i: usize = 0;
    while i < names.len()
        invariant
            i <= names.len(),
            forall|j: int| 0 <= j < i ==> names@[j]@ != name@,
        decreases names.len() - i,
    {
        if names[i] == *name {
            assert(names_of(names@)[i as int] == name@);
            return true;
        }
        i += 1;
    }
    proof {
        if names_of(names@).contains(name@) {
            let j = choose|j: int| 0 <= j < names.len() && names_of(names@)[j] == name@;
            assert(names@[j]@ == name@);
        }
    }
    false
}

/// The channels that `query` selects of those that a segment declares.
fn selected(declared: &Vec<String>, query: &ChannelQuery) -> (found: Vec<String>)
    ensures
        names_of(found@) == spec_selected(names_of(declared@), *query),
{
    match query {
        ChannelQuery::All => {
            let found = declared.clone();
            assert(names_of(found@) =~= names_of(declared@)) by {
                assert(found@.len() == declared@.len());
                assert forall|i: int| 0 <= i < found@.len() implies found@[i]@ == declared@[i]@ by {
                    assert(cloned(declared@[i], found@[i]));
                }
            }
            found
        },
        ChannelQuery::Include(list) => {
            let ghost asked = names_of(list@);
            let ghost all = names_of(declared@);
            let mut found: Vec<String> = Vec::new();
            let mut i: usize = 0;
            assert(asked.skip(0) =~= asked);
            assert(names_of(found@) + spec_kept(asked, all) =~= spec_kept(asked, all));
            while i < list.len()
                invariant
                    i <= list.len(),
                    asked == names_of(list@),
                    all == names_of(declared@),
                    spec_kept(asked, all) == names_of(found@) + spec_kept(asked.skip(i as int), all),
                decreases list.len() - i,
            {
                let ghost before = names_of(found@);
                let ghost rest = asked.skip(i as int);
                assert(rest.drop_first() =~= asked.skip(i + 1));
                assert(rest[0] == list@[i as int]@);
                if has_name(declared, &list[i]) {
                    found.push(list[i].clone());
                    assert(before + (seq![rest[0]] + spec_kept(rest.drop_first(), all)) =~= names_of(found@)
                        + spec_kept(rest.drop_first(), all));
                }
                i += 1;
            }
            assert(asked.skip(list.len() as int) =~= Seq::<Seq<char>>::empty());
            assert(names_of(found@) + Seq::<Seq<char>>::empty() =~= names_of(found@));
            found
        },
    }
}

/// Resolves the channel part of a query in the segment `segment` at the
/// position `index`.
pub fn segment_jobs(archive: &mut Archive, index: IndexId, segment: SegmentId, query: &ChannelQuery) -> (r: Result<
    Vec<Job>,
    QueryError,
>)
    ensures
        final(archive).files() == old(archive).files(),
        final(archive).names() == old(archive).names(),
        match spec_segment_jobs(old(archive).files(), index, segment, *query) {
            Ok(jobs) => r matches Ok(found) && job_views(found@) == jobs,
            Err(e) => r matches Err(error) && error@ == e,
        },
{
    let properties = match segment_properties(archive, index, segment) {
        Ok(properties) => properties,
        Err(error) => {
            return Err(error);
        },
    };
    let data = match segment_data(&properties, index, segment) {
        Ok(data) => data,
        Err(error) => {
            return Err(error);
        },
    };
    let channels = selected(data.channels(), query);
    let ghost names = names_of(channels@);
    let mut found: Vec<Job> = Vec::new();
    let mut i: usize = 0;
    assert(names.skip(0) =~= names);
    assert(job_views(found@) + spec_channel_jobs(properties.inner@, index, segment, names)->Ok_0
        =~= spec_channel_jobs(properties.inner@, index, segment, names)->Ok_0);
    while i < channels.len()
        invariant
            i <= channels.len(),
            names == names_of(channels@),
            archive.files() == old(archive).files(),
            archive.names() == old(archive).names(),
            spec_segment_jobs(old(archive).files(), index, segment, *query) == spec_channel_jobs(
                properties.inner@,
                index,
                segment,
                names,
            ),
            spec_channel_jobs(properties.inner@, index, segment, names) == then(
                job_views(found@),
                spec_channel_jobs(properties.inner@, index, segment, names.skip(i as int)),
            ),
        decreases channels.len() - i,
    {
        let ghost before = job_views(found@);
        let ghost rest = names.skip(i as int);
        assert(rest.drop_first() =~= names.skip(i + 1));
        assert(rest[0] == channels@[i as int]@);
        let channel = channels[i].clone();
        let data = match channel_data(&properties, channel.as_str(), index, segment) {
            Ok(data) => data,
            Err(error) => {
                return Err(error);
            },
        };
        let job = Job {
            index: DataIndex { index, segment, channel },
            shared_data_index: data.shared_data_index(),
            file_path: data.file_path().clone(),
        };
        assert(job@ == spec_job(data@, index, segment, rest[0]));
        found.push(job);
        proof {
            let more = spec_channel_jobs(properties.inner@, index, segment, rest.drop_first());
            if more is Ok {
                assert(before + (seq![job@] + more->Ok_0) =~= job_views(found@) + more->Ok_0);
            }
        }
        i += 1;
    }
    assert(names.skip(channels.len() as int) =~= Seq::<Seq<char>>::empty());
    assert(job_views(found@) + Seq::<JobView>::empty() =~= job_views(found@));
    Ok(found)
}

/// The jobs for the channels that `query` selects in the segments
/// `segments` at the position `index`, segment by segment.
pub open spec fn spec_segments_jobs(
    files: Map<Seq<char>, Seq<u8>>,
    index: IndexId,
    segments: Seq<SegmentId>,
    query: ChannelQuery,
) -> Result<Seq<JobView>, QueryErrorView>
    decreases segments.len(),
{
    if segments.len() == 0 {
        Ok(Seq::empty())
    } else {
        match spec_segment_jobs(files, index, segments[0], query) {
            Err(e) => Err(e),
            Ok(jobs) => then(jobs, spec_segments_jobs(files, index, segments.drop_first(), query)),
        }
    }
}

/// The jobs that a query selects at the position `index`.
pub open spec fn spec_index_jobs(files: Map<Seq<char>, Seq<u8>>, index: IndexId, query: Query) -> Result<
    Seq<JobView>,
    QueryErrorView,
> {
    match spec_segments(files, index, query.segment) {
        Err(e) => Err(e),
        Ok(segments) => spec_segments_jobs(files, index, segments, query.channel),
    }
}

/// The jobs that a query selects at the positions `indices`, position by
/// position.
pub open spec fn spec_indices_jobs(files: Map<Seq<char>, Seq<u8>>, indices: Seq<IndexId>, query: Query) -> Result<
    Seq<JobView>,
    QueryErrorView,
>
    decreases indices.len(),
{
    if indices.len() == 0 {
        Ok(Seq::empty())
    } else {
        match spec_index_jobs(files, indices[0], query) {
            Err(e) => Err(e),
            Ok(jobs) => then(jobs, spec_indices_jobs(files, indices.drop_first(), query)),
        }
    }
}

/// The jobs that a query selects: its channels in its segments at its
/// positions, in that order.
pub open spec fn spec_jobs(files: Map<Seq<char>, Seq<u8>>, info: DatasetInfoView, query: Query) -> Result<
    Seq<JobView>,
    QueryErrorView,
> {
    match spec_query_indices(info, query.index) {
        Err(e) => Err(e),
        Ok(indices) => spec_indices_jobs(files, indices, query),
    }
}

/// Resolves the segment and channel parts of a query at the position
/// `index`.
pub fn index_jobs(archive: &mut Archive, index: IndexId, query: &Query) -> (r: Result<Vec<Job>, QueryError>)
    ensures
        final(archive).files() == old(archive).files(),
        final(archive).names() == old(archive).names(),
        match spec_index_jobs(old(archive).files(), index, *query) {
            Ok(jobs) => r matches Ok(found) && job_views(found@) == jobs,
            Err(e) => r matches Err(error) && error@ == e,
        },
{
    let ghost files = archive.files();
    let segments = match index_segments(archive, index, &query.segment) {
        Ok(segments) => segments,
        Err(error) => {
            return Err(error);
        },
    };
    let mut found: Vec<Job> = Vec::new();
    let mut i: usize = 0;
    assert(segments@.skip(0) =~= segments@);
    assert(job_views(found@) + spec_segments_jobs(files, index, segments@, query.channel)->Ok_0
        =~= spec_segments_jobs(files, index, segments@, query.channel)->Ok_0);
    while i < segments.len()
        invariant
            i <= segments.len(),
            archive.files() == files,
            files == old(archive).files(),
            archive.names() == old(archive).names(),
            spec_index_jobs(files, index, *query) == spec_segments_jobs(files, index, segments@, query.channel),
            spec_segments_jobs(files, index, segments@, query.channel) == then(
                job_views(found@),
                spec_segments_jobs(files, index, segments@.skip(i as int), query.channel),
            ),
        decreases segments.len() - i,
    {
        let ghost before = job_views(found@);
        let ghost rest = segments@.skip(i as int);
        assert(rest.drop_first() =~= segments@.skip(i + 1));
        let mut jobs = match segment_jobs(archive, index, segments[i], &query.channel) {
            Ok(jobs) => jobs,
            Err(error) => {
                return Err(error);
            },
        };
        let ghost added = job_views(jobs@);
        found.append(&mut jobs);
        proof {
            assert(job_views(found@) =~= before + added);
            let more = spec_segments_jobs(files, index, rest.drop_first(), query.channel);
            if more is Ok {
                assert(before + (added + more->Ok_0) =~= job_views(found@) + more->Ok_0);
            }
        }
        i += 1;
    }
    assert(segments@.skip(segments.len() as int) =~= Seq::<SegmentId>::empty());
    assert(job_views(found@) + Seq::<JobView>::empty() =~= job_views(found@));
    Ok(found)
}

/// Resolves a query to its jobs.
pub fn resolve(archive: &mut Archive, info: &DatasetInfo, query: &Query) -> (r: Result<Vec<Job>, QueryError>)
    ensures
        final(archive).files() == old(archive).files(),
        final(archive).names() == old(archive).names(),
        match spec_jobs(old(archive).files(), info@, *query) {
            Ok(jobs) => r matches Ok(found) && job_views(found@) == jobs,
            Err(e) => r matches Err(error) && error@ == e,
        },
{
    let ghost files = archive.files();
    let indices = match query_indices(info, &query.index) {
        Ok(indices) => indices,
        Err(error) => {
            return Err(error);
        },
    };
    let mut found: Vec<Job> = Vec::new();
    let mut i: usize = 0;
    assert(indices@.skip(0) =~= indices@);
    assert(job_views(found@) + spec_indices_jobs(files, indices@, *query)->Ok_0 =~= spec_indices_jobs(
        files,
        indices@,
        *query,
    )->Ok_0);
    while i < indices.len()
        invariant
            i <= indices.len(),
            archive.files() == files,
            files == old(archive).files(),
            archive.names() == old(archive).names(),
            spec_jobs(files, info@, *query) == spec_indices_jobs(files, indices@, *query),
            spec_indices_jobs(files, indices@, *query) == then(
                job_views(found@),
                spec_indices_jobs(files, indices@.skip(i as int), *query),
            ),
        decreases indices.len() - i,
    {
        let ghost before = job_views(found@);
        let ghost rest = indices@.skip(i as int);
        assert(rest.drop_first() =~= indices@.skip(i + 1));
        let mut jobs = match index_jobs(archive, indices[i], query) {
            Ok(jobs) => jobs,
            Err(error) => {
                return Err(error);
            },
        };
        let ghost added = job_views(jobs@);
        found.append(&mut jobs);
        proof {
            assert(job_views(found@) =~= before + added);
            let more = spec_indices_jobs(files, rest.drop_first(), *query);
            if more is Ok {
                assert(before + (added + more->Ok_0) =~= job_views(found@) + more->Ok_0);
            }
        }
        i += 1;
    }
    assert(indices@.skip(indices.len() as int) =~= Seq::<IndexId>::empty());
    assert(job_views(found@) + Seq::<JobView>::empty() =~= job_views(found@));
    Ok(found)
}

} // verus!
