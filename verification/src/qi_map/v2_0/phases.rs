//! A data query answered in phases.
//!
//! The steps of a query do not depend on one another within one phase:
//! first the segments of every position are resolved, then the channels of
//! every segment, then every data file is read, then every one is decoded.
//! Each phase can so be handed out to workers step by step, as long as its
//! results come back in the order of what went in. This module runs the
//! phases one step after the other and shows that a query answered in
//! phases gives what a query answered position by position gives.
use super::fetch::{decode_data, read_data, spec_all_samples, spec_decoded, spec_raw, spec_samples};
use super::reader::{job_indices, spec_query_data, DatasetInfoView, Reader};
use super::resolve::{
    index_segments, job_views, query_indices, segment_jobs, spec_index_jobs, spec_indices_jobs, spec_jobs,
    spec_query_indices, spec_segment_jobs, spec_segments, spec_segments_jobs, then, Job, JobView,
};
use crate::dataset::v2_0::lcd_info::{lcd_views, LcdInfoView};
use crate::qi_map::data::{samples_viewer, samples_views, Data, Samples, SamplesView};
use crate::qi_map::data_index::{DataIndex, DataIndexView};
use crate::qi_map::error::{QueryError, QueryErrorView};
use crate::qi_map::{ChannelQuery, IndexId, Query, SegmentId, SegmentQuery};
use crate::table::{lemma_written_map_values, ranks_of, written};
use vstd::prelude::*;

verus! {

/// The position `index` with each of `segments`, in the same order.
pub open spec fn pairs_of(index: IndexId, segments: Seq<SegmentId>) -> Seq<(IndexId, SegmentId)> {
    Seq::new(segments.len(), |k: int| (index, segments[k]))
}

/// First phase: each position of `indices` with each of the segments that
/// `query` selects at it.
pub open spec fn spec_pairs(files: Map<Seq<char>, Seq<u8>>, indices: Seq<IndexId>, query: SegmentQuery) -> Result<
    Seq<(IndexId, SegmentId)>,
    QueryErrorView,
>
    decreases indices.len(),
{
    if indices.len() == 0 {
        Ok(Seq::empty())
    } else {
        match spec_segments(files, indices[0], query) {
            Err(e) => Err(e),
            Ok(segments) => then(pairs_of(indices[0], segments), spec_pairs(files, indices.drop_first(), query)),
        }
    }
}

/// Second phase: the jobs for the channels that `query` selects in each
/// segment of `pairs`.
pub open spec fn spec_pairs_jobs(
    files: Map<Seq<char>, Seq<u8>>,
    pairs: Seq<(IndexId, SegmentId)>,
    query: ChannelQuery,
) -> Result<Seq<JobView>, QueryErrorView>
    decreases pairs.len(),
{
    if pairs.len() == 0 {
        Ok(Seq::empty())
    } else {
        match spec_segment_jobs(files, pairs[0].0, pairs[0].1, query) {
            Err(e) => Err(e),
            Ok(jobs) => then(jobs, spec_pairs_jobs(files, pairs.drop_first(), query)),
        }
    }
}

/// Third phase: the bytes of the data file of each job.
pub open spec fn spec_all_raw(files: Map<Seq<char>, Seq<u8>>, jobs: Seq<JobView>) -> Result<
    Seq<Seq<u8>>,
    QueryErrorView,
>
    decreases jobs.len(),
{
    if jobs.len() == 0 {
        Ok(Seq::empty())
    } else {
        match spec_raw(files, jobs[0]) {
            Err(e) => Err(e),
            Ok(raw) => then(seq![raw], spec_all_raw(files, jobs.drop_first())),
        }
    }
}

/// Fourth phase: the samples that the bytes of each job's data file write.
pub open spec fn spec_all_decoded(table: Seq<LcdInfoView>, jobs: Seq<JobView>, raw: Seq<Seq<u8>>) -> Result<
    Seq<SamplesView>,
    QueryErrorView,
>
    recommends
        jobs.len() == raw.len(),
    decreases jobs.len(),
{
    if jobs.len() == 0 || raw.len() == 0 {
        Ok(Seq::empty())
    } else {
        match spec_decoded(table, jobs[0], raw[0]) {
            Err(e) => Err(e),
            Ok(samples) => then(seq![samples], spec_all_decoded(table, jobs.drop_first(), raw.drop_first())),
        }
    }
}

/// The jobs of a query as the first two phases find them.
pub open spec fn spec_jobs_in_phases(files: Map<Seq<char>, Seq<u8>>, info: DatasetInfoView, query: Query) -> Result<
    Seq<JobView>,
    QueryErrorView,
> {
    match spec_query_indices(info, query.index) {
        Err(e) => Err(e),
        Ok(indices) => match spec_pairs(files, indices, query.segment) {
            Err(e) => Err(e),
            Ok(pairs) => spec_pairs_jobs(files, pairs, query.channel),
        },
    }
}

/// The samples of `jobs` as the last two phases find them.
pub open spec fn spec_samples_in_phases(files: Map<Seq<char>, Seq<u8>>, table: Seq<LcdInfoView>, jobs: Seq<JobView>) -> Result<
    Seq<SamplesView>,
    QueryErrorView,
> {
    match spec_all_raw(files, jobs) {
        Err(e) => Err(e),
        Ok(raw) => spec_all_decoded(table, jobs, raw),
    }
}

/// What a data query answered in phases gives. Each phase is finished
/// before the next begins, and stops at its first step that fails.
pub open spec fn spec_query_data_in_phases(
    files: Map<Seq<char>, Seq<u8>>,
    info: DatasetInfoView,
    table: Seq<LcdInfoView>,
    query: Query,
) -> Result<Map<DataIndexView, SamplesView>, QueryErrorView> {
    match spec_jobs_in_phases(files, info, query) {
        Err(e) => Err(e),
        Ok(jobs) => match spec_samples_in_phases(files, table, jobs) {
            Err(e) => Err(e),
            Ok(samples) => Ok(written(job_indices(jobs), samples)),
        },
    }
}

/// The jobs of pairs put one behind the other are the jobs of the first
/// pairs followed by the jobs of the others.
proof fn lemma_pairs_jobs_append(
    files: Map<Seq<char>, Seq<u8>>,
    first: Seq<(IndexId, SegmentId)>,
    others: Seq<(IndexId, SegmentId)>,
    query: ChannelQuery,
)
    ensures
        spec_pairs_jobs(files, first + others, query) == (match spec_pairs_jobs(files, first, query) {
            Err(e) => Err(e),
            Ok(jobs) => then(jobs, spec_pairs_jobs(files, others, query)),
        }),
    decreases first.len(),
{
    if first.len() == 0 {
        assert(first + others =~= others);
        let rest = spec_pairs_jobs(files, others, query);
        if rest is Ok {
            assert(Seq::<JobView>::empty() + rest->Ok_0 =~= rest->Ok_0);
        }
    } else {
        let all = first + others;
        assert(all[0] == first[0]);
        assert(all.drop_first() =~= first.drop_first() + others);
        lemma_pairs_jobs_append(files, first.drop_first(), others, query);
        let head = spec_segment_jobs(files, first[0].0, first[0].1, query);
        let middle = spec_pairs_jobs(files, first.drop_first(), query);
        let rest = spec_pairs_jobs(files, others, query);
        if head is Ok && middle is Ok && rest is Ok {
            assert(head->Ok_0 + (middle->Ok_0 + rest->Ok_0) =~= (head->Ok_0 + middle->Ok_0) + rest->Ok_0);
        }
    }
}

/// The jobs of the pairs of one position are the jobs of its segments.
proof fn lemma_pairs_jobs_of_index(
    files: Map<Seq<char>, Seq<u8>>,
    index: IndexId,
    segments: Seq<SegmentId>,
    query: ChannelQuery,
)
    ensures
        spec_pairs_jobs(files, pairs_of(index, segments), query) == spec_segments_jobs(files, index, segments, query),
    decreases segments.len(),
{
    if segments.len() > 0 {
        let pairs = pairs_of(index, segments);
        assert(pairs[0] == (index, segments[0]));
        assert(pairs.drop_first() =~= pairs_of(index, segments.drop_first()));
        lemma_pairs_jobs_of_index(files, index, segments.drop_first(), query);
    }
}

/// The first two phases find jobs when the query resolved position by
/// position does, and then the same.
proof fn lemma_indices_jobs_in_phases(files: Map<Seq<char>, Seq<u8>>, indices: Seq<IndexId>, query: Query)
    ensures
        spec_indices_jobs(files, indices, query) is Ok <==> (spec_pairs(files, indices, query.segment) matches Ok(
            pairs,
        ) && spec_pairs_jobs(files, pairs, query.channel) is Ok),
        spec_indices_jobs(files, indices, query) matches Ok(jobs) ==> spec_pairs_jobs(
            files,
            spec_pairs(files, indices, query.segment)->Ok_0,
            query.channel,
        ) == Ok::<Seq<JobView>, QueryErrorView>(jobs),
    decreases indices.len(),
{
    if indices.len() > 0 {
        lemma_indices_jobs_in_phases(files, indices.drop_first(), query);
        match spec_segments(files, indices[0], query.segment) {
            Err(_) => {},
            Ok(segments) => {
                let later = spec_pairs(files, indices.drop_first(), query.segment);
                lemma_pairs_jobs_of_index(files, indices[0], segments, query.channel);
                if later is Ok {
                    lemma_pairs_jobs_append(files, pairs_of(indices[0], segments), later->Ok_0, query.channel);
                }
            },
        }
    }
}

/// The last two phases find samples when reading and decoding job by job
/// does, and then the same.
proof fn lemma_samples_in_phases(files: Map<Seq<char>, Seq<u8>>, table: Seq<LcdInfoView>, jobs: Seq<JobView>)
    ensures
        spec_all_raw(files, jobs) matches Ok(raw) ==> raw.len() == jobs.len(),
        spec_all_samples(files, table, jobs) is Ok <==> spec_samples_in_phases(files, table, jobs) is Ok,
        spec_all_samples(files, table, jobs) is Ok ==> spec_samples_in_phases(files, table, jobs) == spec_all_samples(
            files,
            table,
            jobs,
        ),
    decreases jobs.len(),
{
    if jobs.len() > 0 {
        lemma_samples_in_phases(files, table, jobs.drop_first());
        match spec_raw(files, jobs[0]) {
            Err(_) => {},
            Ok(raw) => {
                let later = spec_all_raw(files, jobs.drop_first());
                if later is Ok {
                    let all = seq![raw] + later->Ok_0;
                    assert(all[0] == raw);
                    assert(all.drop_first() =~= later->Ok_0);
                }
            },
        }
    }
}

/// A query answered in phases succeeds on the archives on which the query
/// answered position by position succeeds, and then gives the same data.
/// Where they fail, the one may have met another failure first than the
/// other.
pub proof fn lemma_phases_give_the_same(
    files: Map<Seq<char>, Seq<u8>>,
    info: DatasetInfoView,
    table: Seq<LcdInfoView>,
    query: Query,
)
    ensures
        spec_query_data_in_phases(files, info, table, query) is Ok <==> spec_query_data(files, info, table, query)
            is Ok,
        spec_query_data(files, info, table, query) is Ok ==> spec_query_data_in_phases(files, info, table, query)
            == spec_query_data(files, info, table, query),
{
    match spec_query_indices(info, query.index) {
        Err(_) => {},
        Ok(indices) => {
            lemma_indices_jobs_in_phases(files, indices, query);
            if spec_jobs(files, info, query) is Ok {
                lemma_samples_in_phases(files, table, spec_jobs(files, info, query)->Ok_0);
            }
        },
    }
}

impl Reader {
    /// Query data in four phases: the segments of all positions, the
    /// channels of all segments, the bytes of all data files, the samples
    /// of all of them.
    pub fn query_data_in_phases(&mut self, query: &Query) -> (r: Result<Data<Samples>, QueryError>)
        ensures
            final(self).members() == old(self).members(),
            final(self).names() == old(self).names(),
            final(self).info() == old(self).info(),
            final(self).lcd() == old(self).lcd(),
            match spec_query_data_in_phases(old(self).members(), old(self).info(), old(self).lcd(), *query) {
                Ok(found) => r matches Ok(data) && data@.map_values(samples_viewer()) == found,
                Err(e) => r matches Err(error) && error@ == e,
            },
            r is Ok <==> spec_query_data(old(self).members(), old(self).info(), old(self).lcd(), *query) is Ok,
            r matches Ok(data) ==> spec_query_data(old(self).members(), old(self).info(), old(self).lcd(), *query)
                == Ok::<Map<DataIndexView, SamplesView>, QueryErrorView>(data@.map_values(samples_viewer())),
    {
        let ghost files = self.archive.files();
        proof {
            lemma_phases_give_the_same(files, self.info(), self.lcd(), *query);
        }
        let indices = match query_indices(&self.dataset_info, &query.index) {
            Ok(indices) => indices,
            Err(error) => {
                return Err(error);
            },
        };

        let mut pairs: Vec<(IndexId, SegmentId)> = Vec::new();
        let mut i: usize = 0;
        assert(indices@.skip(0) =~= indices@);
        assert(pairs@ + spec_pairs(files, indices@, query.segment)->Ok_0 =~= spec_pairs(
            files,
            indices@,
            query.segment,
        )->Ok_0);
        while i < indices.len()
            invariant
                i <= indices.len(),
                self.archive.files() == files,
                files == old(self).members(),
                self.names() == old(self).names(),
                self.info() == old(self).info(),
                self.lcd() == old(self).lcd(),
                spec_query_data_in_phases(files, self.info(), self.lcd(), *query) is Ok <==> spec_query_data(
                    files,
                    self.info(),
                    self.lcd(),
                    *query,
                ) is Ok,
                spec_query_indices(self.info(), query.index) == Ok::<Seq<IndexId>, QueryErrorView>(indices@),
                spec_pairs(files, indices@, query.segment) == then(
                    pairs@,
                    spec_pairs(files, indices@.skip(i as int), query.segment),
                ),
            decreases indices.len() - i,
        {
            let ghost before = pairs@;
            let ghost rest = indices@.skip(i as int);
            assert(rest.drop_first() =~= indices@.skip(i + 1));
            let index = indices[i];
            let segments = match index_segments(&mut self.archive, index, &query.segment) {
                Ok(segments) => segments,
                Err(error) => {
                    return Err(error);
                },
            };
            let mut k: usize = 0;
            while k < segments.len()
                invariant
                    k <= segments.len(),
                    pairs@ == before + pairs_of(index, segments@.take(k as int)),
                decreases segments.len() - k,
            {
                pairs.push((index, segments[k]));
                k += 1;
                assert(pairs@ =~= before + pairs_of(index, segments@.take(k as int)));
            }
            proof {
                assert(segments@.take(segments.len() as int) =~= segments@);
                let more = spec_pairs(files, rest.drop_first(), query.segment);
                if more is Ok {
                    assert(before + (pairs_of(index, segments@) + more->Ok_0) =~= pairs@ + more->Ok_0);
                }
            }
            i += 1;
        }
        assert(indices@.skip(indices.len() as int) =~= Seq::<IndexId>::empty());
        assert(pairs@ + Seq::<(IndexId, SegmentId)>::empty() =~= pairs@);

        let mut jobs: Vec<Job> = Vec::new();
        let mut i: usize = 0;
        assert(pairs@.skip(0) =~= pairs@);
        assert(job_views(jobs@) + spec_pairs_jobs(files, pairs@, query.channel)->Ok_0 =~= spec_pairs_jobs(
            files,
            pairs@,
            query.channel,
        )->Ok_0);
        while i < pairs.len()
            invariant
                i <= pairs.len(),
                self.archive.files() == files,
                files == old(self).members(),
                self.names() == old(self).names(),
                self.info() == old(self).info(),
                self.lcd() == old(self).lcd(),
                spec_query_data_in_phases(files, self.info(), self.lcd(), *query) is Ok <==> spec_query_data(
                    files,
                    self.info(),
                    self.lcd(),
                    *query,
                ) is Ok,
                spec_jobs_in_phases(files, self.info(), *query) == spec_pairs_jobs(files, pairs@, query.channel),
                spec_pairs_jobs(files, pairs@, query.channel) == then(
                    job_views(jobs@),
                    spec_pairs_jobs(files, pairs@.skip(i as int), query.channel),
                ),
            decreases pairs.len() - i,
        {
            let ghost before = job_views(jobs@);
            let ghost rest = pairs@.skip(i as int);
            assert(rest.drop_first() =~= pairs@.skip(i + 1));
            let mut found = match segment_jobs(&mut self.archive, pairs[i].0, pairs[i].1, &query.channel) {
                Ok(found) => found,
                Err(error) => {
                    return Err(error);
                },
            };
            let ghost added = job_views(found@);
            jobs.append(&mut found);
            proof {
                assert(job_views(jobs@) =~= before + added);
                let more = spec_pairs_jobs(files, rest.drop_first(), query.channel);
                if more is Ok {
                    assert(before + (added + more->Ok_0) =~= job_views(jobs@) + more->Ok_0);
                }
            }
            i += 1;
        }
        assert(pairs@.skip(pairs.len() as int) =~= Seq::<(IndexId, SegmentId)>::empty());
        assert(job_views(jobs@) + Seq::<JobView>::empty() =~= job_views(jobs@));

        let ghost all = job_views(jobs@);
        let mut raw_data: Vec<Vec<u8>> = Vec::new();
        let ghost mut raws: Seq<Seq<u8>> = Seq::empty();
        let mut i: usize = 0;
        assert(all.skip(0) =~= all);
        assert(raws + spec_all_raw(files, all)->Ok_0 =~= spec_all_raw(files, all)->Ok_0);
        while i < jobs.len()
            invariant
                i <= jobs.len(),
                raw_data.len() == i,
                raws.len() == i,
                forall|j: int| 0 <= j < i ==> (#[trigger] raw_data[j])@ == raws[j],
                all == job_views(jobs@),
                self.archive.files() == files,
                files == old(self).members(),
                self.names() == old(self).names(),
                self.info() == old(self).info(),
                self.lcd() == old(self).lcd(),
                spec_query_data_in_phases(files, self.info(), self.lcd(), *query) is Ok <==> spec_query_data(
                    files,
                    self.info(),
                    self.lcd(),
                    *query,
                ) is Ok,
                spec_jobs_in_phases(files, self.info(), *query) == Ok::<Seq<JobView>, QueryErrorView>(all),
                spec_all_raw(files, all) == then(raws, spec_all_raw(files, all.skip(i as int))),
            decreases jobs.len() - i,
        {
            let ghost before = raws;
            let ghost rest = all.skip(i as int);
            assert(rest.drop_first() =~= all.skip(i + 1));
            assert(rest[0] == jobs@[i as int]@);
            let raw = match read_data(&mut self.archive, &jobs[i]) {
                Ok(raw) => raw,
                Err(error) => {
                    return Err(error);
                },
            };
            proof {
                raws = raws.push(raw@);
                let more = spec_all_raw(files, rest.drop_first());
                if more is Ok {
                    assert(before + (seq![raw@] + more->Ok_0) =~= raws + more->Ok_0);
                }
            }
            raw_data.push(raw);
            i += 1;
        }
        assert(all.skip(jobs.len() as int) =~= Seq::<JobView>::empty());
        assert(raws + Seq::<Seq<u8>>::empty() =~= raws);

        let mut samples: Vec<Samples> = Vec::new();
        let mut i: usize = 0;
        assert(all.skip(0) =~= all);
        assert(raws.skip(0) =~= raws);
        assert(samples_views(samples@) + spec_all_decoded(self.lcd(), all, raws)->Ok_0 =~= spec_all_decoded(
            self.lcd(),
            all,
            raws,
        )->Ok_0);
        while i < jobs.len()
            invariant
                i <= jobs.len(),
                samples.len() == i,
                raw_data.len() == jobs.len(),
                raws.len() == jobs.len(),
                forall|j: int| 0 <= j < raw_data.len() ==> (#[trigger] raw_data[j])@ == raws[j],
                all == job_views(jobs@),
                self.archive.files() == files,
                files == old(self).members(),
                self.names() == old(self).names(),
                self.info() == old(self).info(),
                self.lcd() == old(self).lcd(),
                spec_query_data_in_phases(files, self.info(), self.lcd(), *query) is Ok <==> spec_query_data(
                    files,
                    self.info(),
                    self.lcd(),
                    *query,
                ) is Ok,
                self.lcd() == lcd_views(self.lcd_info@),
                spec_jobs_in_phases(files, self.info(), *query) == Ok::<Seq<JobView>, QueryErrorView>(all),
                spec_samples_in_phases(files, self.lcd(), all) == spec_all_decoded(self.lcd(), all, raws),
                spec_all_decoded(self.lcd(), all, raws) == then(
                    samples_views(samples@),
                    spec_all_decoded(self.lcd(), all.skip(i as int), raws.skip(i as int)),
                ),
            decreases jobs.len() - i,
        {
            let ghost before = samples_views(samples@);
            let ghost rest = all.skip(i as int);
            let ghost rest_raw = raws.skip(i as int);
            assert(rest.drop_first() =~= all.skip(i + 1));
            assert(rest_raw.drop_first() =~= raws.skip(i + 1));
            assert(rest[0] == jobs@[i as int]@);
            assert(rest_raw[0] == raw_data@[i as int]@);
            let one = match decode_data(&self.lcd_info, &jobs[i], &raw_data[i]) {
                Ok(one) => one,
                Err(error) => {
                    return Err(error);
                },
            };
            samples.push(one);
            proof {
                let more = spec_all_decoded(self.lcd(), rest.drop_first(), rest_raw.drop_first());
                if more is Ok {
                    assert(before + (seq![one@] + more->Ok_0) =~= samples_views(samples@) + more->Ok_0);
                }
            }
            i += 1;
        }
        assert(all.skip(jobs.len() as int) =~= Seq::<JobView>::empty());
        assert(samples_views(samples@) + Seq::<SamplesView>::empty() =~= samples_views(samples@));

        let mut indices: Vec<DataIndex> = Vec::new();
        let mut i: usize = 0;
        while i < jobs.len()
            invariant
                i <= jobs.len(),
                indices.len() == i,
                forall|j: int| 0 <= j < i ==> (#[trigger] indices[j])@ == jobs[j]@.index,
            decreases jobs.len() - i,
        {
            let job = &jobs[i];
            indices.push(
                DataIndex { index: job.index.index, segment: job.index.segment, channel: job.index.channel.clone() },
            );
            i += 1;
        }
        proof {
            assert(ranks_of(indices@) =~= job_indices(all));
            assert(samples_views(samples@).len() == samples.len());
            lemma_written_map_values(ranks_of(indices@), samples@, samples_viewer());
        }
        Ok(Data::from_pairs(indices, samples))
    }
}

} // verus!
