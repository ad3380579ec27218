//! From a job to the samples of its channel.
use crate::dataset::v2_0::lcd_info::{lcd_views, spec_decode, LcdInfo, LcdInfoView};
use super::resolve::{job_views, then, Job, JobView};
use super::segment_data::{channel_key, SegmentProperties};
use super::utils::{
    data_file_path, index_segment_properties_path, spec_data_file_path, spec_index_segment_properties_path,
};
use crate::archive::Archive;
use crate::dataset::properties::error::{Property, PropertyView};
use crate::qi_map::error::{spec_cause, QueryError, QueryErrorView};
use crate::qi_map::data::{samples_views, Samples, SamplesView};
use vstd::prelude::*;

verus! {

/// The path of the data file of `job`.
pub open spec fn spec_job_path(job: JobView) -> Seq<char> {
    spec_data_file_path(job.index.index, job.index.segment, job.file_path)
}

/// The error for a job that names an entry which the encoding table does
/// not have: the segment's property file holds an invalid value.
pub open spec fn spec_no_entry(job: JobView) -> QueryErrorView {
    QueryErrorView::InvalidFormat {
        path: spec_index_segment_properties_path(job.index.index, job.index.segment),
        cause: spec_cause(PropertyView::InvalidValue(channel_key(job.index.channel, ".lcd-info.*"@))),
    }
}

/// The bytes of the data file of `job`.
pub open spec fn spec_raw(files: Map<Seq<char>, Seq<u8>>, job: JobView) -> Result<Seq<u8>, QueryErrorView> {
    if files.contains_key(spec_job_path(job)) {
        Ok(files[spec_job_path(job)])
    } else {
        Err(QueryErrorView::Zip { path: spec_job_path(job) })
    }
}

/// The samples that the bytes `raw` of the data file of `job` write.
pub open spec fn spec_decoded(table: Seq<LcdInfoView>, job: JobView, raw: Seq<u8>) -> Result<
    SamplesView,
    QueryErrorView,
> {
    if job.shared_data_index >= table.len() {
        Err(spec_no_entry(job))
    } else {
        match spec_decode(table[job.shared_data_index as int].encoder, raw) {
            None => Err(QueryErrorView::InvalidData { path: spec_job_path(job) }),
            Some(values) => Ok(SamplesView { lcd_info: job.shared_data_index, values }),
        }
    }
}

/// The samples of the channel of `job`: its entry of the encoding table
/// is looked up first, then its data file is read and decoded.
pub open spec fn spec_samples(files: Map<Seq<char>, Seq<u8>>, table: Seq<LcdInfoView>, job: JobView) -> Result<
    SamplesView,
    QueryErrorView,
> {
    if job.shared_data_index >= table.len() {
        Err(spec_no_entry(job))
    } else {
        match spec_raw(files, job) {
            Err(e) => Err(e),
            Ok(raw) => spec_decoded(table, job, raw),
        }
    }
}

/// The samples of the channels of `jobs`, in the same order.
pub open spec fn spec_all_samples(files: Map<Seq<char>, Seq<u8>>, table: Seq<LcdInfoView>, jobs: Seq<JobView>) -> Result<
    Seq<SamplesView>,
    QueryErrorView,
>
    decreases jobs.len(),
{
    if jobs.len() == 0 {
        Ok(Seq::empty())
    } else {
        match spec_samples(files, table, jobs[0]) {
            Err(e) => Err(e),
            Ok(samples) => then(seq![samples], spec_all_samples(files, table, jobs.drop_first())),
        }
    }
}

/// Reads the data file of `job`.
pub fn read_data(archive: &mut Archive, job: &Job) -> (r: Result<Vec<u8>, QueryError>)
    ensures
        final(archive).files() == old(archive).files(),
        final(archive).names() == old(archive).names(),
        match spec_raw(old(archive).files(), job@) {
            Ok(raw) => r matches Ok(found) && found@ == raw,
            Err(e) => r matches Err(error) && error@ == e,
        },
{
    let path = data_file_path(job.index.index, job.index.segment, job.file_path.as_str());
    match archive.read(path.as_str()) {
        Ok(raw) => Ok(raw),
        Err(error) => Err(QueryError::Zip { path, error }),
    }
}

/// The error for a job that names an entry which the encoding table does
/// not have.
fn no_entry(job: &Job) -> (error: QueryError)
    ensures
        error@ == spec_no_entry(job@),
{
    let key = SegmentProperties::channel_shared_data_index_key(job.index.channel.as_str());
    QueryError::invalid_property(
        index_segment_properties_path(job.index.index, job.index.segment),
        &Property::InvalidValue(key),
    )
}

/// Decodes the bytes `raw` of the data file of `job`.
pub fn decode_data(table: &Vec<LcdInfo>, job: &Job, raw: &Vec<u8>) -> (r: Result<Samples, QueryError>)
    ensures
        match spec_decoded(lcd_views(table@), job@, raw@) {
            Ok(samples) => r matches Ok(found) && found@ == samples,
            Err(e) => r matches Err(error) && error@ == e,
        },
{
    if job.shared_data_index >= table.len() {
        return Err(no_entry(job));
    }
    let info = &table[job.shared_data_index];
    assert(lcd_views(table@)[job.shared_data_index as int] == info@);
    match info.decode_samples(raw.as_slice()) {
        Ok(values) => Ok(Samples { lcd_info: job.shared_data_index, values }),
        Err(_) => Err(
            QueryError::InvalidData {
                path: data_file_path(job.index.index, job.index.segment, job.file_path.as_str()),
            },
        ),
    }
}

/// Reads and decodes the data file of `job`.
pub fn channel_samples(archive: &mut Archive, table: &Vec<LcdInfo>, job: &Job) -> (r: Result<Samples, QueryError>)
    ensures
        final(archive).files() == old(archive).files(),
        final(archive).names() == old(archive).names(),
        match spec_samples(old(archive).files(), lcd_views(table@), job@) {
            Ok(samples) => r matches Ok(found) && found@ == samples,
            Err(e) => r matches Err(error) && error@ == e,
        },
{
    if job.shared_data_index >= table.len() {
        return Err(no_entry(job));
    }
    let raw = match read_data(archive, job) {
        Ok(raw) => raw,
        Err(error) => {
            return Err(error);
        },
    };
    decode_data(table, job, &raw)
}

/// Reads and decodes the data files of `jobs`, one after the other.
pub fn all_samples(archive: &mut Archive, table: &Vec<LcdInfo>, jobs: &Vec<Job>) -> (r: Result<
    Vec<Samples>,
    QueryError,
>)
    ensures
        final(archive).files() == old(archive).files(),
        final(archive).names() == old(archive).names(),
        match spec_all_samples(old(archive).files(), lcd_views(table@), job_views(jobs@)) {
            Ok(samples) => r matches Ok(found) && samples_views(found@) == samples && found.len() == jobs.len(),
            Err(e) => r matches Err(error) && error@ == e,
        },
{
    let ghost files = archive.files();
    let ghost all = job_views(jobs@);
    let mut found: Vec<Samples> = Vec::new();
    let mut i: usize = 0;
    assert(all.skip(0) =~= all);
    assert(samples_views(found@) + spec_all_samples(files, lcd_views(table@), all)->Ok_0 =~= spec_all_samples(
        files,
        lcd_views(table@),
        all,
    )->Ok_0);
    while i < jobs.len()
        invariant
            i <= jobs.len(),
            found.len() == i,
            all == job_views(jobs@),
            archive.files() == files,
            files == old(archive).files(),
            archive.names() == old(archive).names(),
            spec_all_samples(files, lcd_views(table@), all) == then(
                samples_views(found@),
                spec_all_samples(files, lcd_views(table@), all.skip(i as int)),
            ),
        decreases jobs.len() - i,
    {
        let ghost before = samples_views(found@);
        let ghost rest = all.skip(i as int);
        assert(rest.drop_first() =~= all.skip(i + 1));
        assert(rest[0] == jobs@[i as int]@);
        let samples = match channel_samples(archive, table, &jobs[i]) {
            Ok(samples) => samples,
            Err(error) => {
                return Err(error);
            },
        };
        found.push(samples);
        proof {
            let more = spec_all_samples(files, lcd_views(table@), rest.drop_first());
            if more is Ok {
                assert(before + (seq![samples@] + more->Ok_0) =~= samples_views(found@) + more->Ok_0);
            }
        }
        i += 1;
    }
    assert(all.skip(jobs.len() as int) =~= Seq::<JobView>::empty());
    assert(samples_views(found@) + Seq::<SamplesView>::empty() =~= samples_views(found@));
    Ok(found)
}

} // verus!
