//! The reader of a quantitative imaging map.
use crate::dataset::v2_0::lcd_info::{lcd_views, spec_lcd_info, spec_lcd_infos, LcdInfo, LcdInfoView};
use super::position::{spec_position_pattern, PositionPattern, PositionPatternView};
use crate::dataset::v2_0::properties::SharedData;
use super::utils::{shared_data_properties_path, DATASET_PROPERTIES_FILE};
use crate::archive::{decoded, spec_member, Archive, Member};
use crate::dataset::properties::error::{Property, PropertyView};
use crate::dataset::properties::{
    extract_usize, extract_value, spec_extract_unsigned, spec_value, Properties,
};
use super::channel_data::{spec_channel_data, ChannelData};
use super::fetch::{all_samples, spec_all_samples};
use crate::dataset::v2_0::lcd_info::spec_decode;
use super::resolve::{job_views, query_indices, resolve, spec_jobs, spec_query_indices, JobView};
use super::segment_data::{channel_key, SegmentProperties};
use super::utils::{
    data_file_path, index_segment_properties_path, spec_data_file_path, spec_index_segment_properties_path,
};
use crate::qi_map::data::{samples_viewer, samples_views, Data, Samples, SamplesView};
use crate::qi_map::data_index::{DataIndex, DataIndexView};
use crate::qi_map::error::{cause, spec_cause, Error, ErrorView, QueryError, QueryErrorView};
use crate::qi_map::{IndexId, Query, SegmentId};
use crate::table::{lemma_written_map_values, ranks_of, written};
use crate::text::str_eq;
use vstd::prelude::*;

verus! {

/// `quantitative-imaging-map.indexes.type`
pub const INDEX_TYPE_KEY: &'static str = "quantitative-imaging-map.indexes.type";

/// `quantitative-imaging-map.indexes.min`
pub const INDEX_MIN_KEY: &'static str = "quantitative-imaging-map.indexes.min";

/// `quantitative-imaging-map.indexes.max`
pub const INDEX_MAX_KEY: &'static str = "quantitative-imaging-map.indexes.max";

/// The value of the index type property for a range of numbers.
pub const INDEX_TYPE_RANGE: &'static str = "range";

/// Which numbers the positions of a dataset have.
#[derive(Debug, Clone, Copy, PartialEq, Eq, Structural)]
pub enum Index {
    /// Every number from `min` to `max`, both included.
    Range { min: IndexId, max: IndexId },
}

/// What the property file of a dataset says of its positions.
#[derive(Debug, Clone)]
pub struct DatasetInfo {
    index: Index,
    position_pattern: PositionPattern,
}

/// A `DatasetInfo` with its position pattern as a view.
pub struct DatasetInfoView {
    pub index: Index,
    pub position_pattern: PositionPatternView,
}

impl View for DatasetInfo {
    type V = DatasetInfoView;

    closed spec fn view(&self) -> DatasetInfoView {
        DatasetInfoView { index: self.index, position_pattern: self.position_pattern@ }
    }
}

impl DatasetInfo {
    /// Which numbers the positions have.
    pub fn index(&self) -> (r: Index)
        ensures
            r == self@.index,
    {
        self.index
    }

    /// How the positions are laid out.
    pub fn position_pattern(&self) -> (r: &PositionPattern)
        ensures
            r@ == self@.position_pattern,
    {
        &self.position_pattern
    }
}

/// What a dataset's properties say of its positions, or the first
/// property that is missing or invalid: the index type first, then the
/// least and the greatest number, then those of the position pattern.
pub open spec fn spec_dataset_info(properties: Map<Seq<char>, Seq<char>>) -> Result<
    DatasetInfoView,
    PropertyView,
> {
    match spec_value(properties, INDEX_TYPE_KEY@) {
        Err(e) => Err(e),
        Ok(kind) => if kind != INDEX_TYPE_RANGE@ {
            Err(PropertyView::InvalidValue(INDEX_TYPE_KEY@))
        } else {
            match spec_extract_unsigned(properties, INDEX_MIN_KEY@, usize::MAX as nat) {
                Err(e) => Err(e),
                Ok(min) => match spec_extract_unsigned(properties, INDEX_MAX_KEY@, usize::MAX as nat) {
                    Err(e) => Err(e),
                    Ok(max) => match spec_position_pattern(properties) {
                        Err(e) => Err(e),
                        Ok(position_pattern) => Ok(
                            DatasetInfoView {
                                index: Index::Range { min: min as usize, max: max as usize },
                                position_pattern,
                            },
                        ),
                    },
                },
            }
        },
    }
}

/// Reads the member at `path` as a property file. A member that cannot be
/// read is an archive error; one that is no property file has an invalid
/// format.
pub open spec fn spec_open_properties(files: Map<Seq<char>, Seq<u8>>, path: Seq<char>) -> Result<
    Map<Seq<char>, Seq<char>>,
    ErrorView,
> {
    match spec_member(files, path) {
        Member::Missing => Err(ErrorView::Zip { path }),
        Member::Unreadable => Err(ErrorView::InvalidFormat { path, cause: "invalid properties file"@ }),
        Member::Found(found) => Ok(found),
    }
}

/// What opening a dataset finds: what its property file says of the
/// positions, and the encoding table of its shared data. The property
/// file of the dataset is read first.
pub open spec fn spec_open(files: Map<Seq<char>, Seq<u8>>) -> Result<(DatasetInfoView, Seq<LcdInfoView>), ErrorView> {
    match spec_open_properties(files, DATASET_PROPERTIES_FILE@) {
        Err(e) => Err(e),
        Ok(dataset) => match spec_dataset_info(dataset) {
            Err(e) => Err(ErrorView::InvalidFormat { path: DATASET_PROPERTIES_FILE@, cause: spec_cause(e) }),
            Ok(info) => match spec_open_properties(files, "shared-data/header.properties"@) {
                Err(e) => Err(e),
                Ok(shared) => match spec_lcd_infos(shared) {
                    Err(e) => Err(
                        ErrorView::InvalidFormat { path: "shared-data/header.properties"@, cause: spec_cause(e) },
                    ),
                    Ok(table) => Ok((info, table)),
                },
            },
        },
    }
}

/// Reads the member at `path` as a property file.
fn open_properties(archive: &mut Archive, path: String) -> (r: Result<Properties, Error>)
    ensures
        final(archive).files() == old(archive).files(),
        final(archive).names() == old(archive).names(),
        match spec_open_properties(old(archive).files(), path@) {
            Ok(found) => r matches Ok(properties) && properties@ == found,
            Err(e) => r matches Err(error) && error@ == e,
        },
{
    match archive.read_properties(path.as_str()) {
        Err(error) => Err(Error::Zip { path, error }),
        Ok(None) => Err(Error::InvalidFormat { path, cause: "invalid properties file".to_owned() }),
        Ok(Some(properties)) => Ok(properties),
    }
}

/// Reads a quantitative imaging map of file format version 2.0.
#[derive(Debug)]
pub struct Reader {
    pub(crate) archive: Archive,
    pub(crate) dataset_info: DatasetInfo,
    pub(crate) lcd_info: Vec<LcdInfo>,
}

impl Reader {
    /// The bytes of each member of the archive that can be read, by its
    /// path.
    pub open(crate) spec fn members(&self) -> Map<Seq<char>, Seq<u8>> {
        self.archive.files()
    }

    /// The names of the archive's members in the order of its directory;
    /// `None` for a name that cannot be decoded.
    pub open(crate) spec fn names(&self) -> Seq<Option<Seq<char>>> {
        self.archive.names()
    }

    /// What the dataset's property file says of its positions.
    pub open(crate) spec fn info(&self) -> DatasetInfoView {
        self.dataset_info@
    }

    /// The encoding table.
    pub open(crate) spec fn lcd(&self) -> Seq<LcdInfoView> {
        lcd_views(self.lcd_info@)
    }

    /// Opens the dataset that `archive` holds.
    pub fn new(archive: Archive) -> (r: Result<Self, Error>)
        ensures
            match spec_open(archive.files()) {
                Ok((info, table)) => r matches Ok(reader) && reader.info() == info && reader.lcd() == table
                    && reader.members() == archive.files() && reader.names() == archive.names(),
                Err(e) => r matches Err(error) && error@ == e,
            },
    {
        let mut archive = archive;
        let dataset_info = {
            let properties = match open_properties(&mut archive, String::from_str(DATASET_PROPERTIES_FILE)) {
                Ok(properties) => properties,
                Err(error) => {
                    return Err(error);
                },
            };
            match Self::_init_dataset_info(&properties) {
                Ok(info) => info,
                Err(error) => {
                    return Err(error);
                },
            }
        };
        let shared_data = match open_properties(&mut archive, shared_data_properties_path()) {
            Ok(inner) => SharedData { inner },
            Err(error) => {
                return Err(error);
            },
        };
        let lcd_info = match Self::_init_lcd_infos(&shared_data) {
            Ok(table) => table,
            Err(error) => {
                return Err(error);
            },
        };
        Ok(Self { archive, dataset_info, lcd_info })
    }

    /// What the dataset's property file says of its positions.
    pub fn _init_dataset_info(properties: &Properties) -> (r: Result<DatasetInfo, Error>)
        ensures
            match spec_dataset_info(properties@) {
                Ok(info) => r matches Ok(found) && found@ == info,
                Err(e) => r matches Err(error) && error@ == (ErrorView::InvalidFormat {
                    path: DATASET_PROPERTIES_FILE@,
                    cause: spec_cause(e),
                }),
            },
    {
        match Self::dataset_info_of(properties) {
            Ok(info) => Ok(info),
            Err(e) => Err(Error::invalid_property(String::from_str(DATASET_PROPERTIES_FILE), &e)),
        }
    }

    /// What the dataset's property file says of its positions, or the
    /// property that is missing or invalid.
    fn dataset_info_of(properties: &Properties) -> (r: Result<DatasetInfo, Property>)
        ensures
            match r {
                Ok(info) => spec_dataset_info(properties@) == Ok::<DatasetInfoView, PropertyView>(info@),
                Err(e) => spec_dataset_info(properties@) == Err::<DatasetInfoView, PropertyView>(e@),
            },
    {
        let kind = match extract_value(properties, INDEX_TYPE_KEY) {
            Ok(kind) => kind,
            Err(e) => {
                return Err(e);
            },
        };
        if !str_eq(kind.as_str(), INDEX_TYPE_RANGE) {
            return Err(Property::InvalidValue(INDEX_TYPE_KEY.to_owned()));
        }
        let min = match extract_usize(properties, INDEX_MIN_KEY) {
            Ok(min) => min,
            Err(e) => {
                return Err(e);
            },
        };
        let max = match extract_usize(properties, INDEX_MAX_KEY) {
            Ok(max) => max,
            Err(e) => {
                return Err(e);
            },
        };
        let position_pattern = match PositionPattern::from_properties(properties) {
            Ok(pattern) => pattern,
            Err(e) => {
                return Err(e);
            },
        };
        Ok(DatasetInfo { index: Index::Range { min, max }, position_pattern })
    }

    /// The encoding table that the shared properties describe.
    pub fn _init_lcd_infos(properties: &SharedData) -> (r: Result<Vec<LcdInfo>, Error>)
        ensures
            match spec_lcd_infos(properties.inner@) {
                Ok(table) => r matches Ok(found) && lcd_views(found@) == table,
                Err(e) => r matches Err(error) && error@ == (ErrorView::InvalidFormat {
                    path: "shared-data/header.properties"@,
                    cause: spec_cause(e),
                }),
            },
    {
        match LcdInfo::table(properties) {
            Ok(table) => Ok(table),
            Err(e) => Err(Error::invalid_property(shared_data_properties_path(), &e)),
        }
    }

    /// The entry `index` of the encoding table that the shared properties
    /// describe.
    pub fn _init_lcd_info(properties: &SharedData, index: usize) -> (r: Result<LcdInfo, Error>)
        ensures
            match spec_lcd_info(properties.inner@, index as nat) {
                Ok(info) => r matches Ok(found) && found@ == info,
                Err(e) => r matches Err(error) && error@ == (ErrorView::InvalidFormat {
                    path: "shared-data/header.properties"@,
                    cause: spec_cause(e),
                }),
            },
    {
        match LcdInfo::from_properties(properties, index) {
            Ok(info) => Ok(info),
            Err(e) => Err(Error::invalid_property(shared_data_properties_path(), &e)),
        }
    }

    /// What the dataset's property file says of its positions.
    pub fn dataset_info(&self) -> (r: &DatasetInfo)
        ensures
            r@ == self.info(),
    {
        &self.dataset_info
    }

    /// The encoding table.
    pub fn lcd_info(&self) -> (r: &Vec<LcdInfo>)
        ensures
            lcd_views(r@) == self.lcd(),
    {
        &self.lcd_info
    }

    /// The names of the members that have one, in the order of the
    /// directory.
    pub fn file_names(&self) -> (names: Vec<String>)
        ensures
            names.len() == decoded(self.names()).len(),
            forall|i: int| 0 <= i < names.len() ==> (#[trigger] names[i])@ == decoded(self.names())[i],
    {
        self.archive.file_names()
    }

    /// Number of members.
    pub fn file_count(&self) -> (n: usize)
        ensures
            n == self.names().len(),
    {
        self.archive.len()
    }

    /// A second reader of the same archive.
    pub fn archive(&self) -> (r: Archive)
        ensures
            r.files() == self.members(),
            r.names() == self.names(),
    {
        self.archive.clone()
    }
}

} // verus!

verus! {

/// The data indices of `jobs`, in the same order.
pub open spec fn job_indices(jobs: Seq<JobView>) -> Seq<DataIndexView> {
    Seq::new(jobs.len(), |i: int| jobs[i].index)
}

/// What a data query gives: the samples of each channel that the query
/// selects, under its data index. All channels are resolved before the
/// first data file is read.
pub open spec fn spec_query_data(
    files: Map<Seq<char>, Seq<u8>>,
    info: DatasetInfoView,
    table: Seq<LcdInfoView>,
    query: Query,
) -> Result<Map<DataIndexView, SamplesView>, QueryErrorView> {
    match spec_jobs(files, info, query) {
        Err(e) => Err(e),
        Ok(jobs) => match spec_all_samples(files, table, jobs) {
            Err(e) => Err(e),
            Ok(samples) => Ok(written(job_indices(jobs), samples)),
        },
    }
}

/// Why the data of a channel could not be had.
#[derive(Debug)]
pub enum DataError {
    /// Error reading the zip archive.
    Zip { path: String, error: zip::result::ZipError },
    /// The file at the given path had an invalid format.
    InvalidFormat { path: String, cause: String },
    /// A channel with the given name does not exist.
    ChannelNotFound(String),
    /// The data file at the given path contained invalid data.
    InvalidData { path: String },
}

/// A `DataError` without what the archive said, its texts as sequences of
/// characters.
pub enum DataErrorView {
    Zip { path: Seq<char> },
    InvalidFormat { path: Seq<char>, cause: Seq<char> },
    ChannelNotFound(Seq<char>),
    InvalidData { path: Seq<char> },
}

impl View for DataError {
    type V = DataErrorView;

    open spec fn view(&self) -> DataErrorView {
        match self {
            DataError::Zip { path, error } => DataErrorView::Zip { path: path@ },
            DataError::InvalidFormat { path, cause } => DataErrorView::InvalidFormat { path: path@, cause: cause@ },
            DataError::ChannelNotFound(channel) => DataErrorView::ChannelNotFound(channel@),
            DataError::InvalidData { path } => DataErrorView::InvalidData { path: path@ },
        }
    }
}

/// The samples of `channel` in the segment `segment` at the position
/// `index`: the segment's property file is read first, then what it says
/// of the channel, then the channel's data file.
pub open spec fn spec_get_data(
    files: Map<Seq<char>, Seq<u8>>,
    table: Seq<LcdInfoView>,
    index: IndexId,
    segment: SegmentId,
    channel: Seq<char>,
) -> Result<SamplesView, DataErrorView> {
    let path = spec_index_segment_properties_path(index as nat, segment as nat);
    match spec_member(files, path) {
        Member::Missing => Err(DataErrorView::Zip { path }),
        Member::Unreadable => Err(
            DataErrorView::InvalidFormat { path, cause: "file could not be read as properties"@ },
        ),
        Member::Found(properties) => match spec_channel_data(properties, channel) {
            Err(e) => Err(DataErrorView::InvalidFormat { path, cause: spec_cause(e) }),
            Ok(data) => if data.shared_data_index >= table.len() {
                Err(
                    DataErrorView::InvalidFormat {
                        path,
                        cause: spec_cause(PropertyView::InvalidValue(channel_key(channel, ".lcd-info.*"@))),
                    },
                )
            } else {
                let data_path = spec_data_file_path(index as nat, segment as nat, data.file_path);
                if !files.contains_key(data_path) {
                    Err(DataErrorView::Zip { path: data_path })
                } else {
                    match spec_decode(table[data.shared_data_index as int].encoder, files[data_path]) {
                        None => Err(DataErrorView::InvalidData { path: data_path }),
                        Some(values) => Ok(SamplesView { lcd_info: data.shared_data_index, values }),
                    }
                }
            },
        },
    }
}

impl Reader {
    /// Resolves the position part of a query.
    pub fn _data_query_indices(&self, query: &Query) -> (r: Result<Vec<IndexId>, QueryError>)
        ensures
            match spec_query_indices(self.info(), query.index) {
                Ok(indices) => r matches Ok(found) && found@ == indices,
                Err(e) => r matches Err(error) && error@ == e,
            },
    {
        query_indices(&self.dataset_info, &query.index)
    }

    /// Get the data of a specific `(index, segment, channel)`.
    pub fn get_data_index_segment_channel(&mut self, index: IndexId, segment: SegmentId, channel: &str) -> (r:
        Result<Samples, DataError>)
        ensures
            final(self).members() == old(self).members(),
            final(self).names() == old(self).names(),
            final(self).info() == old(self).info(),
            final(self).lcd() == old(self).lcd(),
            match spec_get_data(old(self).members(), old(self).lcd(), index, segment, channel@) {
                Ok(samples) => r matches Ok(found) && found@ == samples,
                Err(e) => r matches Err(error) && error@ == e,
            },
    {
        let path = index_segment_properties_path(index, segment);
        let segment_properties = match self.archive.read_properties(path.as_str()) {
            Err(error) => {
                return Err(DataError::Zip { path, error });
            },
            Ok(None) => {
                return Err(
                    DataError::InvalidFormat { path, cause: "file could not be read as properties".to_owned() },
                );
            },
            Ok(Some(inner)) => SegmentProperties { inner },
        };
        let data = match ChannelData::from(&segment_properties, channel) {
            Ok(data) => data,
            Err(e) => {
                return Err(DataError::InvalidFormat { path, cause: cause(&e) });
            },
        };
        if data.shared_data_index() >= self.lcd_info.len() {
            let key = SegmentProperties::channel_shared_data_index_key(channel);
            return Err(DataError::InvalidFormat { path, cause: cause(&Property::InvalidValue(key)) });
        }
        let data_path = data_file_path(index, segment, data.file_path().as_str());
        let raw = match self.archive.read(data_path.as_str()) {
            Ok(raw) => raw,
            Err(error) => {
                return Err(DataError::Zip { path: data_path, error });
            },
        };
        let entry = data.shared_data_index();
        let info = &self.lcd_info[entry];
        assert(lcd_views(self.lcd_info@)[entry as int] == info@);
        match info.decode_samples(raw.as_slice()) {
            Ok(values) => Ok(Samples { lcd_info: entry, values }),
            Err(_) => Err(DataError::InvalidData { path: data_path }),
        }
    }

    /// Query data.
    pub fn query_data(&mut self, query: &Query) -> (r: Result<Data<Samples>, QueryError>)
        ensures
            final(self).members() == old(self).members(),
            final(self).names() == old(self).names(),
            final(self).info() == old(self).info(),
            final(self).lcd() == old(self).lcd(),
            match spec_query_data(old(self).members(), old(self).info(), old(self).lcd(), *query) {
                Ok(found) => r matches Ok(data) && data@.map_values(samples_viewer()) == found,
                Err(e) => r matches Err(error) && error@ == e,
            },
    {
        let jobs = match resolve(&mut self.archive, &self.dataset_info, query) {
            Ok(jobs) => jobs,
            Err(error) => {
                return Err(error);
            },
        };
        let samples = match all_samples(&mut self.archive, &self.lcd_info, &jobs) {
            Ok(samples) => samples,
            Err(error) => {
                return Err(error);
            },
        };
        let mut indices: Vec<DataIndex> = Vec::new();
        let mut i: usize = 0;
        while i < jobs.len()
            invariant
                i <= jobs.len(),
                indices.len() == i,
                forall|j: int| 0 <= j < i ==> (#[trigger] indices[j])@ == jobs[j]@.index,
            decreases jobs.len() - i,
        {
            let job = &jobs[i];
            indices.push(
                DataIndex { index: job.index.index, segment: job.index.segment, channel: job.index.channel.clone() },
            );
            i += 1;
        }
        proof {
            assert(ranks_of(indices@) =~= job_indices(job_views(jobs@)));
            assert(samples_views(samples@).len() == samples.len());
            lemma_written_map_values(ranks_of(indices@), samples@, samples_viewer());
        }
        Ok(Data::from_pairs(indices, samples))
    }
}

} // verus!
