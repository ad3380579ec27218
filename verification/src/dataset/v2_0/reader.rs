//! The reader of a dataset.
use super::error;
use super::lcd_info::{lcd_views, spec_decode, spec_lcd_infos, LcdInfo, LcdInfoView};
use super::properties::channel::{spec_info, Info, InfoView};
use super::properties::segment::channel_key;
use super::properties::{segment, Dataset, SharedData, FILE_FORMAT_VERSION_KEY};
use super::utils::{join, spec_join};
use super::{
    DataValue, LcdInfoIndexType, DATASET_PROPERTIES_SHARED_DATA_FILE_PATH, SEGMENT_PROPERTIES_FILE,
};
use crate::archive::{spec_member, Archive, Member};
use crate::dataset::properties::error::{Property, PropertyView};
use crate::dataset::properties::Properties;
use crate::dataset::{DatasetError, DatasetErrorView, DATASET_PROPERTIES_FILE_PATH};
use crate::qi_map::error::{cause, spec_cause};
use vstd::prelude::*;

verus! {

/// Reads the member at `path` as a property file. A member that cannot be
/// read is an archive error; one that is no property file has an invalid
/// format, with `cause` as the reason.
pub open spec fn spec_properties(files: Map<Seq<char>, Seq<u8>>, path: Seq<char>, cause: Seq<char>) -> Result<
    Map<Seq<char>, Seq<char>>,
    DatasetErrorView,
> {
    match spec_member(files, path) {
        Member::Missing => Err(DatasetErrorView::Zip { path }),
        Member::Unreadable => Err(DatasetErrorView::InvalidFormat { path, cause }),
        Member::Found(found) => Ok(found),
    }
}

/// What opening a dataset finds: its properties, the properties of its
/// shared data, and the encoding table that these describe. The property
/// file of the dataset is read first.
pub open spec fn spec_new(files: Map<Seq<char>, Seq<u8>>) -> Result<
    (Map<Seq<char>, Seq<char>>, Map<Seq<char>, Seq<char>>, Seq<LcdInfoView>),
    DatasetErrorView,
> {
    match spec_properties(files, DATASET_PROPERTIES_FILE_PATH@, "invalid properties file"@) {
        Err(e) => Err(e),
        Ok(dataset) => match spec_properties(
            files,
            DATASET_PROPERTIES_SHARED_DATA_FILE_PATH@,
            "invalid properties file"@,
        ) {
            Err(e) => Err(e),
            Ok(shared) => match spec_lcd_infos(shared) {
                Err(e) => Err(
                    DatasetErrorView::InvalidFormat {
                        path: DATASET_PROPERTIES_SHARED_DATA_FILE_PATH@,
                        cause: spec_cause(e),
                    },
                ),
                Ok(table) => Ok((dataset, shared, table)),
            },
        },
    }
}

/// The file format version that a dataset's property file names.
pub open spec fn spec_format_version(files: Map<Seq<char>, Seq<u8>>) -> Result<Seq<char>, DatasetErrorView> {
    match spec_properties(files, DATASET_PROPERTIES_FILE_PATH@, "invalid format"@) {
        Err(e) => Err(e),
        Ok(dataset) => if dataset.contains_key(FILE_FORMAT_VERSION_KEY@) {
            Ok(dataset[FILE_FORMAT_VERSION_KEY@])
        } else {
            Err(
                DatasetErrorView::InvalidFormat {
                    path: DATASET_PROPERTIES_FILE_PATH@,
                    cause: spec_cause(PropertyView::NotFound(FILE_FORMAT_VERSION_KEY@)),
                },
            )
        },
    }
}

/// Why a step of reading a channel failed.
pub enum Failure {
    /// The member at the path cannot be read.
    Zip(Seq<char>),
    /// The segment's property file is no property file.
    InvalidFormat,
    /// A property of the channel is missing or invalid.
    Property(PropertyView),
    /// The data's length is no multiple of the width of a sample.
    InvalidDataLength,
}

/// The properties of the segment whose directory is `segment_path`.
pub open spec fn spec_segment_properties(files: Map<Seq<char>, Seq<u8>>, segment_path: Seq<char>) -> Result<
    Map<Seq<char>, Seq<char>>,
    Failure,
> {
    let path = spec_join(segment_path, SEGMENT_PROPERTIES_FILE@);
    match spec_member(files, path) {
        Member::Missing => Err(Failure::Zip(path)),
        Member::Unreadable => Err(Failure::InvalidFormat),
        Member::Found(found) => Ok(found),
    }
}

/// What the segment whose directory is `segment_path` says of `channel`.
pub open spec fn spec_channel_info(files: Map<Seq<char>, Seq<u8>>, segment_path: Seq<char>, channel: Seq<char>) -> Result<
    InfoView,
    Failure,
> {
    match spec_segment_properties(files, segment_path) {
        Err(e) => Err(e),
        Ok(properties) => match spec_info(properties, channel) {
            Err(e) => Err(Failure::Property(e)),
            Ok(info) => Ok(info),
        },
    }
}

/// The samples of `channel` in the segment whose directory is
/// `segment_path`: the data file is read first, then its entry of the
/// encoding table is looked up, then the data is decoded.
pub open spec fn spec_channel_data(
    files: Map<Seq<char>, Seq<u8>>,
    table: Seq<LcdInfoView>,
    segment_path: Seq<char>,
    channel: Seq<char>,
) -> Result<Seq<DataValue>, Failure> {
    match spec_channel_info(files, segment_path, channel) {
        Err(e) => Err(e),
        Ok(info) => {
            let path = spec_join(segment_path, info.file_path);
            if !files.contains_key(path) {
                Err(Failure::Zip(path))
            } else if info.lcd_info_index >= table.len() {
                Err(Failure::Property(PropertyView::InvalidValue(channel_key(channel, ".lcd-info.*"@))))
            } else {
                match spec_decode(table[info.lcd_info_index as int].encoder, files[path]) {
                    None => Err(Failure::InvalidDataLength),
                    Some(values) => Ok(values),
                }
            }
        },
    }
}

/// What of a `Properties` error shows in contracts.
pub open spec fn properties_failure(e: error::Properties, path: Seq<char>) -> Failure {
    match e {
        error::Properties::Zip(_) => Failure::Zip(path),
        error::Properties::InvalidFormat => Failure::InvalidFormat,
    }
}

/// What of a `ChannelInfo` error shows in contracts.
pub open spec fn info_failure(e: error::ChannelInfo, path: Seq<char>) -> Failure {
    match e {
        error::ChannelInfo::Zip(_) => Failure::Zip(path),
        error::ChannelInfo::SegmentProperties(inner) => properties_failure(inner, path),
        error::ChannelInfo::Property(property) => Failure::Property(property@),
    }
}

/// What of a `ChannelData` error shows in contracts.
pub open spec fn data_failure(e: error::ChannelData, path: Seq<char>) -> Failure {
    match e {
        error::ChannelData::Zip(_) => Failure::Zip(path),
        error::ChannelData::SegmentProperties(inner) => properties_failure(inner, path),
        error::ChannelData::Property(property) => Failure::Property(property@),
        error::ChannelData::InvalidDataLength => Failure::InvalidDataLength,
    }
}

/// Reads the member at `path` as a property file.
fn read_properties(archive: &mut Archive, path: &str, cause: &str) -> (r: Result<Properties, DatasetError>)
    ensures
        final(archive).files() == old(archive).files(),
        final(archive).names() == old(archive).names(),
        match spec_properties(old(archive).files(), path@, cause@) {
            Ok(found) => r matches Ok(properties) && properties@ == found,
            Err(e) => r matches Err(error) && error@ == e,
        },
{
    match archive.read_properties(path) {
        Err(error) => Err(DatasetError::Zip { path: path.to_owned(), error }),
        Ok(None) => Err(DatasetError::InvalidFormat { path: path.to_owned(), cause: cause.to_owned() }),
        Ok(Some(properties)) => Ok(properties),
    }
}

/// Reads a dataset of file format version 2.0.
#[derive(Debug)]
pub struct DatasetReader {
    archive: Archive,
    dataset_properties: Dataset,
    shared_properties: SharedData,
    lcd_info: Vec<LcdInfo>,
}

impl DatasetReader {
    /// The bytes of each member of the archive that can be read, by its
    /// path.
    pub closed spec fn files(&self) -> Map<Seq<char>, Seq<u8>> {
        self.archive.files()
    }

    /// The properties of the dataset.
    pub closed spec fn dataset(&self) -> Map<Seq<char>, Seq<char>> {
        self.dataset_properties.inner@
    }

    /// The properties of the shared data.
    pub closed spec fn shared(&self) -> Map<Seq<char>, Seq<char>> {
        self.shared_properties.inner@
    }

    /// The encoding table.
    pub closed spec fn lcd(&self) -> Seq<LcdInfoView> {
        lcd_views(self.lcd_info@)
    }

    /// Opens the dataset that `archive` holds.
    pub fn new(archive: Archive) -> (r: Result<Self, DatasetError>)
        ensures
            match spec_new(archive.files()) {
                Ok((dataset, shared, table)) => r matches Ok(reader) && reader.files() == archive.files()
                    && reader.dataset() == dataset && reader.shared() == shared && reader.lcd() == table,
                Err(e) => r matches Err(error) && error@ == e,
            },
    {
        let mut archive = archive;
        let dataset_properties = match read_properties(
            &mut archive,
            DATASET_PROPERTIES_FILE_PATH,
            "invalid properties file",
        ) {
            Ok(inner) => Dataset { inner },
            Err(error) => {
                return Err(error);
            },
        };
        let shared_properties = match read_properties(
            &mut archive,
            DATASET_PROPERTIES_SHARED_DATA_FILE_PATH,
            "invalid properties file",
        ) {
            Ok(inner) => SharedData { inner },
            Err(error) => {
                return Err(error);
            },
        };
        let lcd_info = match Self::_init_lcd_infos(&shared_properties) {
            Ok(table) => table,
            Err(error) => {
                return Err(error);
            },
        };
        Ok(Self { archive, dataset_properties, shared_properties, lcd_info })
    }

    /// The encoding table that the shared properties describe.
    pub fn _init_lcd_infos(properties: &SharedData) -> (r: Result<Vec<LcdInfo>, DatasetError>)
        ensures
            match spec_lcd_infos(properties.inner@) {
                Ok(table) => r matches Ok(found) && lcd_views(found@) == table,
                Err(e) => r matches Err(error) && error@ == (DatasetErrorView::InvalidFormat {
                    path: DATASET_PROPERTIES_SHARED_DATA_FILE_PATH@,
                    cause: spec_cause(e),
                }),
            },
    {
        match LcdInfo::table(properties) {
            Ok(table) => Ok(table),
            Err(e) => Err(
                DatasetError::InvalidFormat {
                    path: String::from_str(DATASET_PROPERTIES_SHARED_DATA_FILE_PATH),
                    cause: cause(&e),
                },
            ),
        }
    }

    /// The entry `index` of the encoding table that the shared properties
    /// describe.
    pub fn _init_lcd_info(properties: &SharedData, index: usize) -> (r: Result<LcdInfo, DatasetError>)
        ensures
            match super::lcd_info::spec_lcd_info(properties.inner@, index as nat) {
                Ok(info) => r matches Ok(found) && found@ == info,
                Err(e) => r matches Err(error) && error@ == (DatasetErrorView::InvalidFormat {
                    path: DATASET_PROPERTIES_SHARED_DATA_FILE_PATH@,
                    cause: spec_cause(e),
                }),
            },
    {
        match LcdInfo::from_properties(properties, index) {
            Ok(info) => Ok(info),
            Err(e) => Err(
                DatasetError::InvalidFormat {
                    path: String::from_str(DATASET_PROPERTIES_SHARED_DATA_FILE_PATH),
                    cause: cause(&e),
                },
            ),
        }
    }

    /// The property file of the dataset.
    pub fn dataset_properties(&self) -> (r: &Dataset)
        ensures
            r.inner@ == self.dataset(),
    {
        &self.dataset_properties
    }

    /// The property file of the shared data.
    pub fn shared_properties(&self) -> (r: &SharedData)
        ensures
            r.inner@ == self.shared(),
    {
        &self.shared_properties
    }

    /// The encoding table.
    pub fn lcd_info(&self) -> (r: &Vec<LcdInfo>)
        ensures
            lcd_views(r@) == self.lcd(),
    {
        &self.lcd_info
    }

    /// Reads the property file of the segment whose directory is
    /// `segment_path`.
    pub fn segment_properties(&mut self, segment_path: &str) -> (r: Result<segment::Properties, error::Properties>)
        ensures
            final(self).files() == old(self).files(),
            final(self).dataset() == old(self).dataset(),
            final(self).shared() == old(self).shared(),
            final(self).lcd() == old(self).lcd(),
            match spec_segment_properties(old(self).files(), segment_path@) {
                Ok(found) => r matches Ok(properties) && properties.inner@ == found,
                Err(e) => r matches Err(error) && properties_failure(
                    error,
                    spec_join(segment_path@, SEGMENT_PROPERTIES_FILE@),
                ) == e,
            },
    {
        let properties_path = join(segment_path, SEGMENT_PROPERTIES_FILE);
        match self.archive.read_properties(properties_path.as_str()) {
            Err(error) => Err(error::Properties::Zip(error)),
            Ok(None) => Err(error::Properties::InvalidFormat),
            Ok(Some(inner)) => Ok(segment::Properties { inner }),
        }
    }

    /// The entry `index` of the encoding table.
    pub fn lcd_info_for_index(&self, index: LcdInfoIndexType) -> (r: Option<&LcdInfo>)
        ensures
            match r {
                Some(info) => index < self.lcd().len() && info@ == self.lcd()[index as int],
                None => index >= self.lcd().len(),
            },
    {
        if (index as usize) < self.lcd_info.len() {
            let info = &self.lcd_info[index as usize];
            assert(lcd_views(self.lcd_info@)[index as int] == info@);
            Some(info)
        } else {
            None
        }
    }

    /// What the segment whose directory is `segment_path` says of
    /// `channel`.
    pub fn channel_info(&mut self, segment_path: &str, channel: &str) -> (r: Result<Info, error::ChannelInfo>)
        ensures
            final(self).files() == old(self).files(),
            final(self).dataset() == old(self).dataset(),
            final(self).shared() == old(self).shared(),
            final(self).lcd() == old(self).lcd(),
            match spec_channel_info(old(self).files(), segment_path@, channel@) {
                Ok(info) => r matches Ok(found) && found@ == info,
                Err(e) => r matches Err(error) && info_failure(
                    error,
                    spec_join(segment_path@, SEGMENT_PROPERTIES_FILE@),
                ) == e,
            },
    {
        let properties = match self.segment_properties(segment_path) {
            Ok(properties) => properties,
            Err(error) => {
                return Err(error::ChannelInfo::SegmentProperties(error));
            },
        };
        match properties.channel_info(channel) {
            Ok(info) => Ok(info),
            Err(error) => Err(error::ChannelInfo::Property(error)),
        }
    }

    /// The samples of `channel` in the segment whose directory is
    /// `segment_path`, before any scaling.
    pub fn channel_data(&mut self, segment_path: &str, channel: &str) -> (r: Result<
        Vec<DataValue>,
        error::ChannelData,
    >)
        ensures
            final(self).files() == old(self).files(),
            final(self).dataset() == old(self).dataset(),
            final(self).shared() == old(self).shared(),
            final(self).lcd() == old(self).lcd(),
            match spec_channel_data(old(self).files(), old(self).lcd(), segment_path@, channel@) {
                Ok(values) => r matches Ok(found) && found@ == values,
                Err(e) => r matches Err(error) && exists|path: Seq<char>| data_failure(error, path) == e,
            },
    {
        let channel_info = match self.channel_info(segment_path, channel) {
            Ok(info) => info,
            Err(error) => {
                let ghost path = spec_join(segment_path@, SEGMENT_PROPERTIES_FILE@);
                let mapped = match error {
                    error::ChannelInfo::Zip(err) => error::ChannelData::Zip(err),
                    error::ChannelInfo::Property(err) => error::ChannelData::Property(err),
                    error::ChannelInfo::SegmentProperties(err) => error::ChannelData::SegmentProperties(err),
                };
                assert(data_failure(mapped, path) == info_failure(error, path));
                return Err(mapped);
            },
        };
        let data_file_path = join(segment_path, channel_info.file_path().as_str());
        let raw_data = match self.archive.read(data_file_path.as_str()) {
            Ok(raw) => raw,
            Err(error) => {
                let mapped = error::ChannelData::Zip(error);
                assert(data_failure(mapped, data_file_path@) == Failure::Zip(data_file_path@));
                return Err(mapped);
            },
        };
        let lcd_info = match self.lcd_info_for_index(channel_info.lcd_info_index()) {
            Some(info) => info,
            None => {
                let key = segment::Properties::channel_lcd_info_index_key(channel);
                let mapped = error::ChannelData::Property(Property::InvalidValue(key));
                assert(data_failure(mapped, data_file_path@) == Failure::Property(
                    PropertyView::InvalidValue(channel_key(channel@, ".lcd-info.*"@)),
                ));
                return Err(mapped);
            },
        };
        match lcd_info.decode_samples(raw_data.as_slice()) {
            Ok(values) => Ok(values),
            Err(_) => {
                let mapped = error::ChannelData::InvalidDataLength;
                assert(data_failure(mapped, data_file_path@) == Failure::InvalidDataLength);
                Err(mapped)
            },
        }
    }

    /// The file format version that the dataset in `archive` names.
    pub fn format_version(archive: &mut Archive) -> (r: Result<String, DatasetError>)
        ensures
            final(archive).files() == old(archive).files(),
            final(archive).names() == old(archive).names(),
            match spec_format_version(old(archive).files()) {
                Ok(version) => r matches Ok(found) && found@ == version,
                Err(e) => r matches Err(error) && error@ == e,
            },
    {
        let properties = match read_properties(archive, DATASET_PROPERTIES_FILE_PATH, "invalid format") {
            Ok(properties) => properties,
            Err(error) => {
                return Err(error);
            },
        };
        match properties.get(FILE_FORMAT_VERSION_KEY) {
            Some(version) => Ok(version.clone()),
            None => Err(
                DatasetError::InvalidFormat {
                    path: String::from_str(DATASET_PROPERTIES_FILE_PATH),
                    cause: cause(&Property::NotFound(String::from_str(FILE_FORMAT_VERSION_KEY))),
                },
            ),
        }
    }
}

} // verus!
