//! Opening an archive as a quantitative imaging map.
use super::error::{spec_cause, Error, ErrorView};
use super::v2_0;
use crate::dataset::v2_0::lcd_info::LcdInfoView;
use super::v2_0::reader::{spec_open, DatasetInfoView};
use crate::archive::{spec_member, zip_contents, Archive, Member};
use crate::dataset::properties::error::{Property, PropertyView};
use crate::text::str_eq;
use vstd::prelude::*;

verus! {

/// The path of the dataset's property file.
pub const PROPERTIES_FILE_PATH: &'static str = "header.properties";

/// `file-format-version`
pub const PROPERTIES_FILE_FORMAT_VERSION_KEY: &'static str = "file-format-version";

/// The file format versions that can be read.
#[derive(Debug, Clone, Copy, PartialEq, Eq, Structural)]
pub enum FormatVersion {
    /// 2.0
    V2_0,
}

impl FormatVersion {
    pub fn from_str(v: &str) -> (r: Option<FormatVersion>)
        ensures
            r == (if v@ == "2.0"@ {
                Some(FormatVersion::V2_0)
            } else {
                None
            }),
    {
        if str_eq(v, "2.0") {
            Some(Self::V2_0)
        } else {
            None
        }
    }
}

/// What opening an archive finds. The file format version is read from
/// the dataset's property file first; for a version that can be read, the
/// dataset is then opened by the reader of that version.
pub open spec fn spec_open_versioned(files: Map<Seq<char>, Seq<u8>>) -> Result<
    (DatasetInfoView, Seq<LcdInfoView>),
    ErrorView,
> {
    match spec_member(files, PROPERTIES_FILE_PATH@) {
        Member::Missing => Err(ErrorView::Zip { path: PROPERTIES_FILE_PATH@ }),
        Member::Unreadable => Err(ErrorView::InvalidFormat { path: PROPERTIES_FILE_PATH@, cause: "invalid format"@ }),
        Member::Found(properties) => if !properties.contains_key(PROPERTIES_FILE_FORMAT_VERSION_KEY@) {
            Err(
                ErrorView::InvalidFormat {
                    path: PROPERTIES_FILE_PATH@,
                    cause: spec_cause(PropertyView::NotFound(PROPERTIES_FILE_FORMAT_VERSION_KEY@)),
                },
            )
        } else if properties[PROPERTIES_FILE_FORMAT_VERSION_KEY@] != "2.0"@ {
            Err(ErrorView::FileFormatNotSupported { version: properties[PROPERTIES_FILE_FORMAT_VERSION_KEY@] })
        } else {
            spec_open(files)
        },
    }
}

/// Opens quantitative imaging maps of any file format version that can be
/// read.
pub struct Reader;

impl Reader {
    /// Opens the dataset that `archive` holds.
    pub fn open(archive: Archive) -> (r: Result<v2_0::Reader, Error>)
        ensures
            match spec_open_versioned(archive.files()) {
                Ok((info, table)) => r matches Ok(reader) && reader.info() == info && reader.lcd() == table
                    && reader.members() == archive.files() && reader.names() == archive.names(),
                Err(e) => r matches Err(error) && error@ == e,
            },
    {
        let mut archive = archive;
        let properties = match archive.read_properties(PROPERTIES_FILE_PATH) {
            Err(error) => {
                return Err(Error::Zip { path: String::from_str(PROPERTIES_FILE_PATH), error });
            },
            Ok(None) => {
                return Err(
                    Error::InvalidFormat {
                        path: String::from_str(PROPERTIES_FILE_PATH),
                        cause: String::from_str("invalid format"),
                    },
                );
            },
            Ok(Some(properties)) => properties,
        };
        let format_version = match properties.get(PROPERTIES_FILE_FORMAT_VERSION_KEY) {
            Some(version) => version,
            None => {
                return Err(
                    Error::invalid_property(
                        String::from_str(PROPERTIES_FILE_PATH),
                        &Property::NotFound(String::from_str(PROPERTIES_FILE_FORMAT_VERSION_KEY)),
                    ),
                );
            },
        };
        match FormatVersion::from_str(format_version.as_str()) {
            None => Err(Error::FileFormatNotSupported { version: format_version.clone() }),
            Some(FormatVersion::V2_0) => v2_0::Reader::new(archive),
        }
    }

    /// Opens the dataset that the bytes of a zip file hold.
    pub fn new(bytes: Vec<u8>) -> (r: Result<v2_0::Reader, Error>)
        ensures
            match zip_contents(bytes@) {
                None => r matches Err(error) && error@ == ErrorView::OpenArchive,
                Some((files, names)) => match spec_open_versioned(files) {
                    Ok((info, table)) => r matches Ok(reader) && reader.info() == info && reader.lcd() == table
                        && reader.members() == files && reader.names() == names,
                    Err(e) => r matches Err(error) && error@ == e,
                },
            },
    {
        match Archive::open(bytes) {
            Ok(archive) => Self::open(archive),
            Err(error) => Err(Error::OpenArchive(error)),
        }
    }
}

} // verus!
