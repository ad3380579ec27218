//! Reader for generic JPK datasets.
use vstd::prelude::*;

pub mod properties;
pub mod v2_0;

verus! {

/// The path of a dataset's property file.
pub const DATASET_PROPERTIES_FILE_PATH: &'static str = "header.properties";

/// Why an archive could not be opened as a dataset.
#[derive(Debug)]
pub enum DatasetError {
    /// The bytes are no zip archive.
    OpenArchive(zip::result::ZipError),
    /// Error reading the zip archive.
    Zip { path: String, error: zip::result::ZipError },
    /// The file at the given path had an invalid format.
    InvalidFormat { path: String, cause: String },
}

/// A `DatasetError` without what the archive said, its texts as sequences
/// of characters.
pub enum DatasetErrorView {
    OpenArchive,
    Zip { path: Seq<char> },
    InvalidFormat { path: Seq<char>, cause: Seq<char> },
}

impl View for DatasetError {
    type V = DatasetErrorView;

    open spec fn view(&self) -> DatasetErrorView {
        match self {
            DatasetError::OpenArchive(error) => DatasetErrorView::OpenArchive,
            DatasetError::Zip { path, error } => DatasetErrorView::Zip { path: path@ },
            DatasetError::InvalidFormat { path, cause } => DatasetErrorView::InvalidFormat {
                path: path@,
                cause: cause@,
            },
        }
    }
}

impl From<zip::result::ZipError> for DatasetError {
    fn from(error: zip::result::ZipError) -> (made: Self) {
        DatasetError::OpenArchive(error)
    }
}

impl vstd::std_specs::convert::FromSpecImpl<zip::result::ZipError> for DatasetError {
    open spec fn obeys_from_spec() -> bool {
        true
    }

    open spec fn from_spec(error: zip::result::ZipError) -> Self {
        DatasetError::OpenArchive(error)
    }
}

} // verus!
