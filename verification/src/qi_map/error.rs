//! What can go wrong when an archive is opened or queried.
use super::Pixel;
use crate::dataset::properties::error::{Property, PropertyView};
use vstd::prelude::*;
use vstd::string::StringExecFns;

verus! {

/// Why a query gave no result.
#[derive(Debug)]
pub enum QueryError {
    /// The pixel coordinate is invalid.
    OutOfBounds(Pixel),
    /// Error reading the zip archive.
    Zip { path: String, error: zip::result::ZipError },
    /// The file at the given path had an invalid format.
    InvalidFormat { path: String, cause: String },
    /// The data file at the given path contained invalid data.
    InvalidData { path: String },
}

/// A `QueryError` without what the archive said, its texts as sequences
/// of characters.
pub enum QueryErrorView {
    OutOfBounds(Pixel),
    Zip { path: Seq<char> },
    InvalidFormat { path: Seq<char>, cause: Seq<char> },
    InvalidData { path: Seq<char> },
}

impl View for QueryError {
    type V = QueryErrorView;

    open spec fn view(&self) -> QueryErrorView {
        match self {
            QueryError::OutOfBounds(pixel) => QueryErrorView::OutOfBounds(*pixel),
            QueryError::Zip { path, error } => QueryErrorView::Zip { path: path@ },
            QueryError::InvalidFormat { path, cause } => QueryErrorView::InvalidFormat {
                path: path@,
                cause: cause@,
            },
            QueryError::InvalidData { path } => QueryErrorView::InvalidData { path: path@ },
        }
    }
}

/// Why an archive could not be opened as a dataset.
#[derive(Debug)]
pub enum Error {
    /// The bytes are no zip archive.
    OpenArchive(zip::result::ZipError),
    /// Error reading the zip archive.
    Zip { path: String, error: zip::result::ZipError },
    /// The file at the given path had an invalid format.
    InvalidFormat { path: String, cause: String },
    /// The dataset has a file format version that no reader handles.
    FileFormatNotSupported { version: String },
}

/// An `Error` without what the archive said, its texts as sequences of
/// characters.
pub enum ErrorView {
    OpenArchive,
    Zip { path: Seq<char> },
    InvalidFormat { path: Seq<char>, cause: Seq<char> },
    FileFormatNotSupported { version: Seq<char> },
}

impl View for Error {
    type V = ErrorView;

    open spec fn view(&self) -> ErrorView {
        match self {
            Error::OpenArchive(error) => ErrorView::OpenArchive,
            Error::Zip { path, error } => ErrorView::Zip { path: path@ },
            Error::InvalidFormat { path, cause } => ErrorView::InvalidFormat { path: path@, cause: cause@ },
            Error::FileFormatNotSupported { version } => ErrorView::FileFormatNotSupported { version: version@ },
        }
    }
}

impl From<zip::result::ZipError> for Error {
    fn from(error: zip::result::ZipError) -> (made: Self) {
        Error::OpenArchive(error)
    }
}

impl vstd::std_specs::convert::FromSpecImpl<zip::result::ZipError> for Error {
    open spec fn obeys_from_spec() -> bool {
        true
    }

    open spec fn from_spec(error: zip::result::ZipError) -> Self {
        Error::OpenArchive(error)
    }
}

/// The words that say why a property made a file invalid.
pub open spec fn spec_cause(e: PropertyView) -> Seq<char> {
    match e {
        PropertyView::NotFound(key) => "property `"@ + key + "` not found"@,
        PropertyView::InvalidValue(key) => "invalid value of `"@ + key + "`"@,
    }
}

/// Writes `spec_cause`.
pub fn cause(e: &Property) -> (words: String)
    ensures
        words@ == spec_cause(e@),
{
    match e {
        Property::NotFound(key) => {
            let mut words = String::from_str("property `");
            words.append(key.as_str());
            words.append("` not found");
            words
        },
        Property::InvalidValue(key) => {
            let mut words = String::from_str("invalid value of `");
            words.append(key.as_str());
            words.append("`");
            words
        },
    }
}

impl QueryError {
    /// The error for a property file at `path` in which a property is
    /// missing or invalid.
    pub fn invalid_property(path: String, e: &Property) -> (made: Self)
        ensures
            made@ == (QueryErrorView::InvalidFormat { path: path@, cause: spec_cause(e@) }),
    {
        QueryError::InvalidFormat { path, cause: cause(e) }
    }
}

impl Error {
    /// The error for a property file at `path` in which a property is
    /// missing or invalid.
    pub fn invalid_property(path: String, e: &Property) -> (made: Self)
        ensures
            made@ == (ErrorView::InvalidFormat { path: path@, cause: spec_cause(e@) }),
    {
        Error::InvalidFormat { path, cause: cause(e) }
    }
}

} // verus!
