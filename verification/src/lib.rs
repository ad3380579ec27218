//! Reader for the archives that JPK force microscopes write.
use vstd::prelude::*;

pub mod archive;
pub mod dataset;
pub mod qi_map;
pub mod table;
pub mod text;
pub mod voltage_spectroscopy;

verus! {

/// What every reader of an archive offers.
pub trait ArchiveReader {
    /// List of files in the archive.
    fn files(&self) -> Vec<String>;

    /// Number of files in the archive.
    fn len(&self) -> usize;
}

impl ArchiveReader for qi_map::v2_0::Reader {
    /// The names of the members that have one, in the order of the
    /// directory.
    fn files(&self) -> (found: Vec<String>)
        ensures
            found.len() == archive::decoded(self.names()).len(),
            forall|i: int| 0 <= i < found.len() ==> (#[trigger] found[i])@ == archive::decoded(self.names())[i],
    {
        self.file_names()
    }

    fn len(&self) -> (n: usize)
        ensures
            n == self.names().len(),
    {
        self.file_count()
    }
}

} // verus!
