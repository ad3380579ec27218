//! The archive that holds a dataset: named members, each a run of bytes.
//!
//! The archive is a zip file held in memory. Opening it, listing its
//! members and reading one of them is the work of the `zip` crate, whose
//! results this module takes on trust; what is done with them is verified.
use crate::dataset::properties::{spec_parse_bytes, Properties};
use vstd::prelude::*;

verus! {

/// `zip::ZipArchive`, the reader of a zip file. Nothing inside it is seen
/// here.
#[verifier::external_type_specification]
#[verifier::external_body]
#[verifier::reject_recursive_types(R)]
pub struct ExZipArchive<R>(zip::ZipArchive<R>);

/// `std::io::Cursor`, which reads from bytes in memory. Nothing inside it
/// is seen here.
#[verifier::external_type_specification]
#[verifier::external_body]
#[verifier::reject_recursive_types(T)]
pub struct ExCursor<T>(std::io::Cursor<T>);

/// `zip::result::ZipError`, what the `zip` crate says went wrong. It is
/// handed on as it comes.
#[verifier::external_type_specification]
#[verifier::external_body]
pub struct ExZipError(zip::result::ZipError);

/// The bytes that reading the member with each name gives. A name under
/// which no member can be found and read has no entry. The name of a
/// member is its path in the archive, with `/` between its parts.
pub uninterp spec fn archive_files(archive: zip::ZipArchive<std::io::Cursor<std::sync::Arc<[u8]>>>) -> Map<
    Seq<char>,
    Seq<u8>,
>;

/// The names of the archive's members in the order of its directory;
/// `None` for a name that cannot be decoded.
pub uninterp spec fn archive_names(archive: zip::ZipArchive<std::io::Cursor<std::sync::Arc<[u8]>>>) -> Seq<
    Option<Seq<char>>,
>;

/// What opening `bytes` as a zip file finds: the bytes of each member that
/// can be read, by its path, and the names of the members in the order of
/// the directory. `None` for bytes that cannot be opened as a zip file.
pub uninterp spec fn zip_contents(bytes: Seq<u8>) -> Option<(Map<Seq<char>, Seq<u8>>, Seq<Option<Seq<char>>>)>;

/// Calls `zip::ZipArchive::new` on a cursor over `bytes`, which reads the
/// directory of a zip file. What it finds depends on the bytes alone.
#[verifier::external_body]
fn zip_open(bytes: Vec<u8>) -> (r: Result<
    zip::ZipArchive<std::io::Cursor<std::sync::Arc<[u8]>>>,
    zip::result::ZipError,
>)
    ensures
        match r {
            Ok(archive) => zip_contents(bytes@) == Some((archive_files(archive), archive_names(archive))),
            Err(_) => zip_contents(bytes@) is None,
        },
{
    zip::ZipArchive::new(std::io::Cursor::new(std::sync::Arc::from(bytes)))
}

/// Calls `zip::ZipArchive::len`, the number of members in the directory.
#[verifier::external_body]
fn zip_len(archive: &zip::ZipArchive<std::io::Cursor<std::sync::Arc<[u8]>>>) -> (n: usize)
    ensures
        n == archive_names(*archive).len(),
{
    archive.len()
}

/// Calls `zip::ZipArchive::name_for_index`, which gives the name of the
/// member at `index` of the directory: nothing where the directory is
/// shorter, an error where the name cannot be decoded.
#[verifier::external_body]
fn zip_name(archive: &zip::ZipArchive<std::io::Cursor<std::sync::Arc<[u8]>>>, index: usize) -> (r: Option<
    String,
>)
    ensures
        match r {
            Some(name) => index < archive_names(*archive).len() && archive_names(*archive)[index as int]
                == Some(name@),
            None => index >= archive_names(*archive).len() || archive_names(*archive)[index as int] is None,
        },
{
    match archive.name_for_index(index) {
        Some(Ok(name)) => Some(name.into_owned()),
        _ => None,
    }
}

/// Calls `zip::ZipArchive::by_name` and reads the member it finds to its
/// end; the member borrows the archive and cannot be handed out. The call
/// looks the name up in the directory, which stays as it is, and reads
/// from the member's own place in the file: what a later read of any name
/// gives is not changed by it.
#[verifier::external_body]
fn zip_read(archive: &mut zip::ZipArchive<std::io::Cursor<std::sync::Arc<[u8]>>>, path: &str) -> (r: Result<
    Vec<u8>,
    zip::result::ZipError,
>)
    ensures
        archive_files(*final(archive)) == archive_files(*old(archive)),
        archive_names(*final(archive)) == archive_names(*old(archive)),
        match r {
            Ok(data) => archive_files(*old(archive)).contains_key(path@) && archive_files(*old(archive))[path@]
                == data@,
            Err(_) => !archive_files(*old(archive)).contains_key(path@),
        },
{
    let mut member = archive.by_name(path)?;
    let mut data = Vec::new();
    std::io::Read::read_to_end(&mut member, &mut data)?;
    Ok(data)
}

/// What reading a member as a property file gives.
pub enum Member {
    /// No such member can be read.
    Missing,
    /// The member is no property file: it is not UTF-8, or one of its lines
    /// is malformed.
    Unreadable,
    /// The properties that the member holds.
    Found(Map<Seq<char>, Seq<char>>),
}

/// Reads the member of `files` at `path` as a property file.
pub open spec fn spec_member(files: Map<Seq<char>, Seq<u8>>, path: Seq<char>) -> Member {
    if !files.contains_key(path) {
        Member::Missing
    } else {
        match spec_parse_bytes(files[path]) {
            Some(found) => Member::Found(found),
            None => Member::Unreadable,
        }
    }
}

/// Those of `names` that could be decoded, in the same order.
pub open spec fn decoded(names: Seq<Option<Seq<char>>>) -> Seq<Seq<char>>
    decreases names.len(),
{
    if names.len() == 0 {
        Seq::empty()
    } else {
        match names.last() {
            Some(name) => decoded(names.drop_last()).push(name),
            None => decoded(names.drop_last()),
        }
    }
}

/// Calls `clone` of `zip::ZipArchive`, which gives a second reader of the
/// same bytes with the same directory.
#[verifier::external_body]
fn zip_clone(archive: &zip::ZipArchive<std::io::Cursor<std::sync::Arc<[u8]>>>) -> (copy: zip::ZipArchive<
    std::io::Cursor<std::sync::Arc<[u8]>>,
>)
    ensures
        archive_files(copy) == archive_files(*archive),
        archive_names(copy) == archive_names(*archive),
{
    archive.clone()
}

/// A zip archive in memory.
#[derive(Debug)]
pub struct Archive {
    inner: zip::ZipArchive<std::io::Cursor<std::sync::Arc<[u8]>>>,
}

impl Clone for Archive {
    /// A second reader of the same archive. The bytes are shared, not
    /// copied.
    fn clone(&self) -> (copy: Self)
        ensures
            copy.files() == self.files(),
            copy.names() == self.names(),
    {
        Archive { inner: zip_clone(&self.inner) }
    }
}

impl Archive {
    /// The bytes of each member that can be read, by its path.
    pub closed spec fn files(&self) -> Map<Seq<char>, Seq<u8>> {
        archive_files(self.inner)
    }

    /// The names of the members in the order of the directory; `None` for a
    /// name that cannot be decoded.
    pub closed spec fn names(&self) -> Seq<Option<Seq<char>>> {
        archive_names(self.inner)
    }

    /// Opens the zip file that `bytes` hold.
    pub fn open(bytes: Vec<u8>) -> (r: Result<Self, zip::result::ZipError>)
        ensures
            match zip_contents(bytes@) {
                Some((files, names)) => r matches Ok(archive) && archive.files() == files && archive.names()
                    == names,
                None => r is Err,
            },
    {
        match zip_open(bytes) {
            Ok(inner) => Ok(Archive { inner }),
            Err(error) => Err(error),
        }
    }

    /// Number of members.
    pub fn len(&self) -> (n: usize)
        ensures
            n == self.names().len(),
    {
        zip_len(&self.inner)
    }

    /// The name of the member at `index` of the directory.
    pub fn name(&self, index: usize) -> (r: Option<String>)
        ensures
            match r {
                Some(name) => index < self.names().len() && self.names()[index as int] == Some(name@),
                None => index >= self.names().len() || self.names()[index as int] is None,
            },
    {
        zip_name(&self.inner, index)
    }

    /// The names of the members that have one, in the order of the
    /// directory.
    pub fn file_names(&self) -> (names: Vec<String>)
        ensures
            names.len() == decoded(self.names()).len(),
            forall|i: int| 0 <= i < names.len() ==> (#[trigger] names[i])@ == decoded(self.names())[i],
    {
        let n = self.len();
        let mut names: Vec<String> = Vec::new();
        let mut i: usize = 0;
        assert(self.names().take(0) =~= Seq::<Option<Seq<char>>>::empty());
        while i < n
            invariant
                i <= n,
                n == self.names().len(),
                names.len() == decoded(self.names().take(i as int)).len(),
                forall|j: int|
                    0 <= j < names.len() ==> (#[trigger] names[j])@ == decoded(self.names().take(i as int))[j],
            decreases n - i,
        {
            assert(self.names().take(i + 1).drop_last() =~= self.names().take(i as int));
            match self.name(i) {
                Some(name) => {
                    names.push(name);
                },
                None => {},
            }
            i += 1;
        }
        assert(self.names().take(n as int) =~= self.names());
        names
    }

    /// Reads the member at `path` to its end.
    pub fn read(&mut self, path: &str) -> (r: Result<Vec<u8>, zip::result::ZipError>)
        ensures
            final(self).files() == old(self).files(),
            final(self).names() == old(self).names(),
            match r {
                Ok(data) => old(self).files().contains_key(path@) && old(self).files()[path@] == data@,
                Err(_) => !old(self).files().contains_key(path@),
            },
    {
        zip_read(&mut self.inner, path)
    }

    /// Reads the member at `path` as a property file: `None` where it is no
    /// property file, an error where it cannot be read.
    pub fn read_properties(&mut self, path: &str) -> (r: Result<Option<Properties>, zip::result::ZipError>)
        ensures
            final(self).files() == old(self).files(),
            final(self).names() == old(self).names(),
            match spec_member(old(self).files(), path@) {
                Member::Missing => r is Err,
                Member::Unreadable => r matches Ok(None),
                Member::Found(found) => r matches Ok(Some(properties)) && properties@ == found,
            },
    {
        let data = match self.read(path) {
            Ok(data) => data,
            Err(error) => {
                return Err(error);
            },
        };
        match Properties::from_bytes(data) {
            Ok(properties) => Ok(Some(properties)),
            Err(_) => Ok(None),
        }
    }
}

} // verus!
