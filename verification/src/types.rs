use vstd::prelude::*;

verus! {

/// The categories a file can be routed to.
#[derive(Clone, Copy, Debug, PartialEq, Eq, Structural)]
pub enum FileType {
    Docs,
    Media,
    Programming,
    Others,
}

/// The error outcomes of the library's operations.
///
/// `DirectoryReadError` is returned when the root directory cannot be
/// listed. `FileCopyError` marks a relocation whose copy step failed, with
/// the source left untouched. `FileDeleteError` marks a relocation whose
/// copy succeeded but whose delete of the source failed, leaving the file
/// duplicated at source and destination; callers must treat it as the more
/// severe of the two per-file failures.
#[derive(Clone, Copy, Debug, PartialEq, Eq, Structural)]
pub enum HermanErrors {
    DirectoryReadError,
    FileCopyError,
    FileDeleteError,
}

} // verus!
