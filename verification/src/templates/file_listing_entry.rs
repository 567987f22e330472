//! A single row, rendered on its own after a change to one file.

use crate::templates::file_listing::DirectoryEntry;
use vstd::prelude::*;

verus! {

/// The row of one file, as returned after its flag was set.
#[derive(Debug, Clone, PartialEq, Eq)]
pub struct FileListingEntryTemplate {
    /// The file name.
    pub name: String,
    /// The path relative to the base directory.
    pub relative_path: String,
    /// The size in whole kibibytes, as shown.
    pub size: String,
    pub is_directory: bool,
    pub is_heard: bool,
}

impl View for FileListingEntryTemplate {
    type V = DirectoryEntry;

    open spec fn view(&self) -> DirectoryEntry {
        DirectoryEntry {
            name: self.name@,
            relative_path: self.relative_path@,
            size: self.size@,
            is_directory: self.is_directory,
            is_heard: self.is_heard,
        }
    }
}

} // verus!
