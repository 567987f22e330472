//! The listing of one directory.

use vstd::prelude::*;

verus! {

/// One row of a listing, as a mathematical value.
pub struct DirectoryEntry {
    pub name: Seq<char>,
    pub relative_path: Seq<char>,
    pub size: Seq<char>,
    pub is_directory: bool,
    pub is_heard: bool,
}

/// A whole listing, as a mathematical value.
pub struct Listing {
    pub relative_path: Seq<char>,
    pub parent_relative_path: Option<Seq<char>>,
    pub files: Seq<DirectoryEntry>,
}

/// One row of a listing: a direct child of the listed directory.
#[derive(Debug, Clone, PartialEq, Eq)]
pub struct FileDto {
    /// The file name.
    pub name: String,
    /// The path relative to the base directory.
    pub relative_path: String,
    /// The size in whole kibibytes, as shown.
    pub size: String,
    pub is_directory: bool,
    pub is_heard: bool,
}

impl View for FileDto {
    type V = DirectoryEntry;

    open spec fn view(&self) -> DirectoryEntry {
        DirectoryEntry {
            name: self.name@,
            relative_path: self.relative_path@,
            size: self.size@,
            is_directory: self.is_directory,
            is_heard: self.is_heard,
        }
    }
}

/// The rows of a vector of entries.
pub open spec fn entry_views(files: Seq<FileDto>) -> Seq<DirectoryEntry> {
    files.map_values(|f: FileDto| f@)
}

/// The listing of one directory.
#[derive(Debug, Clone, PartialEq, Eq)]
pub struct FileListingTemplate {
    /// The listed directory, relative to the base directory.
    pub relative_path: String,
    /// The directory above it, relative to the base directory; none for the
    /// base directory itself.
    pub parent_relative_path: Option<String>,
    /// The rows, in listing order.
    pub files: Vec<FileDto>,
}

impl View for FileListingTemplate {
    type V = Listing;

    open spec fn view(&self) -> Listing {
        Listing {
            relative_path: self.relative_path@,
            parent_relative_path: match self.parent_relative_path {
                Some(p) => Some(p@),
                None => None,
            },
            files: entry_views(self.files@),
        }
    }
}

} // verus!
