//! File-system change events and the filter that decides which of them are
//! worth telling subscribers about.

use crate::paths::{extension_of, path_extension};
use vstd::prelude::*;

verus! {

/// What happened to the affected paths.
#[derive(Debug, Clone, Copy, PartialEq, Eq, Structural)]
pub enum ChangeKind {
    Created,
    Modified,
    Removed,
    Other,
}

/// One raw event of the file-system watch. It may name several paths.
#[derive(Debug, Clone, PartialEq, Eq)]
pub struct ChangeEvent {
    /// The affected paths, absolute, in the order in which the watch named
    /// them.
    pub paths: Vec<String>,
    pub kind: ChangeKind,
    /// The event reports that something was read, not that anything changed.
    pub is_access_only: bool,
}

/// A change event as a mathematical value.
pub struct Change {
    pub paths: Seq<Seq<char>>,
    pub kind: ChangeKind,
    pub is_access_only: bool,
}

impl View for ChangeEvent {
    type V = Change;

    open spec fn view(&self) -> Change {
        Change {
            paths: self.paths@.map_values(|p: String| p@),
            kind: self.kind,
            is_access_only: self.is_access_only,
        }
    }
}

/// The extension that marks a file as still being written.
pub open spec fn temp_extension() -> Seq<char> {
    seq!['t', 'm', 'p']
}

/// An extension marks a temporary file when it is the marker.
pub open spec fn is_temp_extension(extension: Option<Seq<char>>) -> bool {
    extension == Some(temp_extension())
}

/// A path is that of a temporary file when its extension is the marker.
pub open spec fn is_temp_path(path: Seq<char>) -> bool {
    is_temp_extension(path_extension(path))
}

/// The filter, given for each path of an event whether it is that of a
/// temporary file: the event passes unless it only reports an access or no
/// path is left that is not temporary.
pub open spec fn passes(is_access_only: bool, temporary: Seq<bool>) -> bool {
    !is_access_only && exists|i: int| 0 <= i < temporary.len() && !(#[trigger] temporary[i])
}

/// An event is noteworthy unless it only reports an access, or every path it
/// names is that of a temporary file. An event that names no path is not
/// noteworthy.
pub open spec fn is_noteworthy(change: Change) -> bool {
    passes(change.is_access_only, change.paths.map_values(|p: Seq<char>| is_temp_path(p)))
}

/// Whether an extension is the one of temporary files.
pub fn has_temp_extension(extension: &Option<String>) -> (temp: bool)
    ensures
        temp == is_temp_extension(crate::paths::opt_text(*extension)),
{
    proof {
        reveal_strlit("tmp");
        assert("tmp"@ =~= temp_extension());
    }
    match extension {
        Some(extension) => *extension == String::from_str("tmp"),
        None => false,
    }
}

/// Whether `path` carries the extension of temporary files.
pub fn is_temp_file(path: &str) -> (temp: bool)
    ensures
        temp == is_temp_path(path@),
{
    let extension = extension_of(path);
    has_temp_extension(&extension)
}

/// The filter on plain values: `temporary` says for each path of an event
/// whether it is that of a temporary file.
pub fn passes_filter(is_access_only: bool, temporary: &Vec<bool>) -> (passed: bool)
    ensures
        passed == passes(is_access_only, temporary@),
{
    if is_access_only {
        return false;
    }
    let mut i: usize = 0;
    while i < temporary.len()
        invariant
            !is_access_only,
            i <= temporary.len(),
            forall|j: int| 0 <= j < i ==> #[trigger] temporary@[j],
        decreases temporary.len() - i,
    {
        if !temporary[i] {
            return true;
        }
        i += 1;
    }
    false
}

impl ChangeEvent {
    /// The change filter: whether the event is handed on to subscribers.
    pub fn admits(&self) -> (admitted: bool)
        ensures
            admitted == is_noteworthy(self@),
    {
        let mut temporary: Vec<bool> = Vec::new();
        let mut i: usize = 0;
        while i < self.paths.len()
            invariant
                i <= self.paths.len(),
                temporary.len() == i,
                forall|j: int| 0 <= j < i ==> temporary@[j] == is_temp_path(self@.paths[j]),
            decreases self.paths.len() - i,
        {
            temporary.push(is_temp_file(self.paths[i].as_str()));
            i += 1;
        }
        assert(temporary@ =~= self@.paths.map_values(|p: Seq<char>| is_temp_path(p)));
        passes_filter(self.is_access_only, &temporary)
    }

    /// A copy of the event, equal to it in every field.
    pub fn duplicate(&self) -> (copy: ChangeEvent)
        ensures
            copy@ == self@,
    {
        let mut paths: Vec<String> = Vec::new();
        let mut i: usize = 0;
        while i < self.paths.len()
            invariant
                i <= self.paths.len(),
                paths.len() == i,
                forall|j: int| 0 <= j < i ==> paths[j]@ == self.paths[j]@,
            decreases self.paths.len() - i,
        {
            paths.push(self.paths[i].clone());
            i += 1;
        }
        let copy = ChangeEvent { paths, kind: self.kind, is_access_only: self.is_access_only };
        assert(copy@.paths =~= self@.paths);
        copy
    }
}

/// A noteworthy event names at least one path.
pub proof fn lemma_noteworthy_names_a_path(change: Change)
    requires
        is_noteworthy(change),
    ensures
        change.paths.len() > 0,
        exists|i: int| 0 <= i < change.paths.len() && !is_temp_path(#[trigger] change.paths[i]),
{
    let temporary = change.paths.map_values(|p: Seq<char>| is_temp_path(p));
    let i = choose|i: int| 0 <= i < temporary.len() && !(#[trigger] temporary[i]);
    assert(!is_temp_path(change.paths[i]));
}

/// An event all of whose paths are those of temporary files is not
/// noteworthy, whatever else it says.
pub proof fn lemma_temp_only_is_dropped(change: Change)
    requires
        forall|i: int| 0 <= i < change.paths.len() ==> is_temp_path(#[trigger] change.paths[i]),
    ensures
        !is_noteworthy(change),
{
    let temporary = change.paths.map_values(|p: Seq<char>| is_temp_path(p));
    assert forall|i: int| 0 <= i < temporary.len() implies #[trigger] temporary[i] by {
        assert(is_temp_path(change.paths[i]));
    }
}

} // verus!
