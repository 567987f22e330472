//! Setting or toggling the "heard" flag of one file.
//!
//! The caller reads what is at the target and what the attribute store holds
//! for it; `set_heard` decides what to store and what to answer. The caller
//! then writes the bytes, and `confirm_set_heard` turns the outcome of that
//! write into the answer.

use crate::heard::{flag_bytes, get_file_heard, heard_attr_bytes, next_heard, toggled, AttrRead};
use crate::listing::{
    entry_of, is_listed, lemma_listing_shows_child, lemma_only_child_only_row, listed_entries,
    rows_named, RawChild,
};
use crate::paths::{
    file_name_of, opt_text, path_file_name, path_join, relative_path, relative_to,
    resolve_strict, resolved_strict, strict_view, PathKind, PathResolutionError,
};
use crate::templates::file_listing::DirectoryEntry;
use crate::templates::file_listing_entry::FileListingEntryTemplate;
use crate::text::{size_label, size_text};
use vstd::prelude::*;

verus! {

/// Why a flag was not set.
#[derive(Debug, Clone, Copy, PartialEq, Eq, Structural)]
pub enum SetHeardError {
    /// The target does not have the base directory as a prefix, or climbs
    /// above it.
    InvalidPath,
    /// The target is not a regular file.
    NotAFile,
    /// The attribute store refused the write.
    AttributeStore,
}

impl SetHeardError {
    /// The text shown to the client.
    pub fn message(&self) -> (text: String)
        ensures
            text@ == match *self {
                SetHeardError::InvalidPath => "Invalid path"@,
                SetHeardError::NotAFile => "Provided path is not a file"@,
                SetHeardError::AttributeStore => "Unable to store the heard flag"@,
            },
    {
        match self {
            SetHeardError::InvalidPath => String::from_str("Invalid path"),
            SetHeardError::NotAFile => String::from_str("Provided path is not a file"),
            SetHeardError::AttributeStore => String::from_str("Unable to store the heard flag"),
        }
    }
}

/// What the caller found at the target before the change.
#[derive(Debug, Clone, PartialEq, Eq)]
pub struct FileProbe {
    /// What the target is.
    pub kind: PathKind,
    /// Its size in bytes.
    pub len: u64,
    /// What reading its stored flag gave.
    pub heard: AttrRead,
}

/// A decided change: what to write where, and the row to answer with once
/// it is written.
#[derive(Debug, Clone, PartialEq, Eq)]
pub struct HeardUpdate {
    /// The file whose flag is set.
    pub target: String,
    /// The new flag.
    pub value: bool,
    /// The bytes to store for it.
    pub bytes: Vec<u8>,
    /// The row of the file with the new flag.
    pub entry: FileListingEntryTemplate,
}

/// A decided change, as a mathematical value.
pub struct Update {
    pub target: Seq<char>,
    pub value: bool,
    pub bytes: Seq<u8>,
    pub entry: DirectoryEntry,
}

impl View for HeardUpdate {
    type V = Update;

    open spec fn view(&self) -> Update {
        Update {
            target: self.target@,
            value: self.value,
            bytes: self.bytes@,
            entry: self.entry@,
        }
    }
}

/// The decision on a request, given the strictly resolved target, its file
/// name, its path relative to the base directory, and what was found at it.
pub open spec fn decided(
    target: Result<Seq<char>, PathResolutionError>,
    name: Option<Seq<char>>,
    relative: Seq<char>,
    explicit: Option<bool>,
    kind: PathKind,
    len: u64,
    heard: bool,
) -> Result<Update, SetHeardError> {
    match target {
        Err(_) => Err(SetHeardError::InvalidPath),
        Ok(path) => if kind != PathKind::File {
            Err(SetHeardError::NotAFile)
        } else {
            match name {
                None => Err(SetHeardError::NotAFile),
                Some(name) => Ok(
                    Update {
                        target: path,
                        value: toggled(heard, explicit),
                        bytes: flag_bytes(toggled(heard, explicit)),
                        entry: DirectoryEntry {
                            name,
                            relative_path: relative,
                            size: size_label(len as nat),
                            is_directory: false,
                            is_heard: toggled(heard, explicit),
                        },
                    },
                ),
            }
        },
    }
}

/// The decision on the request for the file that `relative` names.
pub open spec fn set_heard_outcome(
    base: Seq<char>,
    relative: Seq<char>,
    explicit: Option<bool>,
    kind: PathKind,
    len: u64,
    heard: bool,
) -> Result<Update, SetHeardError> {
    let target = resolved_strict(base, relative);
    decided(
        target,
        match target {
            Ok(path) => path_file_name(path),
            Err(_) => None,
        },
        match target {
            Ok(path) => relative_path(base, path),
            Err(_) => Seq::empty(),
        },
        explicit,
        kind,
        len,
        heard,
    )
}

/// The view of a decision.
pub open spec fn outcome_view(outcome: Result<HeardUpdate, SetHeardError>) -> Result<
    Update,
    SetHeardError,
> {
    match outcome {
        Ok(update) => Ok(update@),
        Err(e) => Err(e),
    }
}

/// Decides a request once the paths are worked out: `target` is the strictly
/// resolved target, `name` its file name and `relative_path` its path
/// relative to the base directory.
///
/// A refused target gives `InvalidPath`. A target that is not a regular
/// file, or that has no file name, gives `NotAFile`. Otherwise the new flag
/// is the explicit value, or the negation of the stored one where none is
/// given.
pub fn decide_set_heard(
    target: Result<String, PathResolutionError>,
    name: Option<String>,
    relative_path: String,
    explicit: Option<bool>,
    probe: &FileProbe,
) -> (outcome: Result<HeardUpdate, SetHeardError>)
    ensures
        outcome_view(outcome) == decided(
            strict_view(target),
            opt_text(name),
            relative_path@,
            explicit,
            probe.kind,
            probe.len,
            probe.heard.heard(),
        ),
{
    let target = match target {
        Ok(target) => target,
        Err(_) => {
            return Err(SetHeardError::InvalidPath);
        },
    };
    match probe.kind {
        PathKind::File => {},
        _ => {
            return Err(SetHeardError::NotAFile);
        },
    }
    let name = match name {
        Some(name) => name,
        None => {
            return Err(SetHeardError::NotAFile);
        },
    };
    let value = next_heard(get_file_heard(&probe.heard), explicit);
    let entry = FileListingEntryTemplate {
        name,
        relative_path,
        size: size_text(probe.len),
        is_directory: false,
        is_heard: value,
    };
    Ok(HeardUpdate { target, value, bytes: heard_attr_bytes(value), entry })
}

/// Decides a set-or-toggle request for the file that `relative` names.
/// `probe` is what the caller found at `resolve_strict(base, relative)`; it
/// is not looked at where that resolution is refused.
///
/// The target is resolved strictly: a joined path that does not have the
/// base directory as a prefix, or that climbs above it through "..", is
/// refused, never redirected, and nothing is to be written for it.
///
/// Reading the stored flag, deciding and writing are three steps, and nothing
/// holds the file between them: of two requests for one file that overlap,
/// the later write wins, and two toggles may both flip the same value.
pub fn set_heard(base: &str, relative: &str, explicit: Option<bool>, probe: &FileProbe) -> (outcome:
    Result<HeardUpdate, SetHeardError>)
    ensures
        outcome_view(outcome) == set_heard_outcome(
            base@,
            relative@,
            explicit,
            probe.kind,
            probe.len,
            probe.heard.heard(),
        ),
        outcome is Err ==> outcome != Err::<HeardUpdate, SetHeardError>(
            SetHeardError::AttributeStore,
        ),
        outcome matches Err(e) ==> (e == SetHeardError::InvalidPath <==> resolved_strict(
            base@,
            relative@,
        ) is Err),
{
    let target = resolve_strict(base, relative);
    let (name, relative_path) = match &target {
        Ok(path) => (file_name_of(path.as_str()), relative_to(base, path.as_str())),
        Err(_) => (None, String::new()),
    };
    decide_set_heard(target, name, relative_path, explicit, probe)
}

/// Turns the outcome of the write into the answer: the updated row where
/// the bytes were stored, an error of the attribute store where they were
/// not.
pub fn confirm_set_heard(update: HeardUpdate, stored: bool) -> (answer: Result<
    FileListingEntryTemplate,
    SetHeardError,
>)
    ensures
        stored ==> answer == Ok::<FileListingEntryTemplate, SetHeardError>(update.entry),
        !stored ==> answer == Err::<FileListingEntryTemplate, SetHeardError>(
            SetHeardError::AttributeStore,
        ),
{
    if stored {
        Ok(update.entry)
    } else {
        Err(SetHeardError::AttributeStore)
    }
}

/// Toggling twice brings the flag back. The first request and the second
/// both name `relative` and give no explicit value; the store hands back,
/// for the second, the bytes `written` that the first decided to store.
/// Then the second decides on the flag that was read before the first.
pub proof fn lemma_toggle_twice_restores(
    base: Seq<char>,
    relative: Seq<char>,
    len: u64,
    before: AttrRead,
    written: Vec<u8>,
)
    requires
        set_heard_outcome(base, relative, None, PathKind::File, len, before.heard()) matches Ok(
            first,
        ) && written@ == first.bytes,
    ensures
        set_heard_outcome(
            base,
            relative,
            None,
            PathKind::File,
            len,
            AttrRead::Present(written).heard(),
        ) matches Ok(second) && second.value == before.heard(),
{
}

/// A flag that was set shows in the next listing. A request with the
/// explicit value `value` was decided, and the store hands back, for a child
/// that is shown, the bytes `written` that the request decided to store.
/// Then the listing has the row of that child with `is_heard == value`.
pub proof fn lemma_set_flag_is_listed(
    base: Seq<char>,
    relative: Seq<char>,
    value: bool,
    len: u64,
    before: bool,
    written: Vec<u8>,
    dir: Seq<char>,
    raws: Seq<RawChild>,
    k: int,
)
    requires
        set_heard_outcome(base, relative, Some(value), PathKind::File, len, before) matches Ok(
            update,
        ) && written@ == update.bytes,
        0 <= k < raws.len(),
        is_listed(raws[k]),
        raws[k].heard == AttrRead::Present(written).heard(),
    ensures
        exists|i: int|
            0 <= i < listed_entries(base, dir, raws).len() && (#[trigger] listed_entries(
                base,
                dir,
                raws,
            )[i]).name == raws[k].name && listed_entries(base, dir, raws)[i].is_heard == value,
{
    lemma_listing_shows_child(base, dir, raws, k);
    let i = choose|i: int|
        0 <= i < listed_entries(base, dir, raws).len() && #[trigger] listed_entries(
            base,
            dir,
            raws,
        )[i] == entry_of(base, dir, raws[k]);
    assert(listed_entries(base, dir, raws)[i].name == raws[k].name);
}

/// A flag that was set shows in the next listing, once. Beyond the above,
/// the child is the file of the request (the target is the listed directory
/// joined with the child's name) and the only child of its name, as the
/// children of one directory are. Then the listing has exactly one row of
/// that name; it carries the relative path that the request answered with,
/// and `is_heard == value`.
pub proof fn lemma_set_flag_is_listed_once(
    base: Seq<char>,
    relative: Seq<char>,
    value: bool,
    len: u64,
    before: bool,
    written: Vec<u8>,
    dir: Seq<char>,
    raws: Seq<RawChild>,
    k: int,
)
    requires
        set_heard_outcome(base, relative, Some(value), PathKind::File, len, before) matches Ok(
            update,
        ) && written@ == update.bytes && update.target == path_join(dir, raws[k].name),
        0 <= k < raws.len(),
        is_listed(raws[k]),
        raws[k].heard == AttrRead::Present(written).heard(),
        forall|j: int| 0 <= j < raws.len() && j != k ==> (#[trigger] raws[j]).name != raws[k].name,
    ensures
        rows_named(listed_entries(base, dir, raws), raws[k].name).len() == 1,
        rows_named(listed_entries(base, dir, raws), raws[k].name)[0].is_heard == value,
        set_heard_outcome(base, relative, Some(value), PathKind::File, len, before) matches Ok(
            update,
        ) && rows_named(listed_entries(base, dir, raws), raws[k].name)[0].relative_path
            == update.entry.relative_path,
{
    lemma_only_child_only_row(base, dir, raws, k);
}

} // verus!
