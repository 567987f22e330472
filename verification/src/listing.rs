//! Directory listings: which children are shown, in what order, and with
//! what fields.
//!
//! The caller reads the directory; this module decides what becomes of what
//! was read.

use crate::heard::{get_file_heard, AttrRead};
use crate::paths::{
    join_paths, parent_relative_path, parent_relative_to, path_join, relative_path, relative_to,
    PathKind,
};
use crate::templates::file_listing::{
    entry_views, DirectoryEntry, FileDto, FileListingTemplate, Listing,
};
use crate::text::{
    is_hidden, is_hidden_name, lemma_bytes_le_total, lemma_bytes_le_transitive, name_le,
    name_order, size_label, size_text,
};
use vstd::prelude::*;

verus! {

/// What the file system told about one child: its size and whether it is a
/// directory.
#[derive(Debug, Clone, Copy, PartialEq, Eq, Structural)]
pub struct RawMetadata {
    pub len: u64,
    pub is_directory: bool,
}

/// One child of a directory, as read from the file system.
#[derive(Debug, Clone, PartialEq, Eq)]
pub struct RawEntry {
    /// The file name.
    pub name: String,
    /// Its metadata, or none where reading it failed.
    pub metadata: Option<RawMetadata>,
    /// What reading its stored flag gave.
    pub heard: AttrRead,
}

/// One child as read, as a mathematical value.
pub struct RawChild {
    pub name: Seq<char>,
    pub metadata: Option<RawMetadata>,
    pub heard: bool,
}

impl View for RawEntry {
    type V = RawChild;

    open spec fn view(&self) -> RawChild {
        RawChild { name: self.name@, metadata: self.metadata, heard: self.heard.heard() }
    }
}

/// The children of a vector of raw entries.
pub open spec fn raw_views(raws: Seq<RawEntry>) -> Seq<RawChild> {
    raws.map_values(|r: RawEntry| r@)
}

/// A child is shown unless its name is hidden or its metadata could not be
/// read.
pub open spec fn is_listed(raw: RawChild) -> bool {
    !is_hidden_name(raw.name) && raw.metadata is Some
}

/// The row of a child, given its path relative to the base directory.
pub open spec fn row_of(raw: RawChild, relative_path: Seq<char>) -> DirectoryEntry {
    DirectoryEntry {
        name: raw.name,
        relative_path,
        size: size_label(raw.metadata->0.len as nat),
        is_directory: raw.metadata->0.is_directory,
        is_heard: raw.heard,
    }
}

/// The row shown for a child of `dir`.
pub open spec fn entry_of(base: Seq<char>, dir: Seq<char>, raw: RawChild) -> DirectoryEntry {
    row_of(raw, relative_path(base, path_join(dir, raw.name)))
}

/// The rows of the children that are shown, in the order in which the
/// children were read.
pub open spec fn visible_entries(base: Seq<char>, dir: Seq<char>, raws: Seq<RawChild>) -> Seq<
    DirectoryEntry,
>
    decreases raws.len(),
{
    if raws.len() == 0 {
        Seq::empty()
    } else {
        let before = visible_entries(base, dir, raws.drop_last());
        if is_listed(raws.last()) {
            before.push(entry_of(base, dir, raws.last()))
        } else {
            before
        }
    }
}

/// Rows are in listing order when no row's name comes before that of an
/// earlier row.
pub open spec fn is_sorted_by_name(rows: Seq<DirectoryEntry>) -> bool {
    forall|i: int, j: int| 0 <= i < j < rows.len() ==> name_order(rows[i].name, rows[j].name)
}

/// Puts one row into rows that are in listing order: behind every row whose
/// name is at or before its own.
pub open spec fn insert_sorted(rows: Seq<DirectoryEntry>, row: DirectoryEntry) -> Seq<
    DirectoryEntry,
>
    decreases rows.len(),
{
    if rows.len() == 0 {
        seq![row]
    } else if name_order(rows.last().name, row.name) {
        rows.push(row)
    } else {
        insert_sorted(rows.drop_last(), row).push(rows.last())
    }
}

/// The rows in listing order: sorted by name, rows of one name in the order
/// in which they came.
pub open spec fn sorted_by_name(rows: Seq<DirectoryEntry>) -> Seq<DirectoryEntry>
    decreases rows.len(),
{
    if rows.len() == 0 {
        Seq::empty()
    } else {
        insert_sorted(sorted_by_name(rows.drop_last()), rows.last())
    }
}

/// The rows of a listing of `dir`.
pub open spec fn listed_entries(base: Seq<char>, dir: Seq<char>, raws: Seq<RawChild>) -> Seq<
    DirectoryEntry,
> {
    sorted_by_name(visible_entries(base, dir, raws))
}

/// The listing of `dir`, whose children were read as `raws`.
pub open spec fn listing_of(base: Seq<char>, dir: Seq<char>, raws: Seq<RawChild>) -> Listing {
    Listing {
        relative_path: relative_path(base, dir),
        parent_relative_path: parent_relative_path(base, dir),
        files: listed_entries(base, dir, raws),
    }
}

/// Every row of `insert_sorted(rows, row)` is `row` or a row of `rows`.
pub proof fn lemma_insert_sorted_rows(rows: Seq<DirectoryEntry>, row: DirectoryEntry)
    ensures
        insert_sorted(rows, row).len() == rows.len() + 1,
        forall|i: int|
            0 <= i < insert_sorted(rows, row).len() ==> {
                ||| #[trigger] insert_sorted(rows, row)[i] == row
                ||| rows.contains(insert_sorted(rows, row)[i])
            },
    decreases rows.len(),
{
    let out = insert_sorted(rows, row);
    if rows.len() == 0 {
    } else if name_order(rows.last().name, row.name) {
        assert forall|i: int| 0 <= i < out.len() implies (#[trigger] out[i] == row
            || rows.contains(out[i])) by {
            if i < rows.len() {
                assert(rows[i] == out[i]);
            }
        }
    } else {
        let inner = insert_sorted(rows.drop_last(), row);
        lemma_insert_sorted_rows(rows.drop_last(), row);
        assert forall|i: int| 0 <= i < out.len() implies (#[trigger] out[i] == row
            || rows.contains(out[i])) by {
            if i < inner.len() {
                assert(out[i] == inner[i]);
                if inner[i] != row {
                    let k = choose|k: int|
                        0 <= k < rows.drop_last().len() && rows.drop_last()[k] == inner[i];
                    assert(rows[k] == inner[i]);
                }
            } else {
                assert(out[i] == rows[rows.len() - 1]);
            }
        }
    }
}

/// Inserting into rows in listing order leaves them in listing order.
pub proof fn lemma_insert_sorted_keeps_order(rows: Seq<DirectoryEntry>, row: DirectoryEntry)
    requires
        is_sorted_by_name(rows),
    ensures
        is_sorted_by_name(insert_sorted(rows, row)),
    decreases rows.len(),
{
    let out = insert_sorted(rows, row);
    let key = |r: DirectoryEntry| vstd::utf8::encode_utf8(r.name);
    if rows.len() == 0 {
    } else if name_order(rows.last().name, row.name) {
        assert forall|i: int, j: int| 0 <= i < j < out.len() implies name_order(
            out[i].name,
            out[j].name,
        ) by {
            if j == rows.len() {
                if i < rows.len() - 1 {
                    assert(name_order(rows[i].name, rows[rows.len() - 1].name));
                    lemma_bytes_le_transitive(key(rows[i]), key(rows.last()), key(row));
                }
            } else {
                assert(name_order(rows[i].name, rows[j].name));
            }
        }
    } else {
        let shorter = rows.drop_last();
        let inner = insert_sorted(shorter, row);
        assert(is_sorted_by_name(shorter)) by {
            assert forall|i: int, j: int| 0 <= i < j < shorter.len() implies name_order(
                shorter[i].name,
                shorter[j].name,
            ) by {
                assert(name_order(rows[i].name, rows[j].name));
            }
        }
        lemma_insert_sorted_keeps_order(shorter, row);
        lemma_insert_sorted_rows(shorter, row);
        lemma_bytes_le_total(key(rows.last()), key(row));
        assert forall|i: int, j: int| 0 <= i < j < out.len() implies name_order(
            out[i].name,
            out[j].name,
        ) by {
            if j < inner.len() {
                assert(name_order(inner[i].name, inner[j].name));
            } else {
                assert(out[j] == rows.last());
                assert(out[i] == inner[i]);
                if inner[i] != row {
                    let k = choose|k: int| 0 <= k < shorter.len() && shorter[k] == inner[i];
                    assert(name_order(rows[k].name, rows[rows.len() - 1].name));
                }
            }
        }
    }
}

/// Inserting a row adds that row and nothing else.
pub proof fn lemma_insert_sorted_same_rows(rows: Seq<DirectoryEntry>, row: DirectoryEntry)
    ensures
        insert_sorted(rows, row).to_multiset() =~= rows.to_multiset().insert(row),
    decreases rows.len(),
{
    broadcast use vstd::seq_lib::to_multiset_build;

    if rows.len() == 0 {
        assert(seq![row] =~= rows.push(row));
    } else if name_order(rows.last().name, row.name) {
    } else {
        lemma_insert_sorted_same_rows(rows.drop_last(), row);
        assert(rows =~= rows.drop_last().push(rows.last()));
    }
}

/// Rows brought into listing order are in listing order.
pub proof fn lemma_sorted_by_name_is_sorted(rows: Seq<DirectoryEntry>)
    ensures
        is_sorted_by_name(sorted_by_name(rows)),
    decreases rows.len(),
{
    if rows.len() > 0 {
        lemma_sorted_by_name_is_sorted(rows.drop_last());
        lemma_insert_sorted_keeps_order(sorted_by_name(rows.drop_last()), rows.last());
    }
}

/// Bringing rows into listing order neither adds, drops nor repeats a row.
pub proof fn lemma_sorted_by_name_same_rows(rows: Seq<DirectoryEntry>)
    ensures
        sorted_by_name(rows).to_multiset() =~= rows.to_multiset(),
        sorted_by_name(rows).len() == rows.len(),
    decreases rows.len(),
{
    broadcast use vstd::seq_lib::to_multiset_build;

    if rows.len() > 0 {
        lemma_sorted_by_name_same_rows(rows.drop_last());
        lemma_insert_sorted_same_rows(sorted_by_name(rows.drop_last()), rows.last());
        lemma_insert_sorted_rows(sorted_by_name(rows.drop_last()), rows.last());
        assert(rows =~= rows.drop_last().push(rows.last()));
    } else {
        assert(sorted_by_name(rows) =~= rows);
    }
}

/// The rows of one name, in the order in which they stand.
pub open spec fn rows_named(rows: Seq<DirectoryEntry>, name: Seq<char>) -> Seq<DirectoryEntry> {
    rows.filter(|r: DirectoryEntry| r.name == name)
}

/// The rows of one name among `rows` and one more row.
proof fn lemma_rows_named_push(rows: Seq<DirectoryEntry>, row: DirectoryEntry, name: Seq<char>)
    ensures
        rows_named(rows.push(row), name) == (if row.name == name {
            rows_named(rows, name).push(row)
        } else {
            rows_named(rows, name)
        }),
{
    reveal(Seq::filter);
    assert(rows.push(row).drop_last() =~= rows);
}

/// Inserting a row puts it behind the rows of its own name and moves no row
/// of any name past another of that name.
pub proof fn lemma_insert_sorted_is_stable(
    rows: Seq<DirectoryEntry>,
    row: DirectoryEntry,
    name: Seq<char>,
)
    ensures
        rows_named(insert_sorted(rows, row), name) == (if row.name == name {
            rows_named(rows, name).push(row)
        } else {
            rows_named(rows, name)
        }),
    decreases rows.len(),
{
    if rows.len() == 0 {
        assert(seq![row] =~= rows.push(row));
        lemma_rows_named_push(rows, row, name);
    } else if name_order(rows.last().name, row.name) {
        lemma_rows_named_push(rows, row, name);
    } else {
        let shorter = rows.drop_last();
        lemma_insert_sorted_is_stable(shorter, row, name);
        lemma_rows_named_push(insert_sorted(shorter, row), rows.last(), name);
        lemma_rows_named_push(shorter, rows.last(), name);
        assert(rows =~= shorter.push(rows.last()));
        if row.name == name && rows.last().name == name {
            crate::text::lemma_bytes_le_reflexive(vstd::utf8::encode_utf8(name));
        }
    }
}

/// Listing order is stable: rows of one name stay in the order in which
/// they came.
pub proof fn lemma_sorted_by_name_is_stable(rows: Seq<DirectoryEntry>, name: Seq<char>)
    ensures
        rows_named(sorted_by_name(rows), name) == rows_named(rows, name),
    decreases rows.len(),
{
    if rows.len() > 0 {
        let shorter = rows.drop_last();
        lemma_sorted_by_name_is_stable(shorter, name);
        lemma_insert_sorted_is_stable(sorted_by_name(shorter), rows.last(), name);
        lemma_rows_named_push(shorter, rows.last(), name);
        assert(rows =~= shorter.push(rows.last()));
    }
}

/// Where no child has a name, no row that is shown has it.
pub proof fn lemma_no_child_no_row(
    base: Seq<char>,
    dir: Seq<char>,
    raws: Seq<RawChild>,
    name: Seq<char>,
)
    requires
        forall|j: int| 0 <= j < raws.len() ==> (#[trigger] raws[j]).name != name,
    ensures
        rows_named(visible_entries(base, dir, raws), name) == Seq::<DirectoryEntry>::empty(),
    decreases raws.len(),
{
    if raws.len() == 0 {
        reveal(Seq::filter);
    } else {
        let shorter = raws.drop_last();
        assert forall|j: int| 0 <= j < shorter.len() implies (#[trigger] shorter[j]).name
            != name by {
            assert(shorter[j] == raws[j]);
        }
        lemma_no_child_no_row(base, dir, shorter, name);
        assert(raws[raws.len() - 1].name != name);
        if is_listed(raws.last()) {
            lemma_rows_named_push(
                visible_entries(base, dir, shorter),
                entry_of(base, dir, raws.last()),
                name,
            );
        }
    }
}

/// Where one child that is shown is the only child of its name, its row is
/// the only row of that name among the rows that are shown.
proof fn lemma_only_child_only_visible_row(
    base: Seq<char>,
    dir: Seq<char>,
    raws: Seq<RawChild>,
    k: int,
)
    requires
        0 <= k < raws.len(),
        is_listed(raws[k]),
        forall|j: int| 0 <= j < raws.len() && j != k ==> (#[trigger] raws[j]).name != raws[k].name,
    ensures
        rows_named(visible_entries(base, dir, raws), raws[k].name) == seq![
            entry_of(base, dir, raws[k]),
        ],
    decreases raws.len(),
{
    let name = raws[k].name;
    let shorter = raws.drop_last();
    let before = visible_entries(base, dir, shorter);
    if k == raws.len() - 1 {
        assert forall|j: int| 0 <= j < shorter.len() implies (#[trigger] shorter[j]).name
            != name by {
            assert(shorter[j] == raws[j]);
        }
        lemma_no_child_no_row(base, dir, shorter, name);
        lemma_rows_named_push(before, entry_of(base, dir, raws[k]), name);
        assert(Seq::<DirectoryEntry>::empty().push(entry_of(base, dir, raws[k])) =~= seq![
            entry_of(base, dir, raws[k]),
        ]);
    } else {
        assert(shorter[k] == raws[k]);
        assert forall|j: int| 0 <= j < shorter.len() && j != k implies (#[trigger] shorter[j]).name
            != shorter[k].name by {
            assert(shorter[j] == raws[j]);
        }
        lemma_only_child_only_visible_row(base, dir, shorter, k);
        assert(raws[raws.len() - 1].name != name);
        if is_listed(raws.last()) {
            lemma_rows_named_push(before, entry_of(base, dir, raws.last()), name);
        }
    }
}

/// Where one child that is shown is the only child of its name, the listing
/// has exactly one row of that name, and it is the row of that child.
pub proof fn lemma_only_child_only_row(
    base: Seq<char>,
    dir: Seq<char>,
    raws: Seq<RawChild>,
    k: int,
)
    requires
        0 <= k < raws.len(),
        is_listed(raws[k]),
        forall|j: int| 0 <= j < raws.len() && j != k ==> (#[trigger] raws[j]).name != raws[k].name,
    ensures
        rows_named(listed_entries(base, dir, raws), raws[k].name) == seq![
            entry_of(base, dir, raws[k]),
        ],
{
    lemma_only_child_only_visible_row(base, dir, raws, k);
    lemma_sorted_by_name_is_stable(visible_entries(base, dir, raws), raws[k].name);
}

/// `row` is the row of a child among `raws` that is shown.
pub open spec fn is_row_of_listed(
    base: Seq<char>,
    dir: Seq<char>,
    raws: Seq<RawChild>,
    row: DirectoryEntry,
) -> bool {
    exists|k: int|
        #![trigger raws[k]]
        0 <= k < raws.len() && is_listed(raws[k]) && row == entry_of(base, dir, raws[k])
}

/// Every row that is shown is the row of a child that was read, is not
/// hidden, and had its metadata read.
pub proof fn lemma_visible_entries_come_from_listed(
    base: Seq<char>,
    dir: Seq<char>,
    raws: Seq<RawChild>,
)
    ensures
        forall|i: int|
            0 <= i < visible_entries(base, dir, raws).len() ==> is_row_of_listed(
                base,
                dir,
                raws,
                #[trigger] visible_entries(base, dir, raws)[i],
            ),
    decreases raws.len(),
{
    let out = visible_entries(base, dir, raws);
    if raws.len() > 0 {
        let shorter = raws.drop_last();
        let before = visible_entries(base, dir, shorter);
        lemma_visible_entries_come_from_listed(base, dir, shorter);
        assert forall|i: int| 0 <= i < out.len() implies is_row_of_listed(
            base,
            dir,
            raws,
            #[trigger] out[i],
        ) by {
            if i < before.len() {
                assert(out[i] == before[i]);
                assert(is_row_of_listed(base, dir, shorter, before[i]));
                let k = choose|k: int|
                    #![trigger shorter[k]]
                    0 <= k < shorter.len() && is_listed(shorter[k]) && before[i] == entry_of(
                        base,
                        dir,
                        shorter[k],
                    );
                assert(raws[k] == shorter[k]);
            } else {
                assert(out[i] == entry_of(base, dir, raws[raws.len() - 1]));
            }
        }
    }
}

/// Every child that is shown has its row among the visible ones.
pub proof fn lemma_listed_child_is_visible(
    base: Seq<char>,
    dir: Seq<char>,
    raws: Seq<RawChild>,
    k: int,
)
    requires
        0 <= k < raws.len(),
        is_listed(raws[k]),
    ensures
        visible_entries(base, dir, raws).contains(entry_of(base, dir, raws[k])),
    decreases raws.len(),
{
    let out = visible_entries(base, dir, raws);
    let shorter = raws.drop_last();
    let before = visible_entries(base, dir, shorter);
    if k == raws.len() - 1 {
        assert(out[out.len() - 1] == entry_of(base, dir, raws[k]));
    } else {
        lemma_listed_child_is_visible(base, dir, shorter, k);
        let i = choose|i: int| 0 <= i < before.len() && before[i] == entry_of(base, dir, raws[k]);
        assert(out[i] == before[i]);
    }
}

/// A listing shows no hidden name, and its rows are in listing order.
pub proof fn lemma_listing_hides_and_sorts(base: Seq<char>, dir: Seq<char>, raws: Seq<RawChild>)
    ensures
        is_sorted_by_name(listed_entries(base, dir, raws)),
        forall|i: int|
            0 <= i < listed_entries(base, dir, raws).len() ==> !is_hidden_name(
                #[trigger] listed_entries(base, dir, raws)[i].name,
            ),
{
    broadcast use vstd::seq_lib::to_multiset_contains;

    let visible = visible_entries(base, dir, raws);
    let out = listed_entries(base, dir, raws);
    lemma_sorted_by_name_is_sorted(visible);
    lemma_sorted_by_name_same_rows(visible);
    lemma_visible_entries_come_from_listed(base, dir, raws);
    assert forall|i: int| 0 <= i < out.len() implies !is_hidden_name(#[trigger] out[i].name) by {
        assert(out.contains(out[i]));
        assert(out.to_multiset().count(out[i]) > 0);
        assert(visible.contains(out[i]));
        let v = choose|v: int| 0 <= v < visible.len() && visible[v] == out[i];
        assert(is_row_of_listed(base, dir, raws, visible[v]));
    }
}

/// A child that is shown has its row in the listing, with the flag that was
/// read for it.
pub proof fn lemma_listing_shows_child(
    base: Seq<char>,
    dir: Seq<char>,
    raws: Seq<RawChild>,
    k: int,
)
    requires
        0 <= k < raws.len(),
        is_listed(raws[k]),
    ensures
        exists|i: int|
            0 <= i < listed_entries(base, dir, raws).len() && #[trigger] listed_entries(
                base,
                dir,
                raws,
            )[i] == entry_of(base, dir, raws[k]),
{
    broadcast use vstd::seq_lib::to_multiset_contains;

    let visible = visible_entries(base, dir, raws);
    let out = listed_entries(base, dir, raws);
    let row = entry_of(base, dir, raws[k]);
    lemma_listed_child_is_visible(base, dir, raws, k);
    lemma_sorted_by_name_same_rows(visible);
    assert(visible.to_multiset().count(row) > 0);
    assert(out.contains(row));
}

/// Why a directory could not be listed.
#[derive(Debug, Clone, PartialEq, Eq)]
pub enum ListError {
    /// Nothing exists at the path.
    NotFound,
    /// The path exists and is not a directory.
    NotADirectory,
    /// The directory could not be read; the text says why.
    Unreadable(String),
}

impl ListError {
    /// The text shown to the client.
    pub fn message(&self) -> (text: String)
        ensures
            text@ == match *self {
                ListError::NotFound => "Path does not exist"@,
                ListError::NotADirectory => "Provided path is not a directory"@,
                ListError::Unreadable(reason) => "Unable to get list of files: "@ + reason@,
            },
    {
        match self {
            ListError::NotFound => String::from_str("Path does not exist"),
            ListError::NotADirectory => String::from_str("Provided path is not a directory"),
            ListError::Unreadable(reason) => {
                String::from_str("Unable to get list of files: ").concat(reason.as_str())
            },
        }
    }
}

/// Whether a child is shown.
pub fn is_shown(raw: &RawEntry) -> (shown: bool)
    ensures
        shown == is_listed(raw@),
{
    !is_hidden(raw.name.as_str()) && raw.metadata.is_some()
}

/// Builds the row of a child from what was read about it and from its path
/// relative to the base directory. There is no row for a child whose
/// metadata could not be read.
pub fn entry_row(raw: &RawEntry, relative_path: String) -> (row: Option<FileDto>)
    ensures
        match row {
            Some(row) => raw.metadata is Some && row@ == row_of(raw@, relative_path@),
            None => raw.metadata is None,
        },
{
    match raw.metadata {
        Some(metadata) => Some(
            FileDto {
                name: raw.name.clone(),
                relative_path,
                size: size_text(metadata.len),
                is_directory: metadata.is_directory,
                is_heard: get_file_heard(&raw.heard),
            },
        ),
        None => None,
    }
}

/// Puts `row` into `files` at its place in listing order: behind every row
/// whose name is at or before its own.
pub fn insert_entry(files: &mut Vec<FileDto>, row: FileDto)
    ensures
        entry_views(final(files)@) == insert_sorted(entry_views(old(files)@), row@),
{
    let ghost rows = entry_views(files@);
    let mut j: usize = files.len();
    proof {
        assert(rows.take(j as int) =~= rows);
        assert(rows.skip(j as int) =~= Seq::<DirectoryEntry>::empty());
        assert(insert_sorted(rows, row@) =~= insert_sorted(rows.take(j as int), row@) + rows.skip(
            j as int,
        ));
    }
    while j > 0 && !name_le(files[j - 1].name.as_str(), row.name.as_str())
        invariant
            j <= files.len(),
            files@ == old(files)@,
            rows == entry_views(files@),
            insert_sorted(rows, row@) == insert_sorted(rows.take(j as int), row@) + rows.skip(
                j as int,
            ),
        decreases j,
    {
        proof {
            let front = rows.take(j as int);
            assert(front.last() == rows[j - 1]);
            assert(front.drop_last() =~= rows.take(j - 1));
            assert(seq![rows[j - 1]] + rows.skip(j as int) =~= rows.skip(j - 1));
            assert(insert_sorted(front, row@) == insert_sorted(rows.take(j - 1), row@).push(
                rows[j - 1],
            ));
            assert(insert_sorted(front, row@) + rows.skip(j as int) =~= insert_sorted(
                rows.take(j - 1),
                row@,
            ) + rows.skip(j - 1));
        }
        j -= 1;
    }
    proof {
        let front = rows.take(j as int);
        if j > 0 {
            assert(front.last() == rows[j - 1]);
        }
        assert(insert_sorted(front, row@) =~= front.push(row@));
        assert(front.push(row@) + rows.skip(j as int) =~= rows.insert(j as int, row@));
    }
    files.insert(j, row);
    proof {
        assert(entry_views(files@) =~= rows.insert(j as int, row@));
    }
}

/// Lists the directory `dir`, a path that `resolve` returned for the base
/// directory `base`. `kind` says what the caller found at `dir`, and
/// `entries` what reading it gave: its direct children in any order, or the
/// reason why it could not be read.
///
/// A missing path and a path that is no directory are refused, in this
/// order, before `entries` is looked at. Children with a hidden name are
/// left out, and so are children whose metadata could not be read. The rest
/// is shown in listing order.
pub fn get_file_list(
    base: &str,
    dir: &str,
    kind: PathKind,
    entries: Result<Vec<RawEntry>, String>,
) -> (listing: Result<FileListingTemplate, ListError>)
    ensures
        match listing {
            Ok(page) => {
                &&& kind == PathKind::Directory
                &&& entries matches Ok(raws) && page@ == listing_of(base@, dir@, raw_views(raws@))
                &&& is_sorted_by_name(page@.files)
                &&& forall|i: int|
                    0 <= i < page@.files.len() ==> !is_hidden_name(#[trigger] page@.files[i].name)
            },
            Err(ListError::NotFound) => kind == PathKind::Missing,
            Err(ListError::NotADirectory) => kind != PathKind::Missing && kind
                != PathKind::Directory,
            Err(ListError::Unreadable(reason)) => {
                &&& kind == PathKind::Directory
                &&& entries matches Err(why) && reason@ == why@
            },
        },
{
    match kind {
        PathKind::Missing => {
            return Err(ListError::NotFound);
        },
        PathKind::Directory => {},
        _ => {
            return Err(ListError::NotADirectory);
        },
    }
    let raws = match entries {
        Ok(raws) => raws,
        Err(why) => {
            return Err(ListError::Unreadable(why));
        },
    };
    let ghost children = raw_views(raws@);
    let mut files: Vec<FileDto> = Vec::new();
    let mut i: usize = 0;
    proof {
        assert(entry_views(files@) =~= Seq::<DirectoryEntry>::empty());
    }
    while i < raws.len()
        invariant
            i <= raws.len(),
            children == raw_views(raws@),
            entry_views(files@) == listed_entries(base@, dir@, children.take(i as int)),
        decreases raws.len() - i,
    {
        let raw = &raws[i];
        proof {
            let next = children.take(i + 1);
            assert(next.drop_last() =~= children.take(i as int));
            assert(next.last() == raw@);
            let shown = visible_entries(base@, dir@, children.take(i as int));
            if is_listed(raw@) {
                assert(shown.push(entry_of(base@, dir@, raw@)).drop_last() =~= shown);
            }
        }
        if is_shown(raw) {
            let path = join_paths(dir, raw.name.as_str());
            match entry_row(raw, relative_to(base, path.as_str())) {
                Some(row) => {
                    insert_entry(&mut files, row);
                },
                None => {},
            }
        }
        i += 1;
    }
    proof {
        assert(children.take(i as int) =~= children);
        lemma_listing_hides_and_sorts(base@, dir@, children);
    }
    Ok(
        FileListingTemplate {
            relative_path: relative_to(base, dir),
            parent_relative_path: parent_relative_to(base, dir),
            files,
        },
    )
}

/// The address a client shows after loading a listing: the query that asks
/// for the same directory again.
pub fn push_url(listing: &FileListingTemplate) -> (url: String)
    ensures
        url@ == "?path="@ + listing.relative_path@,
{
    String::from_str("?path=").concat(listing.relative_path.as_str())
}

} // verus!
