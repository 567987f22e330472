use heard_browser::heard::AttrRead;
use heard_browser::listing::{
    entry_row, get_file_list, insert_entry, is_shown, push_url, ListError, RawEntry, RawMetadata,
};
use heard_browser::paths::PathKind;
use heard_browser::templates::file_listing::{FileDto, FileListingTemplate};

fn raw_file(name: &str, len: u64, heard: AttrRead) -> RawEntry {
    RawEntry {
        name: name.to_string(),
        metadata: Some(RawMetadata { len, is_directory: false }),
        heard,
    }
}

fn raw_dir(name: &str) -> RawEntry {
    RawEntry {
        name: name.to_string(),
        metadata: Some(RawMetadata { len: 4096, is_directory: true }),
        heard: AttrRead::Absent,
    }
}

fn row(name: &str) -> FileDto {
    FileDto {
        name: name.to_string(),
        relative_path: name.to_string(),
        size: "0 KB".to_string(),
        is_directory: false,
        is_heard: false,
    }
}

fn names_of(listing: &FileListingTemplate) -> Vec<String> {
    listing.files.iter().map(|f| f.name.clone()).collect()
}

#[test]
fn missing_directory_is_not_found() {
    assert_eq!(
        get_file_list("/media", "/media/gone", PathKind::Missing, Ok(vec![])),
        Err(ListError::NotFound)
    );
    assert_eq!(
        get_file_list("/media", "/media/gone", PathKind::Missing, Err("denied".to_string())),
        Err(ListError::NotFound)
    );
}

#[test]
fn file_is_not_a_directory() {
    assert_eq!(
        get_file_list("/media", "/media/ep1.mp3", PathKind::File, Ok(vec![])),
        Err(ListError::NotADirectory)
    );
    assert_eq!(
        get_file_list("/media", "/media/socket", PathKind::Other, Ok(vec![])),
        Err(ListError::NotADirectory)
    );
}

#[test]
fn unreadable_directory_is_reported_with_its_reason() {
    assert_eq!(
        get_file_list("/media", "/media", PathKind::Directory, Err("permission denied".to_string())),
        Err(ListError::Unreadable("permission denied".to_string()))
    );
}

#[test]
fn list_error_messages() {
    assert_eq!(ListError::NotFound.message(), "Path does not exist");
    assert_eq!(ListError::NotADirectory.message(), "Provided path is not a directory");
    assert_eq!(
        ListError::Unreadable("permission denied".to_string()).message(),
        "Unable to get list of files: permission denied"
    );
}

#[test]
fn empty_directory_lists_nothing() {
    let listing = get_file_list("/media", "/media", PathKind::Directory, Ok(vec![])).unwrap();
    assert_eq!(
        listing,
        FileListingTemplate {
            relative_path: ".".to_string(),
            parent_relative_path: None,
            files: vec![],
        }
    );
}

#[test]
fn hidden_entries_are_left_out() {
    let raws = vec![
        raw_file(".hidden", 10, AttrRead::Absent),
        raw_file("shown.mp3", 10, AttrRead::Absent),
        raw_dir(".git"),
        raw_file(".", 0, AttrRead::Absent),
    ];
    let listing = get_file_list("/media", "/media", PathKind::Directory, Ok(raws)).unwrap();
    assert_eq!(names_of(&listing), vec!["shown.mp3".to_string()]);
}

#[test]
fn entries_are_sorted_by_name() {
    let raws = vec![
        raw_file("b.mp3", 1, AttrRead::Absent),
        raw_dir("c"),
        raw_file("a.mp3", 1, AttrRead::Absent),
        raw_file("B.mp3", 1, AttrRead::Absent),
        raw_file("ab.mp3", 1, AttrRead::Absent),
        raw_file("a", 1, AttrRead::Absent),
    ];
    let listing = get_file_list("/media", "/media", PathKind::Directory, Ok(raws)).unwrap();
    assert_eq!(
        names_of(&listing),
        vec![
            "B.mp3".to_string(),
            "a".to_string(),
            "a.mp3".to_string(),
            "ab.mp3".to_string(),
            "b.mp3".to_string(),
            "c".to_string(),
        ]
    );
}

#[test]
fn listing_order_agrees_with_a_byte_sort() {
    let names = ["ep10", "ep2", "ep1", "Zed", "\u{e9}t\u{e9}", "zz", "~", "0", "ep1.mp3", "a b"];
    let raws: Vec<RawEntry> = names.iter().map(|n| raw_file(n, 0, AttrRead::Absent)).collect();
    let listing = get_file_list("/media", "/media", PathKind::Directory, Ok(raws)).unwrap();
    let mut expected: Vec<String> = names.iter().map(|n| n.to_string()).collect();
    expected.sort_by(|a, b| a.as_bytes().cmp(b.as_bytes()));
    assert_eq!(names_of(&listing), expected);
}

#[test]
fn entries_of_one_name_keep_their_order() {
    let raws = vec![
        raw_file("same", 1024, AttrRead::Absent),
        raw_file("other", 0, AttrRead::Absent),
        raw_file("same", 2048, AttrRead::Absent),
    ];
    let listing = get_file_list("/media", "/media", PathKind::Directory, Ok(raws)).unwrap();
    assert_eq!(names_of(&listing), vec!["other".to_string(), "same".to_string(), "same".to_string()]);
    assert_eq!(listing.files[1].size, "1 KB");
    assert_eq!(listing.files[2].size, "2 KB");
}

#[test]
fn entry_fields_are_computed_from_what_was_read() {
    let raws = vec![raw_file("ep1.mp3", 5000, AttrRead::Present(vec![1])), raw_dir("season2")];
    let listing =
        get_file_list("/media", "/media/podcast", PathKind::Directory, Ok(raws)).unwrap();
    assert_eq!(
        listing,
        FileListingTemplate {
            relative_path: "podcast".to_string(),
            parent_relative_path: Some(".".to_string()),
            files: vec![
                FileDto {
                    name: "ep1.mp3".to_string(),
                    relative_path: "podcast/ep1.mp3".to_string(),
                    size: "4 KB".to_string(),
                    is_directory: false,
                    is_heard: true,
                },
                FileDto {
                    name: "season2".to_string(),
                    relative_path: "podcast/season2".to_string(),
                    size: "4 KB".to_string(),
                    is_directory: true,
                    is_heard: false,
                },
            ],
        }
    );
}

#[test]
fn unreadable_flag_counts_as_not_heard() {
    let raws = vec![
        raw_file("a", 0, AttrRead::Failed),
        raw_file("b", 0, AttrRead::Absent),
        raw_file("c", 0, AttrRead::Present(vec![0])),
        raw_file("d", 0, AttrRead::Present(vec![1])),
    ];
    let listing = get_file_list("/media", "/media", PathKind::Directory, Ok(raws)).unwrap();
    let flags: Vec<bool> = listing.files.iter().map(|f| f.is_heard).collect();
    assert_eq!(flags, vec![false, false, false, true]);
}

#[test]
fn entry_without_metadata_is_skipped() {
    let raws = vec![
        raw_file("kept.mp3", 1, AttrRead::Absent),
        RawEntry { name: "vanished.mp3".to_string(), metadata: None, heard: AttrRead::Failed },
    ];
    let listing = get_file_list("/media", "/media", PathKind::Directory, Ok(raws)).unwrap();
    assert_eq!(names_of(&listing), vec!["kept.mp3".to_string()]);
}

#[test]
fn nested_directory_has_its_parent_as_up_link() {
    let listing =
        get_file_list("/media", "/media/podcast/2024", PathKind::Directory, Ok(vec![])).unwrap();
    assert_eq!(listing.relative_path, "podcast/2024");
    assert_eq!(listing.parent_relative_path, Some("podcast".to_string()));
}

#[test]
fn is_shown_on_given_values() {
    assert!(is_shown(&raw_file("a", 0, AttrRead::Absent)));
    assert!(is_shown(&raw_dir("a.b")));
    assert!(!is_shown(&raw_file(".a", 0, AttrRead::Absent)));
    assert!(!is_shown(&RawEntry { name: "a".to_string(), metadata: None, heard: AttrRead::Absent }));
    assert!(!is_shown(&RawEntry { name: ".a".to_string(), metadata: None, heard: AttrRead::Absent }));
}

#[test]
fn entry_row_on_given_values() {
    let raw = raw_file("ep1.mp3", 3 * 1024 + 1, AttrRead::Present(vec![1, 2]));
    assert_eq!(
        entry_row(&raw, "podcast/ep1.mp3".to_string()),
        Some(FileDto {
            name: "ep1.mp3".to_string(),
            relative_path: "podcast/ep1.mp3".to_string(),
            size: "3 KB".to_string(),
            is_directory: false,
            is_heard: true,
        })
    );
    let unread = RawEntry { name: "x".to_string(), metadata: None, heard: AttrRead::Absent };
    assert_eq!(entry_row(&unread, "x".to_string()), None);
}

#[test]
fn insert_entry_keeps_listing_order() {
    let mut files: Vec<FileDto> = vec![];
    insert_entry(&mut files, row("m"));
    insert_entry(&mut files, row("a"));
    insert_entry(&mut files, row("z"));
    insert_entry(&mut files, row("mm"));
    insert_entry(&mut files, row("b"));
    let names: Vec<String> = files.iter().map(|f| f.name.clone()).collect();
    assert_eq!(
        names,
        vec!["a".to_string(), "b".to_string(), "m".to_string(), "mm".to_string(), "z".to_string()]
    );
}

#[test]
fn insert_entry_goes_behind_rows_of_the_same_name() {
    let mut first = row("same");
    first.size = "1 KB".to_string();
    let mut second = row("same");
    second.size = "2 KB".to_string();
    let mut files: Vec<FileDto> = vec![row("a"), first.clone(), row("z")];
    insert_entry(&mut files, second.clone());
    assert_eq!(files, vec![row("a"), first, second, row("z")]);
}

#[test]
fn push_url_asks_for_the_same_directory() {
    let listing = get_file_list("/media", "/media/podcast", PathKind::Directory, Ok(vec![])).unwrap();
    assert_eq!(push_url(&listing), "?path=podcast");
    let root = get_file_list("/media", "/media", PathKind::Directory, Ok(vec![])).unwrap();
    assert_eq!(push_url(&root), "?path=.");
}
