use heard_browser::heard::AttrRead;
use heard_browser::paths::{PathKind, PathResolutionError};
use heard_browser::templates::file_listing_entry::FileListingEntryTemplate;
use heard_browser::toggle::{
    confirm_set_heard, decide_set_heard, set_heard, FileProbe, HeardUpdate, SetHeardError,
};

fn probe_file(len: u64, heard: AttrRead) -> FileProbe {
    FileProbe { kind: PathKind::File, len, heard }
}

#[test]
fn toggle_of_an_unheard_file_sets_the_flag() {
    let outcome = set_heard("/media", "podcast/ep1.mp3", None, &probe_file(2048, AttrRead::Absent));
    assert_eq!(
        outcome,
        Ok(HeardUpdate {
            target: "/media/podcast/ep1.mp3".to_string(),
            value: true,
            bytes: vec![1],
            entry: FileListingEntryTemplate {
                name: "ep1.mp3".to_string(),
                relative_path: "podcast/ep1.mp3".to_string(),
                size: "2 KB".to_string(),
                is_directory: false,
                is_heard: true,
            },
        })
    );
}

#[test]
fn toggle_of_a_heard_file_clears_the_flag() {
    let outcome =
        set_heard("/media", "ep1.mp3", None, &probe_file(10, AttrRead::Present(vec![1]))).unwrap();
    assert!(!outcome.value);
    assert_eq!(outcome.bytes, vec![0]);
    assert!(!outcome.entry.is_heard);
    assert_eq!(outcome.entry.size, "0 KB");
}

#[test]
fn explicit_value_is_stored_whatever_the_current_one() {
    for heard in [AttrRead::Absent, AttrRead::Failed, AttrRead::Present(vec![1])] {
        let set = set_heard("/media", "ep1.mp3", Some(true), &probe_file(0, heard.clone())).unwrap();
        assert!(set.value);
        assert_eq!(set.bytes, vec![1]);
        let cleared = set_heard("/media", "ep1.mp3", Some(false), &probe_file(0, heard)).unwrap();
        assert!(!cleared.value);
        assert_eq!(cleared.bytes, vec![0]);
    }
}

#[test]
fn toggle_twice_restores_the_flag() {
    for start in [AttrRead::Absent, AttrRead::Present(vec![1]), AttrRead::Present(vec![0])] {
        let before = heard_browser::heard::get_file_heard(&start);
        let first = set_heard("/media", "ep1.mp3", None, &probe_file(0, start)).unwrap();
        assert_eq!(first.value, !before);
        let stored = AttrRead::Present(first.bytes);
        let second = set_heard("/media", "ep1.mp3", None, &probe_file(0, stored)).unwrap();
        assert_eq!(second.value, before);
    }
}

#[test]
fn path_outside_the_base_is_invalid() {
    assert_eq!(
        set_heard("/media", "/etc/passwd", None, &probe_file(0, AttrRead::Absent)),
        Err(SetHeardError::InvalidPath)
    );
    assert_eq!(
        set_heard(
            "/media",
            "/etc/passwd",
            Some(true),
            &FileProbe { kind: PathKind::Missing, len: 0, heard: AttrRead::Failed }
        ),
        Err(SetHeardError::InvalidPath)
    );
}

#[test]
fn path_that_climbs_out_of_the_base_is_invalid() {
    let probe = probe_file(1500, AttrRead::Absent);
    assert_eq!(
        set_heard("/media", "../../etc/passwd", None, &probe),
        Err(SetHeardError::InvalidPath)
    );
    assert_eq!(
        set_heard("/media", "../../etc/passwd", Some(true), &probe),
        Err(SetHeardError::InvalidPath)
    );
    assert_eq!(
        set_heard("/media", "podcast/../../etc/passwd", None, &probe),
        Err(SetHeardError::InvalidPath)
    );
}

#[test]
fn parent_component_that_stays_within_is_accepted() {
    let update =
        set_heard("/media", "podcast/../ep1.mp3", Some(true), &probe_file(0, AttrRead::Absent))
            .unwrap();
    assert_eq!(update.target, "/media/podcast/../ep1.mp3");
    assert_eq!(update.entry.name, "ep1.mp3");
}

#[test]
fn directory_is_not_a_file() {
    let probe = FileProbe { kind: PathKind::Directory, len: 4096, heard: AttrRead::Absent };
    assert_eq!(set_heard("/media", "podcast", None, &probe), Err(SetHeardError::NotAFile));
}

#[test]
fn missing_target_is_not_a_file() {
    let probe = FileProbe { kind: PathKind::Missing, len: 0, heard: AttrRead::Failed };
    assert_eq!(set_heard("/media", "gone.mp3", Some(true), &probe), Err(SetHeardError::NotAFile));
    let other = FileProbe { kind: PathKind::Other, len: 0, heard: AttrRead::Failed };
    assert_eq!(set_heard("/media", "socket", Some(true), &other), Err(SetHeardError::NotAFile));
}

#[test]
fn target_without_a_file_name_is_not_a_file() {
    assert_eq!(
        set_heard("/media", "podcast/..", None, &probe_file(0, AttrRead::Absent)),
        Err(SetHeardError::NotAFile)
    );
}

#[test]
fn decide_set_heard_on_given_values() {
    let probe = probe_file(1024, AttrRead::Present(vec![1]));
    assert_eq!(
        decide_set_heard(
            Err(PathResolutionError::InvalidPath),
            Some("a".to_string()),
            "a".to_string(),
            None,
            &probe
        ),
        Err(SetHeardError::InvalidPath)
    );
    assert_eq!(
        decide_set_heard(Ok("/m/a".to_string()), None, "a".to_string(), None, &probe),
        Err(SetHeardError::NotAFile)
    );
    assert_eq!(
        decide_set_heard(
            Ok("/m/a".to_string()),
            Some("a".to_string()),
            "a".to_string(),
            None,
            &FileProbe { kind: PathKind::Directory, len: 0, heard: AttrRead::Absent }
        ),
        Err(SetHeardError::NotAFile)
    );
    assert_eq!(
        decide_set_heard(
            Ok("/m/d/a".to_string()),
            Some("a".to_string()),
            "d/a".to_string(),
            None,
            &probe
        ),
        Ok(HeardUpdate {
            target: "/m/d/a".to_string(),
            value: false,
            bytes: vec![0],
            entry: FileListingEntryTemplate {
                name: "a".to_string(),
                relative_path: "d/a".to_string(),
                size: "1 KB".to_string(),
                is_directory: false,
                is_heard: false,
            },
        })
    );
}

#[test]
fn stored_update_answers_with_the_row() {
    let update = set_heard("/media", "ep1.mp3", Some(true), &probe_file(0, AttrRead::Absent)).unwrap();
    let entry = update.entry.clone();
    assert_eq!(confirm_set_heard(update, true), Ok(entry));
}

#[test]
fn failed_write_is_an_attribute_store_error() {
    let update = set_heard("/media", "ep1.mp3", Some(true), &probe_file(0, AttrRead::Absent)).unwrap();
    assert_eq!(confirm_set_heard(update, false), Err(SetHeardError::AttributeStore));
}

#[test]
fn set_heard_error_messages() {
    assert_eq!(SetHeardError::InvalidPath.message(), "Invalid path");
    assert_eq!(SetHeardError::NotAFile.message(), "Provided path is not a file");
    assert_eq!(SetHeardError::AttributeStore.message(), "Unable to store the heard flag");
}
