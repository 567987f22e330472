use heard_browser::paths::{
    candidate_path, parent_relative_to, relative_to, resolve, resolve_strict, settle,
    settle_strict, shown_parent_path, shown_path, stays_below, PathKind, PathResolutionError,
};

#[test]
fn absent_or_empty_path_resolves_to_base() {
    assert_eq!(resolve("/media", None, None), "/media");
    assert_eq!(resolve("/media", Some(""), None), "/media");
    assert_eq!(resolve("/media", None, Some("/media/podcast")), "/media");
    assert_eq!(resolve("/media", Some(""), Some("/media/podcast")), "/media");
}

#[test]
fn no_candidate_without_a_named_path() {
    assert_eq!(candidate_path("/media", None), None);
    assert_eq!(candidate_path("/media", Some("")), None);
}

#[test]
fn candidate_is_the_joined_path() {
    assert_eq!(candidate_path("/media", Some("podcast")), Some("/media/podcast".to_string()));
    assert_eq!(
        candidate_path("/media", Some("podcast/../../etc")),
        Some("/media/podcast/../../etc".to_string())
    );
    assert_eq!(candidate_path("/media", Some("/etc")), Some("/etc".to_string()));
}

#[test]
fn canonical_path_within_base_is_kept() {
    assert_eq!(resolve("/media", Some("podcast"), Some("/media/podcast")), "/media/podcast");
    assert_eq!(resolve("/media", Some("a/../podcast"), Some("/media/podcast")), "/media/podcast");
    assert_eq!(resolve("/media", Some("."), Some("/media")), "/media");
}

#[test]
fn canonical_path_outside_base_falls_back_to_base() {
    assert_eq!(resolve("/media", Some("../etc"), Some("/etc")), "/media");
    assert_eq!(resolve("/media", Some("/etc/passwd"), Some("/etc/passwd")), "/media");
    assert_eq!(resolve("/media", Some("link"), Some("/")), "/media");
}

#[test]
fn sibling_with_the_base_as_text_prefix_is_outside() {
    assert_eq!(resolve("/media", Some("../media2"), Some("/media2")), "/media");
    assert_eq!(resolve("/media", Some("../mediafiles/x"), Some("/mediafiles/x")), "/media");
}

#[test]
fn failed_canonicalization_falls_back_to_base() {
    assert_eq!(resolve("/media", Some("missing"), None), "/media");
}

#[test]
fn settle_follows_the_verdict_it_is_given() {
    assert_eq!(settle("/media", Some("x"), Some("/media/x"), true), "/media/x");
    assert_eq!(settle("/media", Some("x"), Some("/media/x"), false), "/media");
    assert_eq!(settle("/media", Some("x"), None, true), "/media");
    assert_eq!(settle("/media", Some(""), Some("/media/x"), true), "/media");
    assert_eq!(settle("/media", None, Some("/media/x"), true), "/media");
}

#[test]
fn strict_resolution_returns_the_joined_path() {
    assert_eq!(
        resolve_strict("/media", "podcast/ep1.mp3"),
        Ok("/media/podcast/ep1.mp3".to_string())
    );
    assert_eq!(resolve_strict("/media", "ep1.mp3"), Ok("/media/ep1.mp3".to_string()));
}

#[test]
fn strict_resolution_refuses_a_path_that_replaces_the_base() {
    assert_eq!(resolve_strict("/media", "/etc/passwd"), Err(PathResolutionError::InvalidPath));
    assert_eq!(resolve_strict("/media", "/mediafiles/x"), Err(PathResolutionError::InvalidPath));
}

#[test]
fn strict_resolution_accepts_an_absolute_path_within_the_base() {
    assert_eq!(resolve_strict("/media", "/media/ep1.mp3"), Ok("/media/ep1.mp3".to_string()));
}

#[test]
fn strict_resolution_refuses_a_path_that_climbs_out() {
    let refused = Err(PathResolutionError::InvalidPath);
    assert_eq!(resolve_strict("/media", "../../etc"), refused);
    assert_eq!(resolve_strict("/media", "../../etc/passwd"), refused);
    assert_eq!(resolve_strict("/media", ".."), refused);
    assert_eq!(resolve_strict("/media", "../media/ep1.mp3"), refused);
    assert_eq!(resolve_strict("/media", "a/../../b"), refused);
    assert_eq!(resolve_strict("/media", "./../x"), refused);
    assert_eq!(resolve_strict("/media", "a/b/../../../media/a"), refused);
    assert_eq!(resolve_strict("/media", "/media/../etc/passwd"), refused);
    assert_eq!(resolve_strict("/media/", "../etc"), refused);
}

#[test]
fn strict_resolution_accepts_parent_components_that_stay_within() {
    assert_eq!(
        resolve_strict("/media", "podcast/../ep1.mp3"),
        Ok("/media/podcast/../ep1.mp3".to_string())
    );
    assert_eq!(resolve_strict("/media", "a/b/../../c"), Ok("/media/a/b/../../c".to_string()));
    assert_eq!(resolve_strict("/media", "a/.."), Ok("/media/a/..".to_string()));
    assert_eq!(resolve_strict("/media", "./a"), Ok("/media/./a".to_string()));
    assert_eq!(resolve_strict("/media", "a//b"), Ok("/media/a//b".to_string()));
}

#[test]
fn names_made_of_dots_are_names() {
    assert_eq!(resolve_strict("/media", "..."), Ok("/media/...".to_string()));
    assert_eq!(resolve_strict("/media", "..a/x"), Ok("/media/..a/x".to_string()));
    assert_eq!(resolve_strict("/media", ".../../x"), Ok("/media/.../../x".to_string()));
}

#[test]
fn settle_strict_follows_what_it_is_given() {
    let joined = "/media/x".to_string();
    assert_eq!(settle_strict(joined.clone(), Some("x".to_string())), Ok(joined.clone()));
    assert_eq!(settle_strict(joined.clone(), Some(String::new())), Ok(joined.clone()));
    assert_eq!(settle_strict(joined.clone(), None), Err(PathResolutionError::InvalidPath));
    assert_eq!(
        settle_strict("/media/../../etc".to_string(), Some("../../etc".to_string())),
        Err(PathResolutionError::InvalidPath)
    );
    assert_eq!(
        settle_strict("/media/a/../b".to_string(), Some("a/../b".to_string())),
        Ok("/media/a/../b".to_string())
    );
}

#[test]
fn stays_below_counts_names_against_parents() {
    assert!(stays_below(""));
    assert!(stays_below("a"));
    assert!(stays_below("a/b/c"));
    assert!(stays_below("a/.."));
    assert!(stays_below("a/../b/.."));
    assert!(stays_below("a/b/../.."));
    assert!(stays_below("."));
    assert!(stays_below("./././a"));
    assert!(stays_below("//a//"));
    assert!(stays_below("a/./.."));
    assert!(!stays_below(".."));
    assert!(!stays_below("../"));
    assert!(!stays_below("../a"));
    assert!(!stays_below("a/../.."));
    assert!(!stays_below("a/../../a/a/a"));
    assert!(!stays_below("./.."));
    assert!(!stays_below("/.."));
    assert!(!stays_below("a//../.."));
    assert!(!stays_below("a/b/../../.."));
}

#[test]
fn stays_below_takes_other_runs_of_dots_as_names() {
    assert!(stays_below(".../.."));
    assert!(stays_below("..a/.."));
    assert!(stays_below("a../.."));
    assert!(stays_below(".a/.."));
    assert!(!stays_below(".../../.."));
    assert!(stays_below("\u{e9}t\u{e9}/.."));
    assert!(!stays_below("\u{e9}/../.."));
}

#[test]
fn invalid_path_message() {
    assert_eq!(PathResolutionError::InvalidPath.message(), "Invalid path");
}

#[test]
fn relative_path_of_a_descendant() {
    assert_eq!(relative_to("/media", "/media/podcast/ep1.mp3"), "podcast/ep1.mp3");
    assert_eq!(relative_to("/media", "/media/podcast"), "podcast");
    assert_eq!(relative_to("/media/", "/media/podcast"), "podcast");
}

#[test]
fn relative_path_of_the_base_is_a_dot() {
    assert_eq!(relative_to("/media", "/media"), ".");
    assert_eq!(relative_to("/media", "/media/"), ".");
}

#[test]
fn relative_path_of_an_outside_path_is_a_dot() {
    assert_eq!(relative_to("/media", "/etc/passwd"), ".");
    assert_eq!(relative_to("/media", "/mediafiles"), ".");
}

#[test]
fn shown_path_falls_back_to_a_dot() {
    assert_eq!(shown_path(Some("a/b".to_string())), "a/b");
    assert_eq!(shown_path(Some(String::new())), ".");
    assert_eq!(shown_path(None), ".");
}

#[test]
fn base_has_no_parent_link() {
    assert_eq!(parent_relative_to("/media", "/media"), None);
    assert_eq!(parent_relative_to("/media", "/etc"), None);
}

#[test]
fn parent_link_of_a_descendant() {
    assert_eq!(parent_relative_to("/media", "/media/podcast"), Some(".".to_string()));
    assert_eq!(parent_relative_to("/media", "/media/podcast/2024"), Some("podcast".to_string()));
    assert_eq!(parent_relative_to("/media", "/media/a/b/c"), Some("a/b".to_string()));
}

#[test]
fn shown_parent_path_on_given_values() {
    assert_eq!(shown_parent_path(None, Some(Some("x".to_string()))), None);
    assert_eq!(shown_parent_path(Some(String::new()), Some(Some("x".to_string()))), None);
    assert_eq!(shown_parent_path(Some("a".to_string()), None), None);
    assert_eq!(shown_parent_path(Some("a".to_string()), Some(None)), Some(".".to_string()));
    assert_eq!(
        shown_parent_path(Some("a/b".to_string()), Some(Some("a".to_string()))),
        Some("a".to_string())
    );
    assert_eq!(
        shown_parent_path(Some("a".to_string()), Some(Some(String::new()))),
        Some(".".to_string())
    );
}

#[test]
fn path_kinds_are_distinct() {
    assert_ne!(PathKind::Missing, PathKind::File);
    assert_ne!(PathKind::File, PathKind::Directory);
    assert_ne!(PathKind::Directory, PathKind::Other);
}
