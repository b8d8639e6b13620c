use git_issues::path::{extension, file_stem, join_path, path_is_absolute};

#[test]
fn join_adds_one_separator() {
    assert_eq!(join_path("/a", "b"), "/a/b");
    assert_eq!(join_path("/a/", "b"), "/a/b");
    assert_eq!(join_path("", "b"), "b");
}

#[test]
fn join_with_absolute_replaces() {
    assert_eq!(join_path("/a", "/b/c"), "/b/c");
}

#[test]
fn absolute_paths_start_at_root() {
    assert!(path_is_absolute("/x"));
    assert!(!path_is_absolute("x/y"));
    assert!(!path_is_absolute(""));
}

#[test]
fn extension_follows_the_last_dot() {
    assert_eq!(extension("x.md"), Some("md".to_string()));
    assert_eq!(extension("a.b.md"), Some("md".to_string()));
    assert_eq!(extension("x."), Some(String::new()));
    assert_eq!(extension(".md"), None);
    assert_eq!(extension("noext"), None);
    assert_eq!(extension(".."), None);
}

#[test]
fn stem_precedes_the_last_dot() {
    assert_eq!(file_stem("a.b.md"), "a.b");
    assert_eq!(file_stem(".gitkeep"), ".gitkeep");
    assert_eq!(file_stem("plain"), "plain");
}
