use flowversion::paths::{find_repository_root, is_ignored, normalize_path};

#[test]
fn test_is_ignored() {
    assert!(is_ignored(".flowversion/objects"));
    assert!(is_ignored("node_modules/package"));
    assert!(is_ignored("target/debug/app"));
    assert!(is_ignored(".git/config"));

    assert!(!is_ignored("src/main.rs"));
    assert!(!is_ignored("README.md"));
}

#[test]
fn test_normalize_path() {
    let windows_path = "src\\main.rs";
    let normalized = normalize_path(windows_path);

    assert_eq!(normalized, "src/main.rs");
}

#[test]
fn ignored_temporary_files() {
    assert!(is_ignored("notes.tmp"));
    assert!(is_ignored("a/.DS_Store"));
    assert!(!is_ignored("src\\lib.rs"));
    assert_eq!(normalize_path("a\\b\\c"), "a/b/c");
}

#[test]
fn repository_root_is_nearest_marked_ancestor() {
    let ancestors = vec![
        ("/r/sub/dir".to_string(), false),
        ("/r/sub".to_string(), false),
        ("/r".to_string(), true),
        ("/".to_string(), true),
    ];
    assert_eq!(find_repository_root(&ancestors), Some("/r".to_string()));
    assert_eq!(find_repository_root(&vec![("/x".to_string(), false)]), None);
    assert_eq!(find_repository_root(&vec![]), None);
}
