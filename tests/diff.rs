use flowversion::diff::{diff_strings, DiffLine, DiffOptions};

#[test]
fn test_diff_identical_strings() {
    let options = DiffOptions::default();
    let result = diff_strings("hello", "hello", &options).unwrap();

    assert_eq!(result.additions, 0);
    assert_eq!(result.deletions, 0);
    assert_eq!(result.changes.len(), 0);
}

#[test]
fn test_diff_different_strings() {
    let options = DiffOptions::default();
    let result = diff_strings("hello", "world", &options).unwrap();

    assert_eq!(result.additions, 1);
    assert_eq!(result.deletions, 1);
    assert_eq!(result.changes.len(), 2);
}

#[test]
fn diff_lists_old_lines_then_new_lines() {
    let options = DiffOptions::default();
    let result = diff_strings("a\r\nb\n", "c", &options).unwrap();
    assert_eq!(result.deletions, 2);
    assert_eq!(result.additions, 1);
    assert!(matches!(&result.changes[0], DiffLine::Deletion(s) if s == "a"));
    assert!(matches!(&result.changes[1], DiffLine::Deletion(s) if s == "b"));
    assert!(matches!(&result.changes[2], DiffLine::Addition(s) if s == "c"));
    assert_eq!(options.context_lines, 3);
}
