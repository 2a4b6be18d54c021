use flowversion::index::{Index, IndexEntry};

#[test]
fn test_index_operations() {
    let mut index = Index::new();
    let hash = flowversion::objects::Hash::new(b"test content");

    index.add_file("test.txt".to_string(), hash.clone(), 100).unwrap();

    assert!(index.is_file_staged("test.txt").unwrap());

    let entry = index.get_file("test.txt").unwrap();
    assert!(entry.is_some());
    assert_eq!(entry.unwrap().hash, hash);

    let staged = index.get_staged_files().unwrap();
    assert_eq!(staged.len(), 1);
    assert!(staged.iter().any(|(p, _)| p == "test.txt"));

    index.remove_file("test.txt").unwrap();
    assert!(!index.is_file_staged("test.txt").unwrap());
}

#[test]
fn test_index_status() {
    let mut index = Index::new();

    let status = index.get_status().unwrap();
    assert_eq!(status.staged_count, 0);
    assert_eq!(status.total_size, 0);

    index.add_file("file1.txt".to_string(), flowversion::objects::Hash::new(b"content1"), 50).unwrap();
    index.add_file("file2.txt".to_string(), flowversion::objects::Hash::new(b"content2"), 75).unwrap();

    let status = index.get_status().unwrap();
    assert_eq!(status.staged_count, 2);
    assert_eq!(status.total_size, 125);
}

#[test]
fn restaging_a_path_replaces_its_entry() {
    let mut index = Index::default();
    index.add_file_at("a".to_string(), flowversion::objects::Hash::new(b"1"), 1, 10);
    index.add_file_at("b".to_string(), flowversion::objects::Hash::new(b"2"), 2, 11);
    index.add_file_at("a".to_string(), flowversion::objects::Hash::new(b"3"), 3, 12);
    let staged = index.get_staged_files().unwrap();
    assert_eq!(staged.len(), 2);
    assert_eq!(staged[0].0, "a");
    assert_eq!(staged[0].1.size, 3);
    assert_eq!(staged[0].1.modified_time, 12);
    assert_eq!(staged[1].0, "b");
    index.remove_file("missing").unwrap();
    assert_eq!(index.get_status().unwrap().staged_count, 2);
    index.clear().unwrap();
    assert!(index.get_staged_files().unwrap().is_empty());
    assert!(index.get_file("a").unwrap().is_none());
}

#[test]
fn status_total_saturates() {
    let mut index = Index::new();
    index.add_file_at("a".to_string(), flowversion::objects::Hash::new(b"1"), u64::MAX, 0);
    index.add_file_at("b".to_string(), flowversion::objects::Hash::new(b"2"), 5, 0);
    assert_eq!(index.get_status().unwrap().total_size, u64::MAX);
}

#[test]
fn from_entries_keeps_last_entry_per_path() {
    let e = |n: u64| IndexEntry { hash: flowversion::objects::Hash::new(&n.to_le_bytes()), size: n, modified_time: n };
    let index = Index::from_entries(vec![("x".to_string(), e(1)), ("y".to_string(), e(2)), ("x".to_string(), e(3))]);
    let staged = index.get_staged_files().unwrap();
    assert_eq!(staged.len(), 2);
    assert_eq!(index.get_file("x").unwrap().unwrap().size, 3);
}
