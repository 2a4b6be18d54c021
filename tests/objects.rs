use flowversion::objects::{BlobObject, ChangeType, CommitId, FileChange, StreamId, TreeObject};

#[test]
fn test_hash_creation() {
    let data = b"hello world";
    let hash1 = flowversion::objects::Hash::new(data);
    let hash2 = flowversion::objects::Hash::new(data);
    assert_eq!(hash1, hash2);

    let different_data = b"hello world!";
    let hash3 = flowversion::objects::Hash::new(different_data);
    assert_ne!(hash1, hash3);
}

#[test]
fn test_file_change_creation() {
    let hash = flowversion::objects::Hash::new(b"content");
    let change = FileChange::new_added("test.txt".to_string(), hash.clone());

    match change.change_type {
        ChangeType::Added => {}
        _ => panic!("Expected Added change type"),
    }

    assert_eq!(change.path, "test.txt");
    assert_eq!(change.content_hash, hash);
    assert_eq!(change.previous_hash, None);
}

#[test]
fn test_blob_object() {
    let content = "Hello, world!".to_string();
    let blob = BlobObject::from_string(content.clone());

    assert_eq!(blob.as_string().unwrap(), content);

    let blob2 = BlobObject::from_string(content);
    assert_eq!(blob.id, blob2.id);
}

#[test]
fn test_tree_object() {
    let mut tree = TreeObject::new();
    let hash = flowversion::objects::Hash::new(b"test content");

    tree.add_blob("file.txt".to_string(), hash, 0o644);
    tree.calculate_hash();

    assert!(!tree.id.as_str().is_empty());
    assert!(tree.contains_entry("file.txt"));
}

#[test]
fn hash_is_sha256_hex_of_content() {
    let h = flowversion::objects::Hash::new(b"abc");
    assert_eq!(
        h.as_str(),
        "ba7816bf8f01cfea414140de5dae2223b00361a396177a9cb410ff61f20015ad"
    );
}

#[test]
fn modified_and_deleted_changes() {
    let old = flowversion::objects::Hash::new(b"old");
    let new = flowversion::objects::Hash::new(b"new");
    let m = FileChange::new_modified("a".to_string(), new.clone(), old.clone());
    assert!(matches!(m.change_type, ChangeType::Modified));
    assert_eq!(m.previous_hash, Some(old.clone()));
    assert_eq!(m.mode, 0o644);
    let d = FileChange::new_deleted("a".to_string(), old.clone());
    assert!(matches!(d.change_type, ChangeType::Deleted));
    assert_eq!(d.content_hash.as_str(), "0".repeat(64));
    assert_eq!(d.previous_hash, Some(old));
}

#[test]
fn tree_add_replaces_entry_for_same_path() {
    let mut tree = TreeObject::default();
    tree.add_blob("f".to_string(), flowversion::objects::Hash::new(b"1"), 0o644);
    tree.add_tree("d".to_string(), flowversion::objects::Hash::new(b"2"));
    tree.add_blob("f".to_string(), flowversion::objects::Hash::new(b"3"), 0o755);
    assert_eq!(tree.entries.len(), 2);
    assert!(tree.contains_entry("d"));
    assert!(!tree.contains_entry("g"));
    let mut other = TreeObject::new();
    other.add_tree("d".to_string(), flowversion::objects::Hash::new(b"2"));
    other.add_blob("f".to_string(), flowversion::objects::Hash::new(b"3"), 0o755);
    tree.calculate_hash();
    other.calculate_hash();
    assert_ne!(tree.id, other.id);
    assert_eq!(tree.id.as_str().len(), 64);
}

#[test]
fn blob_as_string_rejects_invalid_utf8() {
    let blob = BlobObject::new(vec![0xff, 0xfe]);
    assert!(blob.as_string().is_err());
    assert_eq!(blob.id, flowversion::objects::Hash::new(&[0xff, 0xfe]));
}

#[test]
fn commit_id_text_is_hyphenated_lowercase() {
    let id = CommitId::from_uuid(0x0123_4567_89ab_cdef_0123_4567_89ab_cdef);
    assert_eq!(id.to_string(), "01234567-89ab-cdef-0123-456789abcdef");
    assert_eq!(id.as_uuid(), 0x0123_4567_89ab_cdef_0123_4567_89ab_cdef);
    let fresh = CommitId::new();
    assert_eq!(fresh.as_uuid() & 0x0000_0000_0000_f000_c000_0000_0000_0000, 0x0000_0000_0000_4000_8000_0000_0000_0000);
    let s = StreamId::from_uuid(1);
    assert_eq!(s.to_string(), "00000000-0000-0000-0000-000000000001");
    assert_ne!(StreamId::new().as_uuid(), 0);
}

#[test]
fn hash_from_string_keeps_text() {
    let h = flowversion::objects::Hash::from("abc123".to_string());
    assert_eq!(h.as_str(), "abc123");
    assert_eq!(h, flowversion::objects::Hash::from_string("abc123".to_string()));
    assert!(h.same_as(&h.clone()));
}
