use flowversion::hash::{hash_bytes, hash_file_content, hash_string};

#[test]
fn test_hash_consistency() {
    let data = b"test data";
    let hash1 = hash_bytes(data);
    let hash2 = hash_bytes(data);

    assert_eq!(hash1, hash2);
}

#[test]
fn test_different_data_different_hash() {
    let hash1 = hash_string("data1");
    let hash2 = hash_string("data2");

    assert_ne!(hash1, hash2);
}

#[test]
fn test_file_content_hash() {
    let content = b"file content";
    let hash = hash_file_content(content);

    assert!(!hash.as_str().is_empty());
    assert_eq!(hash.as_str().len(), 64);
}

#[test]
fn file_content_hash_frames_content_with_header() {
    // SHA-256 of "blob 6", a zero byte, then the content
    let hash = hash_file_content(b"hello\n");
    assert_eq!(hash.as_str(), "2cf8d83d9ee29543b34a87727421fdecb7e3f3a183d337639025de576db9ebb4");
}

#[test]
fn hash_string_matches_hash_of_bytes() {
    assert_eq!(hash_string("héllo"), hash_bytes("héllo".as_bytes()));
    assert_eq!(
        hash_bytes(b"").as_str(),
        "e3b0c44298fc1c149afbf4c8996fb92427ae41e4649b934ca495991b7852b855"
    );
}

#[test]
fn hashes_of_a_corpus_are_distinct() {
    let mut seen = std::collections::HashSet::new();
    for i in 0..500u32 {
        let h = hash_bytes(&i.to_le_bytes());
        assert_eq!(h.as_str().len(), 64);
        assert!(seen.insert(h.as_str().to_string()));
    }
}
