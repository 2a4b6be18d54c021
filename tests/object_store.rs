use flowversion::commit::FlowCommit;
use flowversion::error::FlowError;
use flowversion::intention::Intention;
use flowversion::object_store::ObjectStore;
use flowversion::objects::CommitId;

fn commit(goal: &str) -> FlowCommit {
    let intention = Intention::new(goal.to_string(), None, None, 800, "tester".to_string());
    FlowCommit::new(intention, vec![], flowversion::objects::Hash::new(b"tree"), vec![])
}

#[test]
fn test_blob_storage() {
    let mut store = ObjectStore::new("objects");

    let content = b"Hello, world!";
    let hash = flowversion::objects::Hash::new(content);

    store.store_blob(&hash, content.to_vec()).unwrap();
    assert!(store.blob_exists(&hash));

    let loaded_blob = store.load_blob(&hash).unwrap();
    assert_eq!(loaded_blob.content, content);
    assert_eq!(loaded_blob.id, hash);
}

#[test]
fn test_commit_storage() {
    let mut store = ObjectStore::new("objects");
    let commit = commit("Test commit");

    store.store_commit(&commit).unwrap();
    assert!(store.commit_exists(&commit.id));

    let loaded_commit = store.load_commit(&commit.id).unwrap();
    assert_eq!(loaded_commit.id.to_string(), commit.id.to_string());
    assert_eq!(loaded_commit.intention.goal, commit.intention.goal);
}

#[test]
fn test_object_store_stats() {
    let mut store = ObjectStore::new("objects");

    let stats = store.get_stats().unwrap();
    assert_eq!(stats.blob_count, 0);
    assert_eq!(stats.commit_count, 0);

    let hash = flowversion::objects::Hash::new(b"content");
    store.store_blob(&hash, b"content".to_vec()).unwrap();

    let commit = commit("Test");
    store.store_commit(&commit).unwrap();

    // the sizes of the object files, once written
    store.record_blob_size(&hash, 57);
    store.record_commit_size(&commit.id, 412);

    let stats = store.get_stats().unwrap();
    assert_eq!(stats.blob_count, 1);
    assert_eq!(stats.commit_count, 1);
    assert!(stats.total_size > 0);
}

#[test]
fn storing_content_twice_keeps_one_blob() {
    let mut store = ObjectStore::new("objects");
    let content = b"same bytes".to_vec();
    let hash = flowversion::objects::Hash::new(&content);
    store.store_blob(&hash, content.clone()).unwrap();
    store.store_blob(&hash, content.clone()).unwrap();
    assert_eq!(store.list_blobs(), vec![hash.clone()]);
    assert_eq!(store.load_blob(&hash).unwrap().content, content);
    assert_eq!(store.get_stats().unwrap().total_size, 0);
    store.record_blob_size(&hash, 25);
    store.store_blob(&hash, content.clone()).unwrap();
    let stats = store.get_stats().unwrap();
    assert_eq!((stats.blob_count, stats.total_size), (1, 25));
}

#[test]
fn missing_objects_and_duplicate_commits() {
    let mut store = ObjectStore::new("objects");
    let hash = flowversion::objects::Hash::new(b"nothing");
    assert!(matches!(store.load_blob(&hash), Err(FlowError::ObjectNotFound(t)) if t == hash.as_str()));
    let c = commit("dup");
    store.store_commit(&c).unwrap();
    assert!(matches!(store.store_commit(&c), Err(FlowError::ObjectAlreadyExists(_))));
    let other = CommitId::from_uuid(5);
    assert!(!store.commit_exists(&other));
    assert!(matches!(store.load_commit(&other), Err(FlowError::ObjectNotFound(_))));
    assert_eq!(store.list_commits().unwrap(), vec![c.id]);
}

#[test]
fn object_paths() {
    let store = ObjectStore::new("/r/.flowversion/objects");
    let hash = flowversion::objects::Hash::from_string("abcdef".to_string());
    assert_eq!(store.get_blob_path(&hash), "/r/.flowversion/objects/blobs/ab/cdef.json");
    let id = CommitId::from_uuid(1);
    assert_eq!(
        store.get_commit_path(&id),
        "/r/.flowversion/objects/commits/00000000-0000-0000-0000-000000000001.json"
    );
    assert_eq!(store.objects_path(), "/r/.flowversion/objects");
}

#[test]
fn stats_sum_recorded_file_sizes() {
    let mut store = ObjectStore::new("objects");
    let c = commit("only a commit");
    store.store_commit(&c).unwrap();
    assert_eq!(store.get_stats().unwrap().total_size, 0);
    store.record_commit_size(&c.id, 300);
    store.record_commit_size(&CommitId::from_uuid(9), 1000);
    let hash = flowversion::objects::Hash::new(b"x");
    store.record_blob_size(&hash, 1000);
    let stats = store.get_stats().unwrap();
    assert_eq!((stats.blob_count, stats.commit_count, stats.total_size), (0, 1, 300));
    store.store_blob(&hash, b"x".to_vec()).unwrap();
    store.record_blob_size(&hash, u64::MAX);
    assert_eq!(store.get_stats().unwrap().total_size, u64::MAX);
}
