use flowversion::commit::FlowCommit;
use flowversion::error::FlowError;
use flowversion::intention::Intention;
use flowversion::objects::{ChangeType, CommitId, FileChange};

fn intention(goal: &str, confidence: i32) -> Intention {
    Intention::new(goal.to_string(), None, None, confidence, "tester".to_string())
}

#[test]
fn test_commit_creation() {
    let intention = intention("Test commit", 800);

    let change = FileChange {
        path: "test.txt".to_string(),
        change_type: ChangeType::Added,
        content_hash: flowversion::objects::Hash::new(b"test content"),
        previous_hash: None,
        mode: 0o644,
    };

    let tree_hash = flowversion::objects::Hash::new(b"tree content");
    let commit = FlowCommit::new(intention.clone(), vec![change], tree_hash.clone(), vec![]);

    assert_eq!(commit.intention.goal, intention.goal);
    assert_eq!(commit.tree_hash, tree_hash);
    assert!(commit.is_root_commit());
    assert!(!commit.is_merge_commit());
    assert_eq!(commit.files_count(), 1);
}

#[test]
fn test_merge_commit() {
    let intention = intention("Merge branches", 900);

    let parent1 = CommitId::new();
    let parent2 = CommitId::new();

    let commit = FlowCommit::new(
        intention,
        vec![],
        flowversion::objects::Hash::new(b"merge tree"),
        vec![parent1, parent2],
    );

    assert!(commit.is_merge_commit());
    assert!(!commit.is_root_commit());
}

#[test]
fn test_commit_hash() {
    let intention = intention("Hash test", 800);

    let commit1 = FlowCommit::new(intention.clone(), vec![], flowversion::objects::Hash::new(b"tree1"), vec![]);
    let commit2 = FlowCommit::new(intention, vec![], flowversion::objects::Hash::new(b"tree2"), vec![]);

    let hash1 = commit1.calculate_commit_hash();
    let hash2 = commit2.calculate_commit_hash();

    assert_ne!(hash1, hash2);
}

#[test]
fn commit_hash_covers_time_and_parents() {
    let mut c = FlowCommit::new(intention("t", 800), vec![], flowversion::objects::Hash::new(b"x"), vec![]);
    c.timestamp = 0;
    let a = c.calculate_commit_hash();
    assert_eq!(a, c.clone().calculate_commit_hash());
    c.timestamp = 86_400;
    let b = c.calculate_commit_hash();
    assert_ne!(a, b);
    c.parent_commits.push(CommitId::from_uuid(7));
    assert_ne!(b, c.calculate_commit_hash());
}

#[test]
fn changed_files_and_short_id() {
    let h = flowversion::objects::Hash::new(b"c");
    let mut c = FlowCommit::new(
        intention("files", 800),
        vec![FileChange::new_added("a.txt".to_string(), h.clone()), FileChange::new_added("b/c.rs".to_string(), h)],
        flowversion::objects::Hash::new(b"t"),
        vec![],
    );
    assert_eq!(c.get_changed_files(), vec!["a.txt".to_string(), "b/c.rs".to_string()]);
    assert!(c.has_file("b/c.rs"));
    assert!(!c.has_file("b"));
    c.id = CommitId::from_uuid(0xdeadbeef_0000_4000_8000_000000000000);
    assert_eq!(c.short_id(), "deadbeef");
    assert!(c.signature.is_none());
}

#[test]
fn signing_is_reported_unsupported() {
    let mut c = FlowCommit::new(intention("s", 800), vec![], flowversion::objects::Hash::new(b"t"), vec![]);
    assert!(matches!(c.sign("key"), Err(FlowError::NotImplemented(_))));
    assert!(matches!(c.verify_signature(), Err(FlowError::NotImplemented(_))));
    assert!(c.signature.is_none());
}
