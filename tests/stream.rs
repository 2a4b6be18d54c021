use flowversion::objects::CommitId;
use flowversion::stream::{Stream, StreamMode};

#[test]
fn test_stream_creation() {
    let stream = Stream::new("feature/auth".to_string(), StreamMode::Linear);

    assert_eq!(stream.name, "feature/auth");
    assert!(matches!(stream.mode, StreamMode::Linear));
    assert!(stream.head_commit.is_none());
    assert!(!stream.is_main());
}

#[test]
fn test_main_stream() {
    let stream = Stream::main_stream();

    assert_eq!(stream.name, "main");
    assert!(stream.is_main());
}

#[test]
fn test_stream_operations() {
    let mut stream = Stream::new("test".to_string(), StreamMode::Linear);
    let commit_id = CommitId::new();

    stream.set_head(commit_id.clone());
    stream.set_description("Test stream".to_string());

    assert_eq!(stream.head_commit, Some(commit_id));
    assert_eq!(stream.description, Some("Test stream".to_string()));
}

#[test]
fn new_stream_metadata_is_null() {
    let s = Stream::new("q".to_string(), StreamMode::Quantum);
    assert!(s.metadata.is_null());
    assert_eq!(s.mode, StreamMode::Quantum);
}
