use flowversion::error::FlowError;

#[test]
fn exit_codes_by_kind() {
    assert_eq!(FlowError::RepoNotInitialized.exit_code(), 128);
    assert_eq!(FlowError::RepoAlreadyExists.exit_code(), 128);
    assert_eq!(FlowError::PermissionDenied("p".to_string()).exit_code(), 13);
    assert_eq!(FlowError::OperationCancelled.exit_code(), 130);
    assert_eq!(FlowError::FileNotFound("f".to_string()).exit_code(), 1);
    assert_eq!(FlowError::InvalidCommitId("x".to_string()).exit_code(), 1);
}

#[test]
fn recoverable_kinds() {
    assert!(FlowError::AIServiceUnavailable.is_recoverable());
    assert!(FlowError::NetworkError("n".to_string()).is_recoverable());
    assert!(FlowError::ConfigError("c".to_string()).is_recoverable());
    assert!(!FlowError::RepoNotInitialized.is_recoverable());
}
