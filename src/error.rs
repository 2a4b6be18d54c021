use vstd::prelude::*;

verus! {

/// Every failure the library reports, by kind.
#[derive(Debug)]
pub enum FlowError {
    RepoNotInitialized,
    RepoAlreadyExists,
    InvalidRepoState(String),
    WorkingDirectoryNotClean,
    ObjectNotFound(String),
    ObjectAlreadyExists(String),
    InvalidObjectHash(String),
    FileNotFound(String),
    PermissionDenied(String),
    IoError(String),
    SerializationError(String),
    AIServiceUnavailable,
    AIAnalysisFailed(String),
    InvalidAIResponse(String),
    NetworkError(String),
    MergeConflict(Vec<String>),
    ConflictResolutionFailed,
    StreamNotFound(String),
    StreamAlreadyExists(String),
    InvalidStreamName(String),
    QuantumStateCollapsed,
    InvalidQuantumFeature(String),
    InvalidIntention(String),
    /// The rejected confidence, in thousandths.
    InvalidConfidenceScore(i32),
    InvalidCommitId(String),
    ConfigError(String),
    MissingConfig(String),
    InternalError(String),
    OperationCancelled,
    NotImplemented(String),
}

pub type FlowResult<T> = Result<T, FlowError>;

/// The process exit code that boundary code reports for an error.
pub open spec fn exit_code_of(e: FlowError) -> i32 {
    match e {
        FlowError::RepoNotInitialized => 128,
        FlowError::RepoAlreadyExists => 128,
        FlowError::PermissionDenied(_) => 13,
        FlowError::OperationCancelled => 130,
        _ => 1,
    }
}

impl FlowError {
    /// Whether a caller may prompt and retry after this error.
    pub fn is_recoverable(&self) -> (r: bool)
        ensures
            r == (self is AIServiceUnavailable || self is NetworkError || self is ConfigError),
    {
        match self {
            FlowError::AIServiceUnavailable => true,
            FlowError::NetworkError(_) => true,
            FlowError::ConfigError(_) => true,
            _ => false,
        }
    }

    pub fn exit_code(&self) -> (r: i32)
        ensures
            r == exit_code_of(*self),
    {
        match self {
            FlowError::RepoNotInitialized => 128,
            FlowError::RepoAlreadyExists => 128,
            FlowError::FileNotFound(_) => 1,
            FlowError::PermissionDenied(_) => 13,
            FlowError::MergeConflict(_) => 1,
            FlowError::OperationCancelled => 130,
            _ => 1,
        }
    }
}

} // verus!
