use std::ops::Deref;
use vstd::prelude::*;
use crate::intention::{now_seconds, opt_text};
use crate::objects::{CommitId, StreamId, UUID_V4_BITS, UUID_VERSION_VARIANT_MASK};
use crate::text::str_eq;

verus! {

/// serde_json::Value, carried opaque as a stream's metadata.
#[verifier::external_type_specification]
#[verifier::external_body]
pub struct ExValue(serde_json::Value);

/// Relies on serde_json::Value::Null: the empty metadata a new stream carries.
#[verifier::external_body]
fn null_metadata() -> (r: serde_json::Value) {
    serde_json::Value::Null
}

/// How a stream's history may develop.
#[derive(Debug, Clone, Copy, PartialEq, Eq, Structural)]
pub enum StreamMode {
    Linear,
    Parallel,
    Quantum,
}

/// A named line of history with its head commit.
#[derive(Debug)]
pub struct Stream {
    pub id: StreamId,
    pub name: String,
    pub mode: StreamMode,
    pub head_commit: Option<CommitId>,
    /// Seconds since the Unix epoch.
    pub created_at: i64,
    pub description: Option<String>,
    pub metadata: serde_json::Value,
}

/// The name of the main stream.
pub const MAIN_STREAM: &'static str = "main";

impl Stream {
    /// A new stream with a fresh id, no head and no description.
    pub fn new(name: String, mode: StreamMode) -> (r: Stream)
        ensures
            r.id@ & UUID_VERSION_VARIANT_MASK == UUID_V4_BITS,
            r.name@ == name@,
            r.mode == mode,
            r.head_commit is None,
            r.description is None,
    {
        Stream {
            id: StreamId::new(),
            name,
            mode,
            head_commit: None,
            created_at: now_seconds(),
            description: None,
            metadata: null_metadata(),
        }
    }

    pub fn main_stream() -> (r: Stream)
        ensures
            r.name@ == MAIN_STREAM@,
            r.mode == StreamMode::Linear,
            r.head_commit is None,
            r.description is None,
    {
        Stream::new(MAIN_STREAM.to_owned(), StreamMode::Linear)
    }

    pub fn set_head(&mut self, commit_id: CommitId)
        ensures
            final(self).head_commit == Some(commit_id),
            final(self).id == old(self).id,
            final(self).name == old(self).name,
            final(self).mode == old(self).mode,
            final(self).description == old(self).description,
    {
        self.head_commit = Some(commit_id);
    }

    pub fn set_description(&mut self, description: String)
        ensures
            opt_text(final(self).description) == Some(description@),
            final(self).id == old(self).id,
            final(self).name == old(self).name,
            final(self).mode == old(self).mode,
            final(self).head_commit == old(self).head_commit,
    {
        self.description = Some(description);
    }

    pub fn is_main(&self) -> (r: bool)
        ensures
            r == (self.name@ == MAIN_STREAM@),
    {
        str_eq(self.name.deref(), MAIN_STREAM)
    }
}

} // verus!
