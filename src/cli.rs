use vstd::prelude::*;

verus! {

/// Handles `init`.
#[derive(Debug, Clone, Copy)]
pub struct InitHandler;

/// Handles `add`.
#[derive(Debug, Clone, Copy)]
pub struct AddHandler;

/// Handles `commit`.
#[derive(Debug, Clone, Copy)]
pub struct CommitHandler;

/// Handles `log`.
#[derive(Debug, Clone, Copy)]
pub struct LogHandler;

impl InitHandler {
    pub fn new() -> (r: InitHandler) {
        InitHandler
    }
}

impl AddHandler {
    pub fn new() -> (r: AddHandler) {
        AddHandler
    }
}

impl CommitHandler {
    pub fn new() -> (r: CommitHandler) {
        CommitHandler
    }
}

impl LogHandler {
    pub fn new() -> (r: LogHandler) {
        LogHandler
    }
}

} // verus!
