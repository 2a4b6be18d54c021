//! A content-addressed version-control storage engine: hashed blobs and
//! commit records, a staging index, and the repository state machine that
//! ties them together through a head reference.

pub mod cli;
pub mod commit;
pub mod config;
pub mod diff;
pub mod error;
pub mod hash;
pub mod index;
pub mod intention;
pub mod object_store;
pub mod objects;
pub mod paths;
pub mod repository;
pub mod similarity;
pub mod stream;
pub mod text;
