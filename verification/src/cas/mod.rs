//! Content-addressed cache: manifests that say which chunks make up a version of a file, and
//! the chunks, each stored once under the digest of its bytes.
//!
//! The index lives in memory here. Rows and blob files are written out by whoever drives the
//! index; every operation says which of them changed.

pub mod blobs;
pub mod chunks;
pub mod evict;
pub mod laws;
pub mod manifest;
pub mod store;
