//! A session with a VM: the greeting, the lanes, and the journal that keeps the replicas current.
//!
//! Connections and replicas are outside; what they are told, and what is made of what they say,
//! is decided here.
pub mod dirty;
pub mod journal;
pub mod link;
pub mod record;
pub mod setup;
pub mod wire;
