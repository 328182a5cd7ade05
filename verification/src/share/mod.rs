//! One exported share: metadata from the local replica, content from the cache or the guest.
//!
//! The replica, the guest and the cache files are reached from outside; what is asked of them,
//! and what is made of their answers, is decided here.
pub mod attrs;
pub mod commit;
pub mod guest;
pub mod ops;
pub mod queue;
pub mod read;
pub mod stash;
