//! NFSv4.1 server: sessions with reply caching, open and lock stateids, and read delegations
//! that are recalled when the guest changes a file.

pub mod attrs;
pub mod call;
pub mod compound;
pub mod deleg;
pub mod eval;
pub mod ops;
pub mod request;
pub mod state;
