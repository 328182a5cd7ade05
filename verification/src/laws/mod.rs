//! What the operations are for, stated from the outside: of what goes in and what comes out.

pub mod wire;
pub mod nfs3;
pub mod nfs3_reply;
pub mod attrs41;
pub mod request41;
pub mod eval41;
pub mod share_ops;
pub mod share_read;
pub mod share_queue;
pub mod session;
pub mod state41;
pub mod deleg41;
pub mod compound41;
pub mod rpc;
pub mod cas;
pub mod sidestore;
pub mod conflicts;
pub mod control;
pub mod host;
pub mod text;
pub mod doctor;
pub mod open41;
pub mod list41;
pub mod find;
pub mod base;
