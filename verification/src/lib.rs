//! Mist: near-native access to the files of a Linux VM.

pub mod base64;
pub mod bench;
pub mod bufpool;
pub mod bytes;
pub mod cas;
pub mod chars;
pub mod config;
pub mod config_writer;
pub mod conflicts;
pub mod control;
pub mod data;
pub mod digest;
pub mod doctor;
pub mod facts;
pub mod fnv;
pub mod fsx;
pub mod handle;
pub mod hex;
pub mod laws;
pub mod mount;
pub mod mount3;
pub mod nfs3;
pub mod nfs41;
pub mod request;
pub mod resolve;
pub mod rpc;
pub mod server;
pub mod session;
pub mod share;
pub mod sidestore;
pub mod sort;
pub mod surface;
pub mod table;
pub mod text;
pub mod types;
pub mod xdr;
