//! Finding a VM whose address is not written down.
//!
//! A VM is located anew on every connect, by its identity and its token: by what it announces
//! about itself, by the name it had last, and else by asking every address that it could have.
pub mod hunt;
pub mod mdns;
pub mod net;
pub mod scan;
