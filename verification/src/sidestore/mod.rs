//! The side store: metadata that the Mac's own programs leave behind.
//!
//! Finder and editor noise (`.DS_Store`, AppleDouble `._*`, `.fseventsd` and the like) never
//! reaches the guest: those names are taken out before an operation gets to the exported tree and
//! are served from a small store of the host's own. They are hidden from listings and served on
//! direct lookup. The store owns only names that the guest does not have: a real entry wins.
pub mod evict;
pub mod gc;
pub mod laws;
pub mod list;
pub mod rows;
pub mod saved;
pub mod surface;
