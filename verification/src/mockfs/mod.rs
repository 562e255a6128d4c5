//! Filesystem whose file contents come from registered callbacks.
//!
//! One process serves every mount. A test mounts `<root>/proc`, then registers
//! `/stat`; the daemon under test opens that file.

pub mod callback;
pub mod control;
pub mod filesystem;
pub mod inner;
pub mod laws;
pub mod registration;
pub mod tree;
