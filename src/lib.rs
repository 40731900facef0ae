//! Reconciliation logic of a one-directional directory mirror.
//!
//! The library decides, from the listings of a source tree and a destination
//! tree, which destination files are deleted and which source files are
//! copied. Walking directories, reading metadata and moving bytes are left to
//! the caller, which hands the library plain values.

pub mod meta;
pub mod relpath;
pub mod snapshot;
pub mod reconcile;
pub mod model;
pub mod listing;
pub mod driver;
