//! Keeps a packed Scratch project archive and a directory of plain files
//! in sync: packing and unpacking, first-run bootstrap, and the flag that
//! keeps the directory watcher from reacting to the engine's own writes.
//!
//! The library holds no file handles and starts no threads. A workspace is
//! passed in as a snapshot of its files, and every function answers with
//! plain values that the caller carries out.

pub mod archive;
pub mod commands;
pub mod json;
pub mod laws;
pub mod names;
pub mod snapshot;
pub mod transport;
pub mod watcher;
pub mod workspace;
