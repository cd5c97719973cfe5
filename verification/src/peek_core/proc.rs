//! Per-process collection: environment and open files.

pub mod env;
pub mod files;
