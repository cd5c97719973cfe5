//! Parsing of `/proc/<PID>/*` files into raw structs. The files are read by
//! the caller; each function here takes what the read produced.

pub mod error;
pub mod limits;
pub mod cgroup;
pub mod current;
pub mod security;
pub mod environ;
pub mod fd;
