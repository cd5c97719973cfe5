//! The decisions of the `peek` command line: flags and defaults, the action
//! to run, target selection, the kill panel, and report text.

pub mod args;
pub mod plan;
pub mod select;
pub mod report;
pub mod kill;
pub mod peekd_client;
pub mod browser;
pub mod port_search;
pub mod tree;
pub mod sections;
