//! Process inspection logic for Linux `/proc`: parsers for the per-process
//! files, the network tables, secret redaction, and the decisions of the
//! `peek` command line and the `peekd` daemon.

pub mod text;
pub mod proc_reader;
pub mod sort;
pub mod network;
pub mod kernel_explainer;
pub mod signal_engine;
pub mod colors;
pub mod peek_core;
pub mod cli;
pub mod peekd;
pub mod tui;
