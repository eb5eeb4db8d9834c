//! A parallel file and directory search library: matchers over entry names,
//! the walker's per-entry decisions and batching buffer, the scan engine with
//! its quota, the laws they obey, and the command-line and configuration
//! logic around them.

pub mod text;
pub mod entry;
pub mod matcher;
pub mod source;
pub mod search;
pub mod laws;
pub mod tree;
pub mod config;
pub mod flags;
pub mod check;
pub mod display;
pub mod bench;
