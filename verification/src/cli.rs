//! The `corestorage` command line: argument parsing, the command registry,
//! and the rendering of results.

pub mod commands;
pub mod context;
pub mod options;
pub mod parser;
pub mod registry;
pub mod render;
pub mod result;
