//! The console front end of `corestorage`: its command line context, and the
//! requests its `format` and `list` commands make.

pub mod command;
pub mod format;
pub mod list;
