//! What a command gives back.

use vstd::prelude::*;

verus! {

/// The outcome of a command: text, a list, a table (first row the headings),
/// or an error message.
pub enum CommandResult {
    Text(String),
    Table(Vec<Vec<String>>),
    List(Vec<String>),
    Error(String),
}

} // verus!
