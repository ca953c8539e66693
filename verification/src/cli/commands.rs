//! The `list` command: which listing a command line asks for, and how a
//! listing is answered.

use vstd::prelude::*;
use crate::cli::context::CommandContext;
use crate::cli::result::CommandResult;

verus! {

/// The listings `list` can show.
#[derive(Debug, Clone, Copy, PartialEq, Eq, Structural)]
pub enum ListQuery {
    /// The physical devices (`--disk`).
    Disks,
    /// The stores on the devices.
    Storage,
}

/// The listing a `list` command line asks for.
pub fn list(ctx: &CommandContext) -> (q: ListQuery)
    ensures
        ctx.options@.dom().contains("disk"@) ==> q == ListQuery::Disks,
        !ctx.options@.dom().contains("disk"@) ==> q == ListQuery::Storage,
{
    if ctx.has_option("disk") {
        ListQuery::Disks
    } else {
        ListQuery::Storage
    }
}

/// A listing answers with its table, or with the text of its error.
pub fn table_result(listing: Result<Vec<Vec<String>>, String>) -> (r: CommandResult)
    ensures
        listing matches Ok(t) ==> r == CommandResult::Table(t),
        listing matches Err(e) ==> r == CommandResult::Error(e),
{
    match listing {
        Ok(table) => CommandResult::Table(table),
        Err(e) => CommandResult::Error(e),
    }
}

} // verus!
