//! The `list` command of the console front end.

use vstd::prelude::*;
use crate::console::command::{Context, Result};

verus! {

/// The listings of the console front end.
pub enum ListRequest {
    /// The physical devices (`--disk`).
    PhysicalDisks,
    /// The segments (`--segment[=filter]`), valid ones only with `--valid`.
    Segments { filter: Option<String>, valid: bool },
    /// The stores, valid ones only with `--valid`.
    Storage { valid: bool },
}

/// The listing a `list` command line asks for: `--disk` wins over
/// `--segment`, which wins over the store listing.
pub fn handle(ctx: &Context) -> (r: ListRequest)
    ensures
        ctx.options@.dom().contains("disk"@) ==> r is PhysicalDisks,
        !ctx.options@.dom().contains("disk"@) && ctx.options@.dom().contains("segment"@) ==> (r matches ListRequest::Segments { filter, valid } && valid == ctx.options@.dom().contains("valid"@)
            && (match filter {
                Some(f) => ctx.options@["segment"@] == Some(f@),
                None => ctx.options@["segment"@] is None,
            })),
        !ctx.options@.dom().contains("disk"@) && !ctx.options@.dom().contains("segment"@) ==> (r matches ListRequest::Storage { valid } && valid == ctx.options@.dom().contains("valid"@)),
{
    if ctx.has_option("disk") {
        return ListRequest::PhysicalDisks;
    }
    if ctx.has_option("segment") {
        return ListRequest::Segments { filter: ctx.option("segment"), valid: ctx.has_option("valid") };
    }
    ListRequest::Storage { valid: ctx.has_option("valid") }
}

/// A listing answers with its table, or with the text of its error.
pub fn outcome(listing: core::result::Result<Vec<Vec<String>>, String>) -> (r: Result)
    ensures
        listing matches Ok(t) ==> r == Result::Table(t),
        listing matches Err(e) ==> r == Result::Error(e),
{
    match listing {
        Ok(t) => Result::Table(t),
        Err(e) => Result::Error(e),
    }
}

} // verus!
