//! The `format` command of the console front end.

use vstd::prelude::*;
use crate::console::command::{Context, Result};

verus! {

/// What a `format` command line asks for: the device, whether to zero it,
/// and whether to override the safety checks.
pub struct FormatRequest {
    pub name: String,
    pub zero_mode: bool,
    pub forced: bool,
}

/// Reads a `format` command line; the dispatcher has checked that it names
/// a device.
pub fn handle(ctx: &Context) -> (r: FormatRequest)
    requires
        ctx.params@.len() >= 1,
    ensures
        r.name == ctx.params@[0],
        r.zero_mode == ctx.options@.dom().contains("zero"@),
        r.forced == ctx.options@.dom().contains("forced"@),
{
    let name = match ctx.prm(0) {
        Some(n) => n,
        None => String::new(),
    };
    FormatRequest { name, zero_mode: ctx.has_option("zero"), forced: ctx.has_option("forced") }
}

/// A finished format answers with a success text, or with its error.
pub fn outcome(done: core::result::Result<(), String>) -> (r: Result)
    ensures
        done is Ok ==> (r matches Result::Text(t) && t@ == "Formatted success"@),
        done matches Err(e) ==> r == Result::Error(e),
{
    match done {
        Ok(()) => Result::Text(String::from_str("Formatted success")),
        Err(e) => Result::Error(e),
    }
}

} // verus!
