//! The command line context of the console front end.

use vstd::prelude::*;
use crate::cli::context::strings_view;
use crate::cli::options::OptionMap;
use crate::cli::parser::parse_tokens;

verus! {

/// A command name, its named options, the global options and the
/// positional parameters.
pub struct Context {
    pub command: String,
    pub options: OptionMap,
    pub global_options: Vec<String>,
    pub params: Vec<String>,
}

impl Context {
    /// The positional parameter at `index`, if there is one.
    pub fn prm(&self, index: usize) -> (r: Option<String>)
        ensures
            index < self.params@.len() ==> r == Some(self.params@[index as int]),
            index >= self.params@.len() ==> r is None,
    {
        if index < self.params.len() {
            Some(self.params[index].clone())
        } else {
            None
        }
    }

    pub fn prm_count(&self) -> (n: usize)
        ensures
            n == self.params@.len(),
    {
        self.params.len()
    }

    pub fn has_option(&self, name: &str) -> (b: bool)
        ensures
            b == self.options@.dom().contains(name@),
    {
        self.options.contains_key(name)
    }

    /// A copy of the value given to the option `name`, when it was given one.
    pub fn option(&self, name: &str) -> (r: Option<String>)
        ensures
            r matches Some(v) ==> self.options@.dom().contains(name@) && self.options@[name@] == Some(v@),
            r is None ==> !self.options@.dom().contains(name@) || self.options@[name@] is None,
    {
        match self.options.value(name) {
            Some(v) => Some(String::from_str(v)),
            None => None,
        }
    }
}

/// A command of the console front end.
pub struct Command {
    pub name: &'static str,
    pub min_arguments: usize,
    pub max_arguments: usize,
    pub flags: Vec<(&'static str, &'static str)>,
}

/// The outcome of a command: text, a table, or an error message.
pub enum Result {
    Text(String),
    Table(Vec<Vec<String>>),
    Error(String),
}

/// Parses a command line the way the current front end does.
pub fn parse(argv: &[String]) -> (r: Option<Context>)
    ensures
        argv@.len() == 0 ==> r is None,
        argv@.len() > 0 ==> (r matches Some(ctx) && ctx.command@ == argv@[0]@ && {
            let p = parse_tokens(strings_view(argv@).drop_first());
            &&& strings_view(ctx.params@) == p.params
            &&& ctx.options@ == p.options
            &&& strings_view(ctx.global_options@) == p.globals
        }),
{
    match crate::cli::parser::parse(argv) {
        Some(c) => Some(Context {
            command: c.command,
            options: c.options,
            global_options: c.global_options,
            params: c.params,
        }),
        None => None,
    }
}

} // verus!
