//! The parsed command line a command runs with.

use vstd::prelude::*;
use crate::cli::options::OptionMap;

verus! {

/// The characters of each string.
pub open spec fn strings_view(v: Seq<String>) -> Seq<Seq<char>> {
    v.map_values(|s: String| s@)
}

/// A command name, its named options, the global options given, and the
/// positional parameters.
pub struct CommandContext {
    pub command: String,
    pub options: OptionMap,
    pub global_options: Vec<String>,
    pub params: Vec<String>,
}

impl CommandContext {
    /// The positional parameter at `index`, if there is one.
    pub fn prm(&self, index: usize) -> (r: Option<String>)
        ensures
            index < self.params@.len() ==> r == Some(self.params@[index as int]),
            index >= self.params@.len() ==> r is None,
    {
        if index < self.params.len() {
            Some(self.params[index].clone())
        } else {
            None
        }
    }

    /// How many positional parameters were given.
    pub fn prm_count(&self) -> (n: usize)
        ensures
            n == self.params@.len(),
    {
        self.params.len()
    }

    /// Whether the option `name` was given.
    pub fn has_option(&self, name: &str) -> (b: bool)
        ensures
            b == self.options@.dom().contains(name@),
    {
        self.options.contains_key(name)
    }

    /// The value given to the option `name`, when it was given one.
    pub fn option(&self, name: &str) -> (r: Option<&str>)
        ensures
            r matches Some(v) ==> self.options@.dom().contains(name@) && self.options@[name@] == Some(v@),
            r is None ==> !self.options@.dom().contains(name@) || self.options@[name@] is None,
    {
        self.options.value(name)
    }
}

} // verus!
