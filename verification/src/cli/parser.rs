//! Reading a command line: the first word names the command; words that
//! start with `--` are global flags or named options (`--name` or
//! `--name=value`); every other word is a positional parameter.

use vstd::prelude::*;
use vstd::string::StrSliceExecFns;
use crate::cli::context::{CommandContext, strings_view};
use crate::cli::options::OptionMap;
use crate::text::{find_char, first_index, starts_with, str_eq};

verus! {

/// The flags that apply to every command.
pub open spec fn global_flag(name: Seq<char>) -> bool {
    name == "pretty"@ || name == "verbose"@ || name == "color"@ || name == "sort"@
}

/// Whether `name` is a global flag.
pub fn is_global(name: &str) -> (b: bool)
    ensures
        b == global_flag(name@),
{
    str_eq(name, "pretty") || str_eq(name, "verbose") || str_eq(name, "color") || str_eq(name, "sort")
}

/// Whether a word is a flag: it starts with `--`.
pub open spec fn is_flag(token: Seq<char>) -> bool {
    token.len() >= 2 && token[0] == '-' && token[1] == '-'
}

/// The option a flag word (without its `--`) sets: the name up to the first
/// `=` and the value after it, or the whole word and no value.
pub open spec fn option_assignment(rest: Seq<char>) -> (Seq<char>, Option<Seq<char>>) {
    match first_index(rest, '=') {
        Some(i) => (rest.subrange(0, i), Some(rest.subrange(i + 1, rest.len() as int))),
        None => (rest, None),
    }
}

/// What the words after the command name give.
pub struct ParsedArgs {
    pub params: Seq<Seq<char>>,
    pub options: Map<Seq<char>, Option<Seq<char>>>,
    pub globals: Seq<Seq<char>>,
}

/// The words after the command name, read in order.
pub open spec fn parse_tokens(tokens: Seq<Seq<char>>) -> ParsedArgs
    decreases tokens.len(),
{
    if tokens.len() == 0 {
        ParsedArgs { params: Seq::empty(), options: Map::empty(), globals: Seq::empty() }
    } else {
        let p = parse_tokens(tokens.drop_last());
        let t = tokens.last();
        if is_flag(t) {
            let rest = t.subrange(2, t.len() as int);
            if global_flag(rest) {
                ParsedArgs { params: p.params, options: p.options, globals: p.globals.push(rest) }
            } else {
                let (name, value) = option_assignment(rest);
                ParsedArgs { params: p.params, options: p.options.insert(name, value), globals: p.globals }
            }
        } else {
            ParsedArgs { params: p.params.push(t), options: p.options, globals: p.globals }
        }
    }
}

/// Parses a command line; there is nothing to run when it is empty.
pub fn parse(argv: &[String]) -> (r: Option<CommandContext>)
    ensures
        argv@.len() == 0 ==> r is None,
        argv@.len() > 0 ==> (r matches Some(ctx) && ctx.command@ == argv@[0]@ && {
            let p = parse_tokens(strings_view(argv@).drop_first());
            &&& strings_view(ctx.params@) == p.params
            &&& ctx.options@ == p.options
            &&& strings_view(ctx.global_options@) == p.globals
        }),
{
    if argv.len() == 0 {
        return None;
    }
    let command = argv[0].clone();
    let mut params: Vec<String> = Vec::new();
    let mut options = OptionMap::new();
    let mut global_options: Vec<String> = Vec::new();
    let ghost words = strings_view(argv@);
    let mut i: usize = 1;
    while i < argv.len()
        invariant
            1 <= i <= argv@.len(),
            words == strings_view(argv@),
            ({
                let p = parse_tokens(words.subrange(1, i as int));
                &&& strings_view(params@) == p.params
                &&& options@ == p.options
                &&& strings_view(global_options@) == p.globals
            }),
        decreases argv@.len() - i,
    {
        let token = &argv[i];
        proof {
            reveal_strlit("--");
        }
        assert(words.subrange(1, i + 1).drop_last() =~= words.subrange(1, i as int));
        assert(words.subrange(1, i + 1).last() == token@);
        let flag = starts_with(token.as_str(), "--");
        assert(flag == is_flag(token@)) by {
            if is_flag(token@) {
                assert(token@.subrange(0, 2) =~= "--"@);
            }
            if flag {
                assert(token@.subrange(0, 2)[0] == token@[0]);
                assert(token@.subrange(0, 2)[1] == token@[1]);
            }
        }
        if flag {
            let n = token.as_str().unicode_len();
            let rest = token.as_str().substring_char(2, n);
            if is_global(rest) {
                let ghost before = global_options@;
                global_options.push(String::from_str(rest));
                assert(strings_view(global_options@) =~= strings_view(before).push(rest@));
            } else {
                match find_char(rest, '=') {
                    Some(k) => {
                        let m = rest.unicode_len();
                        let name = String::from_str(rest.substring_char(0, k));
                        let value = String::from_str(rest.substring_char(k + 1, m));
                        options.insert(name, Some(value));
                    },
                    None => {
                        options.insert(String::from_str(rest), None);
                    },
                }
            }
        } else {
            let ghost before = params@;
            params.push(token.clone());
            assert(strings_view(params@) =~= strings_view(before).push(token@));
        }
        i = i + 1;
    }
    assert(words.subrange(1, argv@.len() as int) =~= words.drop_first());
    Some(CommandContext { command, params, options, global_options })
}

} // verus!
