//! The commands `corestorage` knows, and the check of a command line
//! against them before a command runs.

use vstd::prelude::*;
use crate::cli::context::CommandContext;
use crate::cli::result::CommandResult;
use crate::text::str_eq;

verus! {

/// A flag a command accepts, with its help line.
pub struct FlagDef {
    pub name: &'static str,
    pub description: &'static str,
}

/// The work a command does once its command line is accepted.
#[derive(Debug, Clone, Copy, PartialEq, Eq, Structural)]
pub enum Handler {
    /// Show the devices and the stores on them.
    List,
    /// Format a device.
    Format,
}

/// A command: its name, how many positional parameters it takes, its flags
/// and what it does.
pub struct Command {
    pub name: &'static str,
    pub min_arguments: usize,
    pub max_arguments: usize,
    pub flags: Vec<FlagDef>,
    pub handler: Handler,
}

/// The known command of a name: its least and greatest parameter counts and
/// what it does.
pub open spec fn known_command(name: Seq<char>) -> Option<(nat, nat, Handler)> {
    if name == "list"@ {
        Some((0, 0, Handler::List))
    } else if name == "format"@ {
        Some((1, 2, Handler::Format))
    } else {
        None
    }
}

/// The registered commands, in order.
pub fn registry_commands() -> (cmds: Vec<Command>)
    ensures
        cmds@.len() == 2,
        cmds@[0].name@ == "list"@ && cmds@[0].min_arguments == 0 && cmds@[0].max_arguments == 0
            && cmds@[0].handler == Handler::List,
        cmds@[1].name@ == "format"@ && cmds@[1].min_arguments == 1 && cmds@[1].max_arguments == 2
            && cmds@[1].handler == Handler::Format,
{
    let mut cmds: Vec<Command> = Vec::new();
    let mut list_flags: Vec<FlagDef> = Vec::new();
    list_flags.push(FlagDef { name: "disk", description: "Show details" });
    cmds.push(Command { name: "list", min_arguments: 0, max_arguments: 0, flags: list_flags, handler: Handler::List });
    let mut format_flags: Vec<FlagDef> = Vec::new();
    format_flags.push(FlagDef { name: "forced", description: "Ignore warning" });
    cmds.push(Command { name: "format", min_arguments: 1, max_arguments: 2, flags: format_flags, handler: Handler::Format });
    cmds
}

pub const HELP_TEXT: &'static str = "corestorage - V1

USAGE:
    corestorage <command> [args] [--flags]

COMMANDS:
    list                 Show storage
        --disk           Show detail disk

    format <disk name> <mode=quick,zero> Format disk 
        --forced         Ignore warning force format

GLOBAL FLAGS (ap dung moi command):
    --pretty             In ket qua dang bang de doc
    --verbose            In them log chi tiet
    --color              Enable output color
    --sort               Sort result
";

/// The usage line of a command: its name, and ` <arg>` when it takes parameters.
pub open spec fn usage_text(name: Seq<char>, min: nat, max: nat) -> Seq<char> {
    "Usage: 'corestorage "@ + name + (if min == 0 && max == 0 { Seq::<char>::empty() } else { " <arg>"@ })
        + "'"@
}

pub fn usage(command: &Command) -> (s: String)
    ensures
        s@ == usage_text(command.name@, command.min_arguments as nat, command.max_arguments as nat),
{
    let mut s = String::from_str("Usage: 'corestorage ");
    s.append(command.name);
    if !(command.min_arguments == 0 && command.max_arguments == 0) {
        s.append(" <arg>");
    }
    s.append("'");
    proof {
        reveal_strlit("");
    }
    s
}

/// What to do with a command line.
pub enum Execution {
    /// Run this command's work with the command line.
    Run(Handler, CommandContext),
    /// The command line is refused; this is the answer.
    Done(CommandResult),
}

/// Checks a command line against the registry: an unknown command and a
/// wrong number of parameters are refused; otherwise its command runs.
pub fn execute(ctx: CommandContext) -> (x: Execution)
    ensures
        known_command(ctx.command@) is None ==> (x matches Execution::Done(CommandResult::Error(m))
            && m@ == "Unknown command '"@ + ctx.command@ + "'"@),
        known_command(ctx.command@) matches Some((min, max, h)) ==> ({
            let n = ctx.params@.len();
            if n < min || n > max {
                x matches Execution::Done(CommandResult::Error(m)) && m@ == usage_text(ctx.command@, min, max)
            } else {
                x matches Execution::Run(h2, c) && h2 == h && c == ctx
            }
        }),
{
    let cmds = registry_commands();
    let mut i: usize = 0;
    while i < cmds.len()
        invariant
            cmds@.len() == 2,
            cmds@[0].name@ == "list"@ && cmds@[0].min_arguments == 0 && cmds@[0].max_arguments == 0
                && cmds@[0].handler == Handler::List,
            cmds@[1].name@ == "format"@ && cmds@[1].min_arguments == 1 && cmds@[1].max_arguments == 2
                && cmds@[1].handler == Handler::Format,
            0 <= i <= 2,
            forall|k: int| 0 <= k < i ==> cmds@[k].name@ != ctx.command@,
        decreases 2 - i,
    {
        let command = &cmds[i];
        if str_eq(command.name, ctx.command.as_str()) {
            proof {
                reveal_strlit("list");
                reveal_strlit("format");
            }
            let n = ctx.prm_count();
            if n < command.min_arguments || n > command.max_arguments {
                return Execution::Done(CommandResult::Error(usage(command)));
            }
            return Execution::Run(command.handler, ctx);
        }
        i = i + 1;
    }
    let mut m = String::from_str("Unknown command '");
    m.append(ctx.command.as_str());
    m.append("'");
    Execution::Done(CommandResult::Error(m))
}

} // verus!
