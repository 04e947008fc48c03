//! The help command's decisions: list every command name, or describe one
//! command with its usage, description and aliases.

use vstd::prelude::*;

use crate::commands::{name_taken, names_spec, Command, Commands};
use crate::fmt::{join_multiline_max, join_multiline_max_spec};
use crate::text::join_with_spec;
use crate::text::{deep_view, join_with, subrange_vec, SP};

verus! {

/// How many names stand on one line of the listing.
pub const MAX_PER_LINE: usize = 10;

/// What the help command answers.
pub enum HelpReply {
    /// Every known name, ten to a line.
    ListCommands { commands: Vec<u8> },
    /// One command without aliases.
    SpecificCommandNoAlias { command: Vec<u8>, usage: Vec<u8>, description: Vec<u8> },
    /// One command and its aliases.
    SpecificCommand { command: Vec<u8>, usage: Vec<u8>, description: Vec<u8>, aliases: Vec<u8> },
    /// No command answers to the asked name.
    UnknownCommand { command: Vec<u8> },
}

/// The usage text shown for a command: the pattern followed by a space,
/// or nothing when the pattern is empty.
pub open spec fn shown_usage(c: Command) -> Seq<u8> {
    if c.args.usage@.len() > 0 {
        c.args.usage@ + seq![SP]
    } else {
        seq![]
    }
}

/// Answers the help command: without an argument, the full listing; with
/// one, the named command's details or an unknown-command reply.
pub fn help(commands: &Commands, query: Option<&Vec<u8>>) -> (r: HelpReply)
    ensures
        match query {
            None => r matches HelpReply::ListCommands { commands: cs } && cs@
                == join_multiline_max_spec(names_spec(commands.entries@), MAX_PER_LINE as int),
            Some(q) => match r {
                HelpReply::UnknownCommand { command } => command@ == q@ && !name_taken(
                    commands.entries@,
                    q@,
                ),
                HelpReply::SpecificCommandNoAlias { command, usage, description } => exists|
                    c: Command,
                |
                    (#[trigger] c.matches_name(q@)) && (exists|i: int|
                        0 <= i < commands.entries@.len() && commands.entries@[i].command == c)
                        && c.aliases@.len() == 0 && command@ == c.command@ && usage@
                        == shown_usage(c) && description@ == c.description@,
                HelpReply::SpecificCommand { command, usage, description, aliases } => exists|
                    c: Command,
                |
                    (#[trigger] c.matches_name(q@)) && (exists|i: int|
                        0 <= i < commands.entries@.len() && commands.entries@[i].command == c)
                        && c.aliases@.len() > 0 && command@ == c.command@ && usage@
                        == shown_usage(c) && description@ == c.description@ && aliases@
                        == join_with_spec(deep_view(c.aliases@), seq![SP]),
                HelpReply::ListCommands { .. } => false,
            },
        },
{
    let q = match query {
        None => {
            let names = commands.command_names();
            let listing = join_multiline_max(&names, MAX_PER_LINE);
            return HelpReply::ListCommands { commands: listing };
        },
        Some(q) => q,
    };
    match commands.find_by_name(q.as_slice()) {
        None => HelpReply::UnknownCommand { command: subrange_vec(q.as_slice(), 0, q.len()) },
        Some(c) => {
            let usage = if c.args.usage.len() > 0 {
                let mut u = subrange_vec(c.args.usage.as_slice(), 0, c.args.usage.len());
                u.push(SP);
                proof {
                    assert(u@ =~= shown_usage(*c));
                }
                u
            } else {
                let u: Vec<u8> = Vec::new();
                proof {
                    assert(u@ =~= shown_usage(*c));
                }
                u
            };
            let command = subrange_vec(c.command.as_slice(), 0, c.command.len());
            let description = subrange_vec(c.description.as_slice(), 0, c.description.len());
            proof {
                assert(command@ =~= c.command@);
                assert(description@ =~= c.description@);
            }
            if c.aliases.len() == 0 {
                HelpReply::SpecificCommandNoAlias { command, usage, description }
            } else {
                let space = {
                    let mut v: Vec<u8> = Vec::new();
                    v.push(SP);
                    v
                };
                proof {
                    assert(space@ =~= seq![SP]);
                }
                let aliases = join_with(&c.aliases, space.as_slice());
                HelpReply::SpecificCommand { command, usage, description, aliases }
            }
        },
    }
}

} // verus!
