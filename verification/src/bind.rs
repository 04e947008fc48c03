//! Handler binding and per-message dispatch.
//!
//! A handler is bound by an explicit (module, key) identity; binding fails
//! fast when the current command registry holds no such command.  Per
//! message, the command is looked up again in the registry of that moment,
//! so a live reload takes effect without rebinding, and the argument
//! matcher decides whether the handler runs, is skipped, or a usage hint
//! goes back.

use vstd::prelude::*;

use crate::arguments::{args_view, Arguments, ExampleArgs, Kind, Match};
use crate::commands::{found_cmd, has_pair, Command, Commands};
use crate::text::{index_of, subrange_vec, trim, trim_spec, SP};

verus! {

/// What a message asks of one bound handler.
pub enum Dispatch {
    /// The message is not an invocation of this command.
    Skip,
    /// Run the handler with these bound arguments.
    Invoke(Arguments),
    /// Send back a usage hint: the command's name and usage pattern.
    UsageProblem(Vec<u8>),
}

/// The usage line a hint carries: the command's name, a space, and its
/// usage pattern.
pub open spec fn usage_line(cmd: &Command) -> Seq<u8> {
    cmd.command@ + seq![SP] + cmd.args.usage@
}

/// What `parse_command` decides for a command and message text: an exact
/// name match with no declared arguments invokes at once; otherwise the
/// first word must name the command and the rest is matched against the
/// pattern.
pub open spec fn dispatch_decides(cmd: Command, data: Seq<u8>, r: Dispatch) -> bool {
    let a = args_view(cmd.args.args@);
    let full = a.len() == 0 && cmd.matches_name(data);
    let sp = index_of(data, SP);
    let head = data.take(sp);
    let tail = if sp < data.len() {
        data.skip(sp + 1)
    } else {
        Seq::<u8>::empty()
    };
    let t = trim_spec(tail);
    match r {
        Dispatch::Invoke(m) => (full && m@ == Map::<Seq<u8>, Seq<u8>>::empty()) || (!full
            && cmd.matches_name(head) && !(t.len() == 0 && (exists|j: int|
            0 <= j < a.len() && a[j].1 == Kind::Required)) && !(t.len() > 0 && a.len() == 0)
            && m@ == ExampleArgs::match_map(a, t)),
        Dispatch::Skip => !full && (!cmd.matches_name(head) || (t.len() > 0 && a.len() == 0)),
        Dispatch::UsageProblem(u) => !full && cmd.matches_name(head) && t.len() == 0 && (
        exists|j: int| 0 <= j < a.len() && a[j].1 == Kind::Required) && u@ == usage_line(&cmd),
    }
}

/// Decides what a message's text asks of `cmd`.
pub fn parse_command(cmd: &Command, data: &[u8]) -> (r: Dispatch)
    ensures
        dispatch_decides(*cmd, data@, r),
{
    if !cmd.has_args() && cmd.is_command_match(data) {
        return Dispatch::Invoke(Arguments::new_empty());
    }
    let tail: Vec<u8> = match cmd.without_command(data) {
        None => {
            return Dispatch::Skip;
        },
        Some(Some(tail)) => tail,
        Some(None) => Vec::new(),
    };
    let t = trim(tail.as_slice());
    proof {
        if index_of(data@, SP) >= data@.len() {
            assert(tail@ =~= Seq::<u8>::empty());
            assert(trim_spec(tail@) =~= Seq::<u8>::empty());
        }
    }
    match cmd.args.extract(t.as_slice()) {
        Match::Match(map) => Dispatch::Invoke(map),
        Match::NoMatch => Dispatch::Skip,
        Match::Required => {
            let mut u = subrange_vec(cmd.command.as_slice(), 0, cmd.command.len());
            u.push(SP);
            crate::text::append_vec(&mut u, &cmd.args.usage);
            proof {
                assert(u@ =~= usage_line(cmd));
            }
            Dispatch::UsageProblem(u)
        },
    }
}

/// A bound module: its identity and its handlers' keys, in registration
/// order.  The callables themselves live with the event loop; the
/// decisions they take per message stand here.
pub struct Bind {
    pub module: Vec<u8>,
    pub keys: Vec<Vec<u8>>,
    pub listens: Vec<Vec<u8>>,
}

impl Bind {
    /// Starts binding handlers for one module.
    pub fn create(module: Vec<u8>) -> (r: Bind)
        ensures
            r.module@ == module@,
            r.keys@.len() == 0,
            r.listens@.len() == 0,
    {
        Bind { module, keys: Vec::new(), listens: Vec::new() }
    }

    /// Binds the handler named `key`: fails fast, at bind time, when the
    /// current registry holds no command under (module, key).
    pub fn bind(&mut self, commands: &Commands, key: Vec<u8>) -> (r: bool)
        ensures
            r == has_pair(commands.entries@, old(self).module@, key@),
            final(self).module@ == old(self).module@,
            final(self).listens@ == old(self).listens@,
            r ==> final(self).keys@ == old(self).keys@.push(key),
            !r ==> *final(self) == *old(self),
    {
        if commands.find(self.module.as_slice(), key.as_slice()).is_none() {
            return false;
        }
        self.keys.push(key);
        true
    }

    /// Registers a passive handler that sees every message; nothing is
    /// looked up for it.
    pub fn listen(&mut self, key: Vec<u8>)
        ensures
            final(self).module@ == old(self).module@,
            final(self).keys@ == old(self).keys@,
            final(self).listens@ == old(self).listens@.push(key),
    {
        self.listens.push(key);
    }
}

/// Looks the bound command up in the registry of this moment and decides
/// the dispatch; a command gone after a reload skips silently instead of
/// failing late.
pub fn dispatch(commands: &Commands, module: &[u8], key: &[u8], data: &[u8]) -> (r: Dispatch)
    ensures
        !has_pair(commands.entries@, module@, key@) ==> r is Skip,
        has_pair(commands.entries@, module@, key@) ==> exists|c: Command|
            found_cmd(commands.entries@, module@, key@, c) && dispatch_decides(c, data@, r),
{
    match commands.find(module, key) {
        Some(cmd) => {
            let r = parse_command(cmd, data);
            proof {
                assert(found_cmd(commands.entries@, module@, key@, *cmd) && dispatch_decides(
                    *cmd,
                    data@,
                    r,
                ));
            }
            r
        },
        None => Dispatch::Skip,
    }
}

} // verus!
