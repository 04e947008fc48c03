//! The command registry: per (module, key) command metadata — name,
//! description, aliases and usage pattern — with exact name lookup.
//! No two commands or aliases in a loaded registry share a name.

use vstd::prelude::*;

use crate::arguments::{args_view, pattern_flaw, ExampleArgs};
use crate::text::{deep_view, index_of, lemma_index_of, find_byte, subrange_vec, SP};
use crate::text::bytes_eq;

verus! {

/// One loaded command: its invocation name, description, alias set and
/// argument pattern.
pub struct Command {
    pub command: Vec<u8>,
    pub description: Vec<u8>,
    pub aliases: Vec<Vec<u8>>,
    pub args: ExampleArgs,
}

impl Command {
    /// Whether `q` is the command's name or one of its aliases.
    pub open spec fn matches_name(&self, q: Seq<u8>) -> bool {
        self.command@ == q || exists|i: int|
            0 <= i < self.aliases@.len() && self.aliases@[i]@ == q
    }

    /// A command's argument pattern has no flaw.
    pub open spec fn wf(&self) -> bool {
        pattern_flaw(args_view(self.args.args@)) is None
    }

    /// Whether `query` equals the command's name or an alias, exactly.
    pub fn is_command_match(&self, query: &[u8]) -> (r: bool)
        ensures
            r == self.matches_name(query@),
    {
        if bytes_eq(self.command.as_slice(), query) {
            return true;
        }
        let mut i: usize = 0;
        while i < self.aliases.len()
            invariant
                0 <= i <= self.aliases@.len(),
                forall|j: int| 0 <= j < i ==> self.aliases@[j]@ != query@,
            decreases self.aliases@.len() - i,
        {
            if bytes_eq(self.aliases[i].as_slice(), query) {
                return true;
            }
            i = i + 1;
        }
        false
    }

    /// Splits `query` at its first space and keeps the rest only when the
    /// head names this command: the outer level says whether it does, the
    /// inner whether any text follows.
    pub fn without_command(&self, query: &[u8]) -> (r: Option<Option<Vec<u8>>>)
        ensures
            ({
                let sp = index_of(query@, SP);
                let head = query@.take(sp);
                match r {
                    None => !self.matches_name(head),
                    Some(rest) => self.matches_name(head) && match rest {
                        None => sp >= query@.len(),
                        Some(tail) => sp < query@.len() && tail@ == query@.skip(sp + 1),
                    },
                }
            }),
    {
        let sp = find_byte(query, SP);
        proof {
            lemma_index_of(query@, SP);
        }
        let head = subrange_vec(query, 0, sp);
        proof {
            assert(head@ =~= query@.take(sp as int));
        }
        if !self.is_command_match(head.as_slice()) {
            return None;
        }
        if sp >= query.len() {
            Some(None)
        } else {
            let tail = subrange_vec(query, sp + 1, query.len());
            proof {
                assert(tail@ =~= query@.skip(sp + 1));
            }
            Some(Some(tail))
        }
    }

    /// Whether the command declares any argument.
    pub fn has_args(&self) -> (r: bool)
        ensures
            r == (self.args.args@.len() > 0),
    {
        self.args.args.len() > 0
    }
}

/// One registry row: the identity a handler binds by, and its command.
pub struct CommandEntry {
    pub module: Vec<u8>,
    pub key: Vec<u8>,
    pub command: Command,
}

/// Whether some row is filed under (module, key).
pub open spec fn has_pair(s: Seq<CommandEntry>, m: Seq<u8>, k: Seq<u8>) -> bool {
    exists|i: int| 0 <= i < s.len() && s[i].module@ == m && s[i].key@ == k
}

/// Whether `c` is the command filed under (module, key).
pub open spec fn found_cmd(s: Seq<CommandEntry>, m: Seq<u8>, k: Seq<u8>, c: Command) -> bool {
    exists|i: int|
        0 <= i < s.len() && s[i].module@ == m && s[i].key@ == k && s[i].command == c
}

/// Whether some loaded command answers to the name `q`.
pub open spec fn name_taken(s: Seq<CommandEntry>, q: Seq<u8>) -> bool {
    exists|i: int| 0 <= i < s.len() && s[i].command.matches_name(q)
}

/// Every name of a loaded registry, in row order: each command's name
/// first, its aliases after it.
pub open spec fn names_spec(s: Seq<CommandEntry>) -> Seq<Seq<u8>>
    decreases s.len(),
{
    if s.len() == 0 {
        seq![]
    } else {
        names_spec(s.drop_last()) + seq![s.last().command.command@] + deep_view(
            s.last().command.aliases@,
        )
    }
}

/// The loaded command registry.  A snapshot value: the watcher builds a
/// fresh one and swaps it in whole.
pub struct Commands {
    pub entries: Vec<CommandEntry>,
}

impl Commands {
    /// Each (module, key) is filed once, no two rows share a name or
    /// alias, and every pattern is flawless.
    pub open spec fn wf(&self) -> bool {
        (forall|i: int, j: int|
            0 <= i < j < self.entries@.len() ==> !(self.entries@[i].module@
                == self.entries@[j].module@ && self.entries@[i].key@ == self.entries@[j].key@))
            && (forall|i: int, j: int, q: Seq<u8>|
            0 <= i < j < self.entries@.len() ==> !(#[trigger] self.entries@[i].command.matches_name(
                q,
            ) && #[trigger] self.entries@[j].command.matches_name(q))) && (forall|i: int|
            0 <= i < self.entries@.len() ==> (#[trigger] self.entries@[i].command).wf())
    }

    /// A registry with nothing in it.
    pub fn new_empty() -> (r: Commands)
        ensures
            r.wf(),
            r.entries@.len() == 0,
    {
        Commands { entries: Vec::new() }
    }

    /// The command filed under (module, key).
    pub fn find(&self, m: &[u8], k: &[u8]) -> (r: Option<&Command>)
        ensures
            match r {
                Some(c) => found_cmd(self.entries@, m@, k@, *c),
                None => !has_pair(self.entries@, m@, k@),
            },
    {
        let mut i: usize = 0;
        while i < self.entries.len()
            invariant
                0 <= i <= self.entries@.len(),
                forall|j: int|
                    0 <= j < i ==> !(self.entries@[j].module@ == m@ && self.entries@[j].key@
                        == k@),
            decreases self.entries@.len() - i,
        {
            let e = &self.entries[i];
            if bytes_eq(e.module.as_slice(), m) && bytes_eq(e.key.as_slice(), k) {
                return Some(&e.command);
            }
            i = i + 1;
        }
        None
    }

    /// The command answering to the name or alias `query`, exactly.
    pub fn find_by_name(&self, query: &[u8]) -> (r: Option<&Command>)
        ensures
            match r {
                Some(c) => c.matches_name(query@) && exists|i: int|
                    0 <= i < self.entries@.len() && self.entries@[i].command == *c,
                None => !name_taken(self.entries@, query@),
            },
    {
        let mut i: usize = 0;
        while i < self.entries.len()
            invariant
                0 <= i <= self.entries@.len(),
                forall|j: int| 0 <= j < i ==> !self.entries@[j].command.matches_name(query@),
            decreases self.entries@.len() - i,
        {
            if self.entries[i].command.is_command_match(query) {
                return Some(&self.entries[i].command);
            }
            i = i + 1;
        }
        None
    }

    /// Every loaded name and alias, in row order.
    pub fn command_names(&self) -> (r: Vec<Vec<u8>>)
        ensures
            deep_view(r@) == names_spec(self.entries@),
    {
        let mut r: Vec<Vec<u8>> = Vec::new();
        let mut i: usize = 0;
        proof {
            assert(self.entries@.take(0) =~= Seq::<CommandEntry>::empty());
            assert(deep_view(r@) =~= names_spec(self.entries@.take(0)));
        }
        while i < self.entries.len()
            invariant
                0 <= i <= self.entries@.len(),
                deep_view(r@) == names_spec(self.entries@.take(i as int)),
            decreases self.entries@.len() - i,
        {
            proof {
                assert(self.entries@.take(i + 1).drop_last() =~= self.entries@.take(i as int));
                assert(self.entries@.take(i + 1).last() == self.entries@[i as int]);
            }
            let e = &self.entries[i];
            let ghost before = deep_view(r@);
            let name = &e.command.command;
            r.push(subrange_vec(name.as_slice(), 0, name.len()));
            proof {
                assert(name@.subrange(0, name@.len() as int) =~= name@);
                assert(deep_view(r@) =~= before + seq![e.command.command@]);
            }
            let mut j: usize = 0;
            while j < e.command.aliases.len()
                invariant
                    0 <= j <= e.command.aliases@.len(),
                    deep_view(r@) == before + seq![e.command.command@] + deep_view(
                        e.command.aliases@,
                    ).take(j as int),
                decreases e.command.aliases@.len() - j,
            {
                let a = &e.command.aliases[j];
                let ghost b2 = deep_view(r@);
                r.push(subrange_vec(a.as_slice(), 0, a.len()));
                proof {
                    assert(a@.subrange(0, a@.len() as int) =~= a@);
                    assert(deep_view(r@) =~= b2.push(e.command.aliases@[j as int]@));
                    assert(deep_view(e.command.aliases@).take(j + 1) =~= deep_view(
                        e.command.aliases@,
                    ).take(j as int).push(e.command.aliases@[j as int]@));
                    assert(deep_view(r@) =~= before + seq![e.command.command@] + deep_view(
                        e.command.aliases@,
                    ).take(j + 1));
                }
                j = j + 1;
            }
            proof {
                assert(deep_view(e.command.aliases@).take(j as int) =~= deep_view(
                    e.command.aliases@,
                ));
                assert(deep_view(r@) =~= names_spec(self.entries@.take(i + 1)));
            }
            i = i + 1;
        }
        proof {
            assert(self.entries@.take(i as int) =~= self.entries@);
        }
        r
    }

    /// Files a command under (module, key).  Refuses a pair already taken,
    /// a name or alias already answering, and a flawed pattern.
    pub fn add(&mut self, module: Vec<u8>, key: Vec<u8>, command: Command) -> (r: bool)
        requires
            old(self).wf(),
        ensures
            final(self).wf(),
            r ==> final(self).entries@ == old(self).entries@.push(
                (CommandEntry { module, key, command }),
            ),
            r == (pattern_flaw(args_view(command.args.args@)) is None && !has_pair(
                old(self).entries@,
                module@,
                key@,
            ) && !name_taken(old(self).entries@, command.command@) && (forall|a: int|
                0 <= a < command.aliases@.len() ==> !name_taken(
                    old(self).entries@,
                    command.aliases@[a]@,
                ))),
            !r ==> *final(self) == *old(self),
            r ==> !has_pair(old(self).entries@, module@, key@),
    {
        if !command.args.parse_ok() {
            return false;
        }
        if self.find(module.as_slice(), key.as_slice()).is_some() {
            return false;
        }
        if self.find_by_name(command.command.as_slice()).is_some() {
            return false;
        }
        let mut j: usize = 0;
        while j < command.aliases.len()
            invariant
                0 <= j <= command.aliases@.len(),
                forall|a: int| 0 <= a < j ==> !name_taken(self.entries@, command.aliases@[a]@),
                self.entries@ == old(self).entries@,
                old(self).wf(),
            decreases command.aliases@.len() - j,
        {
            if self.find_by_name(command.aliases[j].as_slice()).is_some() {
                return false;
            }
            j = j + 1;
        }
        let ghost old_entries = self.entries@;
        let ghost cmd = command;
        self.entries.push(CommandEntry { module, key, command });
        proof {
            assert forall|i: int, j2: int, q: Seq<u8>|
                0 <= i < j2 < self.entries@.len() implies !(
            #[trigger] self.entries@[i].command.matches_name(q)
                && #[trigger] self.entries@[j2].command.matches_name(q)) by {
                if j2 == self.entries@.len() - 1 {
                    if self.entries@[j2].command.matches_name(q) {
                        if cmd.command@ == q {
                            assert(!name_taken(old_entries, q));
                        } else {
                            let a = choose|a: int|
                                0 <= a < cmd.aliases@.len() && cmd.aliases@[a]@ == q;
                            assert(!name_taken(old_entries, cmd.aliases@[a]@));
                        }
                    }
                }
            }
            assert forall|i: int, j2: int|
                0 <= i < j2 < self.entries@.len() implies !(self.entries@[i].module@
                == self.entries@[j2].module@ && self.entries@[i].key@
                == self.entries@[j2].key@) by {
                if j2 == self.entries@.len() - 1 {
                    assert(!has_pair(old_entries, self.entries@[j2].module@,
                        self.entries@[j2].key@));
                }
            }
        }
        true
    }
}

} // verus!
