//! User-defined commands: a name-to-body store kept in a data file, and
//! the decisions the add/update/remove/listen handlers take.

use vstd::prelude::*;

use crate::text::{bytes_eq, subrange_vec, trim_spec};

verus! {

/// `!`, the byte every user-defined command starts with.
pub const BANG_BYTE: u8 = 33;

/// One stored command: its name, its reply body, and how often it ran.
pub struct Command {
    pub command: Vec<u8>,
    pub body: Vec<u8>,
    pub uses: u64,
}

/// Whether some stored command carries the name.
pub open spec fn has_cmd(s: Seq<Command>, name: Seq<u8>) -> bool {
    exists|i: int| 0 <= i < s.len() && s[i].command@ == name
}

/// The stored commands, names unique.
pub struct Commands {
    pub map: Vec<Command>,
}

impl Commands {
    /// No two stored commands share a name.
    pub open spec fn wf(&self) -> bool {
        forall|i: int, j: int|
            0 <= i < j < self.map@.len() ==> self.map@[i].command@ != self.map@[j].command@
    }

    /// An empty store.
    pub fn new_empty() -> (r: Commands)
        ensures
            r.wf(),
            r.map@.len() == 0,
    {
        Commands { map: Vec::new() }
    }

    /// The position of the command named `name`, if any.
    fn find_index(&self, name: &[u8]) -> (r: Option<usize>)
        ensures
            match r {
                Some(i) => i < self.map@.len() && self.map@[i as int].command@ == name@,
                None => !has_cmd(self.map@, name@),
            },
    {
        let mut i: usize = 0;
        while i < self.map.len()
            invariant
                0 <= i <= self.map@.len(),
                forall|j: int| 0 <= j < i ==> self.map@[j].command@ != name@,
            decreases self.map@.len() - i,
        {
            if bytes_eq(self.map[i].command.as_slice(), name) {
                return Some(i);
            }
            i = i + 1;
        }
        None
    }

    /// Stores a new command with no uses; refuses a taken name.
    pub fn add(&mut self, cmd: &[u8], body: &[u8]) -> (r: bool)
        requires
            old(self).wf(),
        ensures
            final(self).wf(),
            r == !has_cmd(old(self).map@, cmd@),
            r ==> final(self).map@.len() == old(self).map@.len() + 1 && final(self).map@.last().command@
                == cmd@ && final(self).map@.last().body@ == body@ && final(self).map@.last().uses
                == 0 && final(self).map@.drop_last() == old(self).map@,
            !r ==> final(self).map@ == old(self).map@,
    {
        if self.find_index(cmd).is_some() {
            return false;
        }
        let c = Command {
            command: subrange_vec(cmd, 0, cmd.len()),
            body: subrange_vec(body, 0, body.len()),
            uses: 0,
        };
        proof {
            assert(c.command@ =~= cmd@);
            assert(c.body@ =~= body@);
        }
        let ghost old_map = self.map@;
        self.map.push(c);
        proof {
            assert(self.map@.drop_last() =~= old_map);
            assert forall|i: int, j: int|
                0 <= i < j < self.map@.len() implies self.map@[i].command@
                != self.map@[j].command@ by {
                if j == self.map@.len() - 1 {
                    assert(!has_cmd(old_map, cmd@));
                }
            }
        }
        true
    }

    /// Replaces the body of a stored command; refuses an unknown name.
    pub fn update(&mut self, cmd: &[u8], body: &[u8]) -> (r: bool)
        requires
            old(self).wf(),
        ensures
            final(self).wf(),
            r == has_cmd(old(self).map@, cmd@),
            r ==> exists|i: int|
                0 <= i < old(self).map@.len() && old(self).map@[i].command@ == cmd@
                    && final(self).map@ == old(self).map@.update(
                    i,
                    (Command {
                        command: old(self).map@[i].command,
                        body: final(self).map@[i].body,
                        uses: old(self).map@[i].uses,
                    }),
                ) && final(self).map@[i].body@ == body@,
            !r ==> final(self).map@ == old(self).map@,
    {
        match self.find_index(cmd) {
            None => false,
            Some(i) => {
                let ghost old_map = self.map@;
                let old_entry = self.map.remove(i);
                let newc = Command {
                    command: old_entry.command,
                    body: subrange_vec(body, 0, body.len()),
                    uses: old_entry.uses,
                };
                proof {
                    assert(newc.body@ =~= body@);
                }
                self.map.insert(i, newc);
                proof {
                    assert(self.map@ =~= old_map.update(
                        i as int,
                        (Command {
                            command: old_map[i as int].command,
                            body: self.map@[i as int].body,
                            uses: old_map[i as int].uses,
                        }),
                    ));
                    assert forall|a: int, b: int|
                        0 <= a < b < self.map@.len() implies self.map@[a].command@
                        != self.map@[b].command@ by {
                        assert(old_map[a].command@ != old_map[b].command@);
                    }
                }
                true
            },
        }
    }

    /// Takes a stored command out; nothing for an unknown name.
    pub fn remove(&mut self, cmd: &[u8]) -> (r: Option<Command>)
        requires
            old(self).wf(),
        ensures
            final(self).wf(),
            match r {
                Some(c) => exists|i: int|
                    0 <= i < old(self).map@.len() && old(self).map@[i].command@ == cmd@ && c
                        == old(self).map@[i] && final(self).map@ == old(self).map@.remove(i),
                None => !has_cmd(old(self).map@, cmd@) && final(self).map@ == old(self).map@,
            },
    {
        match self.find_index(cmd) {
            None => None,
            Some(i) => {
                let ghost old_map = self.map@;
                let c = self.map.remove(i);
                proof {
                    assert forall|a: int, b: int|
                        0 <= a < b < self.map@.len() implies self.map@[a].command@
                        != self.map@[b].command@ by {
                        let a0 = if a < i { a } else { a + 1 };
                        let b0 = if b < i { b } else { b + 1 };
                        assert(old_map[a0].command@ != old_map[b0].command@);
                    }
                }
                Some(c)
            },
        }
    }

    /// Every stored name, in storage order.
    pub fn get_all_names(&self) -> (r: Vec<Vec<u8>>)
        ensures
            r@.len() == self.map@.len(),
            forall|i: int| 0 <= i < r@.len() ==> r@[i]@ == self.map@[i].command@,
    {
        let mut r: Vec<Vec<u8>> = Vec::new();
        let mut i: usize = 0;
        while i < self.map.len()
            invariant
                0 <= i <= self.map@.len(),
                r@.len() == i,
                forall|j: int| 0 <= j < i ==> r@[j]@ == self.map@[j].command@,
            decreases self.map@.len() - i,
        {
            let name = &self.map[i].command;
            r.push(subrange_vec(name.as_slice(), 0, name.len()));
            proof {
                assert(r@.last()@ =~= self.map@[i as int].command@);
            }
            i = i + 1;
        }
        r
    }

    /// The body of the command named `cmd`, counting the use; the count
    /// stops at its largest value rather than wrap.
    pub fn find_use(&mut self, cmd: &[u8]) -> (r: Option<Vec<u8>>)
        requires
            old(self).wf(),
        ensures
            final(self).wf(),
            match r {
                Some(body) => exists|i: int|
                    0 <= i < old(self).map@.len() && old(self).map@[i].command@ == cmd@ && body@
                        == old(self).map@[i].body@ && final(self).map@ == old(self).map@.update(
                        i,
                        (Command {
                            command: old(self).map@[i].command,
                            body: old(self).map@[i].body,
                            uses: final(self).map@[i].uses,
                        }),
                    ) && final(self).map@[i].uses == (if old(self).map@[i].uses < u64::MAX {
                        old(self).map@[i].uses + 1
                    } else {
                        u64::MAX as int
                    }),
                None => !has_cmd(old(self).map@, cmd@) && final(self).map@ == old(self).map@,
            },
    {
        match self.find_index(cmd) {
            None => None,
            Some(i) => {
                let ghost old_map = self.map@;
                let old_entry = self.map.remove(i);
                let body = subrange_vec(old_entry.body.as_slice(), 0, old_entry.body.len());
                proof {
                    assert(body@ =~= old_map[i as int].body@);
                }
                let newc = Command {
                    command: old_entry.command,
                    body: old_entry.body,
                    uses: if old_entry.uses < u64::MAX {
                        old_entry.uses + 1
                    } else {
                        u64::MAX
                    },
                };
                self.map.insert(i, newc);
                proof {
                    assert(self.map@ =~= old_map.update(
                        i as int,
                        (Command {
                            command: old_map[i as int].command,
                            body: old_map[i as int].body,
                            uses: self.map@[i as int].uses,
                        }),
                    ));
                    assert forall|a: int, b: int|
                        0 <= a < b < self.map@.len() implies self.map@[a].command@
                        != self.map@[b].command@ by {
                        assert(old_map[a].command@ != old_map[b].command@);
                    }
                }
                Some(body)
            },
        }
    }
}

/// What a store-changing handler answers.
pub enum UdReply {
    /// The caller lacks the needed permission.
    NeedsPermission,
    /// The body was empty after trimming.
    BodyEmpty,
    /// The command name does not start with `!`.
    MustStartWithBang,
    /// A command of that name already exists.
    Exists { command: Vec<u8> },
    /// No command of that name exists.
    NotFound { command: Vec<u8> },
    /// The command was stored.
    Added { command: Vec<u8>, body: Vec<u8> },
    /// The command's body was replaced.
    Updated { command: Vec<u8>, body: Vec<u8> },
    /// The command was removed; its old body rides along.
    Removed { command: Vec<u8>, body: Vec<u8> },
}

/// The add handler: permission, body and name checks in order, then the
/// store decides between a fresh entry and an already-taken name.
pub fn add_command(store: &mut Commands, permitted: bool, command: &[u8], body: &[u8]) -> (r:
    UdReply)
    requires
        old(store).wf(),
    ensures
        final(store).wf(),
        !permitted ==> r is NeedsPermission && final(store).map@ == old(store).map@,
        permitted && trim_spec(body@).len() == 0 ==> r is BodyEmpty
            && final(store).map@ == old(store).map@,
        permitted && trim_spec(body@).len() > 0 && !(command@.len() > 0 && command@[0]
            == BANG_BYTE) ==> r is MustStartWithBang && final(store).map@ == old(store).map@,
        permitted && trim_spec(body@).len() > 0 && command@.len() > 0 && command@[0] == BANG_BYTE
            ==> if has_cmd(old(store).map@, command@) {
            r matches UdReply::Exists { command: c } && c@ == command@ && final(store).map@
                == old(store).map@
        } else {
            r matches UdReply::Added { command: c, body: b } && c@ == command@ && b@ == body@
                && final(store).map@.len() == old(store).map@.len() + 1
        },
{
    if !permitted {
        return UdReply::NeedsPermission;
    }
    let t = crate::text::trim(body);
    if t.len() == 0 {
        return UdReply::BodyEmpty;
    }
    if !(command.len() > 0 && command[0] == BANG_BYTE) {
        return UdReply::MustStartWithBang;
    }
    if store.add(command, body) {
        UdReply::Added {
            command: subrange_vec(command, 0, command.len()),
            body: subrange_vec(body, 0, body.len()),
        }
    } else {
        UdReply::Exists { command: subrange_vec(command, 0, command.len()) }
    }
}

/// The update handler, with the same checks as adding.
pub fn update_command(store: &mut Commands, permitted: bool, command: &[u8], body: &[u8]) -> (r:
    UdReply)
    requires
        old(store).wf(),
    ensures
        final(store).wf(),
        !permitted ==> r is NeedsPermission && final(store).map@ == old(store).map@,
        permitted && trim_spec(body@).len() == 0 ==> r is BodyEmpty
            && final(store).map@ == old(store).map@,
        permitted && trim_spec(body@).len() > 0 && !(command@.len() > 0 && command@[0]
            == BANG_BYTE) ==> r is MustStartWithBang && final(store).map@ == old(store).map@,
        permitted && trim_spec(body@).len() > 0 && command@.len() > 0 && command@[0] == BANG_BYTE
            ==> if has_cmd(old(store).map@, command@) {
            r matches UdReply::Updated { command: c, body: b } && c@ == command@ && b@ == body@
        } else {
            r matches UdReply::NotFound { command: c } && c@ == command@ && final(store).map@
                == old(store).map@
        },
{
    if !permitted {
        return UdReply::NeedsPermission;
    }
    let t = crate::text::trim(body);
    if t.len() == 0 {
        return UdReply::BodyEmpty;
    }
    if !(command.len() > 0 && command[0] == BANG_BYTE) {
        return UdReply::MustStartWithBang;
    }
    if store.update(command, body) {
        UdReply::Updated {
            command: subrange_vec(command, 0, command.len()),
            body: subrange_vec(body, 0, body.len()),
        }
    } else {
        UdReply::NotFound { command: subrange_vec(command, 0, command.len()) }
    }
}

/// The remove handler: permission and name checks, then removal.
pub fn remove_command(store: &mut Commands, permitted: bool, command: &[u8]) -> (r: UdReply)
    requires
        old(store).wf(),
    ensures
        final(store).wf(),
        !permitted ==> r is NeedsPermission && final(store).map@ == old(store).map@,
        permitted && !(command@.len() > 0 && command@[0] == BANG_BYTE) ==> r
            is MustStartWithBang && final(store).map@ == old(store).map@,
        permitted && command@.len() > 0 && command@[0] == BANG_BYTE ==> if has_cmd(
            old(store).map@,
            command@,
        ) {
            r matches UdReply::Removed { command: c, body: b } && c@ == command@ && exists|i: int|
                0 <= i < old(store).map@.len() && old(store).map@[i].command@ == command@ && b@
                    == old(store).map@[i].body@
        } else {
            r matches UdReply::NotFound { command: c } && c@ == command@ && final(store).map@
                == old(store).map@
        },
{
    if !permitted {
        return UdReply::NeedsPermission;
    }
    if !(command.len() > 0 && command[0] == BANG_BYTE) {
        return UdReply::MustStartWithBang;
    }
    match store.remove(command) {
        Some(c) => UdReply::Removed {
            command: subrange_vec(command, 0, command.len()),
            body: c.body,
        },
        None => UdReply::NotFound { command: subrange_vec(command, 0, command.len()) },
    }
}

} // verus!
