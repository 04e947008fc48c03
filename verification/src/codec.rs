//! The wire protocol codec: one line of text in, one typed event out.
//!
//! A line has the shape `[@tags ][:prefix ]COMMAND [middle...][ :trailing]`.
//! Parsing is pure; every failure is a typed error and the caller treats any
//! failure as fatal to the current connection.

use vstd::prelude::*;

use crate::text::{
    all_digits, deep_view, digits_val, find_byte, index_of, lemma_index_of, parse_u64,
    split_byte, split_on, split_whitespace, split_ws, subrange_vec, trim, trim_end, trim_end_spec,
    trim_spec, SP,
};
use crate::text::bytes_eq;

verus! {

/// `@` opens the tag segment.
pub const AT: u8 = 64;

/// `:` opens the prefix and the trailing data.
pub const COLON: u8 = 58;

/// `!` separates the sender from the rest of the prefix.
pub const BANG: u8 = 33;

/// `;` separates tag entries.
pub const SEMI: u8 = 59;

/// `=` separates a tag key from its value.
pub const EQ: u8 = 61;

/// Why a line was rejected.
#[derive(Clone, Copy, Debug, PartialEq, Eq, Structural)]
pub enum ParseError {
    /// `PING` without trailing data.
    MissingToken,
    /// `ERROR` without trailing data.
    MissingMessage,
    /// `PRIVMSG` without a sender prefix.
    MissingPrefix,
    /// `PRIVMSG` without a target argument.
    MissingTarget,
    /// `PRIVMSG` without trailing data.
    MissingData,
    /// The ready command without a tag segment.
    MissingTags,
    /// The ready command without a `display-name` tag.
    MissingDisplayName,
    /// The ready command without a numeric `user-id` tag.
    MissingUserId,
}

/// One decoded command, the typed form of a wire line.
pub enum Command {
    Ping { token: Vec<u8> },
    Error { error: Vec<u8> },
    GlobalUserState { display_name: Vec<u8>, user_id: u64 },
    Privmsg { tags: Option<Vec<u8>>, sender: Vec<u8>, target: Vec<u8>, data: Vec<u8> },
    Ignored,
}

/// The mathematical shape of a decoded command.
pub enum CommandModel {
    Ping { token: Seq<u8> },
    Error { error: Seq<u8> },
    GlobalUserState { display_name: Seq<u8>, user_id: u64 },
    Privmsg { tags: Option<Seq<u8>>, sender: Seq<u8>, target: Seq<u8>, data: Seq<u8> },
    Ignored,
}

/// The view of an optional byte string.
pub open spec fn opt_view(o: Option<Vec<u8>>) -> Option<Seq<u8>> {
    match o {
        Some(v) => Some(v@),
        None => None,
    }
}

impl View for Command {
    type V = CommandModel;

    open spec fn view(&self) -> CommandModel {
        match self {
            Command::Ping { token } => CommandModel::Ping { token: token@ },
            Command::Error { error } => CommandModel::Error { error: error@ },
            Command::GlobalUserState { display_name, user_id } => CommandModel::GlobalUserState {
                display_name: display_name@,
                user_id: *user_id,
            },
            Command::Privmsg { tags, sender, target, data } => CommandModel::Privmsg {
                tags: opt_view(*tags),
                sender: sender@,
                target: target@,
                data: data@,
            },
            Command::Ignored => CommandModel::Ignored,
        }
    }
}

/// A parsed line: the raw bytes and the command they decode to.
pub struct Line {
    pub line: Vec<u8>,
    pub command: Command,
}

/// `PING`
pub open spec fn lit_ping() -> Seq<u8> {
    seq![80u8, 73u8, 78u8, 71u8]
}

/// `ERROR`
pub open spec fn lit_error() -> Seq<u8> {
    seq![69u8, 82u8, 82u8, 79u8, 82u8]
}

/// `PRIVMSG`
pub open spec fn lit_privmsg() -> Seq<u8> {
    seq![80u8, 82u8, 73u8, 86u8, 77u8, 83u8, 71u8]
}

/// `GLOBALUSERSTATE`, the readiness command.
pub open spec fn lit_ready() -> Seq<u8> {
    seq![71u8, 76u8, 79u8, 66u8, 65u8, 76u8, 85u8, 83u8, 69u8, 82u8, 83u8, 84u8, 65u8, 84u8, 69u8]
}

/// `display-name`
pub open spec fn lit_display_name() -> Seq<u8> {
    seq![100u8, 105u8, 115u8, 112u8, 108u8, 97u8, 121u8, 45u8, 110u8, 97u8, 109u8, 101u8]
}

/// `user-id`
pub open spec fn lit_user_id() -> Seq<u8> {
    seq![117u8, 115u8, 101u8, 114u8, 45u8, 105u8, 100u8]
}

/// Writes `PING` as bytes.
pub fn bytes_ping() -> (r: Vec<u8>)
    ensures
        r@ == lit_ping(),
{
    let mut v: Vec<u8> = Vec::new();
    v.push(80);
    v.push(73);
    v.push(78);
    v.push(71);
    proof {
        assert(v@ =~= lit_ping());
    }
    v
}

/// Writes `ERROR` as bytes.
pub fn bytes_error() -> (r: Vec<u8>)
    ensures
        r@ == lit_error(),
{
    let mut v: Vec<u8> = Vec::new();
    v.push(69);
    v.push(82);
    v.push(82);
    v.push(79);
    v.push(82);
    proof {
        assert(v@ =~= lit_error());
    }
    v
}

/// Writes `PRIVMSG` as bytes.
pub fn bytes_privmsg() -> (r: Vec<u8>)
    ensures
        r@ == lit_privmsg(),
{
    let mut v: Vec<u8> = Vec::new();
    v.push(80);
    v.push(82);
    v.push(73);
    v.push(86);
    v.push(77);
    v.push(83);
    v.push(71);
    proof {
        assert(v@ =~= lit_privmsg());
    }
    v
}

/// Writes `GLOBALUSERSTATE` as bytes.
pub fn bytes_ready() -> (r: Vec<u8>)
    ensures
        r@ == lit_ready(),
{
    let mut v: Vec<u8> = Vec::new();
    v.push(71);
    v.push(76);
    v.push(79);
    v.push(66);
    v.push(65);
    v.push(76);
    v.push(85);
    v.push(83);
    v.push(69);
    v.push(82);
    v.push(83);
    v.push(84);
    v.push(65);
    v.push(84);
    v.push(69);
    proof {
        assert(v@ =~= lit_ready());
    }
    v
}

/// Writes `display-name` as bytes.
pub fn bytes_display_name() -> (r: Vec<u8>)
    ensures
        r@ == lit_display_name(),
{
    let mut v: Vec<u8> = Vec::new();
    v.push(100);
    v.push(105);
    v.push(115);
    v.push(112);
    v.push(108);
    v.push(97);
    v.push(121);
    v.push(45);
    v.push(110);
    v.push(97);
    v.push(109);
    v.push(101);
    proof {
        assert(v@ =~= lit_display_name());
    }
    v
}

/// Writes `user-id` as bytes.
pub fn bytes_user_id() -> (r: Vec<u8>)
    ensures
        r@ == lit_user_id(),
{
    let mut v: Vec<u8> = Vec::new();
    v.push(117);
    v.push(115);
    v.push(101);
    v.push(114);
    v.push(45);
    v.push(105);
    v.push(100);
    proof {
        assert(v@ =~= lit_user_id());
    }
    v
}

/// The tag segment of a trimmed line and what follows it.  A line that
/// begins with `@` gives up everything between the `@` and the first space;
/// with no space the segment is left unconsumed.
pub open spec fn tags_split(t: Seq<u8>) -> (Option<Seq<u8>>, Seq<u8>) {
    if t.len() > 0 && t[0] == AT {
        let i = index_of(t, SP);
        if i < t.len() {
            (Some(t.subrange(1, i)), t.skip(i + 1))
        } else {
            (None, t)
        }
    } else {
        (None, t)
    }
}

/// The sender part of a prefix head: what stands before the first `!`,
/// or nothing when the head is empty.
pub open spec fn prefix_of(head: Seq<u8>) -> Option<Seq<u8>> {
    if head.len() == 0 {
        None
    } else {
        Some(head.take(index_of(head, BANG)))
    }
}

/// The prefix of a line after its tags, and what follows it.  A line that
/// begins with `:` gives up everything between the `:` and the first space;
/// with no space the prefix is left unconsumed.
pub open spec fn prefix_split(t: Seq<u8>) -> (Option<Seq<u8>>, Seq<u8>) {
    if t.len() > 0 && t[0] == COLON {
        let u = t.skip(1);
        let i = index_of(u, SP);
        if i < u.len() {
            (prefix_of(u.take(i)), u.skip(i + 1))
        } else {
            (None, t)
        }
    } else {
        (None, t)
    }
}

/// The key/value binding a single tag segment holds, keys and values trimmed.
pub open spec fn seg_entry(seg: Seq<u8>) -> Option<(Seq<u8>, Seq<u8>)> {
    let j = index_of(seg, EQ);
    if j < seg.len() {
        Some((trim_spec(seg.take(j)), trim_spec(seg.skip(j + 1))))
    } else {
        None
    }
}

/// The value bound to `key` by the given segments; a later binding wins.
pub open spec fn tag_value_in(segs: Seq<Seq<u8>>, key: Seq<u8>) -> Option<Seq<u8>>
    decreases segs.len(),
{
    if segs.len() == 0 {
        None
    } else {
        match seg_entry(segs.last()) {
            Some(kv) => if kv.0 == key {
                Some(kv.1)
            } else {
                tag_value_in(segs.drop_last(), key)
            },
            None => tag_value_in(segs.drop_last(), key),
        }
    }
}

/// The value of the tag `key` in the `;`-separated tag segment `s`.
pub open spec fn tag_value(s: Seq<u8>, key: Seq<u8>) -> Option<Seq<u8>> {
    tag_value_in(split_on(s, SEMI), key)
}

/// Looks `key` up in a tag segment.
pub fn tag_lookup(s: &[u8], key: &[u8]) -> (r: Option<Vec<u8>>)
    ensures
        opt_view(r) == tag_value(s@, key@),
{
    let segs = split_byte(s, SEMI);
    let ghost sv = deep_view(segs@);
    let mut result: Option<Vec<u8>> = None;
    let mut i: usize = 0;
    proof {
        assert(sv.take(0) =~= Seq::<Seq<u8>>::empty());
    }
    while i < segs.len()
        invariant
            0 <= i <= segs@.len(),
            sv == deep_view(segs@),
            opt_view(result) == tag_value_in(sv.take(i as int), key@),
        decreases segs@.len() - i,
    {
        proof {
            assert(sv.take(i + 1).drop_last() =~= sv.take(i as int));
            assert(sv.take(i + 1).last() == sv[i as int]);
            assert(sv[i as int] == segs@[i as int]@);
        }
        let seg = &segs[i];
        let j = find_byte(seg.as_slice(), EQ);
        proof {
            lemma_index_of(seg@, EQ);
        }
        if j < seg.len() {
            let k = trim(subrange_vec(seg.as_slice(), 0, j).as_slice());
            let v = trim(subrange_vec(seg.as_slice(), j + 1, seg.len()).as_slice());
            proof {
                assert(seg@.subrange(0, j as int) =~= seg@.take(j as int));
                assert(seg@.subrange(j + 1, seg@.len() as int) =~= seg@.skip(j + 1));
            }
            if bytes_eq(k.as_slice(), key) {
                result = Some(v);
            }
        }
        i = i + 1;
    }
    proof {
        assert(sv.take(i as int) =~= sv);
    }
    result
}

/// What one wire line decodes to: the typed command, or the reason it was
/// rejected.
pub open spec fn parse_line_spec(s: Seq<u8>) -> Result<CommandModel, ParseError> {
    let t = trim_spec(s);
    let tp = tags_split(t);
    let pp = prefix_split(tp.1);
    let r2 = pp.1;
    let ci = index_of(r2, SP);
    let cmd = r2.take(ci);
    let after = r2.skip(ci);
    let di = index_of(after, COLON);
    let middles = if di < after.len() {
        split_ws(after.take(di))
    } else {
        Seq::<Seq<u8>>::empty()
    };
    let d0 = trim_end_spec(if di < after.len() {
        after.skip(di + 1)
    } else {
        after
    });
    let data = if d0.len() == 0 {
        Option::<Seq<u8>>::None
    } else {
        Some(d0)
    };
    if cmd == lit_ping() {
        match data {
            Some(token) => Ok(CommandModel::Ping { token }),
            None => Err(ParseError::MissingToken),
        }
    } else if cmd == lit_error() {
        match data {
            Some(error) => Ok(CommandModel::Error { error }),
            None => Err(ParseError::MissingMessage),
        }
    } else if cmd == lit_privmsg() {
        match pp.0 {
            None => Err(ParseError::MissingPrefix),
            Some(sender) => if middles.len() == 0 {
                Err(ParseError::MissingTarget)
            } else {
                match data {
                    None => Err(ParseError::MissingData),
                    Some(data) => Ok(CommandModel::Privmsg {
                        tags: tp.0,
                        sender,
                        target: middles[0],
                        data,
                    }),
                }
            },
        }
    } else if cmd == lit_ready() {
        match tp.0 {
            None => Err(ParseError::MissingTags),
            Some(tg) => match tag_value(tg, lit_display_name()) {
                None => Err(ParseError::MissingDisplayName),
                Some(dn) => match tag_value(tg, lit_user_id()) {
                    None => Err(ParseError::MissingUserId),
                    Some(uid) => if uid.len() > 0 && all_digits(uid) && digits_val(uid)
                        <= u64::MAX {
                        Ok(CommandModel::GlobalUserState {
                            display_name: dn,
                            user_id: digits_val(uid) as u64,
                        })
                    } else {
                        Err(ParseError::MissingUserId)
                    },
                },
            },
        }
    } else {
        Ok(CommandModel::Ignored)
    }
}

/// Decodes one wire line.  The result is exactly what `parse_line_spec`
/// assigns to the line; the raw bytes ride along unchanged.
pub fn parse_line(input: &[u8]) -> (r: Result<Line, ParseError>)
    ensures
        match r {
            Ok(l) => l.line@ == input@ && parse_line_spec(input@)
                == Ok::<CommandModel, ParseError>(l.command@),
            Err(e) => parse_line_spec(input@) == Err::<CommandModel, ParseError>(e),
        },
{
    let t = trim(input);
    let ghost tspec = trim_spec(input@);

    // tag segment
    let mut tags: Option<Vec<u8>> = None;
    let mut rest: Vec<u8> = t;
    if rest.len() > 0 && rest[0] == AT {
        let i = find_byte(rest.as_slice(), SP);
        proof {
            lemma_index_of(rest@, SP);
        }
        if i < rest.len() {
            let tg = subrange_vec(rest.as_slice(), 1, i);
            let nr = subrange_vec(rest.as_slice(), i + 1, rest.len());
            proof {
                assert(nr@ =~= rest@.skip(i + 1));
            }
            tags = Some(tg);
            rest = nr;
        }
    }
    proof {
        assert(opt_view(tags) == tags_split(tspec).0);
        assert(rest@ == tags_split(tspec).1);
    }
    let ghost r1 = tags_split(tspec).1;

    // sender prefix
    let mut prefix: Option<Vec<u8>> = None;
    if rest.len() > 0 && rest[0] == COLON {
        let u = subrange_vec(rest.as_slice(), 1, rest.len());
        proof {
            assert(u@ =~= rest@.skip(1));
        }
        let i = find_byte(u.as_slice(), SP);
        proof {
            lemma_index_of(u@, SP);
        }
        if i < u.len() {
            let head = subrange_vec(u.as_slice(), 0, i);
            let nr = subrange_vec(u.as_slice(), i + 1, u.len());
            proof {
                assert(head@ =~= u@.take(i as int));
                assert(nr@ =~= u@.skip(i + 1));
            }
            if head.len() > 0 {
                let j = find_byte(head.as_slice(), BANG);
                proof {
                    lemma_index_of(head@, BANG);
                }
                let sender = subrange_vec(head.as_slice(), 0, j);
                proof {
                    assert(sender@ =~= head@.take(j as int));
                }
                prefix = Some(sender);
            }
            rest = nr;
        }
    }
    proof {
        assert(opt_view(prefix) == prefix_split(r1).0);
        assert(rest@ == prefix_split(r1).1);
    }
    let ghost r2 = prefix_split(r1).1;

    // command word
    let ci = find_byte(rest.as_slice(), SP);
    proof {
        lemma_index_of(rest@, SP);
    }
    let cmd = subrange_vec(rest.as_slice(), 0, ci);
    let after = subrange_vec(rest.as_slice(), ci, rest.len());
    proof {
        assert(cmd@ =~= r2.take(ci as int));
        assert(after@ =~= r2.skip(ci as int));
    }

    // middle arguments and trailing data
    let di = find_byte(after.as_slice(), COLON);
    proof {
        lemma_index_of(after@, COLON);
    }
    let mut middles: Vec<Vec<u8>> = Vec::new();
    let data_region: Vec<u8>;
    if di < after.len() {
        let head = subrange_vec(after.as_slice(), 0, di);
        proof {
            assert(head@ =~= after@.take(di as int));
        }
        middles = split_whitespace(head.as_slice());
        data_region = subrange_vec(after.as_slice(), di + 1, after.len());
        proof {
            assert(data_region@ =~= after@.skip(di + 1));
        }
    } else {
        data_region = subrange_vec(after.as_slice(), 0, after.len());
        proof {
            assert(data_region@ =~= after@);
            assert(deep_view(middles@) =~= Seq::<Seq<u8>>::empty());
        }
    }
    let d0 = trim_end(data_region.as_slice());
    let data: Option<Vec<u8>> = if d0.len() == 0 {
        None
    } else {
        Some(d0)
    };

    let line = subrange_vec(input, 0, input.len());
    proof {
        assert(line@ =~= input@);
    }

    // dispatch on the command word
    if bytes_eq(cmd.as_slice(), bytes_ping().as_slice()) {
        match data {
            Some(token) => Ok(Line { line, command: Command::Ping { token } }),
            None => Err(ParseError::MissingToken),
        }
    } else if bytes_eq(cmd.as_slice(), bytes_error().as_slice()) {
        match data {
            Some(error) => Ok(Line { line, command: Command::Error { error } }),
            None => Err(ParseError::MissingMessage),
        }
    } else if bytes_eq(cmd.as_slice(), bytes_privmsg().as_slice()) {
        match prefix {
            None => Err(ParseError::MissingPrefix),
            Some(sender) => if middles.len() == 0 {
                Err(ParseError::MissingTarget)
            } else {
                match data {
                    None => Err(ParseError::MissingData),
                    Some(data) => {
                        let target = subrange_vec(middles[0].as_slice(), 0, middles[0].len());
                        proof {
                            assert(target@ =~= deep_view(middles@)[0]);
                        }
                        Ok(Line {
                            line,
                            command: Command::Privmsg { tags, sender, target, data },
                        })
                    },
                }
            },
        }
    } else if bytes_eq(cmd.as_slice(), bytes_ready().as_slice()) {
        match tags {
            None => Err(ParseError::MissingTags),
            Some(tg) => {
                let dn = tag_lookup(tg.as_slice(), bytes_display_name().as_slice());
                match dn {
                    None => Err(ParseError::MissingDisplayName),
                    Some(display_name) => {
                        let uid = tag_lookup(tg.as_slice(), bytes_user_id().as_slice());
                        match uid {
                            None => Err(ParseError::MissingUserId),
                            Some(uid) => match parse_u64(uid.as_slice()) {
                                Some(user_id) => Ok(Line {
                                    line,
                                    command: Command::GlobalUserState { display_name, user_id },
                                }),
                                None => Err(ParseError::MissingUserId),
                            },
                        }
                    },
                }
            },
        }
    } else {
        Ok(Line { line, command: Command::Ignored })
    }
}

} // verus!
