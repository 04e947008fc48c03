//! The connection's pure half: classifying I/O failures, formatting
//! outbound lines, and deciding what one decoded wire line asks the event
//! loop to do.  The loop itself — sockets, buffers, timers — lives with
//! the binary; every decision it takes is made here.

use vstd::prelude::*;

use crate::codec::{parse_line, parse_line_spec, Command, CommandModel, ParseError};
use crate::message::{derive_priv, Message};
use crate::reply::ReplyKind;
use crate::text::{deep_view, split_byte, split_on, subrange_vec};

verus! {

/// Line feed, the outbound line separator.
pub const LF: u8 = 10;

/// Carriage return.
pub const CR: u8 = 13;

/// `PONG `
pub open spec fn lit_pong_sp() -> Seq<u8> {
    seq![80u8, 79u8, 78u8, 71u8, 32u8]
}

/// Writes `PONG ` as bytes.
pub fn bytes_pong_sp() -> (r: Vec<u8>)
    ensures
        r@ == lit_pong_sp(),
{
    let mut v: Vec<u8> = Vec::new();
    v.push(80);
    v.push(79);
    v.push(78);
    v.push(71);
    v.push(32);
    proof {
        assert(v@ =~= lit_pong_sp());
    }
    v
}

/// `JOIN `
pub open spec fn lit_join_sp() -> Seq<u8> {
    seq![74u8, 79u8, 73u8, 78u8, 32u8]
}

/// Writes `JOIN ` as bytes.
pub fn bytes_join_sp() -> (r: Vec<u8>)
    ensures
        r@ == lit_join_sp(),
{
    let mut v: Vec<u8> = Vec::new();
    v.push(74);
    v.push(79);
    v.push(73);
    v.push(78);
    v.push(32);
    proof {
        assert(v@ =~= lit_join_sp());
    }
    v
}

/// `PRIVMSG `
pub open spec fn lit_privmsg_sp() -> Seq<u8> {
    seq![80u8, 82u8, 73u8, 86u8, 77u8, 83u8, 71u8, 32u8]
}

/// Writes `PRIVMSG ` as bytes.
pub fn bytes_privmsg_sp() -> (r: Vec<u8>)
    ensures
        r@ == lit_privmsg_sp(),
{
    let mut v: Vec<u8> = Vec::new();
    v.push(80);
    v.push(82);
    v.push(73);
    v.push(86);
    v.push(77);
    v.push(83);
    v.push(71);
    v.push(32);
    proof {
        assert(v@ =~= lit_privmsg_sp());
    }
    v
}

/// ` :`
pub open spec fn lit_sp_colon() -> Seq<u8> {
    seq![32u8, 58u8]
}

/// Writes ` :` as bytes.
pub fn bytes_sp_colon() -> (r: Vec<u8>)
    ensures
        r@ == lit_sp_colon(),
{
    let mut v: Vec<u8> = Vec::new();
    v.push(32);
    v.push(58);
    proof {
        assert(v@ =~= lit_sp_colon());
    }
    v
}

/// `: `
pub open spec fn lit_colon_sp() -> Seq<u8> {
    seq![58u8, 32u8]
}

/// Writes `: ` as bytes.
pub fn bytes_colon_sp() -> (r: Vec<u8>)
    ensures
        r@ == lit_colon_sp(),
{
    let mut v: Vec<u8> = Vec::new();
    v.push(58);
    v.push(32);
    proof {
        assert(v@ =~= lit_colon_sp());
    }
    v
}

/// `\r\n`
pub open spec fn lit_crlf() -> Seq<u8> {
    seq![13u8, 10u8]
}

/// Writes `\r\n` as bytes.
pub fn bytes_crlf() -> (r: Vec<u8>)
    ensures
        r@ == lit_crlf(),
{
    let mut v: Vec<u8> = Vec::new();
    v.push(13);
    v.push(10);
    proof {
        assert(v@ =~= lit_crlf());
    }
    v
}

/// The shape of an I/O failure, as the caller needs it.
#[derive(Clone, Copy, Debug, PartialEq, Eq, Structural)]
pub enum ErrKind {
    UnexpectedEof,
    ConnectionRefused,
    ConnectionReset,
    ConnectionAborted,
    TimedOut,
    Other,
}

/// What an I/O failure means for the session.
#[derive(Clone, Copy, Debug, PartialEq, Eq, Structural)]
pub enum IoClass {
    /// The stream ended: recoverable, reconnect after the backoff.
    Eof,
    /// The connection was refused, reset or aborted: recoverable.
    Connection,
    /// The peer timed out: recoverable.
    Timeout,
    /// Anything else: fatal to the process.
    Other,
}

/// Classifies an I/O failure: end-of-stream, torn connections and
/// timeouts are recoverable, anything else is fatal.
pub fn map_io_err(kind: ErrKind) -> (r: IoClass)
    ensures
        r == match kind {
            ErrKind::UnexpectedEof => IoClass::Eof,
            ErrKind::ConnectionRefused => IoClass::Connection,
            ErrKind::ConnectionReset => IoClass::Connection,
            ErrKind::ConnectionAborted => IoClass::Connection,
            ErrKind::TimedOut => IoClass::Timeout,
            ErrKind::Other => IoClass::Other,
        },
{
    match kind {
        ErrKind::UnexpectedEof => IoClass::Eof,
        ErrKind::ConnectionRefused => IoClass::Connection,
        ErrKind::ConnectionReset => IoClass::Connection,
        ErrKind::ConnectionAborted => IoClass::Connection,
        ErrKind::TimedOut => IoClass::Timeout,
        ErrKind::Other => IoClass::Other,
    }
}

/// Whether the session may be rebuilt after this failure.
pub fn is_recoverable(c: IoClass) -> (r: bool)
    ensures
        r == (c != IoClass::Other),
{
    !matches!(c, IoClass::Other)
}

/// One of two sources, whichever was ready first.
pub enum Either<L, R> {
    Left(L),
    Right(R),
}

/// Who the connection is, once the server has signalled readiness.
pub struct Identity {
    pub display_name: Vec<u8>,
    pub user_id: u64,
}

/// `PONG <token>\r\n`
pub open spec fn pong_line_spec(token: Seq<u8>) -> Seq<u8> {
    lit_pong_sp() + token + lit_crlf()
}

/// Writes the reply to a server ping.
pub fn pong_line(token: &[u8]) -> (r: Vec<u8>)
    ensures
        r@ == pong_line_spec(token@),
{
    let mut v = bytes_pong_sp();
    crate::text::append_slice(&mut v, token);
    let crlf = bytes_crlf();
    crate::text::append_vec(&mut v, &crlf);
    v
}

/// `JOIN <channel>\r\n`
pub open spec fn join_line_spec(channel: Seq<u8>) -> Seq<u8> {
    lit_join_sp() + channel + lit_crlf()
}

/// Writes the line that joins a channel.
pub fn join_line(channel: &[u8]) -> (r: Vec<u8>)
    ensures
        r@ == join_line_spec(channel@),
{
    let mut v = bytes_join_sp();
    crate::text::append_slice(&mut v, channel);
    let crlf = bytes_crlf();
    crate::text::append_vec(&mut v, &crlf);
    v
}

/// A piece with a trailing carriage return loses it.
pub open spec fn strip_cr(p: Seq<u8>) -> Seq<u8> {
    if p.len() > 0 && p.last() == CR {
        p.drop_last()
    } else {
        p
    }
}

/// The lines of rendered text: split on line feeds, a carriage return
/// before each feed dropped, and a final empty piece ignored.
pub open spec fn lines_of(s: Seq<u8>) -> Seq<Seq<u8>> {
    if s.len() == 0 {
        seq![]
    } else {
        let ps = split_on(s, LF);
        let ps2 = if ps.last().len() == 0 {
            ps.drop_last()
        } else {
            ps
        };
        ps2.map_values(|p: Seq<u8>| strip_cr(p))
    }
}

/// Splitting always yields at least one piece.
pub proof fn lemma_split_on_len(s: Seq<u8>, b: u8, cur: Seq<u8>)
    ensures
        crate::text::split_on_acc(s, b, cur).len() >= 1,
    decreases s.len(),
{
    if s.len() > 0 {
        if s[0] == b {
            lemma_split_on_len(s.drop_first(), b, seq![]);
        } else {
            lemma_split_on_len(s.drop_first(), b, cur.push(s[0]));
        }
    }
}

/// The wire prefix of one outbound reply line: a broadcast goes bare,
/// an addressed or problem reply names the sender.
pub open spec fn reply_prefix(kind: ReplyKind, target: Seq<u8>, sender: Seq<u8>) -> Seq<u8> {
    if kind == ReplyKind::Say {
        lit_privmsg_sp() + target + lit_sp_colon()
    } else {
        lit_privmsg_sp() + target + lit_sp_colon() + sender + lit_colon_sp()
    }
}

/// The outbound wire lines one rendered reply produces, one per line of
/// the rendered text.
pub open spec fn response_lines_spec(
    kind: ReplyKind,
    target: Seq<u8>,
    sender: Seq<u8>,
    text: Seq<u8>,
) -> Seq<Seq<u8>> {
    lines_of(text).map_values(|l: Seq<u8>| reply_prefix(kind, target, sender) + l + lit_crlf())
}

/// Formats a rendered reply for the wire, one push per output line.
pub fn format_response_lines(kind: ReplyKind, target: &[u8], sender: &[u8], text: &[u8]) -> (r:
    Vec<Vec<u8>>)
    ensures
        deep_view(r@) == response_lines_spec(kind, target@, sender@, text@),
{
    let ghost want = response_lines_spec(kind, target@, sender@, text@);
    let mut prefix = bytes_privmsg_sp();
    crate::text::append_slice(&mut prefix, target);
    let sc = bytes_sp_colon();
    crate::text::append_vec(&mut prefix, &sc);
    if !matches!(kind, ReplyKind::Say) {
        crate::text::append_slice(&mut prefix, sender);
        let cs = bytes_colon_sp();
        crate::text::append_vec(&mut prefix, &cs);
    }
    proof {
        assert(prefix@ == reply_prefix(kind, target@, sender@));
    }
    let mut out: Vec<Vec<u8>> = Vec::new();
    if text.len() == 0 {
        proof {
            assert(deep_view(out@) =~= want);
        }
        return out;
    }
    let mut pieces = split_byte(text, LF);
    let ghost ps = split_on(text@, LF);
    proof {
        lemma_split_on_len(text@, LF, seq![]);
        assert(pieces@.last()@ == deep_view(pieces@).last());
    }
    if pieces[pieces.len() - 1].len() == 0 {
        pieces.pop();
        proof {
            assert(deep_view(pieces@) =~= ps.drop_last());
        }
    }
    let ghost ps2v = deep_view(pieces@);
    proof {
        assert(lines_of(text@) =~= ps2v.map_values(|l: Seq<u8>| strip_cr(l)));
        assert(want.len() == ps2v.len());
        assert forall|k: int| 0 <= k < want.len() implies want[k] == prefix@ + strip_cr(
            ps2v[k],
        ) + lit_crlf() by {
            assert(lines_of(text@)[k] == strip_cr(ps2v[k]));
        }
    }
    let mut i: usize = 0;
    proof {
        assert(deep_view(out@) =~= want.take(0));
    }
    while i < pieces.len()
        invariant
            0 <= i <= pieces@.len(),
            ps2v == deep_view(pieces@),
            want.len() == ps2v.len(),
            prefix@ == reply_prefix(kind, target@, sender@),
            forall|k: int| 0 <= k < want.len() ==> want[k] == prefix@ + strip_cr(ps2v[k])
                + lit_crlf(),
            deep_view(out@) == want.take(i as int),
        decreases pieces@.len() - i,
    {
        proof {
            assert(ps2v[i as int] == pieces@[i as int]@);
        }
        let piece = &pieces[i];
        let stripped = if piece.len() > 0 && piece[piece.len() - 1] == CR {
            subrange_vec(piece.as_slice(), 0, piece.len() - 1)
        } else {
            subrange_vec(piece.as_slice(), 0, piece.len())
        };
        proof {
            if piece@.len() > 0 && piece@.last() == CR {
                assert(stripped@ =~= strip_cr(ps2v[i as int]));
            } else {
                assert(stripped@ =~= piece@);
            }
        }
        let mut line = subrange_vec(prefix.as_slice(), 0, prefix.len());
        proof {
            assert(line@ =~= prefix@);
        }
        crate::text::append_vec(&mut line, &stripped);
        let crlf = bytes_crlf();
        crate::text::append_vec(&mut line, &crlf);
        let ghost old_out = out@;
        out.push(line);
        proof {
            assert(out@.drop_last() =~= old_out);
            assert(deep_view(out@) =~= deep_view(old_out).push(out@.last()@));
            assert(out@.last()@ == want[i as int]);
            assert(want.take(i + 1) =~= want.take(i as int).push(want[i as int]));
            assert(deep_view(out@) =~= want.take(i + 1));
        }
        i = i + 1;
    }
    proof {
        assert(want.take(i as int) =~= want);
    }
    out
}

/// What one decoded wire line asks the event loop to do.
pub enum Step {
    /// Answer the server's ping at once with this line.
    Pong(Vec<u8>),
    /// The server reported a protocol error: abort the connection.
    Fatal(Vec<u8>),
    /// The server signalled readiness as this identity.
    Ready(Identity),
    /// Hand this message to every bound handler.
    Deliver(Message),
    /// Nothing to do for this line.
    Quiet,
}

/// Decides what one wire line asks of the event loop: a ping is answered
/// inline, a server error aborts, a chat message becomes a `Message`
/// under the given id and capture time, the readiness command yields the
/// identity, and anything else is quiet.  A line that does not parse is
/// fatal to the connection.
pub fn run_step(line: &[u8], id: u64, timestamp: u64) -> (r: Result<Step, ParseError>)
    ensures
        match r {
            Err(e) => parse_line_spec(line@) == Err::<CommandModel, ParseError>(e),
            Ok(step) => parse_line_spec(line@) matches Ok(cm) && match cm {
                CommandModel::Ping { token } => step matches Step::Pong(out) && out@
                    == pong_line_spec(token),
                CommandModel::Error { error } => step matches Step::Fatal(t) && t@ == error,
                CommandModel::GlobalUserState { display_name, user_id } => step matches
                    Step::Ready(ident) && ident.display_name@ == display_name && ident.user_id
                    == user_id,
                CommandModel::Privmsg { tags, sender, target, data } => step matches
                    Step::Deliver(m) && m.id == id && m.timestamp == timestamp && m.sender@
                    == sender && m.target@ == target && m.data@ == data && m.privilege
                    == derive_priv(tags),
                CommandModel::Ignored => step is Quiet,
            },
        },
{
    let parsed = match parse_line(line) {
        Ok(l) => l,
        Err(e) => {
            return Err(e);
        },
    };
    match parsed.command {
        Command::Ping { token } => Ok(Step::Pong(pong_line(token.as_slice()))),
        Command::Error { error } => Ok(Step::Fatal(error)),
        Command::GlobalUserState { display_name, user_id } => Ok(
            Step::Ready(Identity { display_name, user_id }),
        ),
        Command::Privmsg { tags, sender, target, data } => Ok(
            Step::Deliver(Message::twitch(id, timestamp, tags, sender, target, data)),
        ),
        Command::Ignored => Ok(Step::Quiet),
    }
}

} // verus!
