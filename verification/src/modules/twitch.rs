//! The stream-status module's presentation: uptime and viewer replies
//! for a channel, or the not-streaming reply.  The status query itself is
//! made by the binary.

use vstd::prelude::*;

use crate::fmt::{format_seconds, format_seconds_spec};
use crate::text::subrange_vec;

verus! {

/// `#`
pub const HASH: u8 = 35;

/// One live stream as the status query reports it, the start time
/// already turned into seconds.
pub struct Stream {
    pub id: u64,
    pub user_id: u64,
    pub user_name: Vec<u8>,
    pub game_id: u64,
    pub title: Vec<u8>,
    pub viewer_count: u64,
    pub started_at: u64,
}

/// What the status commands answer.
pub enum TwitchReply {
    /// How long the channel has been live.
    Uptime { name: Vec<u8>, uptime: Vec<u8> },
    /// How many watch the channel now.
    Viewers { name: Vec<u8>, viewers: u64 },
    /// The channel is not live.
    NotStreaming { channel: Vec<u8> },
}

/// The channel a status command asks about: the explicit argument or the
/// message's target, a leading `#` dropped.
pub open spec fn channel_spec(arg: Option<Vec<u8>>, target: Seq<u8>) -> Seq<u8> {
    let c = match arg {
        Some(v) => v@,
        None => target,
    };
    if c.len() > 0 && c[0] == HASH {
        c.skip(1)
    } else {
        c
    }
}

/// Reads the asked-about channel from the argument or the target.
pub fn channel_of(arg: Option<&Vec<u8>>, target: &[u8]) -> (r: Vec<u8>)
    ensures
        r@ == channel_spec(
            match arg {
                Some(v) => Some(*v),
                None => None,
            },
            target@,
        ),
{
    let c: Vec<u8> = match arg {
        Some(v) => subrange_vec(v.as_slice(), 0, v.len()),
        None => subrange_vec(target, 0, target.len()),
    };
    proof {
        assert(c@ =~= match arg {
            Some(v) => v@,
            None => target@,
        });
    }
    if c.len() > 0 && c[0] == HASH {
        let r = subrange_vec(c.as_slice(), 1, c.len());
        proof {
            assert(r@ =~= c@.skip(1));
        }
        r
    } else {
        c
    }
}

/// The uptime reply: how long the stream has run, in words, or the
/// not-streaming reply when the channel is not live.
pub fn uptime_reply(channel: &[u8], stream: Option<&Stream>, now: u64) -> (r: TwitchReply)
    ensures
        match stream {
            Some(s) => now >= s.started_at ==> (r matches TwitchReply::Uptime {
                name,
                uptime,
            } && name@ == s.user_name@ && uptime@ == format_seconds_spec(
                (now - s.started_at) as u64,
            )),
            None => r matches TwitchReply::NotStreaming { channel: c } && c@ == channel@,
        },
{
    match stream {
        Some(s) => {
            let elapsed: u64 = if now >= s.started_at {
                now - s.started_at
            } else {
                0
            };
            TwitchReply::Uptime {
                name: subrange_vec(s.user_name.as_slice(), 0, s.user_name.len()),
                uptime: format_seconds(elapsed),
            }
        },
        None => TwitchReply::NotStreaming { channel: subrange_vec(channel, 0, channel.len()) },
    }
}

/// The viewers reply, or the not-streaming reply when the channel is not
/// live.
pub fn viewers_reply(channel: &[u8], stream: Option<&Stream>) -> (r: TwitchReply)
    ensures
        match stream {
            Some(s) => r matches TwitchReply::Viewers { name, viewers } && name@
                == s.user_name@ && viewers == s.viewer_count,
            None => r matches TwitchReply::NotStreaming { channel: c } && c@ == channel@,
        },
{
    match stream {
        Some(s) => TwitchReply::Viewers {
            name: subrange_vec(s.user_name.as_slice(), 0, s.user_name.len()),
            viewers: s.viewer_count,
        },
        None => TwitchReply::NotStreaming { channel: subrange_vec(channel, 0, channel.len()) },
    }
}

} // verus!
