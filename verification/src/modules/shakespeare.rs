//! The generative chatter module's decisions: spotting a mention of the
//! bot's name, and the cooldown gate.  The text generation itself is a
//! network call made by the binary.

use vstd::prelude::*;

use crate::text::{deep_view, split_whitespace, split_ws};

verus! {

/// Whether the bot-name pattern matches a token: an optional `@`, one of
/// the bot's names, optionally followed by its punctuation tail.
pub uninterp spec fn mention_match(s: Seq<u8>) -> bool;

/// Relies on regex::bytes::Regex::new and Regex::is_match: whether the
/// fixed bot-name pattern matches depends on the token alone.  The
/// pattern is a valid literal, so compiling it cannot fail.
#[verifier::external_body]
fn mention_pattern_matches(token: &[u8]) -> (r: bool)
    ensures
        r == mention_match(token@),
{
    match regex::bytes::Regex::new("^@?(?:shaken(?:_bot)?|shakey)(?:,.?!:)?") {
        Ok(re) => re.is_match(token),
        Err(_) => false,
    }
}

/// Whether any whitespace-delimited token of the message mentions the
/// bot's name.
pub fn try_mention(data: &[u8]) -> (r: bool)
    ensures
        r == exists|i: int|
            0 <= i < split_ws(data@).len() && mention_match(#[trigger] split_ws(data@)[i]),
{
    let toks = split_whitespace(data);
    let ghost tv = deep_view(toks@);
    let mut i: usize = 0;
    while i < toks.len()
        invariant
            0 <= i <= toks@.len(),
            tv == split_ws(data@),
            tv == deep_view(toks@),
            forall|j: int| 0 <= j < i ==> !mention_match(#[trigger] tv[j]),
        decreases toks@.len() - i,
    {
        proof {
            assert(tv[i as int] == toks@[i as int]@);
        }
        if mention_pattern_matches(toks[i].as_slice()) {
            return true;
        }
        i = i + 1;
    }
    false
}

/// The unprompted-chatter gate: the module must be enabled, the chance
/// roll must not skip, and either the bot has never spoken or the
/// cooldown has passed since it last did.
pub fn should_respond(enabled: bool, roll_skips: bool, elapsed: Option<u64>, cooldown: u64) -> (r:
    bool)
    ensures
        r == (enabled && !roll_skips && (elapsed is None || (elapsed matches Some(e) && e
            >= cooldown))),
{
    if !enabled {
        return false;
    }
    if roll_skips {
        return false;
    }
    match elapsed {
        None => true,
        Some(e) => e >= cooldown,
    }
}

} // verus!
