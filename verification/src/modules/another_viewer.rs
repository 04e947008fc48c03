//! The emote-echo module's decision: when a message holds known emotes,
//! echo one of them back, chosen by chance.

use vstd::prelude::*;

use crate::helix::EmoteMap;
use crate::kv::assoc_view;
use crate::text::{deep_view, split_whitespace, split_ws, subrange_vec};

verus! {

/// Picks one known emote out of the message's tokens, if any token is a
/// known emote name.
pub fn try_kappa(emotes: &EmoteMap, data: &[u8]) -> (r: Option<Vec<u8>>)
    ensures
        match r {
            Some(t) => (exists|i: int|
                0 <= i < split_ws(data@).len() && #[trigger] split_ws(data@)[i] == t@)
                && assoc_view(emotes.entries@).contains_key(t@),
            None => forall|i: int|
                0 <= i < split_ws(data@).len() ==> !assoc_view(emotes.entries@).contains_key(
                    #[trigger] split_ws(data@)[i],
                ),
        },
{
    let toks = split_whitespace(data);
    let ghost tv = deep_view(toks@);
    let mut matching: Vec<Vec<u8>> = Vec::new();
    let mut i: usize = 0;
    while i < toks.len()
        invariant
            0 <= i <= toks@.len(),
            tv == split_ws(data@),
            tv == deep_view(toks@),
            forall|x: int|
                0 <= x < matching@.len() ==> (exists|j: int|
                    0 <= j < i && #[trigger] tv[j] == #[trigger] matching@[x]@)
                    && assoc_view(emotes.entries@).contains_key(matching@[x]@),
            matching@.len() == 0 ==> forall|j: int|
                0 <= j < i ==> !assoc_view(emotes.entries@).contains_key(#[trigger] tv[j]),
        decreases toks@.len() - i,
    {
        proof {
            assert(tv[i as int] == toks@[i as int]@);
        }
        let tok = &toks[i];
        if emotes.has(tok.as_slice()) {
            let ghost old_matching = matching@;
            matching.push(subrange_vec(tok.as_slice(), 0, tok.len()));
            proof {
                assert(matching@.last()@ =~= tv[i as int]);
                assert forall|x: int|
                    0 <= x < matching@.len() implies (exists|j: int|
                    0 <= j < i + 1 && #[trigger] tv[j] == #[trigger] matching@[x]@)
                    && assoc_view(emotes.entries@).contains_key(matching@[x]@) by {
                    if x < matching@.len() - 1 {
                        assert(matching@[x] == old_matching[x]);
                    } else {
                        assert(tv[i as int] == matching@[x]@);
                    }
                }
            }
        }
        i = i + 1;
    }
    if matching.len() == 0 {
        return None;
    }
    let pick = crate::rng::pick_index(matching.len());
    let t = &matching[pick];
    let r = subrange_vec(t.as_slice(), 0, t.len());
    proof {
        assert(r@ =~= matching@[pick as int]@);
    }
    Some(r)
}

} // verus!
