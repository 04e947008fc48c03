//! The streaming service's client-side values: the emote lookup table and
//! the OAuth credentials a client carries.  The HTTP calls that fill them
//! are made by the binary; the lookups they serve are made here.

use vstd::prelude::*;

use crate::kv::{assoc_view, lemma_assoc_domain, lemma_assoc_lookup, assoc_get};
use crate::message::pairs_view;
use crate::text::bytes_eq;
use crate::text::subrange_vec;

verus! {

/// One emote: its service id and its name.
pub struct Emote {
    pub id: Vec<u8>,
    pub name: Vec<u8>,
}

/// The pairs with name and id swapped, for the id-to-name direction.
pub open spec fn swapped(m: Seq<(Vec<u8>, Vec<u8>)>) -> Seq<(Vec<u8>, Vec<u8>)> {
    m.map_values(|e: (Vec<u8>, Vec<u8>)| (e.1, e.0))
}

/// Whether some listed name equals `q`.
pub open spec fn name_listed(r: Seq<Vec<u8>>, q: Seq<u8>) -> bool {
    exists|x: int| 0 <= x < r.len() && r[x]@ == q
}

pub proof fn lemma_name_listed_push(r: Seq<Vec<u8>>, v: Vec<u8>, q: Seq<u8>)
    requires
        name_listed(r, q),
    ensures
        name_listed(r.push(v), q),
{
    let x = choose|x: int| 0 <= x < r.len() && r[x]@ == q;
    assert(r.push(v)[x]@ == q);
}

/// The emote table: (name, id) pairs in insertion order.  In each
/// direction a later insertion shadows an earlier one.
pub struct EmoteMap {
    pub entries: Vec<(Vec<u8>, Vec<u8>)>,
}

impl EmoteMap {
    /// An empty table.
    pub fn new_empty() -> (r: EmoteMap)
        ensures
            r.entries@.len() == 0,
    {
        EmoteMap { entries: Vec::new() }
    }

    /// The table with one more emote known.
    pub fn with_emote(self, name: Vec<u8>, id: Vec<u8>) -> (r: EmoteMap)
        ensures
            r.entries@ == self.entries@.push((name, id)),
    {
        let mut m = self;
        m.entries.push((name, id));
        m
    }

    /// The table with every given (name, id) pair known, in order.
    pub fn with_emotes(self, pairs: Vec<(Vec<u8>, Vec<u8>)>) -> (r: EmoteMap)
        ensures
            pairs_view(r.entries@) == pairs_view(self.entries@) + pairs_view(pairs@),
    {
        let ghost base = pairs_view(self.entries@);
        let ghost pv = pairs_view(pairs@);
        let mut m = self;
        let mut i: usize = 0;
        proof {
            assert(pairs_view(m.entries@) =~= base + pv.take(0));
        }
        while i < pairs.len()
            invariant
                0 <= i <= pairs@.len(),
                base.len() <= pairs_view(m.entries@).len(),
                pv == pairs_view(pairs@),
                pairs_view(m.entries@) == base + pv.take(i as int),
            decreases pairs@.len() - i,
        {
            let name = subrange_vec(pairs[i].0.as_slice(), 0, pairs[i].0.len());
            let id = subrange_vec(pairs[i].1.as_slice(), 0, pairs[i].1.len());
            proof {
                assert(name@ =~= pairs@[i as int].0@);
                assert(id@ =~= pairs@[i as int].1@);
                assert(pv[i as int] == (pairs@[i as int].0@, pairs@[i as int].1@));
            }
            let ghost before = m.entries@;
            m.entries.push((name, id));
            proof {
                assert(m.entries@.drop_last() =~= before);
                assert(pairs_view(m.entries@) =~= pairs_view(before).push((name@, id@)));
                assert(pv.take(i + 1) =~= pv.take(i as int).push(pv[i as int]));
                assert(pairs_view(m.entries@) =~= base + pv.take(i + 1));
            }
            i = i + 1;
        }
        proof {
            assert(pv.take(i as int) =~= pv);
        }
        m
    }

    /// The id known for `name`, the latest insertion winning.
    pub fn get_id<'a>(&'a self, name: &[u8]) -> (r: Option<&'a Vec<u8>>)
        ensures
            match r {
                Some(v) => assoc_view(self.entries@).contains_key(name@) && assoc_view(
                    self.entries@,
                )[name@] == v@,
                None => !assoc_view(self.entries@).contains_key(name@),
            },
    {
        assoc_get(&self.entries, name)
    }

    /// The name known for `id`, the latest insertion winning.
    pub fn get_name<'a>(&'a self, id: &[u8]) -> (r: Option<&'a Vec<u8>>)
        ensures
            match r {
                Some(v) => assoc_view(swapped(self.entries@)).contains_key(id@) && assoc_view(
                    swapped(self.entries@),
                )[id@] == v@,
                None => !assoc_view(swapped(self.entries@)).contains_key(id@),
            },
    {
        let ghost sw = swapped(self.entries@);
        let mut i: usize = self.entries.len();
        while i > 0
            invariant
                0 <= i <= self.entries@.len(),
                sw == swapped(self.entries@),
                forall|j: int| i <= j < sw.len() ==> sw[j].0@ != id@,
            decreases i,
        {
            i = i - 1;
            proof {
                assert(sw[i as int] == (self.entries@[i as int].1, self.entries@[i as int].0));
            }
            if bytes_eq(self.entries[i].1.as_slice(), id) {
                proof {
                    lemma_assoc_lookup(sw, id@, i as int);
                }
                return Some(&self.entries[i].0);
            }
        }
        proof {
            crate::kv::lemma_assoc_absent(sw, id@);
        }
        None
    }

    /// Whether any emote is known under `name`.
    pub fn has(&self, name: &[u8]) -> (r: bool)
        ensures
            r == assoc_view(self.entries@).contains_key(name@),
    {
        self.get_id(name).is_some()
    }

    /// The distinct known names, each once, in first-appearance order.
    pub fn names(&self) -> (r: Vec<Vec<u8>>)
        ensures
            forall|x: int| 0 <= x < r@.len() ==> assoc_view(self.entries@).contains_key(r@[x]@),
            forall|j: int|
                0 <= j < self.entries@.len() ==> name_listed(r@, #[trigger] self.entries@[j].0@),
            forall|a: int, b: int| 0 <= a < b < r@.len() ==> r@[a]@ != r@[b]@,
    {
        let mut out: Vec<Vec<u8>> = Vec::new();
        let mut i: usize = 0;
        while i < self.entries.len()
            invariant
                0 <= i <= self.entries@.len(),
                forall|x: int|
                    0 <= x < out@.len() ==> exists|j: int|
                        0 <= j < i && #[trigger] self.entries@[j].0@ == #[trigger] out@[x]@,
                forall|j: int|
                    0 <= j < i ==> name_listed(out@, #[trigger] self.entries@[j].0@),
                forall|a: int, b: int| 0 <= a < b < out@.len() ==> out@[a]@ != out@[b]@,
            decreases self.entries@.len() - i,
        {
            let name = &self.entries[i].0;
            let mut seen = false;
            let mut j: usize = 0;
            while j < out.len()
                invariant
                    0 <= j <= out@.len(),
                    i < self.entries@.len(),
                    name@ == self.entries@[i as int].0@,
                    seen == exists|x: int| 0 <= x < j && out@[x]@ == self.entries@[i as int].0@,
                decreases out@.len() - j,
            {
                if bytes_eq(out[j].as_slice(), name.as_slice()) {
                    seen = true;
                }
                j = j + 1;
            }
            if !seen {
                let ghost old_out = out@;
                out.push(subrange_vec(name.as_slice(), 0, name.len()));
                proof {
                    assert(out@.last()@ =~= self.entries@[i as int].0@);
                    assert(out@.drop_last() =~= old_out);
                    assert forall|j2: int|
                        0 <= j2 < i + 1 implies name_listed(
                        out@,
                        #[trigger] self.entries@[j2].0@,
                    ) by {
                        if j2 < i {
                            lemma_name_listed_push(old_out, out@.last(), self.entries@[j2].0@);
                            assert(old_out.push(out@.last()) =~= out@);
                        } else {
                            assert(out@[out@.len() - 1]@ == self.entries@[j2].0@);
                        }
                    }
                }
            } else {
                proof {
                    assert forall|j2: int|
                        0 <= j2 < i + 1 implies name_listed(
                        out@,
                        #[trigger] self.entries@[j2].0@,
                    ) by {
                        if j2 == i {
                            let x = choose|x: int|
                                0 <= x < out@.len() && out@[x]@ == self.entries@[i as int].0@;
                            assert(out@[x]@ == self.entries@[j2].0@);
                        }
                    }
                }
            }
            i = i + 1;
        }
        proof {
            assert(i == self.entries@.len());
            assert forall|x: int|
                0 <= x < out@.len() implies assoc_view(self.entries@).contains_key(
                out@[x]@,
            ) by {
                lemma_assoc_domain(self.entries@, out@[x]@);
            }
        }
        out
    }
}

/// The OAuth credentials a client carries: what the token grant returned,
/// plus the client id and the derived bearer header value.
pub struct OAuth {
    pub access_token: Vec<u8>,
    pub refresh_token: Option<Vec<u8>>,
    pub expires_in: u64,
    pub token_type: Vec<u8>,
    pub client_id: Vec<u8>,
    pub bearer_token: Vec<u8>,
}

impl OAuth {
    /// Credentials known directly, with nothing granted yet.
    pub fn with_client_credentials(client_id: Vec<u8>, bearer_token: Vec<u8>) -> (r: OAuth)
        ensures
            r.client_id@ == client_id@,
            r.bearer_token@ == bearer_token@,
            r.access_token@.len() == 0,
            r.refresh_token is None,
            r.expires_in == 0,
            r.token_type@.len() == 0,
    {
        OAuth {
            access_token: Vec::new(),
            refresh_token: None,
            expires_in: 0,
            token_type: Vec::new(),
            client_id,
            bearer_token,
        }
    }

    /// The client id header value.
    pub fn get_client_id(&self) -> (r: &Vec<u8>)
        ensures
            r@ == self.client_id@,
    {
        &self.client_id
    }

    /// The authorization header value.
    pub fn get_bearer_token(&self) -> (r: &Vec<u8>)
        ensures
            r@ == self.bearer_token@,
    {
        &self.bearer_token
    }
}

} // verus!
