//! The dispatch-side message value: who sent what where, with the
//! privilege tag derived from the badges tag entries, and the reply
//! constructors handlers use.

use vstd::prelude::*;

use crate::codec::{EQ, SEMI};
use crate::reply::Reply;
use crate::response::Response;
use crate::system::{
    lit_requires_admin, lit_requires_permission, lit_system, requires_admin_response,
    requires_permission_response,
};
use crate::text::{deep_view, find_byte, index_of, lemma_index_of, split_byte, split_on, subrange_vec};
use crate::text::bytes_eq;

verus! {

/// `/`
pub const SLASH: u8 = 47;

/// `,`
pub const COMMA: u8 = 44;

/// `badges`
pub open spec fn lit_badges() -> Seq<u8> {
    seq![98u8, 97u8, 100u8, 103u8, 101u8, 115u8]
}

/// Writes `badges` as bytes.
pub fn bytes_badges() -> (r: Vec<u8>)
    ensures
        r@ == lit_badges(),
{
    let mut v: Vec<u8> = Vec::new();
    v.push(98);
    v.push(97);
    v.push(100);
    v.push(103);
    v.push(101);
    v.push(115);
    proof {
        assert(v@ =~= lit_badges());
    }
    v
}

/// `broadcaster`
pub open spec fn lit_broadcaster() -> Seq<u8> {
    seq![98u8, 114u8, 111u8, 97u8, 100u8, 99u8, 97u8, 115u8, 116u8, 101u8, 114u8]
}

/// Writes `broadcaster` as bytes.
pub fn bytes_broadcaster() -> (r: Vec<u8>)
    ensures
        r@ == lit_broadcaster(),
{
    let mut v: Vec<u8> = Vec::new();
    v.push(98);
    v.push(114);
    v.push(111);
    v.push(97);
    v.push(100);
    v.push(99);
    v.push(97);
    v.push(115);
    v.push(116);
    v.push(101);
    v.push(114);
    proof {
        assert(v@ =~= lit_broadcaster());
    }
    v
}

/// `moderator`
pub open spec fn lit_moderator() -> Seq<u8> {
    seq![109u8, 111u8, 100u8, 101u8, 114u8, 97u8, 116u8, 111u8, 114u8]
}

/// Writes `moderator` as bytes.
pub fn bytes_moderator() -> (r: Vec<u8>)
    ensures
        r@ == lit_moderator(),
{
    let mut v: Vec<u8> = Vec::new();
    v.push(109);
    v.push(111);
    v.push(100);
    v.push(101);
    v.push(114);
    v.push(97);
    v.push(116);
    v.push(111);
    v.push(114);
    proof {
        assert(v@ =~= lit_moderator());
    }
    v
}

/// What the sender's badges allow.
#[derive(Clone, Copy, Debug, PartialEq, Eq, Structural)]
pub enum SenderPriv {
    Broadcaster,
    Moderator,
    Viewer,
}

/// The view of a vector of byte-string pairs.
pub open spec fn pairs_view(m: Seq<(Vec<u8>, Vec<u8>)>) -> Seq<(Seq<u8>, Seq<u8>)> {
    m.map_values(|e: (Vec<u8>, Vec<u8>)| (e.0@, e.1@))
}

/// The name/version pairs one badges value holds: items split on `,`,
/// those with a `/` split at its first occurrence.
pub open spec fn pairs_of_items(items: Seq<Seq<u8>>) -> Seq<(Seq<u8>, Seq<u8>)>
    decreases items.len(),
{
    if items.len() == 0 {
        seq![]
    } else {
        let it = items.first();
        let p = index_of(it, SLASH);
        let rest = pairs_of_items(items.drop_first());
        if p < it.len() {
            seq![(it.take(p), it.skip(p + 1))] + rest
        } else {
            rest
        }
    }
}

/// The badge pairs the tag segments yield, in order: every segment whose
/// key is exactly `badges` contributes the pairs of its value.
pub open spec fn badge_pairs_of_segs(segs: Seq<Seq<u8>>) -> Seq<(Seq<u8>, Seq<u8>)>
    decreases segs.len(),
{
    if segs.len() == 0 {
        seq![]
    } else {
        let seg = segs.first();
        let j = index_of(seg, EQ);
        let rest = badge_pairs_of_segs(segs.drop_first());
        if j < seg.len() && seg.take(j) == lit_badges() {
            pairs_of_items(split_on(seg.skip(j + 1), COMMA)) + rest
        } else {
            rest
        }
    }
}

/// The badge pairs of a whole tag string.
pub open spec fn badge_pairs(tags: Seq<u8>) -> Seq<(Seq<u8>, Seq<u8>)> {
    badge_pairs_of_segs(split_on(tags, SEMI))
}

/// The first badge pair that is `broadcaster/1` or `moderator/1` decides
/// the privilege; with none, the sender is an ordinary viewer.
pub open spec fn priv_of_pairs(ps: Seq<(Seq<u8>, Seq<u8>)>) -> SenderPriv
    decreases ps.len(),
{
    if ps.len() == 0 {
        SenderPriv::Viewer
    } else {
        let p = ps.first();
        if p.0 == lit_broadcaster() && p.1 == seq![49u8] {
            SenderPriv::Broadcaster
        } else if p.0 == lit_moderator() && p.1 == seq![49u8] {
            SenderPriv::Moderator
        } else {
            priv_of_pairs(ps.drop_first())
        }
    }
}

/// The privilege an optional tag string grants.
pub open spec fn derive_priv(tags: Option<Seq<u8>>) -> SenderPriv {
    match tags {
        Some(t) => priv_of_pairs(badge_pairs(t)),
        None => SenderPriv::Viewer,
    }
}

/// The badge name/version pairs of a tag string, in order.
pub fn badges_iter(tags: &[u8]) -> (r: Vec<(Vec<u8>, Vec<u8>)>)
    ensures
        pairs_view(r@) == badge_pairs(tags@),
{
    let segs = split_byte(tags, SEMI);
    let ghost sv = deep_view(segs@);
    let mut out: Vec<(Vec<u8>, Vec<u8>)> = Vec::new();
    let mut i: usize = 0;
    proof {
        assert(sv.skip(0) =~= sv);
        assert(pairs_view(out@) + badge_pairs_of_segs(sv) =~= badge_pairs_of_segs(sv));
    }
    while i < segs.len()
        invariant
            0 <= i <= segs@.len(),
            sv == deep_view(segs@),
            badge_pairs(tags@) == pairs_view(out@) + badge_pairs_of_segs(sv.skip(i as int)),
        decreases segs@.len() - i,
    {
        proof {
            assert(sv.skip(i as int).drop_first() =~= sv.skip(i + 1));
            assert(sv.skip(i as int).first() == sv[i as int]);
            assert(sv[i as int] == segs@[i as int]@);
        }
        let seg = &segs[i];
        let j = find_byte(seg.as_slice(), EQ);
        proof {
            lemma_index_of(seg@, EQ);
        }
        if j < seg.len() {
            let k = subrange_vec(seg.as_slice(), 0, j);
            proof {
                assert(k@ =~= seg@.take(j as int));
            }
            if bytes_eq(k.as_slice(), bytes_badges().as_slice()) {
                let val = subrange_vec(seg.as_slice(), j + 1, seg.len());
                proof {
                    assert(val@ =~= seg@.skip(j + 1));
                }
                let items = split_byte(val.as_slice(), COMMA);
                let ghost iv = deep_view(items@);
                let ghost base = pairs_view(out@);
                let mut t: usize = 0;
                proof {
                    assert(iv.skip(0) =~= iv);
                }
                while t < items.len()
                    invariant
                        0 <= t <= items@.len(),
                        iv == deep_view(items@),
                        base + pairs_of_items(iv) == pairs_view(out@) + pairs_of_items(
                            iv.skip(t as int),
                        ),
                    decreases items@.len() - t,
                {
                    proof {
                        assert(iv.skip(t as int).drop_first() =~= iv.skip(t + 1));
                        assert(iv.skip(t as int).first() == iv[t as int]);
                        assert(iv[t as int] == items@[t as int]@);
                    }
                    let it = &items[t];
                    let p = find_byte(it.as_slice(), SLASH);
                    proof {
                        lemma_index_of(it@, SLASH);
                    }
                    if p < it.len() {
                        let l = subrange_vec(it.as_slice(), 0, p);
                        let rr = subrange_vec(it.as_slice(), p + 1, it.len());
                        proof {
                            assert(l@ =~= it@.take(p as int));
                            assert(rr@ =~= it@.skip(p + 1));
                        }
                        let ghost before = out@;
                        out.push((l, rr));
                        proof {
                            assert(pairs_view(out@) =~= pairs_view(before) + seq![
                                (it@.take(p as int), it@.skip(p + 1)),
                            ]);
                            assert(pairs_view(before) + (seq![
                                (it@.take(p as int), it@.skip(p + 1)),
                            ] + pairs_of_items(iv.skip(t + 1))) =~= pairs_view(out@)
                                + pairs_of_items(iv.skip(t + 1)));
                        }
                    }
                    t = t + 1;
                }
                proof {
                    assert(iv.skip(t as int) =~= Seq::<Seq<u8>>::empty());
                    assert(pairs_view(out@) + Seq::<(Seq<u8>, Seq<u8>)>::empty() =~= pairs_view(
                        out@,
                    ));
                    assert(base + pairs_of_items(iv) =~= pairs_view(out@));
                    assert(base + (pairs_of_items(iv) + badge_pairs_of_segs(sv.skip(i + 1)))
                        =~= pairs_view(out@) + badge_pairs_of_segs(sv.skip(i + 1)));
                }
            }
        }
        i = i + 1;
    }
    proof {
        assert(sv.skip(i as int) =~= Seq::<Seq<u8>>::empty());
        assert(pairs_view(out@) + Seq::<(Seq<u8>, Seq<u8>)>::empty() =~= pairs_view(out@));
    }
    out
}

/// Reads the privilege the badge pairs grant.
fn priv_of_pairs_exec(ps: &Vec<(Vec<u8>, Vec<u8>)>) -> (r: SenderPriv)
    ensures
        r == priv_of_pairs(pairs_view(ps@)),
{
    let ghost pv = pairs_view(ps@);
    let mut i: usize = 0;
    proof {
        assert(pv.skip(0) =~= pv);
    }
    while i < ps.len()
        invariant
            0 <= i <= ps@.len(),
            pv == pairs_view(ps@),
            priv_of_pairs(pv) == priv_of_pairs(pv.skip(i as int)),
        decreases ps@.len() - i,
    {
        proof {
            assert(pv.skip(i as int).drop_first() =~= pv.skip(i + 1));
            assert(pv.skip(i as int).first() == pv[i as int]);
            assert(pv[i as int] == (ps@[i as int].0@, ps@[i as int].1@));
        }
        let is_one = ps[i].1.len() == 1 && ps[i].1[0] == 49u8;
        proof {
            if is_one {
                assert(ps@[i as int].1@ =~= seq![49u8]);
            } else {
                assert(ps@[i as int].1@ != seq![49u8]);
            }
        }
        if is_one && bytes_eq(ps[i].0.as_slice(), bytes_broadcaster().as_slice()) {
            return SenderPriv::Broadcaster;
        }
        if is_one && bytes_eq(ps[i].0.as_slice(), bytes_moderator().as_slice()) {
            return SenderPriv::Moderator;
        }
        i = i + 1;
    }
    proof {
        assert(pv.skip(i as int) =~= Seq::<(Seq<u8>, Seq<u8>)>::empty());
    }
    SenderPriv::Viewer
}

/// One inbound chat message as the dispatcher hands it to every handler:
/// a fresh id, the capture time, who sent what where, and the privilege
/// read from the tags.
pub struct Message {
    pub id: u64,
    pub timestamp: u64,
    pub sender: Vec<u8>,
    pub target: Vec<u8>,
    pub data: Vec<u8>,
    pub privilege: SenderPriv,
}

impl Message {
    /// Builds the message for one chat event, deriving the privilege from
    /// the badges tag entries.
    pub fn twitch(
        id: u64,
        timestamp: u64,
        tags: Option<Vec<u8>>,
        sender: Vec<u8>,
        target: Vec<u8>,
        data: Vec<u8>,
    ) -> (r: Message)
        ensures
            r.id == id,
            r.timestamp == timestamp,
            r.sender@ == sender@,
            r.target@ == target@,
            r.data@ == data@,
            r.privilege == derive_priv(crate::codec::opt_view(tags)),
    {
        let privilege = match &tags {
            Some(t) => {
                let pairs = badges_iter(t.as_slice());
                priv_of_pairs_exec(&pairs)
            },
            None => SenderPriv::Viewer,
        };
        Message { id, timestamp, sender, target, data, privilege }
    }

    /// Whether the sender is the broadcaster.
    pub fn is_from_broadcaster(&self) -> (r: bool)
        ensures
            r == (self.privilege == SenderPriv::Broadcaster),
    {
        matches!(self.privilege, SenderPriv::Broadcaster)
    }

    /// Whether the sender is a moderator.
    pub fn is_from_moderator(&self) -> (r: bool)
        ensures
            r == (self.privilege == SenderPriv::Moderator),
    {
        matches!(self.privilege, SenderPriv::Moderator)
    }

    /// Whether the sender holds neither the broadcaster nor the moderator
    /// badge.
    pub fn is_from_elevated(&self) -> (r: bool)
        ensures
            r == (self.privilege == SenderPriv::Viewer),
    {
        !(self.is_from_broadcaster() || self.is_from_moderator())
    }

    /// Gate for broadcaster-only commands: passes for the broadcaster,
    /// otherwise hands back the problem reply to send.
    pub fn require_broadcaster(&self) -> (r: Option<Reply<Response>>)
        ensures
            self.privilege == SenderPriv::Broadcaster ==> r is None,
            self.privilege != SenderPriv::Broadcaster ==> (r matches Some(p)
                && p.kind_spec() == crate::reply::ReplyKind::Problem
                && p.payload().module@ == lit_system()
                && p.payload().key@ == lit_requires_admin()
                && p.payload().env@ == Map::<Seq<u8>, Seq<u8>>::empty()),
    {
        if self.is_from_broadcaster() {
            None
        } else {
            Some(Reply::Problem(requires_admin_response()))
        }
    }

    /// Gate matching `is_from_elevated`: passes when that holds, otherwise
    /// hands back the problem reply to send.
    pub fn requires_permission(&self) -> (r: Option<Reply<Response>>)
        ensures
            self.privilege == SenderPriv::Viewer ==> r is None,
            self.privilege != SenderPriv::Viewer ==> (r matches Some(p)
                && p.kind_spec() == crate::reply::ReplyKind::Problem
                && p.payload().module@ == lit_system()
                && p.payload().key@ == lit_requires_permission()
                && p.payload().env@ == Map::<Seq<u8>, Seq<u8>>::empty()),
    {
        if self.is_from_elevated() {
            None
        } else {
            Some(Reply::Problem(requires_permission_response()))
        }
    }

    /// A broadcast reply around `item`.
    pub fn say(&self, item: Response) -> (r: Reply<Response>)
        ensures
            r == Reply::Say(item),
    {
        Reply::Say(item)
    }

    /// An addressed reply around `item`.
    pub fn reply(&self, item: Response) -> (r: Reply<Response>)
        ensures
            r == Reply::Reply(item),
    {
        Reply::Reply(item)
    }

    /// An error-addressed reply around `item`.
    pub fn problem(&self, item: Response) -> (r: Reply<Response>)
        ensures
            r == Reply::Problem(item),
    {
        Reply::Problem(item)
    }
}

} // verus!
