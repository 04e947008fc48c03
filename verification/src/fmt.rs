//! Display helpers: readable time spans, the human duration form that is
//! both written and read back, decimal numbers with thousands separators,
//! and the joins the listing replies use.

use vstd::prelude::*;

use crate::text::{
    all_digits, dec_spec, deep_view, digits_val, find_byte, fmt_u64, index_of, join_with,
    join_with_spec, lemma_index_of, parse_u64, split_byte, split_on, subrange_vec, trim,
    trim_spec, trim_start_spec, SP,
};
use crate::conn::LF;
use crate::message::COMMA;

verus! {

/// `days`
pub open spec fn lit_days() -> Seq<u8> {
    seq![100u8, 97u8, 121u8, 115u8]
}

/// Writes `days` as bytes.
pub fn bytes_days() -> (r: Vec<u8>)
    ensures
        r@ == lit_days(),
{
    let mut v: Vec<u8> = Vec::new();
    v.push(100);
    v.push(97);
    v.push(121);
    v.push(115);
    proof {
        assert(v@ =~= lit_days());
    }
    v
}

/// `hours`
pub open spec fn lit_hours() -> Seq<u8> {
    seq![104u8, 111u8, 117u8, 114u8, 115u8]
}

/// Writes `hours` as bytes.
pub fn bytes_hours() -> (r: Vec<u8>)
    ensures
        r@ == lit_hours(),
{
    let mut v: Vec<u8> = Vec::new();
    v.push(104);
    v.push(111);
    v.push(117);
    v.push(114);
    v.push(115);
    proof {
        assert(v@ =~= lit_hours());
    }
    v
}

/// `minutes`
pub open spec fn lit_minutes() -> Seq<u8> {
    seq![109u8, 105u8, 110u8, 117u8, 116u8, 101u8, 115u8]
}

/// Writes `minutes` as bytes.
pub fn bytes_minutes() -> (r: Vec<u8>)
    ensures
        r@ == lit_minutes(),
{
    let mut v: Vec<u8> = Vec::new();
    v.push(109);
    v.push(105);
    v.push(110);
    v.push(117);
    v.push(116);
    v.push(101);
    v.push(115);
    proof {
        assert(v@ =~= lit_minutes());
    }
    v
}

/// `seconds`
pub open spec fn lit_seconds() -> Seq<u8> {
    seq![115u8, 101u8, 99u8, 111u8, 110u8, 100u8, 115u8]
}

/// Writes `seconds` as bytes.
pub fn bytes_seconds() -> (r: Vec<u8>)
    ensures
        r@ == lit_seconds(),
{
    let mut v: Vec<u8> = Vec::new();
    v.push(115);
    v.push(101);
    v.push(99);
    v.push(111);
    v.push(110);
    v.push(100);
    v.push(115);
    proof {
        assert(v@ =~= lit_seconds());
    }
    v
}

/// `and`
pub open spec fn lit_and() -> Seq<u8> {
    seq![97u8, 110u8, 100u8]
}

/// Writes `and` as bytes.
pub fn bytes_and() -> (r: Vec<u8>)
    ensures
        r@ == lit_and(),
{
    let mut v: Vec<u8> = Vec::new();
    v.push(97);
    v.push(110);
    v.push(100);
    proof {
        assert(v@ =~= lit_and());
    }
    v
}

/// `, `
pub open spec fn lit_comma_sp() -> Seq<u8> {
    seq![44u8, 32u8]
}

/// Writes `, ` as bytes.
pub fn bytes_comma_sp() -> (r: Vec<u8>)
    ensures
        r@ == lit_comma_sp(),
{
    let mut v: Vec<u8> = Vec::new();
    v.push(44);
    v.push(32);
    proof {
        assert(v@ =~= lit_comma_sp());
    }
    v
}

/// `<count> <unit>`, the unit singular when the count is one.
pub open spec fn plural_spec(name: Seq<u8>, n: u64) -> Seq<u8> {
    dec_spec(n as nat) + seq![SP] + (if n > 1 {
        name
    } else {
        name.drop_last()
    })
}

/// Writes one pluralized part of a readable time span.
fn pluralize(name: Vec<u8>, n: u64) -> (r: Vec<u8>)
    requires
        name@.len() > 0,
    ensures
        r@ == plural_spec(name@, n),
{
    let mut v = fmt_u64(n);
    v.push(SP);
    if n > 1 {
        crate::text::append_vec(&mut v, &name);
    } else {
        let cut = subrange_vec(name.as_slice(), 0, name.len() - 1);
        proof {
            assert(cut@ =~= name@.drop_last());
        }
        crate::text::append_vec(&mut v, &cut);
    }
    proof {
        assert(v@ =~= plural_spec(name@, n));
    }
    v
}

/// The nonzero day/hour/minute/second parts of a span, largest first.
pub open spec fn parts_spec(secs: u64) -> Seq<Seq<u8>> {
    let d = secs / 86400;
    let h = (secs % 86400) / 3600;
    let m = (secs % 3600) / 60;
    let s = secs % 60;
    (if d > 0 {
        seq![plural_spec(lit_days(), d)]
    } else {
        seq![]
    }) + (if h > 0 {
        seq![plural_spec(lit_hours(), h)]
    } else {
        seq![]
    }) + (if m > 0 {
        seq![plural_spec(lit_minutes(), m)]
    } else {
        seq![]
    }) + (if s > 0 {
        seq![plural_spec(lit_seconds(), s)]
    } else {
        seq![]
    })
}

/// The parts with list punctuation: all but the last two take a comma,
/// and `and` stands before the last.
pub open spec fn with_and(parts: Seq<Seq<u8>>) -> Seq<Seq<u8>> {
    if parts.len() <= 1 {
        parts
    } else {
        Seq::new((parts.len() - 1) as nat, |i: int| if i < parts.len() - 2 {
            parts[i].push(COMMA)
        } else {
            parts[i]
        }) + seq![lit_and()] + seq![parts.last()]
    }
}

/// A span of seconds in words: nonzero units largest first, commas
/// between early parts and `and` before the last.
pub open spec fn format_seconds_spec(secs: u64) -> Seq<u8> {
    join_with_spec(with_and(parts_spec(secs)), seq![SP])
}

/// Writes a span of seconds in words.
pub fn format_seconds(secs: u64) -> (r: Vec<u8>)
    ensures
        r@ == format_seconds_spec(secs),
{
    let d = secs / 86400;
    let h = (secs % 86400) / 3600;
    let m = (secs % 3600) / 60;
    let s = secs % 60;
    let mut parts: Vec<Vec<u8>> = Vec::new();
    if d > 0 {
        parts.push(pluralize(bytes_days(), d));
    }
    if h > 0 {
        parts.push(pluralize(bytes_hours(), h));
    }
    if m > 0 {
        parts.push(pluralize(bytes_minutes(), m));
    }
    if s > 0 {
        parts.push(pluralize(bytes_seconds(), s));
    }
    proof {
        assert(deep_view(parts@) =~= parts_spec(secs));
    }
    let n = parts.len();
    if n <= 1 {
        let space = {
            let mut v: Vec<u8> = Vec::new();
            v.push(SP);
            v
        };
        proof {
            assert(space@ =~= seq![SP]);
        }
        let r = join_with(&parts, space.as_slice());
        return r;
    }
    let ghost wa = with_and(deep_view(parts@));
    let mut outparts: Vec<Vec<u8>> = Vec::new();
    let mut j: usize = 0;
    proof {
        assert(deep_view(outparts@) =~= wa.take(0));
    }
    while j < n - 1
        invariant
            0 <= j <= n - 1,
            n == parts@.len(),
            n > 1,
            wa == with_and(deep_view(parts@)),
            deep_view(outparts@) == wa.take(j as int),
        decreases n - 1 - j,
    {
        let p = &parts[j];
        let mut item = subrange_vec(p.as_slice(), 0, p.len());
        proof {
            assert(item@ =~= parts@[j as int]@);
        }
        if j < n - 2 {
            item.push(COMMA);
        }
        let ghost old_out = outparts@;
        outparts.push(item);
        proof {
            assert(outparts@.drop_last() =~= old_out);
            assert(wa[j as int] == (if j < n - 2 {
                parts@[j as int]@.push(COMMA)
            } else {
                parts@[j as int]@
            }));
            assert(deep_view(outparts@) =~= deep_view(old_out).push(outparts@.last()@));
            assert(wa.take(j + 1) =~= wa.take(j as int).push(wa[j as int]));
            assert(deep_view(outparts@) =~= wa.take(j + 1));
        }
        j = j + 1;
    }
    let ghost before_and = outparts@;
    outparts.push(bytes_and());
    proof {
        assert(outparts@.drop_last() =~= before_and);
        assert(deep_view(outparts@) =~= deep_view(before_and).push(lit_and()));
    }
    let lastp = &parts[n - 1];
    let lastc = subrange_vec(lastp.as_slice(), 0, lastp.len());
    proof {
        assert(lastc@ =~= parts@[n - 1]@);
    }
    let ghost before_last = outparts@;
    outparts.push(lastc);
    proof {
        assert(outparts@.drop_last() =~= before_last);
        assert(deep_view(outparts@) =~= deep_view(before_last).push(parts@[n - 1]@));
        assert(parts@[n - 1]@ == deep_view(parts@).last());
        assert(deep_view(outparts@) =~= wa);
    }
    let space = {
        let mut v: Vec<u8> = Vec::new();
        v.push(SP);
        v
    };
    proof {
        assert(space@ =~= seq![SP]);
    }
    join_with(&outparts, space.as_slice())
}

/// The nonzero hour/minute/second parts of a duration, unit names always
/// plural, largest first.
pub open spec fn dur_parts(secs: u64) -> Seq<Seq<u8>> {
    let h = secs / 3600;
    let m = (secs % 3600) / 60;
    let s = secs % 60;
    (if h > 0 {
        seq![dec_spec(h as nat) + seq![SP] + lit_hours()]
    } else {
        seq![]
    }) + (if m > 0 {
        seq![dec_spec(m as nat) + seq![SP] + lit_minutes()]
    } else {
        seq![]
    }) + (if s > 0 {
        seq![dec_spec(s as nat) + seq![SP] + lit_seconds()]
    } else {
        seq![]
    })
}

/// A duration in the written form the data files use: nonzero units
/// joined with commas, for example `10 hours, 3 minutes, 39 seconds`.
pub open spec fn format_duration_spec(secs: u64) -> Seq<u8> {
    join_with_spec(dur_parts(secs), lit_comma_sp())
}

/// One unit part of a duration: the count, a space, the unit name.
fn dur_part(name: Vec<u8>, n: u64) -> (r: Vec<u8>)
    ensures
        r@ == dec_spec(n as nat) + seq![SP] + name@,
{
    let mut v = fmt_u64(n);
    v.push(SP);
    crate::text::append_vec(&mut v, &name);
    proof {
        assert(v@ =~= dec_spec(n as nat) + seq![SP] + name@);
    }
    v
}

/// Writes a duration in the written form the data files use.
pub fn format_duration(secs: u64) -> (r: Vec<u8>)
    ensures
        r@ == format_duration_spec(secs),
{
    let h = secs / 3600;
    let m = (secs % 3600) / 60;
    let s = secs % 60;
    let mut parts: Vec<Vec<u8>> = Vec::new();
    if h > 0 {
        parts.push(dur_part(bytes_hours(), h));
    }
    if m > 0 {
        parts.push(dur_part(bytes_minutes(), m));
    }
    if s > 0 {
        parts.push(dur_part(bytes_seconds(), s));
    }
    proof {
        assert(deep_view(parts@) =~= dur_parts(secs));
    }
    let sep = bytes_comma_sp();
    join_with(&parts, sep.as_slice())
}

/// The seconds one comma-separated piece contributes: its first word as
/// a number — zero when it is no number — times its unit; an unknown
/// unit or a piece without a space contributes nothing.
pub open spec fn piece_secs(piece: Seq<u8>) -> int {
    let t = trim_spec(piece);
    let sp = index_of(t, SP);
    if sp >= t.len() {
        0
    } else {
        let head = t.take(sp);
        let tail = t.skip(sp + 1);
        let n: int = if head.len() > 0 && all_digits(head) && digits_val(head) <= u64::MAX {
            digits_val(head)
        } else {
            0
        };
        if tail == lit_hours() {
            n * 3600
        } else if tail == lit_minutes() {
            n * 60
        } else if tail == lit_seconds() {
            n
        } else {
            0
        }
    }
}

/// The sum the pieces denote.
pub open spec fn pieces_sum(pieces: Seq<Seq<u8>>) -> int
    decreases pieces.len(),
{
    if pieces.len() == 0 {
        0
    } else {
        pieces_sum(pieces.drop_first()) + piece_secs(pieces.first())
    }
}

/// The comma-separated pieces of a duration string, a trailing empty
/// piece after a final comma ignored.
pub open spec fn dur_pieces(s: Seq<u8>) -> Seq<Seq<u8>> {
    if s.len() == 0 {
        seq![]
    } else {
        let ps = split_on(s, COMMA);
        if ps.last().len() == 0 {
            ps.drop_last()
        } else {
            ps
        }
    }
}

/// What a written duration denotes, in seconds, capped at the largest
/// representable count.
pub open spec fn parse_duration_spec(s: Seq<u8>) -> int {
    if pieces_sum(dur_pieces(s)) <= u64::MAX {
        pieces_sum(dur_pieces(s))
    } else {
        u64::MAX as int
    }
}

/// Reads a written duration back into seconds; an unreadable piece
/// counts as zero and an overlarge total saturates.
pub fn parse_duration(s: &[u8]) -> (r: u64)
    ensures
        r == parse_duration_spec(s@),
{
    let ghost pieces = dur_pieces(s@);
    if s.len() == 0 {
        proof {
            assert(pieces =~= Seq::<Seq<u8>>::empty());
        }
        return 0;
    }
    let mut ps = split_byte(s, COMMA);
    proof {
        crate::conn::lemma_split_on_len(s@, COMMA, seq![]);
        assert(ps@.last()@ == deep_view(ps@).last());
    }
    if ps[ps.len() - 1].len() == 0 {
        ps.pop();
        proof {
            assert(deep_view(ps@) =~= split_on(s@, COMMA).drop_last());
        }
    }
    proof {
        assert(deep_view(ps@) == pieces);
    }
    let mut acc: u64 = 0;
    let mut i: usize = ps.len();
    proof {
        assert(pieces.skip(i as int) =~= Seq::<Seq<u8>>::empty());
    }
    while i > 0
        invariant
            0 <= i <= ps@.len(),
            pieces == deep_view(ps@),
            acc == if pieces_sum(pieces.skip(i as int)) <= u64::MAX {
                pieces_sum(pieces.skip(i as int))
            } else {
                u64::MAX as int
            },
        decreases i,
    {
        i = i - 1;
        proof {
            assert(pieces.skip(i as int).drop_first() =~= pieces.skip(i + 1));
            assert(pieces.skip(i as int).first() == pieces[i as int]);
            assert(pieces[i as int] == ps@[i as int]@);
            lemma_pieces_sum_nonneg(pieces.skip(i + 1));
            lemma_piece_secs_nonneg(ps@[i as int]@);
        }
        let p = piece_secs_exec(&ps[i]);
        if acc > u64::MAX - p {
            acc = u64::MAX;
        } else {
            acc = acc + p;
        }
    }
    proof {
        assert(pieces.skip(0) =~= pieces);
    }
    acc
}

/// No piece takes seconds away.
pub proof fn lemma_piece_secs_nonneg(piece: Seq<u8>)
    ensures
        piece_secs(piece) >= 0,
{
    let t = trim_spec(piece);
    let sp = index_of(t, SP);
    if sp < t.len() {
        let head = t.take(sp);
        if head.len() > 0 && all_digits(head) && digits_val(head) <= u64::MAX {
            crate::text::lemma_digits_val_nonneg(head);
        }
    }
}

/// Nor does a list of pieces.
pub proof fn lemma_pieces_sum_nonneg(pieces: Seq<Seq<u8>>)
    ensures
        pieces_sum(pieces) >= 0,
    decreases pieces.len(),
{
    if pieces.len() > 0 {
        lemma_pieces_sum_nonneg(pieces.drop_first());
        lemma_piece_secs_nonneg(pieces.first());
    }
}

/// The seconds one piece contributes, capped at the largest count.
fn piece_secs_exec(piece: &Vec<u8>) -> (r: u64)
    ensures
        piece_secs(piece@) <= u64::MAX ==> r == piece_secs(piece@),
        piece_secs(piece@) > u64::MAX ==> r == u64::MAX,
{
    proof {
        lemma_piece_secs_nonneg(piece@);
    }
    let t = trim(piece.as_slice());
    let sp = find_byte(t.as_slice(), SP);
    proof {
        lemma_index_of(t@, SP);
    }
    if sp >= t.len() {
        return 0;
    }
    let head = subrange_vec(t.as_slice(), 0, sp);
    let tail = subrange_vec(t.as_slice(), sp + 1, t.len());
    proof {
        assert(head@ =~= trim_spec(piece@).take(sp as int));
        assert(tail@ =~= trim_spec(piece@).skip(sp + 1));
    }
    let n: u64 = match parse_u64(head.as_slice()) {
        Some(v) => v,
        None => 0,
    };
    if crate::text::bytes_eq(tail.as_slice(), bytes_hours().as_slice()) {
        if n > u64::MAX / 3600 {
            u64::MAX
        } else {
            n * 3600
        }
    } else if crate::text::bytes_eq(tail.as_slice(), bytes_minutes().as_slice()) {
        if n > u64::MAX / 60 {
            u64::MAX
        } else {
            n * 60
        }
    } else if crate::text::bytes_eq(tail.as_slice(), bytes_seconds().as_slice()) {
        n
    } else {
        0
    }
}

/// Three digits with leading zeros; the group after a thousands comma.
pub open spec fn pad3_spec(n: nat) -> Seq<u8> {
    seq![(48 + n / 100) as u8, (48 + (n / 10) % 10) as u8, (48 + n % 10) as u8]
}

/// A number in decimal with a comma between each group of three digits.
pub open spec fn commas_spec(n: nat) -> Seq<u8>
    decreases n,
{
    if n < 1000 {
        dec_spec(n)
    } else {
        commas_spec(n / 1000) + seq![COMMA] + pad3_spec(n % 1000)
    }
}

/// Writes `n` with thousands separators.
pub fn with_commas(n: u64) -> (r: Vec<u8>)
    ensures
        r@ == commas_spec(n as nat),
    decreases n,
{
    if n < 1000 {
        fmt_u64(n)
    } else {
        let mut v = with_commas(n / 1000);
        v.push(COMMA);
        let g = n % 1000;
        v.push(48 + (g / 100) as u8);
        v.push(48 + ((g / 10) % 10) as u8);
        v.push(48 + (g % 10) as u8);
        proof {
            assert(v@ =~= commas_spec((n / 1000) as nat) + seq![COMMA] + pad3_spec(
                (n % 1000) as nat,
            ));
        }
        v
    }
}

/// Joining with a line break every `max` items and spaces in between,
/// from position `i` with `acc` built so far.
pub open spec fn jmm_from(items: Seq<Seq<u8>>, max: int, i: int, acc: Seq<u8>) -> Seq<u8>
    decreases items.len() - i,
{
    if i < 0 || i >= items.len() {
        acc
    } else {
        let a1 = if i > 0 && i % max == 0 {
            acc.push(LF)
        } else {
            acc
        };
        let a2 = if a1.len() > 0 {
            a1.push(SP)
        } else {
            a1
        };
        jmm_from(items, max, i + 1, a2 + items[i])
    }
}

/// Items joined with spaces, a line break starting every `max`-th item.
pub open spec fn join_multiline_max_spec(items: Seq<Seq<u8>>, max: int) -> Seq<u8> {
    jmm_from(items, max, 0, seq![])
}

/// Joins items with spaces, breaking the line every `max` items, as the
/// command listings do.
pub fn join_multiline_max(items: &Vec<Vec<u8>>, max: usize) -> (r: Vec<u8>)
    requires
        max > 0,
    ensures
        r@ == join_multiline_max_spec(deep_view(items@), max as int),
{
    let ghost iv = deep_view(items@);
    let mut acc: Vec<u8> = Vec::new();
    let mut i: usize = 0;
    proof {
        assert(acc@ =~= Seq::<u8>::empty());
    }
    while i < items.len()
        invariant
            0 <= i <= items@.len(),
            max > 0,
            iv == deep_view(items@),
            join_multiline_max_spec(iv, max as int) == jmm_from(iv, max as int, i as int, acc@),
        decreases items@.len() - i,
    {
        proof {
            assert(iv[i as int] == items@[i as int]@);
        }
        if i > 0 && i % max == 0 {
            acc.push(LF);
        }
        if acc.len() > 0 {
            acc.push(SP);
        }
        crate::text::append_vec(&mut acc, &items[i]);
        i = i + 1;
    }
    acc
}

/// Wraps the items in the given brackets, comma-separated.
pub fn show_iter(head: u8, tail: u8, items: &Vec<Vec<u8>>) -> (r: Vec<u8>)
    ensures
        r@ == seq![head] + join_with_spec(deep_view(items@), lit_comma_sp()) + seq![tail],
{
    let mut v: Vec<u8> = Vec::new();
    v.push(head);
    let sep = bytes_comma_sp();
    let joined = join_with(items, sep.as_slice());
    crate::text::append_vec(&mut v, &joined);
    v.push(tail);
    proof {
        assert(v@ =~= seq![head] + join_with_spec(deep_view(items@), lit_comma_sp()) + seq![
            tail,
        ]);
    }
    v
}

/// A list shown at most `max` items to a line.
pub struct LimitedVec {
    pub inner: Vec<Vec<u8>>,
    pub max: usize,
}

impl LimitedVec {
    /// A list that will break its line every `max` items.
    pub fn new(max: usize, list: Vec<Vec<u8>>) -> (r: LimitedVec)
        requires
            max > 0,
        ensures
            r.max == max,
            r.inner@ == list@,
    {
        LimitedVec { max, inner: list }
    }

    /// The displayed form: items joined with spaces, a line break every
    /// `max` items.
    pub fn show(&self) -> (r: Vec<u8>)
        requires
            self.max > 0,
        ensures
            r@ == join_multiline_max_spec(deep_view(self.inner@), self.max as int),
    {
        join_multiline_max(&self.inner, self.max)
    }
}

/// One written duration part: the count, a space, the unit name.
pub open spec fn unit_part(n: u64, unit: Seq<u8>) -> Seq<u8> {
    dec_spec(n as nat) + seq![SP] + unit
}

/// A recognised unit name and its weight in seconds.
pub open spec fn unit_weight(unit: Seq<u8>, w: int) -> bool {
    (unit == lit_hours() && w == 3600) || (unit == lit_minutes() && w == 60) || (unit
        == lit_seconds() && w == 1)
}

/// The decimal form of `n` is nonempty, all digits, and reads back as `n`.
pub proof fn lemma_dec_digits(n: nat)
    ensures
        dec_spec(n).len() >= 1,
        all_digits(dec_spec(n)),
        digits_val(dec_spec(n)) == n,
    decreases n,
{
    if n < 10 {
        assert(dec_spec(n).drop_last() =~= Seq::<u8>::empty());
        assert(digits_val(Seq::<u8>::empty()) == 0);
        assert(dec_spec(n).last() == (48 + n) as u8);
    } else {
        lemma_dec_digits(n / 10);
        assert(dec_spec(n).drop_last() =~= dec_spec(n / 10));
        assert(dec_spec(n).last() == (48 + n % 10) as u8);
        assert forall|i: int| 0 <= i < dec_spec(n).len() implies crate::text::is_digit(
            dec_spec(n)[i],
        ) by {
            if i < dec_spec(n).len() - 1 {
                assert(dec_spec(n)[i] == dec_spec(n / 10)[i]);
            }
        }
    }
}

/// A separator-free prefix is folded into the piece being read.
proof fn lemma_split_absorb(a: Seq<u8>, rest: Seq<u8>, cur: Seq<u8>)
    requires
        forall|i: int| 0 <= i < a.len() ==> a[i] != COMMA,
    ensures
        crate::text::split_on_acc(a + rest, COMMA, cur) == crate::text::split_on_acc(
            rest,
            COMMA,
            cur + a,
        ),
    decreases a.len(),
{
    if a.len() == 0 {
        assert(a + rest =~= rest);
        assert(cur + a =~= cur);
    } else {
        assert((a + rest)[0] == a[0]);
        assert((a + rest).drop_first() =~= a.drop_first() + rest);
        assert(forall|i: int| 0 <= i < a.drop_first().len() ==> a.drop_first()[i] == a[i + 1]);
        lemma_split_absorb(a.drop_first(), rest, cur.push(a[0]));
        assert(cur.push(a[0]) + a.drop_first() =~= cur + a);
    }
}

/// A separator closes the piece being read.
proof fn lemma_split_sep(rest: Seq<u8>, cur: Seq<u8>)
    ensures
        crate::text::split_on_acc(seq![COMMA] + rest, COMMA, cur) == seq![cur]
            + crate::text::split_on_acc(rest, COMMA, seq![]),
{
    assert((seq![COMMA] + rest)[0] == COMMA);
    assert((seq![COMMA] + rest).drop_first() =~= rest);
}

/// A written part holds no separator, starts with a digit and ends with
/// the `s` of its unit name.
proof fn lemma_unit_part_clean(n: u64, unit: Seq<u8>, w: int)
    requires
        unit_weight(unit, w),
    ensures
        forall|i: int| 0 <= i < unit_part(n, unit).len() ==> unit_part(n, unit)[i] != COMMA,
        unit_part(n, unit).len() > 0,
        crate::text::is_digit(unit_part(n, unit)[0]),
        unit_part(n, unit).last() == 115u8,
{
    let d = dec_spec(n as nat);
    let p = unit_part(n, unit);
    lemma_dec_digits(n as nat);
    assert(forall|i: int| 0 <= i < unit.len() ==> unit[i] != COMMA);
    assert(p[0] == d[0]);
    assert(p.last() == unit.last());
    assert forall|i: int| 0 <= i < p.len() implies p[i] != COMMA by {
        if i < d.len() {
            assert(p[i] == d[i]);
        } else if i == d.len() {
            assert(p[i] == SP);
        } else {
            assert(p[i] == unit[i - d.len() - 1]);
        }
    }
}

/// What one written part reads back as, bare or behind the space a
/// separator leaves.
proof fn lemma_piece_value(n: u64, unit: Seq<u8>, w: int)
    requires
        unit_weight(unit, w),
    ensures
        piece_secs(unit_part(n, unit)) == n * w,
        piece_secs(seq![SP] + unit_part(n, unit)) == n * w,
{
    let d = dec_spec(n as nat);
    let p = unit_part(n, unit);
    lemma_dec_digits(n as nat);
    lemma_unit_part_clean(n, unit, w);
    assert(!crate::text::is_space(p[0]));
    assert(!crate::text::is_space(p.last()));
    assert(trim_spec(p) == p);
    assert(forall|j: int| 0 <= j < d.len() ==> p[j] == d[j]);
    assert(p[d.len() as int] == SP);
    lemma_index_of(p, SP);
    crate::text::lemma_index_of_is(p, SP, d.len() as int);
    assert(p.take(d.len() as int) =~= d);
    assert(p.skip(d.len() as int + 1) =~= unit);
    if unit == lit_minutes() {
        assert(lit_minutes()[0] != lit_hours()[0] || lit_minutes().len() != lit_hours().len());
    }
    if unit == lit_seconds() {
        assert(lit_seconds().len() != lit_hours().len());
        assert(lit_seconds()[0] == 115u8 && lit_minutes()[0] == 109u8);
    }
    assert(piece_secs(p) == n * w);
    let q = seq![SP] + p;
    assert(q[0] == SP);
    assert(q.drop_first() =~= p);
    assert(trim_start_spec(q) == trim_start_spec(p));
    assert(trim_spec(q) == trim_spec(p));
    assert(piece_secs(q) == piece_secs(p));
}

/// What one written part joined alone reads back as.
proof fn lemma_parts_value_1(n0: u64, u0: Seq<u8>, w0: int)
    requires
        unit_weight(u0, w0),
    ensures
        pieces_sum(dur_pieces(join_with_spec(seq![unit_part(n0, u0)], lit_comma_sp()))) == n0
            * w0,
{
    let p0 = unit_part(n0, u0);
    lemma_unit_part_clean(n0, u0, w0);
    lemma_piece_value(n0, u0, w0);
    let j = join_with_spec(seq![p0], lit_comma_sp());
    assert(j == p0);
    lemma_split_absorb(p0, Seq::<u8>::empty(), seq![]);
    assert(p0 + Seq::<u8>::empty() =~= p0);
    assert(seq![] + p0 =~= p0);
    assert(crate::text::split_on_acc(Seq::<u8>::empty(), COMMA, p0) == seq![p0]);
    assert(split_on(p0, COMMA) == seq![p0]);
    assert(dur_pieces(j) == seq![p0]);
    assert(seq![p0].drop_first() =~= Seq::<Seq<u8>>::empty());
    assert(pieces_sum(Seq::<Seq<u8>>::empty()) == 0);
    assert(pieces_sum(seq![p0]) == piece_secs(p0));
}

/// What two written parts joined read back as.
proof fn lemma_parts_value_2(n0: u64, u0: Seq<u8>, w0: int, n1: u64, u1: Seq<u8>, w1: int)
    requires
        unit_weight(u0, w0),
        unit_weight(u1, w1),
    ensures
        pieces_sum(
            dur_pieces(
                join_with_spec(seq![unit_part(n0, u0), unit_part(n1, u1)], lit_comma_sp()),
            ),
        ) == n0 * w0 + n1 * w1,
{
    let p0 = unit_part(n0, u0);
    let p1 = unit_part(n1, u1);
    lemma_unit_part_clean(n0, u0, w0);
    lemma_unit_part_clean(n1, u1, w1);
    lemma_piece_value(n0, u0, w0);
    lemma_piece_value(n1, u1, w1);
    let j = join_with_spec(seq![p0, p1], lit_comma_sp());
    assert(seq![p0, p1].drop_last() =~= seq![p0]);
    assert(join_with_spec(seq![p0], lit_comma_sp()) == p0);
    assert(j == p0 + lit_comma_sp() + p1);
    let sp1 = seq![SP] + p1;
    assert(j =~= p0 + (seq![COMMA] + sp1));
    lemma_split_absorb(p0, seq![COMMA] + sp1, seq![]);
    assert(seq![] + p0 =~= p0);
    lemma_split_sep(sp1, p0);
    assert(forall|i: int| 0 <= i < sp1.len() ==> sp1[i] != COMMA);
    lemma_split_absorb(sp1, Seq::<u8>::empty(), seq![]);
    assert(sp1 + Seq::<u8>::empty() =~= sp1);
    assert(seq![] + sp1 =~= sp1);
    assert(crate::text::split_on_acc(Seq::<u8>::empty(), COMMA, sp1) == seq![sp1]);
    assert(split_on(j, COMMA) == seq![p0] + seq![sp1]);
    assert(seq![p0] + seq![sp1] =~= seq![p0, sp1]);
    assert(sp1.len() > 0);
    assert(j.len() > 0);
    assert(dur_pieces(j) == seq![p0, sp1]);
    assert(seq![p0, sp1].drop_first() =~= seq![sp1]);
    assert(seq![sp1].drop_first() =~= Seq::<Seq<u8>>::empty());
    assert(pieces_sum(Seq::<Seq<u8>>::empty()) == 0);
    assert(pieces_sum(seq![sp1]) == piece_secs(sp1));
    assert(pieces_sum(seq![p0, sp1]) == piece_secs(p0) + piece_secs(sp1));
}

/// What three written parts joined read back as.
#[verifier::rlimit(30)]
proof fn lemma_parts_value_3(
    n0: u64,
    u0: Seq<u8>,
    w0: int,
    n1: u64,
    u1: Seq<u8>,
    w1: int,
    n2: u64,
    u2: Seq<u8>,
    w2: int,
)
    requires
        unit_weight(u0, w0),
        unit_weight(u1, w1),
        unit_weight(u2, w2),
    ensures
        pieces_sum(
            dur_pieces(
                join_with_spec(
                    seq![unit_part(n0, u0), unit_part(n1, u1), unit_part(n2, u2)],
                    lit_comma_sp(),
                ),
            ),
        ) == n0 * w0 + n1 * w1 + n2 * w2,
{
    let p0 = unit_part(n0, u0);
    let p1 = unit_part(n1, u1);
    let p2 = unit_part(n2, u2);
    lemma_unit_part_clean(n0, u0, w0);
    lemma_unit_part_clean(n1, u1, w1);
    lemma_unit_part_clean(n2, u2, w2);
    lemma_piece_value(n0, u0, w0);
    lemma_piece_value(n1, u1, w1);
    lemma_piece_value(n2, u2, w2);
    let j = join_with_spec(seq![p0, p1, p2], lit_comma_sp());
    assert(seq![p0, p1, p2].drop_last() =~= seq![p0, p1]);
    assert(seq![p0, p1].drop_last() =~= seq![p0]);
    assert(join_with_spec(seq![p0], lit_comma_sp()) == p0);
    assert(join_with_spec(seq![p0, p1], lit_comma_sp()) == p0 + lit_comma_sp() + p1);
    assert(j == (p0 + lit_comma_sp() + p1) + lit_comma_sp() + p2);
    let sp1 = seq![SP] + p1;
    let sp2 = seq![SP] + p2;
    assert(j =~= p0 + (seq![COMMA] + (sp1 + (seq![COMMA] + sp2))));
    lemma_split_absorb(p0, seq![COMMA] + (sp1 + (seq![COMMA] + sp2)), seq![]);
    assert(seq![] + p0 =~= p0);
    lemma_split_sep(sp1 + (seq![COMMA] + sp2), p0);
    assert(forall|i: int| 0 <= i < sp1.len() ==> sp1[i] != COMMA);
    assert(forall|i: int| 0 <= i < sp2.len() ==> sp2[i] != COMMA);
    lemma_split_absorb(sp1, seq![COMMA] + sp2, seq![]);
    assert(seq![] + sp1 =~= sp1);
    lemma_split_sep(sp2, sp1);
    lemma_split_absorb(sp2, Seq::<u8>::empty(), seq![]);
    assert(sp2 + Seq::<u8>::empty() =~= sp2);
    assert(seq![] + sp2 =~= sp2);
    assert(crate::text::split_on_acc(Seq::<u8>::empty(), COMMA, sp2) == seq![sp2]);
    assert(split_on(j, COMMA) == seq![p0] + (seq![sp1] + seq![sp2]));
    assert(seq![p0] + (seq![sp1] + seq![sp2]) =~= seq![p0, sp1, sp2]);
    assert(sp2.len() > 0);
    assert(j.len() > 0);
    assert(dur_pieces(j) == seq![p0, sp1, sp2]);
    assert(seq![p0, sp1, sp2].drop_first() =~= seq![sp1, sp2]);
    assert(seq![sp1, sp2].drop_first() =~= seq![sp2]);
    assert(seq![sp2].drop_first() =~= Seq::<Seq<u8>>::empty());
    assert(pieces_sum(Seq::<Seq<u8>>::empty()) == 0);
    assert(pieces_sum(seq![sp2]) == piece_secs(sp2));
    assert(pieces_sum(seq![sp1, sp2]) == piece_secs(sp1) + piece_secs(sp2));
    assert(pieces_sum(seq![p0, sp1, sp2]) == piece_secs(p0) + piece_secs(sp1) + piece_secs(
        sp2,
    ));
}

/// A duration written out reads back as the same count of seconds: what
/// `format_duration` writes, `parse_duration` returns unchanged.
pub proof fn law_duration_round_trip(secs: u64)
    ensures
        parse_duration_spec(format_duration_spec(secs)) == secs,
{
    let h = (secs / 3600) as u64;
    let m = ((secs % 3600) / 60) as u64;
    let s = (secs % 60) as u64;
    vstd::arithmetic::div_mod::lemma_fundamental_div_mod(secs as int, 3600);
    vstd::arithmetic::div_mod::lemma_fundamental_div_mod((secs % 3600) as int, 60);
    vstd::arithmetic::div_mod::lemma_mod_mod(secs as int, 60, 60);
    assert(60 * 60 == 3600);
    assert((secs % 3600) % 60 == secs % 60);
    assert(h * 3600 + m * 60 + s == secs);
    let parts = dur_parts(secs);
    let ph = unit_part(h, lit_hours());
    let pm = unit_part(m, lit_minutes());
    let ps = unit_part(s, lit_seconds());
    if h > 0 {
        if m > 0 {
            if s > 0 {
                assert(parts =~= seq![ph, pm, ps]);
                lemma_parts_value_3(h, lit_hours(), 3600, m, lit_minutes(), 60, s,
                    lit_seconds(), 1);
            } else {
                assert(parts =~= seq![ph, pm]);
                lemma_parts_value_2(h, lit_hours(), 3600, m, lit_minutes(), 60);
            }
        } else {
            if s > 0 {
                assert(parts =~= seq![ph, ps]);
                lemma_parts_value_2(h, lit_hours(), 3600, s, lit_seconds(), 1);
            } else {
                assert(parts =~= seq![ph]);
                lemma_parts_value_1(h, lit_hours(), 3600);
            }
        }
    } else {
        if m > 0 {
            if s > 0 {
                assert(parts =~= seq![pm, ps]);
                lemma_parts_value_2(m, lit_minutes(), 60, s, lit_seconds(), 1);
            } else {
                assert(parts =~= seq![pm]);
                lemma_parts_value_1(m, lit_minutes(), 60);
            }
        } else {
            if s > 0 {
                assert(parts =~= seq![ps]);
                lemma_parts_value_1(s, lit_seconds(), 1);
            } else {
                assert(parts =~= Seq::<Seq<u8>>::empty());
                assert(format_duration_spec(secs) == Seq::<u8>::empty());
                assert(dur_pieces(Seq::<u8>::empty()) == Seq::<Seq<u8>>::empty());
                assert(secs == 0);
            }
        }
    }
}

} // verus!