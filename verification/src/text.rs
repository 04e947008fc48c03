//! Byte-string primitives shared by the protocol codec, the argument
//! matcher and the template engine: whitespace trimming, byte search and
//! whitespace splitting, each with a sequence-level model.

use vstd::prelude::*;

verus! {

/// Space byte, the separator the wire format uses.
pub const SP: u8 = 32;

/// The bytes the line parser treats as whitespace when trimming.
pub open spec fn is_space(b: u8) -> bool {
    b == 32 || b == 9 || b == 13 || b == 10
}

/// Executable mirror of `is_space`.
pub fn is_space_byte(b: u8) -> (r: bool)
    ensures
        r == is_space(b),
{
    b == 32 || b == 9 || b == 13 || b == 10
}

/// `s` without its leading whitespace.
pub open spec fn trim_start_spec(s: Seq<u8>) -> Seq<u8>
    decreases s.len(),
{
    if s.len() > 0 && is_space(s[0]) {
        trim_start_spec(s.drop_first())
    } else {
        s
    }
}

/// `s` without its trailing whitespace.
pub open spec fn trim_end_spec(s: Seq<u8>) -> Seq<u8>
    decreases s.len(),
{
    if s.len() > 0 && is_space(s[s.len() - 1]) {
        trim_end_spec(s.drop_last())
    } else {
        s
    }
}

/// `s` without leading and trailing whitespace.
pub open spec fn trim_spec(s: Seq<u8>) -> Seq<u8> {
    trim_end_spec(trim_start_spec(s))
}

/// Index of the first occurrence of `b` in `s`, or `s.len()` if absent.
pub open spec fn index_of(s: Seq<u8>, b: u8) -> int
    decreases s.len(),
{
    if s.len() == 0 {
        0
    } else if s[0] == b {
        0
    } else {
        1 + index_of(s.drop_first(), b)
    }
}

pub proof fn lemma_index_of(s: Seq<u8>, b: u8)
    ensures
        0 <= index_of(s, b) <= s.len(),
        forall|j: int| 0 <= j < index_of(s, b) ==> s[j] != b,
        index_of(s, b) < s.len() ==> s[index_of(s, b)] == b,
    decreases s.len(),
{
    if s.len() > 0 && s[0] != b {
        lemma_index_of(s.drop_first(), b);
        assert forall|j: int| 0 <= j < index_of(s, b) implies s[j] != b by {
            if j > 0 {
                assert(s.drop_first()[j - 1] == s[j]);
            }
        }
    }
}

/// `index_of` is the only position with nothing equal to `b` before it.
pub proof fn lemma_index_of_is(s: Seq<u8>, b: u8, i: int)
    requires
        0 <= i <= s.len(),
        forall|j: int| 0 <= j < i ==> s[j] != b,
        i < s.len() ==> s[i] == b,
    ensures
        index_of(s, b) == i,
    decreases s.len(),
{
    if s.len() > 0 && s[0] != b {
        assert forall|j: int| 0 <= j < i - 1 implies s.drop_first()[j] != b by {
            assert(s.drop_first()[j] == s[j + 1]);
        }
        lemma_index_of_is(s.drop_first(), b, i - 1);
    }
}

/// Position of the first `b` in `s`, or `s.len()` when `s` holds none.
pub fn find_byte(s: &[u8], b: u8) -> (i: usize)
    ensures
        i == index_of(s@, b),
{
    proof {
        lemma_index_of(s@, b);
    }
    let mut i: usize = 0;
    while i < s.len() && s[i] != b
        invariant
            0 <= i <= s@.len(),
            forall|j: int| 0 <= j < i ==> s@[j] != b,
        decreases s@.len() - i,
    {
        i = i + 1;
    }
    proof {
        lemma_index_of_is(s@, b, i as int);
    }
    i
}

/// Copy of `s[from..to]` as a fresh vector.
pub fn subrange_vec(s: &[u8], from: usize, to: usize) -> (r: Vec<u8>)
    requires
        0 <= from <= to <= s@.len(),
    ensures
        r@ == s@.subrange(from as int, to as int),
{
    let mut r: Vec<u8> = Vec::new();
    let mut i: usize = from;
    while i < to
        invariant
            from <= i <= to <= s@.len(),
            r@ == s@.subrange(from as int, i as int),
        decreases to - i,
    {
        r.push(s[i]);
        i = i + 1;
        proof {
            assert(r@ =~= s@.subrange(from as int, i as int));
        }
    }
    r
}

/// Whether two byte strings hold the same bytes.
pub fn bytes_eq(a: &[u8], b: &[u8]) -> (r: bool)
    ensures
        r == (a@ == b@),
{
    if a.len() != b.len() {
        proof {
            assert(a@.len() != b@.len());
        }
        return false;
    }
    let mut i: usize = 0;
    while i < a.len()
        invariant
            0 <= i <= a@.len(),
            a@.len() == b@.len(),
            forall|j: int| 0 <= j < i ==> a@[j] == b@[j],
        decreases a@.len() - i,
    {
        if a[i] != b[i] {
            return false;
        }
        i = i + 1;
    }
    proof {
        assert(a@ =~= b@);
    }
    true
}

/// `s` with leading and trailing whitespace removed.
pub fn trim(s: &[u8]) -> (r: Vec<u8>)
    ensures
        r@ == trim_spec(s@),
{
    let t = trim_start(s);
    trim_end(t.as_slice())
}

/// `s` with leading whitespace removed.
pub fn trim_start(s: &[u8]) -> (r: Vec<u8>)
    ensures
        r@ == trim_start_spec(s@),
{
    proof {
        assert(s@.skip(0) =~= s@);
    }
    let mut i: usize = 0;
    while i < s.len() && is_space_byte(s[i])
        invariant
            0 <= i <= s@.len(),
            trim_start_spec(s@) == trim_start_spec(s@.skip(i as int)),
        decreases s@.len() - i,
    {
        proof {
            assert(s@.skip(i as int).drop_first() =~= s@.skip(i + 1));
        }
        i = i + 1;
    }
    proof {
        assert(trim_start_spec(s@.skip(i as int)) == s@.skip(i as int));
        assert(s@.skip(i as int) =~= s@.subrange(i as int, s@.len() as int));
    }
    subrange_vec(s, i, s.len())
}

/// `s` with trailing whitespace removed.
pub fn trim_end(s: &[u8]) -> (r: Vec<u8>)
    ensures
        r@ == trim_end_spec(s@),
{
    proof {
        assert(s@.take(s@.len() as int) =~= s@);
    }
    let mut j: usize = s.len();
    while j > 0 && is_space_byte(s[j - 1])
        invariant
            0 <= j <= s@.len(),
            trim_end_spec(s@) == trim_end_spec(s@.take(j as int)),
        decreases j,
    {
        proof {
            assert(s@.take(j as int).drop_last() =~= s@.take(j - 1));
        }
        j = j - 1;
    }
    proof {
        assert(trim_end_spec(s@.take(j as int)) == s@.take(j as int));
        assert(s@.take(j as int) =~= s@.subrange(0, j as int));
    }
    subrange_vec(s, 0, j)
}

/// Whitespace splitting, one byte at a time; `cur` is the token being read.
pub open spec fn split_ws_acc(s: Seq<u8>, cur: Seq<u8>) -> Seq<Seq<u8>>
    decreases s.len(),
{
    if s.len() == 0 {
        if cur.len() == 0 {
            seq![]
        } else {
            seq![cur]
        }
    } else if is_space(s[0]) {
        if cur.len() == 0 {
            split_ws_acc(s.drop_first(), seq![])
        } else {
            seq![cur] + split_ws_acc(s.drop_first(), seq![])
        }
    } else {
        split_ws_acc(s.drop_first(), cur.push(s[0]))
    }
}

/// The whitespace-delimited tokens of `s`, in order.
pub open spec fn split_ws(s: Seq<u8>) -> Seq<Seq<u8>> {
    split_ws_acc(s, seq![])
}

/// The view of a vector of byte strings, as a sequence of sequences.
pub open spec fn deep_view(v: Seq<Vec<u8>>) -> Seq<Seq<u8>> {
    v.map_values(|x: Vec<u8>| x@)
}

/// Splits `s` on whitespace into its tokens.
pub fn split_whitespace(s: &[u8]) -> (r: Vec<Vec<u8>>)
    ensures
        deep_view(r@) == split_ws(s@),
{
    let mut out: Vec<Vec<u8>> = Vec::new();
    let mut cur: Vec<u8> = Vec::new();
    let mut i: usize = 0;
    proof {
        assert(s@.skip(0) =~= s@);
        assert(cur@ =~= seq![]);
        assert(deep_view(out@) + split_ws_acc(s@, seq![]) =~= split_ws_acc(s@, seq![]));
    }
    while i < s.len()
        invariant
            0 <= i <= s@.len(),
            split_ws(s@) == deep_view(out@) + split_ws_acc(s@.skip(i as int), cur@),
        decreases s@.len() - i,
    {
        proof {
            assert(s@.skip(i as int).drop_first() =~= s@.skip(i + 1));
            assert(s@.skip(i as int)[0] == s@[i as int]);
            if cur@.len() == 0 {
                assert(cur@ =~= seq![]);
            }
        }
        if is_space_byte(s[i]) {
            if cur.len() > 0 {
                let ghost old_out = out@;
                let ghost old_cur = cur@;
                out.push(cur);
                cur = Vec::new();
                proof {
                    assert(split_ws_acc(s@.skip(i as int), old_cur) == seq![old_cur]
                        + split_ws_acc(s@.skip(i + 1), seq![]));
                    assert(deep_view(out@) =~= deep_view(old_out) + seq![old_cur]);
                    assert(deep_view(old_out) + (seq![old_cur] + split_ws_acc(
                        s@.skip(i + 1),
                        seq![],
                    )) =~= deep_view(out@) + split_ws_acc(s@.skip(i + 1), seq![]));
                }
            }
        } else {
            cur.push(s[i]);
        }
        i = i + 1;
    }
    proof {
        assert(s@.skip(i as int) =~= Seq::<u8>::empty());
    }
    if cur.len() > 0 {
        let ghost old_out = out@;
        let ghost old_cur = cur@;
        out.push(cur);
        proof {
            assert(deep_view(out@) =~= deep_view(old_out) + seq![old_cur]);
            assert(deep_view(old_out) + seq![old_cur] =~= deep_view(out@) + seq![]);
            assert(deep_view(out@) + seq![] =~= deep_view(out@));
        }
    } else {
        proof {
            assert(deep_view(out@) + seq![] =~= deep_view(out@));
        }
    }
    out
}

/// ASCII decimal digit.
pub open spec fn is_digit(b: u8) -> bool {
    48 <= b <= 57
}

/// Whether every byte of `s` is a decimal digit.
pub open spec fn all_digits(s: Seq<u8>) -> bool {
    forall|i: int| 0 <= i < s.len() ==> is_digit(s[i])
}

/// The number a digit string denotes, most significant digit first.
pub open spec fn digits_val(s: Seq<u8>) -> int
    decreases s.len(),
{
    if s.len() == 0 {
        0
    } else {
        digits_val(s.drop_last()) * 10 + (s.last() - 48)
    }
}

pub proof fn lemma_digits_val_step(s: Seq<u8>, i: int)
    requires
        0 <= i < s.len(),
    ensures
        digits_val(s.take(i + 1)) == digits_val(s.take(i)) * 10 + (s[i] - 48),
{
    assert(s.take(i + 1).drop_last() =~= s.take(i));
    assert(s.take(i + 1).last() == s[i]);
}

/// A longer digit prefix never denotes a smaller number.
pub proof fn lemma_digits_val_prefix_le(s: Seq<u8>, i: int)
    requires
        0 <= i <= s.len(),
        all_digits(s),
    ensures
        digits_val(s.take(i)) <= digits_val(s),
    decreases s.len() - i,
{
    if i < s.len() {
        lemma_digits_val_step(s, i);
        assert(forall|j: int| 0 <= j < i ==> s.take(i)[j] == s[j]);
        lemma_digits_val_nonneg(s.take(i));
        lemma_digits_val_prefix_le(s, i + 1);
    } else {
        assert(s.take(i) =~= s);
    }
}

pub proof fn lemma_digits_val_nonneg(s: Seq<u8>)
    requires
        all_digits(s),
    ensures
        digits_val(s) >= 0,
    decreases s.len(),
{
    if s.len() > 0 {
        assert(forall|j: int| 0 <= j < s.len() - 1 ==> s.drop_last()[j] == s[j]);
        lemma_digits_val_nonneg(s.drop_last());
    }
}

/// Reads a decimal number; `None` on an empty string, a non-digit, or overflow.
pub fn parse_u64(s: &[u8]) -> (r: Option<u64>)
    ensures
        match r {
            Some(v) => s@.len() > 0 && all_digits(s@) && digits_val(s@) == v,
            None => s@.len() == 0 || !all_digits(s@) || digits_val(s@) > u64::MAX,
        },
{
    if s.len() == 0 {
        return None;
    }
    let mut acc: u64 = 0;
    let mut i: usize = 0;
    proof {
        assert(s@.take(0) =~= Seq::<u8>::empty());
    }
    while i < s.len()
        invariant
            0 <= i <= s@.len(),
            acc == digits_val(s@.take(i as int)),
            forall|j: int| 0 <= j < i ==> is_digit(s@[j]),
        decreases s@.len() - i,
    {
        let b = s[i];
        if b < 48 || b > 57 {
            return None;
        }
        proof {
            lemma_digits_val_step(s@, i as int);
        }
        if acc > (u64::MAX - (b - 48) as u64) / 10 {
            proof {
                assert(digits_val(s@.take(i + 1)) > u64::MAX);
                if all_digits(s@) {
                    lemma_digits_val_prefix_le(s@, i + 1);
                }
            }
            return None;
        }
        acc = acc * 10 + (b - 48) as u64;
        i = i + 1;
    }
    proof {
        assert(s@.take(i as int) =~= s@);
    }
    Some(acc)
}

/// The decimal form of `n`, most significant digit first.
pub open spec fn dec_spec(n: nat) -> Seq<u8>
    decreases n,
{
    if n < 10 {
        seq![(48 + n) as u8]
    } else {
        dec_spec(n / 10).push((48 + n % 10) as u8)
    }
}

/// Writes `n` in decimal.
pub fn fmt_u64(n: u64) -> (r: Vec<u8>)
    ensures
        r@ == dec_spec(n as nat),
    decreases n,
{
    if n < 10 {
        let mut v: Vec<u8> = Vec::new();
        v.push(48 + n as u8);
        proof {
            assert(v@ =~= dec_spec(n as nat));
        }
        v
    } else {
        let mut v = fmt_u64(n / 10);
        v.push(48 + (n % 10) as u8);
        v
    }
}

/// The upper-case letters folded to lower case; other bytes unchanged.
pub open spec fn lower_byte(b: u8) -> u8 {
    if 65 <= b <= 90 {
        (b + 32) as u8
    } else {
        b
    }
}

/// Case-insensitive equality on ASCII letters.
pub open spec fn eq_ignore_case_spec(a: Seq<u8>, b: Seq<u8>) -> bool {
    a.map_values(|x: u8| lower_byte(x)) == b.map_values(|x: u8| lower_byte(x))
}

/// Whether two byte strings agree up to ASCII case.
pub fn eq_ignore_ascii_case(a: &[u8], b: &[u8]) -> (r: bool)
    ensures
        r == eq_ignore_case_spec(a@, b@),
{
    let ghost la = a@.map_values(|x: u8| lower_byte(x));
    let ghost lb = b@.map_values(|x: u8| lower_byte(x));
    if a.len() != b.len() {
        proof {
            assert(la.len() != lb.len());
        }
        return false;
    }
    let mut i: usize = 0;
    while i < a.len()
        invariant
            0 <= i <= a@.len(),
            a@.len() == b@.len(),
            la == a@.map_values(|x: u8| lower_byte(x)),
            lb == b@.map_values(|x: u8| lower_byte(x)),
            forall|j: int| 0 <= j < i ==> la[j] == lb[j],
        decreases a@.len() - i,
    {
        let mut x = a[i];
        let mut y = b[i];
        if 65 <= x && x <= 90 {
            x = x + 32;
        }
        if 65 <= y && y <= 90 {
            y = y + 32;
        }
        if x != y {
            proof {
                assert(la[i as int] == lower_byte(a@[i as int]));
                assert(lb[i as int] == lower_byte(b@[i as int]));
            }
            return false;
        }
        i = i + 1;
    }
    proof {
        assert(la =~= lb);
    }
    true
}

/// Whether `s` begins with `p`.
pub open spec fn starts_with_spec(s: Seq<u8>, p: Seq<u8>) -> bool {
    s.len() >= p.len() && s.take(p.len() as int) == p
}

pub fn starts_with(s: &[u8], p: &[u8]) -> (r: bool)
    ensures
        r == starts_with_spec(s@, p@),
{
    if s.len() < p.len() {
        return false;
    }
    let mut i: usize = 0;
    while i < p.len()
        invariant
            0 <= i <= p@.len() <= s@.len(),
            forall|j: int| 0 <= j < i ==> s@[j] == p@[j],
        decreases p@.len() - i,
    {
        if s[i] != p[i] {
            proof {
                assert(s@.take(p@.len() as int)[i as int] == s@[i as int]);
            }
            return false;
        }
        i = i + 1;
    }
    proof {
        assert(s@.take(p@.len() as int) =~= p@);
    }
    true
}

/// Joins `items` with separator `sp` between neighbours.
pub open spec fn join_with_spec(items: Seq<Seq<u8>>, sp: Seq<u8>) -> Seq<u8>
    decreases items.len(),
{
    if items.len() == 0 {
        seq![]
    } else if items.len() == 1 {
        items[0]
    } else {
        join_with_spec(items.drop_last(), sp) + sp + items.last()
    }
}

/// Concatenates byte strings with a separator, as the help listing does.
pub fn join_with(items: &Vec<Vec<u8>>, sp: &[u8]) -> (r: Vec<u8>)
    ensures
        r@ == join_with_spec(deep_view(items@), sp@),
{
    let mut r: Vec<u8> = Vec::new();
    let mut i: usize = 0;
    while i < items.len()
        invariant
            0 <= i <= items@.len(),
            r@ == join_with_spec(deep_view(items@).take(i as int), sp@),
        decreases items@.len() - i,
    {
        if i > 0 {
            append_slice(&mut r, sp);
        }
        append_vec(&mut r, &items[i]);
        proof {
            let d = deep_view(items@);
            assert(d.take(i + 1).drop_last() =~= d.take(i as int));
            assert(d.take(i + 1).last() == d[i as int]);
            if i == 0 {
                assert(d.take(1) =~= seq![d[0]]);
                assert(r@ =~= d[0]);
            }
        }
        i = i + 1;
    }
    proof {
        assert(deep_view(items@).take(items@.len() as int) =~= deep_view(items@));
    }
    r
}

/// Appends all of `s` to `r`.
pub fn append_slice(r: &mut Vec<u8>, s: &[u8])
    ensures
        final(r)@ == old(r)@ + s@,
{
    let mut i: usize = 0;
    while i < s.len()
        invariant
            0 <= i <= s@.len(),
            r@ == old(r)@ + s@.take(i as int),
        decreases s@.len() - i,
    {
        r.push(s[i]);
        i = i + 1;
        proof {
            assert(old(r)@ + s@.take(i as int) =~= (old(r)@ + s@.take(i - 1)).push(
                s@[i - 1],
            ));
        }
    }
    proof {
        assert(s@.take(s@.len() as int) =~= s@);
    }
}

/// Appends all of `s` to `r`.
pub fn append_vec(r: &mut Vec<u8>, s: &Vec<u8>)
    ensures
        final(r)@ == old(r)@ + s@,
{
    append_slice(r, s.as_slice())
}

/// Splitting on a separator byte, one byte at a time; empty pieces are kept.
pub open spec fn split_on_acc(s: Seq<u8>, b: u8, cur: Seq<u8>) -> Seq<Seq<u8>>
    decreases s.len(),
{
    if s.len() == 0 {
        seq![cur]
    } else if s[0] == b {
        seq![cur] + split_on_acc(s.drop_first(), b, seq![])
    } else {
        split_on_acc(s.drop_first(), b, cur.push(s[0]))
    }
}

/// The pieces of `s` between occurrences of `b`, in order, empties kept.
pub open spec fn split_on(s: Seq<u8>, b: u8) -> Seq<Seq<u8>> {
    split_on_acc(s, b, seq![])
}

/// Splits `s` on the byte `b`.
pub fn split_byte(s: &[u8], b: u8) -> (r: Vec<Vec<u8>>)
    ensures
        deep_view(r@) == split_on(s@, b),
{
    let mut out: Vec<Vec<u8>> = Vec::new();
    let mut cur: Vec<u8> = Vec::new();
    let mut i: usize = 0;
    proof {
        assert(s@.skip(0) =~= s@);
        assert(cur@ =~= seq![]);
        assert(deep_view(out@) + split_on_acc(s@, b, seq![]) =~= split_on_acc(s@, b, seq![]));
    }
    while i < s.len()
        invariant
            0 <= i <= s@.len(),
            split_on(s@, b) == deep_view(out@) + split_on_acc(s@.skip(i as int), b, cur@),
        decreases s@.len() - i,
    {
        proof {
            assert(s@.skip(i as int).drop_first() =~= s@.skip(i + 1));
            assert(s@.skip(i as int)[0] == s@[i as int]);
        }
        if s[i] == b {
            let ghost old_out = out@;
            let ghost old_cur = cur@;
            out.push(cur);
            cur = Vec::new();
            proof {
                assert(cur@ =~= seq![]);
                assert(deep_view(out@) =~= deep_view(old_out) + seq![old_cur]);
                assert(deep_view(old_out) + (seq![old_cur] + split_on_acc(
                    s@.skip(i + 1),
                    b,
                    seq![],
                )) =~= deep_view(out@) + split_on_acc(s@.skip(i + 1), b, seq![]));
            }
        } else {
            cur.push(s[i]);
        }
        i = i + 1;
    }
    proof {
        assert(s@.skip(i as int) =~= Seq::<u8>::empty());
    }
    let ghost old_out = out@;
    let ghost old_cur = cur@;
    out.push(cur);
    proof {
        assert(deep_view(out@) =~= deep_view(old_out) + seq![old_cur]);
    }
    out
}

/// Every occurrence of `from` replaced by `to`.
pub open spec fn replace_byte_spec(s: Seq<u8>, from: u8, to: u8) -> Seq<u8> {
    s.map_values(|b: u8| if b == from { to } else { b })
}

/// Replaces every occurrence of one byte by another.
pub fn replace_byte(s: &[u8], from: u8, to: u8) -> (r: Vec<u8>)
    ensures
        r@ == replace_byte_spec(s@, from, to),
{
    let mut r: Vec<u8> = Vec::new();
    let mut i: usize = 0;
    proof {
        assert(r@ =~= replace_byte_spec(s@, from, to).take(0));
    }
    while i < s.len()
        invariant
            0 <= i <= s@.len(),
            r@ == replace_byte_spec(s@, from, to).take(i as int),
        decreases s@.len() - i,
    {
        let b = s[i];
        if b == from {
            r.push(to);
        } else {
            r.push(b);
        }
        proof {
            assert(replace_byte_spec(s@, from, to)[i as int] == (if s@[i as int] == from {
                to
            } else {
                s@[i as int]
            }));
            assert(r@ =~= replace_byte_spec(s@, from, to).take(i + 1));
        }
        i = i + 1;
    }
    proof {
        assert(replace_byte_spec(s@, from, to).take(i as int) =~= replace_byte_spec(
            s@,
            from,
            to,
        ));
    }
    r
}

} // verus!