//! Argument patterns and matching.
//!
//! A usage pattern is a whitespace-delimited list of tokens: `<name>` is a
//! required argument, `<name?>` an optional one, `<name..>` takes the whole
//! rest of the text.  Any other token is ignored.  Duplicate names and a
//! variadic token that is not last are load-time errors.

use vstd::prelude::*;

use crate::text::{
    deep_view, find_byte, index_of, lemma_index_of, split_whitespace, split_ws, subrange_vec, trim,
    trim_spec, SP,
};
use crate::text::bytes_eq;
use crate::kv::{assoc_view, lemma_assoc_absent, lemma_assoc_lookup};

verus! {

/// `<`
pub const LT: u8 = 60;

/// `>`
pub const GT: u8 = 62;

/// `?`
pub const QM: u8 = 63;

/// `.`
pub const DOT: u8 = 46;

/// How one declared argument consumes text.
#[derive(Clone, Copy, Debug, PartialEq, Eq, Structural)]
pub enum Kind {
    Required,
    Optional,
    Variadic,
}

/// One declared argument: its name and its kind.
pub struct ArgType {
    pub key: Vec<u8>,
    pub kind: Kind,
}

/// A parsed usage pattern: the pattern text as given, and the declared
/// arguments it holds.
pub struct ExampleArgs {
    pub usage: Vec<u8>,
    pub args: Vec<ArgType>,
}

/// Why a usage pattern was rejected.
#[derive(Clone, Copy, Debug, PartialEq, Eq, Structural)]
pub enum PatternError {
    /// Two declared arguments share a name.
    DuplicateKey,
    /// A variadic token stands before the end of the pattern.
    VariadicNotLast,
}

/// The outcome of matching message text against a pattern.
pub enum Match<T> {
    /// A required argument had no text to bind to.
    Required,
    /// The text matches and binds the carried arguments.
    Match(T),
    /// The text is not an invocation of this command.
    NoMatch,
}

/// Arguments bound by a match: name/value pairs, a later pair winning.
pub struct Arguments {
    pub map: Vec<(Vec<u8>, Vec<u8>)>,
}

impl View for Arguments {
    type V = Map<Seq<u8>, Seq<u8>>;

    open spec fn view(&self) -> Map<Seq<u8>, Seq<u8>> {
        assoc_view(self.map@)
    }
}

impl Arguments {
    /// A binding with no arguments.
    pub fn new_empty() -> (r: Arguments)
        ensures
            r@ == Map::<Seq<u8>, Seq<u8>>::empty(),
    {
        Arguments { map: Vec::new() }
    }

    /// The value bound to `key`, if any.
    pub fn get(&self, key: &[u8]) -> (r: Option<&Vec<u8>>)
        ensures
            match r {
                Some(v) => self@.contains_key(key@) && self@[key@] == v@,
                None => !self@.contains_key(key@),
            },
    {
        let mut i: usize = self.map.len();
        while i > 0
            invariant
                0 <= i <= self.map@.len(),
                forall|j: int| i <= j < self.map@.len() ==> self.map@[j].0@ != key@,
            decreases i,
        {
            i = i - 1;
            if bytes_eq(self.map[i].0.as_slice(), key) {
                proof {
                    lemma_assoc_lookup(self.map@, key@, i as int);
                }
                return Some(&self.map[i].1);
            }
        }
        proof {
            lemma_assoc_absent(self.map@, key@);
        }
        None
    }

    /// The value bound to `key`, read as a decimal number; the outer level
    /// says whether the key is bound, the inner whether it parses.
    pub fn get_parsed(&self, key: &[u8]) -> (r: Option<Option<u64>>)
        ensures
            match r {
                Some(p) => self@.contains_key(key@) && match p {
                    Some(v) => crate::text::all_digits(self@[key@]) && self@[key@].len() > 0
                        && crate::text::digits_val(self@[key@]) == v,
                    None => self@[key@].len() == 0 || !crate::text::all_digits(self@[key@])
                        || crate::text::digits_val(self@[key@]) > u64::MAX,
                },
                None => !self@.contains_key(key@),
            },
    {
        match self.get(key) {
            Some(v) => Some(crate::text::parse_u64(v.as_slice())),
            None => None,
        }
    }
}

/// Name bytes a pattern accepts: ASCII letters, digits, `_` and `-`.
pub open spec fn is_key_byte(b: u8) -> bool {
    (65 <= b <= 90) || (97 <= b <= 122) || (48 <= b <= 57) || b == 95 || b == 45
}

pub open spec fn all_key_bytes(s: Seq<u8>) -> bool {
    forall|i: int| 0 <= i < s.len() ==> is_key_byte(s[i])
}

/// The argument a single pattern token declares, if it declares one.
pub open spec fn token_arg(tok: Seq<u8>) -> Option<(Seq<u8>, Kind)> {
    if tok.len() >= 4 && tok[0] == LT && tok[tok.len() - 1] == GT && tok[tok.len() - 2] == DOT
        && tok[tok.len() - 3] == DOT && all_key_bytes(tok.subrange(1, tok.len() - 3)) {
        Some((tok.subrange(1, tok.len() - 3), Kind::Variadic))
    } else if tok.len() >= 3 && tok[0] == LT && tok[tok.len() - 1] == GT && tok[tok.len() - 2]
        == QM && all_key_bytes(tok.subrange(1, tok.len() - 2)) {
        Some((tok.subrange(1, tok.len() - 2), Kind::Optional))
    } else if tok.len() >= 2 && tok[0] == LT && tok[tok.len() - 1] == GT && all_key_bytes(
        tok.subrange(1, tok.len() - 1),
    ) {
        Some((tok.subrange(1, tok.len() - 1), Kind::Required))
    } else {
        None
    }
}

/// The arguments the pattern tokens declare, in order, other tokens ignored.
pub open spec fn pattern_args(toks: Seq<Seq<u8>>) -> Seq<(Seq<u8>, Kind)>
    decreases toks.len(),
{
    if toks.len() == 0 {
        seq![]
    } else {
        match token_arg(toks.first()) {
            Some(a) => seq![a] + pattern_args(toks.drop_first()),
            None => pattern_args(toks.drop_first()),
        }
    }
}

/// The view of declared arguments as name/kind pairs.
pub open spec fn args_view(args: Seq<ArgType>) -> Seq<(Seq<u8>, Kind)> {
    args.map_values(|a: ArgType| (a.key@, a.kind))
}

/// The first flaw a left-to-right scan of the declared arguments meets:
/// an argument after a variadic one, or a repeated name.
pub open spec fn flaw_from(args: Seq<(Seq<u8>, Kind)>, i: int) -> Option<PatternError>
    decreases args.len() - i,
{
    if i < 0 || i >= args.len() {
        None
    } else if exists|j: int| 0 <= j < i && args[j].1 == Kind::Variadic {
        Some(PatternError::VariadicNotLast)
    } else if exists|j: int| 0 <= j < i && args[j].0 == args[i].0 {
        Some(PatternError::DuplicateKey)
    } else {
        flaw_from(args, i + 1)
    }
}

/// What is wrong with a declared argument list, if anything.
pub open spec fn pattern_flaw(args: Seq<(Seq<u8>, Kind)>) -> Option<PatternError> {
    flaw_from(args, 0)
}

/// A flawless argument list has unique names and any variadic token last.
pub proof fn lemma_flawless(args: Seq<(Seq<u8>, Kind)>, i: int)
    requires
        0 <= i <= args.len(),
        flaw_from(args, i) is None,
        forall|a: int, b: int| 0 <= a < b < i ==> args[a].0 != args[b].0,
        forall|a: int| 0 <= a < i && args[a].1 == Kind::Variadic ==> a == args.len() - 1,
    ensures
        forall|a: int, b: int| 0 <= a < b < args.len() ==> args[a].0 != args[b].0,
        forall|a: int|
            0 <= a < args.len() && args[a].1 == Kind::Variadic ==> a == args.len() - 1,
    decreases args.len() - i,
{
    if i < args.len() {
        assert(forall|j: int| 0 <= j < i ==> args[j].1 != Kind::Variadic);
        assert(!(exists|j: int| 0 <= j < i && args[j].0 == args[i].0));
        assert(flaw_from(args, i + 1) is None);
        if args[i].1 == Kind::Variadic && i + 1 < args.len() {
            assert(flaw_from(args, i + 1) == Some(PatternError::VariadicNotLast));
            assert(false);
        }
        lemma_flawless(args, i + 1);
    }
}

/// Classifies one pattern token.
fn token_arg_exec(tok: &Vec<u8>) -> (r: Option<ArgType>)
    ensures
        match r {
            Some(a) => token_arg(tok@) == Some((a.key@, a.kind)),
            None => token_arg(tok@) is None,
        },
{
    let n = tok.len();
    if n < 2 || tok[0] != LT || tok[n - 1] != GT {
        return None;
    }
    if n >= 4 && tok[n - 2] == DOT && tok[n - 3] == DOT {
        let key = subrange_vec(tok.as_slice(), 1, n - 3);
        if all_key_bytes_exec(key.as_slice()) {
            return Some(ArgType { key, kind: Kind::Variadic });
        }
        return None;
    }
    if n >= 3 && tok[n - 2] == QM {
        let key = subrange_vec(tok.as_slice(), 1, n - 2);
        if all_key_bytes_exec(key.as_slice()) {
            return Some(ArgType { key, kind: Kind::Optional });
        }
        return None;
    }
    let key = subrange_vec(tok.as_slice(), 1, n - 1);
    if all_key_bytes_exec(key.as_slice()) {
        return Some(ArgType { key, kind: Kind::Required });
    }
    None
}

/// Whether every byte of `s` may stand in an argument name.
fn all_key_bytes_exec(s: &[u8]) -> (r: bool)
    ensures
        r == all_key_bytes(s@),
{
    let mut i: usize = 0;
    while i < s.len()
        invariant
            0 <= i <= s@.len(),
            forall|j: int| 0 <= j < i ==> is_key_byte(s@[j]),
        decreases s@.len() - i,
    {
        let b = s[i];
        if !((65 <= b && b <= 90) || (97 <= b && b <= 122) || (48 <= b && b <= 57) || b == 95
            || b == 45) {
            return false;
        }
        i = i + 1;
    }
    true
}

/// Whether a declared argument among the first `upto` carries `key`.
fn has_key(args: &Vec<ArgType>, upto: usize, key: &[u8]) -> (r: bool)
    requires
        upto <= args@.len(),
    ensures
        r == exists|j: int| 0 <= j < upto && args@[j].key@ == key@,
{
    let mut i: usize = 0;
    while i < upto
        invariant
            0 <= i <= upto <= args@.len(),
            forall|j: int| 0 <= j < i ==> args@[j].key@ != key@,
        decreases upto - i,
    {
        if bytes_eq(args[i].key.as_slice(), key) {
            return true;
        }
        i = i + 1;
    }
    false
}

impl ExampleArgs {
    /// Reads a usage pattern.  Succeeds exactly when the declared arguments
    /// have no flaw; the declared list is then what the tokens denote.
    pub fn parse(input: &[u8]) -> (r: Result<ExampleArgs, PatternError>)
        ensures
            match r {
                Ok(ea) => ea.usage@ == input@ && args_view(ea.args@) == pattern_args(
                    split_ws(input@),
                ) && pattern_flaw(pattern_args(split_ws(input@))) is None,
                Err(e) => pattern_flaw(pattern_args(split_ws(input@))) == Some(e),
            },
    {
        let toks = split_whitespace(input);
        let ghost tv = deep_view(toks@);
        let ghost full = pattern_args(tv);
        let mut args: Vec<ArgType> = Vec::new();
        let mut have_variadic: bool = false;
        let mut i: usize = 0;
        proof {
            assert(tv.skip(0) =~= tv);
            assert(args_view(args@) + pattern_args(tv) =~= pattern_args(tv));
        }
        while i < toks.len()
            invariant
                0 <= i <= toks@.len(),
                tv == deep_view(toks@),
                tv == split_ws(input@),
                full == pattern_args(tv),
                full == args_view(args@) + pattern_args(tv.skip(i as int)),
                args@.len() <= full.len(),
                forall|j: int| 0 <= j < args@.len() ==> full[j] == args_view(args@)[j],
                have_variadic == exists|j: int|
                    0 <= j < args@.len() && args@[j].kind == Kind::Variadic,
                flaw_from(full, 0) == flaw_from(full, args@.len() as int),
                forall|a: int, b: int|
                    0 <= a < b < args@.len() ==> args@[a].key@ != args@[b].key@,
            decreases toks@.len() - i,
        {
            proof {
                assert(tv.skip(i as int).drop_first() =~= tv.skip(i + 1));
                assert(tv.skip(i as int).first() == tv[i as int]);
                assert(tv[i as int] == toks@[i as int]@);
            }
            let ghost k = args@.len() as int;
            match token_arg_exec(&toks[i]) {
                None => {},
                Some(a) => {
                    proof {
                        assert(pattern_args(tv.skip(i as int)) == seq![(a.key@, a.kind)]
                            + pattern_args(tv.skip(i + 1)));
                        assert(full[k] == (a.key@, a.kind));
                    }
                    proof {
                        assert(forall|j: int| 0 <= j < k ==> args_view(args@)[j] == (
                            args@[j].key@,
                            args@[j].kind,
                        ));
                    }
                    if have_variadic {
                        proof {
                            let j = choose|j: int|
                                0 <= j < args@.len() && args@[j].kind == Kind::Variadic;
                            assert(full[j].1 == Kind::Variadic);
                            assert(flaw_from(full, k) == Some(PatternError::VariadicNotLast));
                        }
                        return Err(PatternError::VariadicNotLast);
                    }
                    if has_key(&args, args.len(), a.key.as_slice()) {
                        proof {
                            let j = choose|j: int|
                                0 <= j < args@.len() && args@[j].key@ == a.key@;
                            assert(full[j].0 == full[k].0);
                            assert(flaw_from(full, k) == Some(PatternError::DuplicateKey));
                        }
                        return Err(PatternError::DuplicateKey);
                    }
                    proof {
                        assert(forall|j: int| 0 <= j < k ==> full[j].1 != Kind::Variadic);
                        assert(forall|j: int| 0 <= j < k ==> full[j].0 != full[k].0);
                        assert(flaw_from(full, k) == flaw_from(full, k + 1));
                    }
                    let ghost old_args = args@;
                    args.push(a);
                    proof {
                        assert(args_view(args@) =~= args_view(old_args) + seq![
                            (args@.last().key@, args@.last().kind),
                        ]);
                        assert(args_view(old_args) + (seq![(args@.last().key@, args@.last().kind)]
                            + pattern_args(tv.skip(i + 1))) =~= args_view(args@) + pattern_args(
                            tv.skip(i + 1),
                        ));
                    }
                    if matches!(args[args.len() - 1].kind, Kind::Variadic) {
                        have_variadic = true;
                    }
                },
            }
            i = i + 1;
        }
        proof {
            assert(tv.skip(i as int) =~= Seq::<Seq<u8>>::empty());
            assert(args_view(args@) + pattern_args(tv.skip(i as int)) =~= args_view(args@));
            assert(flaw_from(full, args@.len() as int) is None);
        }
        Ok(ExampleArgs { usage: subrange_vec(input, 0, input.len()), args })
    }

    /// Whether this pattern's declared arguments have no flaw.
    pub fn parse_ok(&self) -> (r: bool)
        ensures
            r == (pattern_flaw(args_view(self.args@)) is None),
    {
        let ghost a = args_view(self.args@);
        let mut i: usize = 0;
        let mut hv = false;
        while i < self.args.len()
            invariant
                0 <= i <= self.args@.len(),
                a == args_view(self.args@),
                hv == exists|j: int| 0 <= j < i && a[j].1 == Kind::Variadic,
                flaw_from(a, 0) == flaw_from(a, i as int),
                forall|x: int, y: int| 0 <= x < y < i ==> a[x].0 != a[y].0,
            decreases self.args@.len() - i,
        {
            proof {
                assert(forall|j: int| 0 <= j <= i ==> a[j] == (
                    self.args@[j].key@,
                    self.args@[j].kind,
                ));
            }
            if hv {
                proof {
                    assert(flaw_from(a, i as int) == Some(PatternError::VariadicNotLast));
                }
                return false;
            }
            if has_key(&self.args, i, self.args[i].key.as_slice()) {
                proof {
                    let j = choose|j: int| 0 <= j < i && self.args@[j].key@
                        == self.args@[i as int].key@;
                    assert(a[j].0 == a[i as int].0);
                    assert(flaw_from(a, i as int) == Some(PatternError::DuplicateKey));
                }
                return false;
            }
            proof {
                assert(forall|x: int| 0 <= x < i ==> a[x].0 == self.args@[x].key@);
                assert(forall|x: int| 0 <= x < i ==> a[x].0 != a[i as int].0);
                assert(forall|x: int| 0 <= x < i ==> a[x].1 != Kind::Variadic);
                assert(flaw_from(a, i as int) == flaw_from(a, i + 1));
            }
            let isv = matches!(self.args[i].kind, Kind::Variadic);
            proof {
                assert(a[i as int].1 == self.args@[i as int].kind);
            }
            if isv {
                hv = true;
                proof {
                    assert(a[i as int].1 == Kind::Variadic);
                }
            } else {
                proof {
                    assert forall|j: int| 0 <= j < i + 1 implies a[j].1 != Kind::Variadic by {
                        if j < i {
                            assert(!(exists|x: int| 0 <= x < i && a[x].1 == Kind::Variadic));
                        } else {
                            assert(a[i as int].1 != Kind::Variadic);
                        }
                    }
                }
            }
            i = i + 1;
        }
        true
    }

    /// Whether some declared argument has the given kind.
    pub fn contains(&self, arg: &Kind) -> (r: bool)
        ensures
            r == exists|j: int|
                0 <= j < self.args@.len() && args_view(self.args@)[j].1 == *arg,
    {
        let mut i: usize = 0;
        while i < self.args.len()
            invariant
                0 <= i <= self.args@.len(),
                forall|j: int| 0 <= j < i ==> args_view(self.args@)[j].1 != *arg,
            decreases self.args@.len() - i,
        {
            if self.args[i].kind == *arg {
                proof {
                    assert(args_view(self.args@)[i as int].1 == *arg);
                }
                return true;
            }
            i = i + 1;
        }
        false
    }

    /// The bindings matching assigns: declared arguments consume one
    /// space-delimited word each, a variadic or final argument the rest.
    pub open spec fn match_map(args: Seq<(Seq<u8>, Kind)>, input: Seq<u8>) -> Map<
        Seq<u8>,
        Seq<u8>,
    >
        decreases args.len(),
    {
        if args.len() == 0 {
            Map::empty()
        } else {
            let key = args[0].0;
            let kind = args[0].1;
            let sp = index_of(input, SP);
            if kind == Kind::Variadic || sp >= input.len() {
                if input.len() > 0 {
                    Map::empty().insert(key, input)
                } else {
                    Map::empty()
                }
            } else {
                Self::match_map(args.drop_first(), trim_spec(input.skip(sp))).insert(
                    key,
                    input.take(sp),
                )
            }
        }
    }

    /// Matches message text against this pattern.  Empty text with a
    /// required argument pending asks for a usage hint; text given to a
    /// pattern with no arguments is not a match; anything else binds
    /// arguments as `match_map` says.
    pub fn extract(&self, input: &[u8]) -> (r: Match<Arguments>)
        ensures
            ({
                let a = args_view(self.args@);
                match r {
                    Match::Required => input@.len() == 0 && exists|j: int|
                        0 <= j < a.len() && a[j].1 == Kind::Required,
                    Match::NoMatch => input@.len() > 0 && a.len() == 0,
                    Match::Match(m) => ((input@.len() > 0) ==> a.len() > 0) && (input@.len() == 0
                        ==> forall|j: int| 0 <= j < a.len() ==> a[j].1 != Kind::Required)
                        && m@ == Self::match_map(a, input@),
                }
            }),
    {
        if input.len() == 0 {
            if self.contains(&Kind::Required) {
                return Match::Required;
            }
        }
        if input.len() > 0 && self.args.len() == 0 {
            return Match::NoMatch;
        }
        let m = Self::walk(&self.args, 0, subrange_vec(input, 0, input.len()));
        proof {
            assert(args_view(self.args@).skip(0) =~= args_view(self.args@));
            assert(input@.subrange(0, input@.len() as int) =~= input@);
        }
        Match::Match(m)
    }

    /// Binds the declared arguments from `idx` on against `input`.
    fn walk(args: &Vec<ArgType>, idx: usize, input: Vec<u8>) -> (m: Arguments)
        requires
            idx <= args@.len(),
        ensures
            m@ == Self::match_map(args_view(args@).skip(idx as int), input@),
        decreases args@.len() - idx,
    {
        let ghost a = args_view(args@).skip(idx as int);
        let ghost e = Seq::<(Vec<u8>, Vec<u8>)>::empty();
        if idx >= args.len() {
            proof {
                assert(a =~= Seq::<(Seq<u8>, Kind)>::empty());
                assert(assoc_view(e) == Map::<Seq<u8>, Seq<u8>>::empty());
            }
            return Arguments { map: Vec::new() };
        }
        proof {
            assert(a[0] == args_view(args@)[idx as int]);
            assert(args_view(args@)[idx as int] == (args@[idx as int].key@, args@[idx as int].kind));
            assert(a.drop_first() =~= args_view(args@).skip(idx + 1));
        }
        let sp = find_byte(input.as_slice(), SP);
        proof {
            lemma_index_of(input@, SP);
        }
        let is_variadic = matches!(args[idx].kind, Kind::Variadic);
        if is_variadic || sp >= input.len() {
            let mut m = Arguments { map: Vec::new() };
            if input.len() > 0 {
                let key = subrange_vec(args[idx].key.as_slice(), 0, args[idx].key.len());
                proof {
                    assert(key@ =~= a[0].0);
                }
                m.map.push((key, input));
                proof {
                    assert(m.map@.drop_last() =~= e);
                    assert(assoc_view(e) == Map::<Seq<u8>, Seq<u8>>::empty());
                    assert(m@ == assoc_view(e).insert(m.map@.last().0@, m.map@.last().1@));
                    assert(m@ =~= Self::match_map(a, m.map@.last().1@));
                }
            } else {
                proof {
                    assert(m.map@ =~= e);
                    assert(assoc_view(e) == Map::<Seq<u8>, Seq<u8>>::empty());
                    assert(m@ =~= Self::match_map(a, input@));
                }
            }
            m
        } else {
            let head = subrange_vec(input.as_slice(), 0, sp);
            let tail = trim(subrange_vec(input.as_slice(), sp, input.len()).as_slice());
            proof {
                assert(head@ =~= input@.take(sp as int));
                assert(input@.subrange(sp as int, input@.len() as int) =~= input@.skip(sp as int));
            }
            let mut m = Self::walk(args, idx + 1, tail);
            let key = subrange_vec(args[idx].key.as_slice(), 0, args[idx].key.len());
            proof {
                assert(key@ =~= a[0].0);
            }
            let ghost old_map = m.map@;
            m.map.push((key, head));
            proof {
                assert(m.map@.drop_last() =~= old_map);
                assert(m@ =~= Self::match_map(a, input@));
            }
            m
        }
    }
}

/// A usage pattern in which two declared arguments share a name never
/// parses: its declared list has a flaw, so `parse` reports an error.
pub proof fn law_duplicate_names_rejected(input: Seq<u8>)
    requires
        exists|i: int, j: int|
            0 <= i < j < pattern_args(split_ws(input)).len() && (#[trigger] pattern_args(
                split_ws(input),
            )[i]).0 == (#[trigger] pattern_args(split_ws(input))[j]).0,
    ensures
        pattern_flaw(pattern_args(split_ws(input))) is Some,
{
    let args = pattern_args(split_ws(input));
    if pattern_flaw(args) is None {
        lemma_flawless(args, 0);
    }
}

/// A usage pattern in which a variadic token is not the last declared
/// argument never parses: its declared list has a flaw, so `parse`
/// reports an error.
pub proof fn law_variadic_not_last_rejected(input: Seq<u8>, i: int)
    requires
        0 <= i < pattern_args(split_ws(input)).len(),
        pattern_args(split_ws(input))[i].1 == Kind::Variadic,
        i != pattern_args(split_ws(input)).len() - 1,
    ensures
        pattern_flaw(pattern_args(split_ws(input))) is Some,
{
    let args = pattern_args(split_ws(input));
    if pattern_flaw(args) is None {
        lemma_flawless(args, 0);
    }
}

} // verus!