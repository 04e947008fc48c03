//! Template text and its placeholders.
//!
//! A template references values as `${name}`.  Parsing collects the
//! referenced names in order; a `{` inside a placeholder, an unterminated
//! placeholder and an empty placeholder are parse errors.  Substitution
//! replaces every placeholder whose name the environment binds and leaves
//! the others as literal text.

use vstd::prelude::*;

use crate::kv::assoc_view;
use crate::text::{deep_view, find_byte, index_of, lemma_index_of, subrange_vec};
use crate::text::bytes_eq;

verus! {

/// `$`
pub const DOLLAR: u8 = 36;

/// `{`
pub const LBRACE: u8 = 123;

/// `}`
pub const RBRACE: u8 = 125;

/// Why template text was rejected.
#[derive(Clone, Copy, Debug, PartialEq, Eq, Structural)]
pub enum TemplateError {
    /// A `{` opened inside a placeholder.
    Nested,
    /// A placeholder was never closed.
    Unterminated,
    /// A placeholder held no name.
    Empty,
}

/// The placeholder names found from position `i` on, outside a placeholder.
pub open spec fn scan_from(s: Seq<u8>, i: int) -> Result<Seq<Seq<u8>>, TemplateError>
    decreases s.len() - i, 1int,
{
    if i < 0 || i >= s.len() {
        Ok(seq![])
    } else if s[i] == DOLLAR && i + 1 < s.len() && s[i + 1] == LBRACE {
        scan_inside(s, i + 2, i + 2)
    } else {
        scan_from(s, i + 1)
    }
}

/// The names found while inside a placeholder that opened at `start`.
pub open spec fn scan_inside(s: Seq<u8>, start: int, i: int) -> Result<Seq<Seq<u8>>, TemplateError>
    decreases s.len() - i, 0int,
{
    if i < 0 || i >= s.len() {
        Err(TemplateError::Unterminated)
    } else if s[i] == RBRACE {
        if i == start {
            Err(TemplateError::Empty)
        } else {
            match scan_from(s, i + 1) {
                Ok(rest) => Ok(seq![s.subrange(start, i)] + rest),
                Err(e) => Err(e),
            }
        }
    } else if s[i] == LBRACE {
        Err(TemplateError::Nested)
    } else {
        scan_inside(s, start, i + 1)
    }
}

/// The placeholder names of a whole template.
pub open spec fn template_keys(s: Seq<u8>) -> Result<Seq<Seq<u8>>, TemplateError> {
    scan_from(s, 0)
}

/// Prepends already-collected names to a scan result.
pub open spec fn scan_prepend(done: Seq<Seq<u8>>, r: Result<Seq<Seq<u8>>, TemplateError>) -> Result<
    Seq<Seq<u8>>,
    TemplateError,
> {
    match r {
        Ok(rest) => Ok(done + rest),
        Err(e) => Err(e),
    }
}

/// The text with every placeholder the environment binds replaced by its
/// value, scanning from position `i`; an unbound or unterminated
/// placeholder stays literal.
pub open spec fn apply_from(s: Seq<u8>, i: int, env: Map<Seq<u8>, Seq<u8>>) -> Seq<u8>
    decreases s.len() - i,
    via apply_from_dec
{
    if i < 0 || i >= s.len() {
        seq![]
    } else if s[i] == DOLLAR && i + 1 < s.len() && s[i + 1] == LBRACE {
        let j = i + 2 + index_of(s.skip(i + 2), RBRACE);
        if j < s.len() {
            let key = s.subrange(i + 2, j);
            let rep = if env.contains_key(key) {
                env[key]
            } else {
                s.subrange(i, j + 1)
            };
            rep + apply_from(s, j + 1, env)
        } else {
            s.subrange(i, s.len() as int)
        }
    } else {
        seq![s[i]] + apply_from(s, i + 1, env)
    }
}

#[via_fn]
proof fn apply_from_dec(s: Seq<u8>, i: int, env: Map<Seq<u8>, Seq<u8>>) {
    if 0 <= i < s.len() {
        lemma_index_of(s.skip(i + 2), RBRACE);
    }
}

/// A parsed template: its text and the names it references, in order.
pub struct Parsed {
    pub input: Vec<u8>,
    pub keys: Vec<Vec<u8>>,
}

impl Parsed {
    /// A template is well formed when its recorded keys are what a scan of
    /// its text finds.
    pub open spec fn wf(&self) -> bool {
        template_keys(self.input@) == Ok::<Seq<Seq<u8>>, TemplateError>(deep_view(self.keys@))
    }

    /// The placeholder names `input` references, in order; an error exactly
    /// when the text is not well formed.
    pub fn find_keys(input: &[u8]) -> (r: Result<Vec<Vec<u8>>, TemplateError>)
        ensures
            match r {
                Ok(keys) => template_keys(input@) == Ok::<Seq<Seq<u8>>, TemplateError>(
                    deep_view(keys@),
                ),
                Err(e) => template_keys(input@) == Err::<Seq<Seq<u8>>, TemplateError>(e),
            },
    {
        let mut out: Vec<Vec<u8>> = Vec::new();
        let mut i: usize = 0;
        // the opening position of the placeholder being read, if any
        let mut inside: Option<usize> = None;
        proof {
            assert(deep_view(out@) =~= Seq::<Seq<u8>>::empty());
        }
        while i < input.len()
            invariant
                0 <= i <= input@.len(),
                match inside {
                    None => template_keys(input@) == scan_prepend(
                        deep_view(out@),
                        scan_from(input@, i as int),
                    ),
                    Some(st) => 0 <= st <= i && template_keys(input@) == scan_prepend(
                        deep_view(out@),
                        scan_inside(input@, st as int, i as int),
                    ),
                },
            decreases input@.len() - i,
        {
            match inside {
                None => {
                    if input[i] == DOLLAR && i + 1 < input.len() && input[i + 1] == LBRACE {
                        inside = Some(i + 2);
                        i = i + 2;
                    } else {
                        i = i + 1;
                    }
                },
                Some(st) => {
                    if input[i] == RBRACE {
                        if i == st {
                            return Err(TemplateError::Empty);
                        }
                        let key = subrange_vec(input, st, i);
                        let ghost old_out = out@;
                        out.push(key);
                        proof {
                            assert(deep_view(out@) =~= deep_view(old_out) + seq![
                                input@.subrange(st as int, i as int),
                            ]);
                            assert(forall|rest: Seq<Seq<u8>>|
                                deep_view(old_out) + (seq![
                                    input@.subrange(st as int, i as int),
                                ] + rest) =~= deep_view(out@) + rest);
                        }
                        inside = None;
                        i = i + 1;
                    } else if input[i] == LBRACE {
                        return Err(TemplateError::Nested);
                    } else {
                        i = i + 1;
                    }
                },
            }
        }
        match inside {
            None => {
                proof {
                    assert(deep_view(out@) + Seq::<Seq<u8>>::empty() =~= deep_view(out@));
                }
                Ok(out)
            },
            Some(_) => Err(TemplateError::Unterminated),
        }
    }

    /// Reads template text; succeeds exactly on well-formed text.
    pub fn parse(input: &[u8]) -> (r: Result<Parsed, TemplateError>)
        ensures
            match r {
                Ok(p) => p.input@ == input@ && p.wf(),
                Err(e) => template_keys(input@) == Err::<Seq<Seq<u8>>, TemplateError>(e),
            },
    {
        match Self::find_keys(input) {
            Ok(keys) => Ok(Parsed { input: subrange_vec(input, 0, input.len()), keys }),
            Err(e) => Err(e),
        }
    }

    /// Substitutes the environment into the template text.
    pub fn apply(&self, env: &BorrowedEnv) -> (r: Vec<u8>)
        ensures
            r@ == apply_from(self.input@, 0, env@),
    {
        let s = self.input.as_slice();
        let mut out: Vec<u8> = Vec::new();
        let mut i: usize = 0;
        proof {
            assert(out@ + apply_from(s@, 0, env@) =~= apply_from(s@, 0, env@));
        }
        while i < s.len()
            invariant
                0 <= i <= s@.len(),
                s@ == self.input@,
                apply_from(s@, 0, env@) == out@ + apply_from(s@, i as int, env@),
            decreases s@.len() - i,
        {
            let ghost old_out = out@;
            if s[i] == DOLLAR && i + 1 < s.len() && s[i + 1] == LBRACE {
                let rest = subrange_vec(s, i + 2, s.len());
                proof {
                    assert(rest@ =~= s@.skip(i + 2));
                }
                let off = find_byte(rest.as_slice(), RBRACE);
                proof {
                    lemma_index_of(rest@, RBRACE);
                }
                let j = i + 2 + off;
                if j < s.len() {
                    let key = subrange_vec(s, i + 2, j);
                    proof {
                        assert(key@ =~= s@.subrange(i + 2, j as int));
                    }
                    match env.get(key.as_slice()) {
                        Some(v) => {
                            let copied = subrange_vec(v.as_slice(), 0, v.len());
                            proof {
                                assert(copied@ =~= v@);
                            }
                            crate::text::append_vec(&mut out, &copied);
                        },
                        None => {
                            let lit = subrange_vec(s, i, j + 1);
                            proof {
                                assert(lit@ =~= s@.subrange(i as int, j + 1));
                            }
                            crate::text::append_vec(&mut out, &lit);
                        },
                    }
                    proof {
                        let rep = if env@.contains_key(key@) {
                            env@[key@]
                        } else {
                            s@.subrange(i as int, j + 1)
                        };
                        assert(out@ == old_out + rep);
                        assert(apply_from(s@, i as int, env@) == rep + apply_from(
                            s@,
                            j + 1,
                            env@,
                        ));
                        assert(old_out + (rep + apply_from(s@, j + 1, env@)) =~= out@
                            + apply_from(s@, j + 1, env@));
                    }
                    i = j + 1;
                } else {
                    let lit = subrange_vec(s, i, s.len());
                    proof {
                        assert(lit@ =~= s@.subrange(i as int, s@.len() as int));
                    }
                    crate::text::append_vec(&mut out, &lit);
                    proof {
                        assert(out@ + Seq::<u8>::empty() =~= out@);
                        assert(apply_from(s@, s@.len() as int, env@) =~= Seq::<u8>::empty());
                    }
                    i = s.len();
                }
            } else {
                out.push(s[i]);
                proof {
                    assert(apply_from(s@, i as int, env@) == seq![s@[i as int]] + apply_from(
                        s@,
                        i + 1,
                        env@,
                    ));
                    assert(old_out + (seq![s@[i as int]] + apply_from(s@, i + 1, env@)) =~= out@
                        + apply_from(s@, i + 1, env@));
                }
                i = i + 1;
            }
        }
        proof {
            assert(out@ + Seq::<u8>::empty() =~= out@);
        }
        out
    }
}

/// A substitution environment: names bound to displayable values.
pub struct BorrowedEnv {
    pub map: Vec<(Vec<u8>, Vec<u8>)>,
}

impl View for BorrowedEnv {
    type V = Map<Seq<u8>, Seq<u8>>;

    open spec fn view(&self) -> Map<Seq<u8>, Seq<u8>> {
        assoc_view(self.map@)
    }
}

impl BorrowedEnv {
    /// An environment binding nothing.
    pub fn new_empty() -> (r: BorrowedEnv)
        ensures
            r@ == Map::<Seq<u8>, Seq<u8>>::empty(),
    {
        BorrowedEnv { map: Vec::new() }
    }

    /// This environment with `key` bound to `val`.
    pub fn insert(self, key: Vec<u8>, val: Vec<u8>) -> (r: BorrowedEnv)
        ensures
            r@ == self@.insert(key@, val@),
    {
        let mut m = self;
        let ghost old_map = m.map@;
        m.map.push((key, val));
        proof {
            assert(m.map@.drop_last() =~= old_map);
        }
        m
    }

    /// The value bound to `key`, if any.
    pub fn get<'a>(&'a self, key: &[u8]) -> (r: Option<&'a Vec<u8>>)
        ensures
            match r {
                Some(v) => self@.contains_key(key@) && self@[key@] == v@,
                None => !self@.contains_key(key@),
            },
    {
        crate::kv::assoc_get(&self.map, key)
    }
}

} // verus!
