//! The built-in module's decisions: greeting storage and the passive
//! greeter.  Times and token echoes are formatted by their callers; what
//! is decided from message text is decided here.

use vstd::prelude::*;

use crate::text::{eq_ignore_ascii_case, eq_ignore_case_spec, is_space, subrange_vec};

verus! {

/// `!`
pub const EXCL: u8 = 33;

/// `?`
pub const QUEST: u8 = 63;

/// `.`
pub const STOP: u8 = 46;

/// The punctuation the greeter ignores at the end of a message.
pub open spec fn is_greet_punct(b: u8) -> bool {
    b == EXCL || b == QUEST || b == STOP
}

/// `s` without its trailing greeting punctuation.
pub open spec fn trim_punct_spec(s: Seq<u8>) -> Seq<u8>
    decreases s.len(),
{
    if s.len() > 0 && is_greet_punct(s[s.len() - 1]) {
        trim_punct_spec(s.drop_last())
    } else {
        s
    }
}

/// Removes trailing `!`, `?` and `.` from a message.
pub fn trim_punct(s: &[u8]) -> (r: Vec<u8>)
    ensures
        r@ == trim_punct_spec(s@),
{
    proof {
        assert(s@.take(s@.len() as int) =~= s@);
    }
    let mut j: usize = s.len();
    while j > 0 && (s[j - 1] == EXCL || s[j - 1] == QUEST || s[j - 1] == STOP)
        invariant
            0 <= j <= s@.len(),
            trim_punct_spec(s@) == trim_punct_spec(s@.take(j as int)),
        decreases j,
    {
        proof {
            assert(s@.take(j as int).drop_last() =~= s@.take(j - 1));
        }
        j = j - 1;
    }
    proof {
        assert(trim_punct_spec(s@.take(j as int)) == s@.take(j as int));
        assert(s@.take(j as int) =~= s@.subrange(0, j as int));
    }
    subrange_vec(s, 0, j)
}

/// `hello`, the greeting used when none is stored.
pub open spec fn lit_hello() -> Seq<u8> {
    seq![104u8, 101u8, 108u8, 108u8, 111u8]
}

/// The stored greetings, reloaded live from their data file.
pub struct Greetings {
    pub list: Vec<Vec<u8>>,
}

impl Greetings {
    /// Whether some stored greeting equals `key` up to ASCII case.
    pub fn contains(&self, key: &[u8]) -> (r: bool)
        ensures
            r == exists|i: int|
                0 <= i < self.list@.len() && eq_ignore_case_spec(#[trigger] self.list@[i]@, key@),
    {
        let mut i: usize = 0;
        while i < self.list.len()
            invariant
                0 <= i <= self.list@.len(),
                forall|j: int|
                    0 <= j < i ==> !eq_ignore_case_spec(#[trigger] self.list@[j]@, key@),
            decreases self.list@.len() - i,
        {
            if eq_ignore_ascii_case(self.list[i].as_slice(), key) {
                return true;
            }
            i = i + 1;
        }
        false
    }

    /// One stored greeting, chosen by chance; `hello` when none is stored.
    pub fn choose_greeting(&self) -> (r: Vec<u8>)
        ensures
            self.list@.len() == 0 ==> r@ == lit_hello(),
            self.list@.len() > 0 ==> exists|i: int|
                0 <= i < self.list@.len() && r@ == #[trigger] self.list@[i]@,
    {
        if self.list.len() == 0 {
            let mut v: Vec<u8> = Vec::new();
            v.push(104);
            v.push(101);
            v.push(108);
            v.push(108);
            v.push(111);
            proof {
                assert(v@ =~= lit_hello());
            }
            v
        } else {
            let i = crate::rng::pick_index(self.list.len());
            let g = &self.list[i];
            let r = subrange_vec(g.as_slice(), 0, g.len());
            proof {
                assert(r@ =~= self.list@[i as int]@);
            }
            r
        }
    }

    /// The passive greeter: a message that, with trailing punctuation
    /// dropped, equals a stored greeting gets one back; anything else
    /// gets nothing.
    pub fn say_hello(&self, data: &[u8]) -> (r: Option<Vec<u8>>)
        ensures
            match r {
                Some(g) => (exists|i: int|
                    0 <= i < self.list@.len() && eq_ignore_case_spec(
                        #[trigger] self.list@[i]@,
                        trim_punct_spec(data@),
                    )) && (exists|i: int|
                    0 <= i < self.list@.len() && g@ == #[trigger] self.list@[i]@),
                None => !exists|i: int|
                    0 <= i < self.list@.len() && eq_ignore_case_spec(
                        #[trigger] self.list@[i]@,
                        trim_punct_spec(data@),
                    ),
            },
    {
        let t = trim_punct(data);
        if self.contains(t.as_slice()) {
            Some(self.choose_greeting())
        } else {
            None
        }
    }
}

} // verus!
