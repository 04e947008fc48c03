//! The template store: one parsed template per (module, key, variant),
//! with rendering and the fallback to the default variant.

use vstd::prelude::*;

use super::parsed::{apply_from, BorrowedEnv, Parsed};
use super::variant::Variant;
use crate::text::bytes_eq;

verus! {

/// One stored template and the coordinates it is filed under.
pub struct TemplateEntry {
    pub module: Vec<u8>,
    pub key: Vec<u8>,
    pub variant: Variant,
    pub parsed: Parsed,
}

/// Whether some entry is filed under the triple.
pub open spec fn has_entry(s: Seq<TemplateEntry>, m: Seq<u8>, k: Seq<u8>, v: Variant) -> bool {
    exists|i: int|
        0 <= i < s.len() && s[i].module@ == m && s[i].key@ == k && s[i].variant == v
}

/// Whether some entry is filed under the (module, key) pair, any variant.
pub open spec fn has_group(s: Seq<TemplateEntry>, m: Seq<u8>, k: Seq<u8>) -> bool {
    exists|i: int| 0 <= i < s.len() && s[i].module@ == m && s[i].key@ == k
}

/// Whether `p` is the template filed under the triple.
pub open spec fn found(s: Seq<TemplateEntry>, m: Seq<u8>, k: Seq<u8>, v: Variant, p: Parsed) -> bool {
    exists|i: int|
        0 <= i < s.len() && s[i].module@ == m && s[i].key@ == k && s[i].variant == v
            && s[i].parsed == p
}

/// The variants filed under (module, key), in storage order.
pub open spec fn variants_spec(s: Seq<TemplateEntry>, m: Seq<u8>, k: Seq<u8>) -> Seq<Variant>
    decreases s.len(),
{
    if s.len() == 0 {
        seq![]
    } else {
        let rest = variants_spec(s.drop_last(), m, k);
        if s.last().module@ == m && s.last().key@ == k {
            rest.push(s.last().variant)
        } else {
            rest
        }
    }
}

/// The loaded templates.  A snapshot value: the watcher builds a fresh one
/// and swaps it in whole.
pub struct Templates {
    pub entries: Vec<TemplateEntry>,
}

impl Templates {
    /// Each triple is filed at most once and each stored template is well
    /// formed.
    pub open spec fn wf(&self) -> bool {
        (forall|i: int, j: int|
            0 <= i < j < self.entries@.len() ==> !(self.entries@[i].module@
                == self.entries@[j].module@ && self.entries@[i].key@ == self.entries@[j].key@
                && self.entries@[i].variant == self.entries@[j].variant)) && (forall|i: int|
            0 <= i < self.entries@.len() ==> self.entries@[i].parsed.wf())
    }

    /// A store with nothing in it.
    pub fn new_empty() -> (r: Templates)
        ensures
            r.wf(),
            r.entries@.len() == 0,
    {
        Templates { entries: Vec::new() }
    }

    /// Files `parsed` under the triple.  Refuses a triple already taken.
    pub fn add(&mut self, module: Vec<u8>, key: Vec<u8>, variant: Variant, parsed: Parsed) -> (r:
        bool)
        requires
            old(self).wf(),
            parsed.wf(),
        ensures
            final(self).wf(),
            r == !has_entry(old(self).entries@, module@, key@, variant),
            r ==> final(self).entries@ == old(self).entries@.push(
                (TemplateEntry { module, key, variant, parsed }),
            ),
            !r ==> *final(self) == *old(self),
    {
        if self.find_index(module.as_slice(), key.as_slice(), variant).is_some() {
            return false;
        }
        let ghost old_entries = self.entries@;
        self.entries.push(TemplateEntry { module, key, variant, parsed });
        proof {
            assert forall|i: int, j: int|
                0 <= i < j < self.entries@.len() implies !(self.entries@[i].module@
                == self.entries@[j].module@ && self.entries@[i].key@ == self.entries@[j].key@
                && self.entries@[i].variant == self.entries@[j].variant) by {
                if j == self.entries@.len() - 1 {
                    assert(!has_entry(old_entries, self.entries@[j].module@,
                        self.entries@[j].key@, self.entries@[j].variant));
                }
            }
        }
        true
    }

    /// The position of the entry filed under the triple, if any.
    fn find_index(&self, m: &[u8], k: &[u8], v: Variant) -> (r: Option<usize>)
        ensures
            match r {
                Some(i) => i < self.entries@.len() && self.entries@[i as int].module@ == m@
                    && self.entries@[i as int].key@ == k@ && self.entries@[i as int].variant
                    == v,
                None => !has_entry(self.entries@, m@, k@, v),
            },
    {
        let mut i: usize = 0;
        while i < self.entries.len()
            invariant
                0 <= i <= self.entries@.len(),
                forall|j: int|
                    0 <= j < i ==> !(self.entries@[j].module@ == m@ && self.entries@[j].key@
                        == k@ && self.entries@[j].variant == v),
            decreases self.entries@.len() - i,
        {
            let e = &self.entries[i];
            if bytes_eq(e.module.as_slice(), m) && bytes_eq(e.key.as_slice(), k) && e.variant
                == v {
                return Some(i);
            }
            i = i + 1;
        }
        None
    }

    /// The template filed under exactly this triple.
    pub fn maybe_find(&self, m: &[u8], k: &[u8], v: Variant) -> (r: Option<&Parsed>)
        ensures
            match r {
                Some(p) => found(self.entries@, m@, k@, v, *p),
                None => !has_entry(self.entries@, m@, k@, v),
            },
    {
        match self.find_index(m, k, v) {
            Some(i) => Some(&self.entries[i].parsed),
            None => None,
        }
    }

    /// The template for the triple, falling back to the default variant.
    pub fn try_find(&self, m: &[u8], k: &[u8], v: Variant) -> (r: Option<&Parsed>)
        ensures
            match r {
                Some(p) => if has_entry(self.entries@, m@, k@, v) {
                    found(self.entries@, m@, k@, v, *p)
                } else {
                    found(self.entries@, m@, k@, Variant::Default, *p)
                },
                None => !has_entry(self.entries@, m@, k@, v) && !has_entry(
                    self.entries@,
                    m@,
                    k@,
                    Variant::Default,
                ),
            },
    {
        match self.maybe_find(m, k, v) {
            Some(p) => Some(p),
            None => self.maybe_find(m, k, Variant::Default),
        }
    }

    /// Renders the stored template for (module, key, variant) with the
    /// given environment; nothing when neither the variant nor the default
    /// body exists, and the caller then drops the reply.
    pub fn render(&self, m: &[u8], k: &[u8], v: Variant, env: &BorrowedEnv) -> (r: Option<
        Vec<u8>,
    >)
        ensures
            match r {
                Some(out) => exists|p: Parsed|
                    (if has_entry(self.entries@, m@, k@, v) {
                        found(self.entries@, m@, k@, v, p)
                    } else {
                        found(self.entries@, m@, k@, Variant::Default, p)
                    }) && out@ == apply_from(p.input@, 0, env@),
                None => !has_entry(self.entries@, m@, k@, v) && !has_entry(
                    self.entries@,
                    m@,
                    k@,
                    Variant::Default,
                ),
            },
    {
        match self.try_find(m, k, v) {
            Some(p) => {
                let out = p.apply(env);
                proof {
                    let ghost pp = *p;
                    assert((if has_entry(self.entries@, m@, k@, v) {
                        found(self.entries@, m@, k@, v, pp)
                    } else {
                        found(self.entries@, m@, k@, Variant::Default, pp)
                    }) && out@ == apply_from(pp.input@, 0, env@));
                }
                Some(out)
            },
            None => None,
        }
    }

    /// The variants filed under (module, key); nothing when the pair is
    /// not filed at all.
    pub fn variants_for(&self, m: &[u8], k: &[u8]) -> (r: Option<Vec<Variant>>)
        ensures
            match r {
                Some(vs) => has_group(self.entries@, m@, k@) && vs@ == variants_spec(
                    self.entries@,
                    m@,
                    k@,
                ),
                None => !has_group(self.entries@, m@, k@),
            },
    {
        let mut vs: Vec<Variant> = Vec::new();
        let mut i: usize = 0;
        let mut found_any = false;
        proof {
            assert(self.entries@.take(0) =~= Seq::<TemplateEntry>::empty());
        }
        while i < self.entries.len()
            invariant
                0 <= i <= self.entries@.len(),
                vs@ == variants_spec(self.entries@.take(i as int), m@, k@),
                found_any == exists|j: int|
                    0 <= j < i && self.entries@[j].module@ == m@ && self.entries@[j].key@ == k@,
            decreases self.entries@.len() - i,
        {
            proof {
                assert(self.entries@.take(i + 1).drop_last() =~= self.entries@.take(i as int));
                assert(self.entries@.take(i + 1).last() == self.entries@[i as int]);
            }
            let e = &self.entries[i];
            if bytes_eq(e.module.as_slice(), m) && bytes_eq(e.key.as_slice(), k) {
                vs.push(e.variant);
                found_any = true;
            }
            i = i + 1;
        }
        proof {
            assert(self.entries@.take(i as int) =~= self.entries@);
        }
        if found_any {
            Some(vs)
        } else {
            None
        }
    }
}

} // verus!
