//! Startup verification: every placeholder a response's templates
//! reference must name a field of the response, the response must have at
//! least one field, and some template must exist for it.  Any failure
//! aborts startup before a message is processed.

use vstd::prelude::*;

use super::engine::{has_group, TemplateEntry, Templates};
use super::variant::Variant;
use crate::text::{deep_view, subrange_vec};
use crate::text::bytes_eq;

verus! {

/// Whether `x` occurs among `xs`.
pub open spec fn seq_has(xs: Seq<Seq<u8>>, x: Seq<u8>) -> bool {
    exists|i: int| 0 <= i < xs.len() && xs[i] == x
}

/// The placeholder names among `keys` that are no field, in order.
pub open spec fn missing_of(keys: Seq<Seq<u8>>, fields: Seq<Seq<u8>>) -> Seq<Seq<u8>>
    decreases keys.len(),
{
    if keys.len() == 0 {
        seq![]
    } else {
        let rest = missing_of(keys.drop_last(), fields);
        if !seq_has(fields, keys.last()) {
            rest.push(keys.last())
        } else {
            rest
        }
    }
}

/// The first stored template for (module, key), scanning from `i`, that
/// references a name outside `fields`.
pub open spec fn flawed_from(
    s: Seq<TemplateEntry>,
    m: Seq<u8>,
    k: Seq<u8>,
    fields: Seq<Seq<u8>>,
    i: int,
) -> Option<int>
    decreases s.len() - i,
{
    if i < 0 || i >= s.len() {
        None
    } else if s[i].module@ == m && s[i].key@ == k && missing_of(
        deep_view(s[i].parsed.keys@),
        fields,
    ).len() > 0 {
        Some(i)
    } else {
        flawed_from(s, m, k, fields, i + 1)
    }
}

/// Why a response failed verification.
#[derive(Debug)]
pub enum VerifyError {
    /// The response exposes no field.
    NoFields,
    /// No template at all is filed for the response.
    NoTemplates,
    /// A variant's template references names that are no field of the
    /// response; the offending names are carried along.
    MissingVariantKeys { variant: Variant, missing: Vec<Vec<u8>> },
}

/// A verified response: fields exist, templates exist, and no variant
/// references a name outside the fields.
pub open spec fn verify_ok(s: Seq<TemplateEntry>, m: Seq<u8>, k: Seq<u8>, fields: Seq<Seq<u8>>) -> bool {
    fields.len() > 0 && has_group(s, m, k) && flawed_from(s, m, k, fields, 0) is None
}

/// Exactly when each verification error is reported.
pub open spec fn verify_err_spec(
    s: Seq<TemplateEntry>,
    m: Seq<u8>,
    k: Seq<u8>,
    fields: Seq<Seq<u8>>,
    e: VerifyError,
) -> bool {
    match e {
        VerifyError::NoFields => fields.len() == 0,
        VerifyError::NoTemplates => fields.len() > 0 && !has_group(s, m, k),
        VerifyError::MissingVariantKeys { variant, missing } => fields.len() > 0 && has_group(
            s,
            m,
            k,
        ) && match flawed_from(s, m, k, fields, 0) {
            Some(ix) => s[ix].variant == variant && deep_view(missing@) == missing_of(
                deep_view(s[ix].parsed.keys@),
                fields,
            ),
            None => false,
        },
    }
}

/// Whether `x` occurs among `xs`.
fn contains_bytes(xs: &Vec<Vec<u8>>, x: &[u8]) -> (r: bool)
    ensures
        r == seq_has(deep_view(xs@), x@),
{
    let mut i: usize = 0;
    while i < xs.len()
        invariant
            0 <= i <= xs@.len(),
            forall|j: int| 0 <= j < i ==> deep_view(xs@)[j] != x@,
        decreases xs@.len() - i,
    {
        if bytes_eq(xs[i].as_slice(), x) {
            proof {
                assert(deep_view(xs@)[i as int] == x@);
            }
            return true;
        }
        i = i + 1;
    }
    false
}

/// The names among `keys` that are no field.
fn missing_keys(keys: &Vec<Vec<u8>>, fields: &Vec<Vec<u8>>) -> (r: Vec<Vec<u8>>)
    ensures
        deep_view(r@) == missing_of(deep_view(keys@), deep_view(fields@)),
{
    let ghost kv = deep_view(keys@);
    let ghost fv = deep_view(fields@);
    let mut r: Vec<Vec<u8>> = Vec::new();
    let mut i: usize = 0;
    proof {
        assert(kv.take(0) =~= Seq::<Seq<u8>>::empty());
        assert(deep_view(r@) =~= missing_of(kv.take(0), fv));
    }
    while i < keys.len()
        invariant
            0 <= i <= keys@.len(),
            kv == deep_view(keys@),
            fv == deep_view(fields@),
            deep_view(r@) == missing_of(kv.take(i as int), fv),
        decreases keys@.len() - i,
    {
        proof {
            assert(kv.take(i + 1).drop_last() =~= kv.take(i as int));
            assert(kv.take(i + 1).last() == kv[i as int]);
            assert(kv[i as int] == keys@[i as int]@);
        }
        if !contains_bytes(fields, keys[i].as_slice()) {
            let k = &keys[i];
            r.push(subrange_vec(k.as_slice(), 0, k.len()));
            proof {
                assert(r@.last()@ =~= kv[i as int]);
                assert(deep_view(r@) =~= deep_view(r@.drop_last()).push(r@.last()@));
            }
        }
        i = i + 1;
    }
    proof {
        assert(kv.take(i as int) =~= kv);
    }
    r
}

/// Checks a response's fields against every template filed for it.
pub fn verify_response(t: &Templates, m: &[u8], k: &[u8], fields: &Vec<Vec<u8>>) -> (r: Result<
    (),
    VerifyError,
>)
    ensures
        match r {
            Ok(_) => verify_ok(t.entries@, m@, k@, deep_view(fields@)),
            Err(e) => verify_err_spec(t.entries@, m@, k@, deep_view(fields@), e),
        },
{
    let ghost fv = deep_view(fields@);
    if fields.len() == 0 {
        return Err(VerifyError::NoFields);
    }
    if t.variants_for(m, k).is_none() {
        return Err(VerifyError::NoTemplates);
    }
    let mut i: usize = 0;
    while i < t.entries.len()
        invariant
            0 <= i <= t.entries@.len(),
            fv == deep_view(fields@),
            fv.len() > 0,
            has_group(t.entries@, m@, k@),
            flawed_from(t.entries@, m@, k@, fv, 0) == flawed_from(t.entries@, m@, k@, fv,
                i as int,
            ),
        decreases t.entries@.len() - i,
    {
        let e = &t.entries[i];
        if bytes_eq(e.module.as_slice(), m) && bytes_eq(e.key.as_slice(), k) {
            let missing = missing_keys(&e.parsed.keys, fields);
            if missing.len() > 0 {
                return Err(VerifyError::MissingVariantKeys { variant: e.variant, missing });
            }
        }
        i = i + 1;
    }
    Ok(())
}

/// Why a response could not be registered.
#[derive(Debug)]
pub enum RegisterError {
    /// A response is already registered under this (module, key).
    AlreadyExists,
    /// The response failed template verification.
    Verification(VerifyError),
}

/// Whether a (module, key) pair is already registered.
pub open spec fn pair_in(s: Seq<(Vec<u8>, Vec<u8>)>, m: Seq<u8>, k: Seq<u8>) -> bool {
    exists|i: int| 0 <= i < s.len() && s[i].0@ == m && s[i].1@ == k
}

/// The set of registered response identities, each verified against the
/// loaded templates when it was added.
pub struct ResponseRegistry {
    pub entries: Vec<(Vec<u8>, Vec<u8>)>,
}

impl ResponseRegistry {
    /// A registry with nothing in it.
    pub fn new_empty() -> (r: ResponseRegistry)
        ensures
            r.entries@.len() == 0,
    {
        ResponseRegistry { entries: Vec::new() }
    }

    /// Forgets every registered response.
    pub fn reset_registry(&mut self)
        ensures
            final(self).entries@.len() == 0,
    {
        self.entries = Vec::new();
    }

    /// Registers a response identity after verifying its fields against
    /// the loaded templates.  A pair may be registered once.
    pub fn add_to_registry(&mut self, t: &Templates, module: Vec<u8>, key: Vec<u8>, fields: &Vec<
        Vec<u8>,
    >) -> (r: Result<(), RegisterError>)
        ensures
            match r {
                Ok(_) => !pair_in(old(self).entries@, module@, key@) && verify_ok(
                    t.entries@,
                    module@,
                    key@,
                    deep_view(fields@),
                ) && final(self).entries@ == old(self).entries@.push((module, key)),
                Err(RegisterError::AlreadyExists) => pair_in(old(self).entries@, module@, key@)
                    && final(self).entries@ == old(self).entries@,
                Err(RegisterError::Verification(e)) => !pair_in(old(self).entries@, module@, key@)
                    && verify_err_spec(t.entries@, module@, key@, deep_view(fields@), e)
                    && final(self).entries@ == old(self).entries@,
            },
    {
        let mut i: usize = 0;
        while i < self.entries.len()
            invariant
                0 <= i <= self.entries@.len(),
                self.entries@ == old(self).entries@,
                forall|j: int|
                    0 <= j < i ==> !(self.entries@[j].0@ == module@ && self.entries@[j].1@
                        == key@),
            decreases self.entries@.len() - i,
        {
            if bytes_eq(self.entries[i].0.as_slice(), module.as_slice()) && bytes_eq(
                self.entries[i].1.as_slice(),
                key.as_slice(),
            ) {
                return Err(RegisterError::AlreadyExists);
            }
            i = i + 1;
        }
        match verify_response(t, module.as_slice(), key.as_slice(), fields) {
            Ok(_) => {
                self.entries.push((module, key));
                Ok(())
            },
            Err(e) => Err(RegisterError::Verification(e)),
        }
    }
}

} // verus!
