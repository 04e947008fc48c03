//! Name/value association lists and the map they denote.  Argument
//! bindings and template environments both store pairs in a vector; a later
//! pair shadows an earlier one with the same name.

use vstd::prelude::*;

use crate::text::bytes_eq;

verus! {

/// The map an association list denotes; a later entry shadows an earlier.
pub open spec fn assoc_view(m: Seq<(Vec<u8>, Vec<u8>)>) -> Map<Seq<u8>, Seq<u8>>
    decreases m.len(),
{
    if m.len() == 0 {
        Map::empty()
    } else {
        assoc_view(m.drop_last()).insert(m.last().0@, m.last().1@)
    }
}

pub proof fn lemma_assoc_absent(m: Seq<(Vec<u8>, Vec<u8>)>, key: Seq<u8>)
    requires
        forall|j: int| 0 <= j < m.len() ==> m[j].0@ != key,
    ensures
        !assoc_view(m).contains_key(key),
    decreases m.len(),
{
    if m.len() > 0 {
        lemma_assoc_absent(m.drop_last(), key);
    }
}

/// The last entry carrying `key` decides its value.
pub proof fn lemma_assoc_lookup(m: Seq<(Vec<u8>, Vec<u8>)>, key: Seq<u8>, i: int)
    requires
        0 <= i < m.len(),
        m[i].0@ == key,
        forall|j: int| i < j < m.len() ==> m[j].0@ != key,
    ensures
        assoc_view(m).contains_key(key),
        assoc_view(m)[key] == m[i].1@,
    decreases m.len(),
{
    if i + 1 < m.len() {
        assert(forall|j: int| i < j < m.len() - 1 ==> m.drop_last()[j].0@ != key);
        lemma_assoc_lookup(m.drop_last(), key, i);
    }
}

/// Looks `key` up in an association list, the last entry winning.
pub fn assoc_get<'a>(m: &'a Vec<(Vec<u8>, Vec<u8>)>, key: &[u8]) -> (r: Option<&'a Vec<u8>>)
    ensures
        match r {
            Some(v) => assoc_view(m@).contains_key(key@) && assoc_view(m@)[key@] == v@,
            None => !assoc_view(m@).contains_key(key@),
        },
{
    let mut i: usize = m.len();
    while i > 0
        invariant
            0 <= i <= m@.len(),
            forall|j: int| i <= j < m@.len() ==> m@[j].0@ != key@,
        decreases i,
    {
        i = i - 1;
        if bytes_eq(m[i].0.as_slice(), key) {
            proof {
                lemma_assoc_lookup(m@, key@, i as int);
            }
            return Some(&m[i].1);
        }
    }
    proof {
        lemma_assoc_absent(m@, key@);
    }
    None
}

/// A key is in the denoted map exactly when some entry carries it.
pub proof fn lemma_assoc_domain(m: Seq<(Vec<u8>, Vec<u8>)>, key: Seq<u8>)
    ensures
        assoc_view(m).contains_key(key) == exists|j: int| 0 <= j < m.len() && m[j].0@ == key,
    decreases m.len(),
{
    if m.len() > 0 {
        lemma_assoc_domain(m.drop_last(), key);
        if assoc_view(m).contains_key(key) {
            if m.last().0@ != key {
                let j = choose|j: int| 0 <= j < m.len() - 1 && m.drop_last()[j].0@ == key;
                assert(m[j].0@ == key);
            }
        } else {
            assert(forall|j: int| 0 <= j < m.len() - 1 ==> m.drop_last()[j].0@ == m[j].0@);
        }
    }
}

} // verus!
