//! A response value: the typed payload a handler sends, identified by
//! (module, key) and carrying named, displayable fields.

use vstd::prelude::*;

use crate::templates::parsed::BorrowedEnv;

verus! {

/// One bot message payload: where its templates are filed and the values
/// its placeholders may reference.
pub struct Response {
    pub module: Vec<u8>,
    pub key: Vec<u8>,
    pub env: BorrowedEnv,
}

/// The field names an environment binds, in binding order.
pub open spec fn fields_of(m: Seq<(Vec<u8>, Vec<u8>)>) -> Seq<Seq<u8>> {
    m.map_values(|e: (Vec<u8>, Vec<u8>)| e.0@)
}

/// The field names of a response, in order.
pub fn get_fields(resp: &Response) -> (r: Vec<Vec<u8>>)
    ensures
        crate::text::deep_view(r@) == fields_of(resp.env.map@),
{
    let mut r: Vec<Vec<u8>> = Vec::new();
    let mut i: usize = 0;
    while i < resp.env.map.len()
        invariant
            0 <= i <= resp.env.map@.len(),
            crate::text::deep_view(r@) == fields_of(resp.env.map@).take(i as int),
        decreases resp.env.map@.len() - i,
    {
        let name = &resp.env.map[i].0;
        let ghost old_r = r@;
        r.push(crate::text::subrange_vec(name.as_slice(), 0, name.len()));
        proof {
            assert(name@.subrange(0, name@.len() as int) =~= name@);
            assert(fields_of(resp.env.map@)[i as int] == resp.env.map@[i as int].0@);
            assert(r@.drop_last() =~= old_r);
            assert(crate::text::deep_view(r@) =~= crate::text::deep_view(old_r).push(
                r@.last()@,
            ));
            assert(crate::text::deep_view(r@) =~= fields_of(resp.env.map@).take(i + 1));
        }
        i = i + 1;
    }
    proof {
        assert(fields_of(resp.env.map@).take(i as int) =~= fields_of(resp.env.map@));
    }
    r
}

} // verus!
