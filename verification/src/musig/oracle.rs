use vstd::prelude::*;
use crate::group::Field;
use crate::group::Group;
use crate::hash::hash;
use crate::hash::slices_view;
use crate::musig::model::agg_coefficient;
use crate::musig::model::agg_tag;
use crate::musig::model::all_valid;
use crate::musig::model::challenge;
use crate::musig::model::com_tag;
use crate::musig::model::commitment;
use crate::musig::model::points_view;
use crate::musig::model::sig_tag;

verus! {

/// The encodings of the keys of a list, in order.
fn encode_all<T: Group>(pk_list: &Vec<T>) -> (encs: Vec<Vec<u8>>)
    requires
        all_valid(pk_list@),
    ensures
        encs@.len() == pk_list@.len(),
        forall|i: int| 0 <= i < encs@.len() ==> (#[trigger] encs@[i])@ == pk_list@[i]@,
{
    let mut encs: Vec<Vec<u8>> = Vec::new();
    let mut i: usize = 0;
    while i < pk_list.len()
        invariant
            i <= pk_list.len(),
            all_valid(pk_list@),
            encs@.len() == i,
            forall|j: int| 0 <= j < i ==> (#[trigger] encs@[j])@ == pk_list@[j]@,
        decreases pk_list.len() - i,
    {
        encs.push(pk_list[i].to_bytes());
        i += 1;
    }
    encs
}

/// Hash agg: Takes in a list of public keys and an individual's public key and hashes them prefixed with "agg"
pub fn hash_agg<T: Group>(pk_list: &Vec<T>, pk: &T) -> (r: T::Scalar)
    requires
        all_valid(pk_list@),
        T::valid(pk@),
    ensures
        r.wf(),
        r.value() == agg_coefficient::<T>(points_view(pk_list@), pk@),
{
    let tag: [u8; 3] = [0x61, 0x67, 0x67];
    let encs = encode_all(pk_list);
    let pk_bytes = pk.to_bytes();
    let mut inputs: Vec<&[u8]> = Vec::new();
    inputs.push(tag.as_slice());
    assert(tag@ =~= agg_tag());
    assert(slices_view(inputs@) =~= seq![agg_tag()] + points_view(pk_list@).subrange(0, 0));
    let mut i: usize = 0;
    while i < encs.len()
        invariant
            i <= encs.len(),
            encs@.len() == pk_list@.len(),
            forall|j: int| 0 <= j < encs@.len() ==> (#[trigger] encs@[j])@ == pk_list@[j]@,
            slices_view(inputs@) == seq![agg_tag()] + points_view(pk_list@).subrange(
                0,
                i as int,
            ),
        decreases encs.len() - i,
    {
        let ghost before = slices_view(inputs@);
        inputs.push(encs[i].as_slice());
        assert(slices_view(inputs@) =~= before.push(pk_list@[i as int]@));
        assert(slices_view(inputs@) =~= seq![agg_tag()] + points_view(pk_list@).subrange(
            0,
            i as int + 1,
        ));
        i += 1;
    }
    let ghost before = slices_view(inputs@);
    inputs.push(pk_bytes.as_slice());
    proof {
        assert(points_view(pk_list@).subrange(0, pk_list@.len() as int) =~= points_view(
            pk_list@,
        ));
        assert(slices_view(inputs@) =~= before.push(pk@));
        assert(slices_view(inputs@) =~= seq![agg_tag()] + points_view(pk_list@) + seq![pk@]);
    }
    hash::<T>(inputs)
}

/// Creates a commitment by hashing a value prefixed with "com"
pub fn hash_com<T: Group>(r: T) -> (c: T::Scalar)
    requires
        T::valid(r@),
    ensures
        c.wf(),
        c.value() == commitment::<T>(r@),
{
    let tag: [u8; 3] = [0x63, 0x6f, 0x6d];
    let r_bytes = r.to_bytes();
    let mut input: Vec<&[u8]> = Vec::new();
    input.push(tag.as_slice());
    input.push(r_bytes.as_slice());
    assert(tag@ =~= com_tag());
    assert(slices_view(input@) =~= seq![com_tag(), r@]);
    hash::<T>(input)
}

/// Hashes a collective public key, a collective R point, and a message prefixed with "sig"
pub fn hash_sig<T: Group>(x: T, r: T, m: &[u8]) -> (c: T::Scalar)
    requires
        T::valid(x@),
        T::valid(r@),
    ensures
        c.wf(),
        c.value() == challenge::<T>(x@, r@, m@),
{
    let tag: [u8; 3] = [0x73, 0x69, 0x67];
    let x_bytes = x.to_bytes();
    let r_bytes = r.to_bytes();
    let mut input: Vec<&[u8]> = Vec::new();
    input.push(tag.as_slice());
    input.push(x_bytes.as_slice());
    input.push(r_bytes.as_slice());
    input.push(m);
    assert(tag@ =~= sig_tag());
    assert(slices_view(input@) =~= seq![sig_tag(), x@, r@, m@]);
    hash::<T>(input)
}

} // verus!
