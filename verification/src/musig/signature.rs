use vstd::prelude::*;
use vstd::slice::slice_subrange;
use crate::group::Field;
use crate::group::Group;
use crate::musig::model::agg_coefficient;
use crate::musig::model::aggregate_key;
use crate::musig::model::all_valid;
use crate::musig::model::all_wf;
use crate::musig::model::decoded_signature;
use crate::musig::model::encoded_verifies;
use crate::musig::model::key_sum;
use crate::musig::model::points_view;
use crate::musig::model::valid_signature;
use crate::musig::model::verifies;
use crate::musig::model::SignatureView;
use crate::musig::oracle::hash_agg;
use crate::musig::oracle::hash_sig;

verus! {

/// Represents a signature with s and R
#[derive(Debug)]
pub struct Signature<G: Group> {
    s: G::Scalar,
    r_point: G,
}

impl<G: Group> Clone for Signature<G> {
    fn clone(&self) -> (r: Self)
        ensures
            r == *self,
    {
        *self
    }
}

impl<G: Group> Copy for Signature<G> {

}

impl<G: Group> View for Signature<G> {
    type V = SignatureView;

    closed spec fn view(&self) -> SignatureView {
        SignatureView { s: self.s.value(), r_point: self.r_point@ }
    }
}

impl<G: Group> Signature<G> {
    /// A signature is well formed when its two parts are.
    pub closed spec fn wf(&self) -> bool {
        &&& self.s.wf()
        &&& G::valid(self.r_point@)
    }

    /// The encoding of the signature: the encoding of its scalar, then the
    /// encoding of its nonce point.
    pub closed spec fn encoding(&self) -> Seq<u8> {
        self.s.encoding() + self.r_point@
    }

    /// A signature from its two parts.
    pub fn new(s: G::Scalar, r_point: G) -> (sig: Self)
        requires
            s.wf(),
            G::valid(r_point@),
        ensures
            sig.wf(),
            sig@ == (SignatureView { s: s.value(), r_point: r_point@ }),
            sig.encoding() == s.encoding() + r_point@,
    {
        Signature { s, r_point }
    }

    /// Returns the s value of a signature
    pub fn s(&self) -> (s: G::Scalar)
        requires
            self.wf(),
        ensures
            s.wf(),
            s.value() == self@.s,
    {
        self.s
    }

    /// Returns the R value of a signature
    pub fn r_point(&self) -> (p: G)
        requires
            self.wf(),
        ensures
            G::valid(p@),
            p@ == self@.r_point,
    {
        self.r_point
    }

    /// The signature as bytes: the encoding of the scalar, then the encoding
    /// of the nonce point.
    pub fn to_bytes(&self) -> (bytes: Vec<u8>)
        requires
            self.wf(),
        ensures
            bytes@ == self.encoding(),
            valid_signature::<G>(bytes@),
            decoded_signature::<G>(bytes@) == self@,
    {
        let mut bytes = self.s.to_bytes();
        let r_bytes = self.r_point.to_bytes();
        let ghost s_bytes = bytes@;
        let mut k: usize = 0;
        while k < r_bytes.len()
            invariant
                k <= r_bytes.len(),
                bytes@ == s_bytes + r_bytes@.subrange(0, k as int),
            decreases r_bytes.len() - k,
        {
            bytes.push(r_bytes[k]);
            assert(bytes@ =~= s_bytes + r_bytes@.subrange(0, k as int + 1));
            k += 1;
        }
        proof {
            assert(bytes@ =~= s_bytes + r_bytes@);
            self.s.lemma_wf();
            G::lemma_valid(r_bytes@);
            let cut = G::Scalar::encoding_len() as int;
            assert(bytes@.subrange(0, cut) =~= s_bytes);
            assert(bytes@.subrange(cut, bytes@.len() as int) =~= r_bytes@);
        }
        bytes
    }

    /// Reads a signature from bytes: there is one exactly where the bytes
    /// are the encoding of a scalar followed by the encoding of a group
    /// element.
    pub fn from_bytes(bytes: &[u8]) -> (res: Option<Self>)
        ensures
            res.is_some() == valid_signature::<G>(bytes@),
            res.is_some() ==> res.unwrap().wf() && res.unwrap().encoding() == bytes@
                && res.unwrap()@ == decoded_signature::<G>(bytes@),
    {
        let cut: usize = G::Scalar::encoded_len();
        let rest: usize = G::encoded_len();
        if bytes.len() < cut || bytes.len() - cut != rest {
            return None;
        }
        let s_part = slice_subrange(bytes, 0, cut);
        let r_part = slice_subrange(bytes, cut, bytes.len());
        let s = match G::Scalar::from_bytes(s_part) {
            Some(s) => s,
            None => {
                return None;
            },
        };
        let r_point = match G::from_bytes(r_part) {
            Some(r_point) => r_point,
            None => {
                return None;
            },
        };
        proof {
            assert(bytes@ =~= bytes@.subrange(0, cut as int) + bytes@.subrange(
                cut as int,
                bytes@.len() as int,
            ));
            s.lemma_wf();
        }
        Some(Signature { s, r_point })
    }
}

/// The aggregation coefficient of every key of the list, in order.
pub fn key_coefficients<T: Group>(pk_list: &Vec<T>) -> (a_vec: Vec<T::Scalar>)
    requires
        all_valid(pk_list@),
    ensures
        a_vec@.len() == pk_list@.len(),
        all_wf(a_vec@),
        forall|i: int|
            0 <= i < a_vec@.len() ==> (#[trigger] a_vec@[i]).value() == agg_coefficient::<T>(
                points_view(pk_list@),
                pk_list@[i]@,
            ),
{
    let mut a_vec: Vec<T::Scalar> = Vec::new();
    let mut i: usize = 0;
    while i < pk_list.len()
        invariant
            i <= pk_list.len(),
            all_valid(pk_list@),
            a_vec@.len() == i,
            all_wf(a_vec@),
            forall|j: int|
                0 <= j < i ==> (#[trigger] a_vec@[j]).value() == agg_coefficient::<T>(
                    points_view(pk_list@),
                    pk_list@[j]@,
                ),
        decreases pk_list.len() - i,
    {
        let a = hash_agg(pk_list, &pk_list[i]);
        a_vec.push(a);
        i += 1;
    }
    a_vec
}

/// The aggregate key of a key list under its coefficients: the keys, each
/// multiplied by its coefficient, added up in order from the identity.
pub fn combine_keys<T: Group>(pk_list: &Vec<T>, a_vec: &Vec<T::Scalar>) -> (x: T)
    requires
        a_vec@.len() == pk_list@.len(),
        all_valid(pk_list@),
        all_wf(a_vec@),
        forall|i: int|
            0 <= i < a_vec@.len() ==> (#[trigger] a_vec@[i]).value() == agg_coefficient::<T>(
                points_view(pk_list@),
                pk_list@[i]@,
            ),
    ensures
        T::valid(x@),
        x@ == aggregate_key::<T>(points_view(pk_list@)),
{
    let mut x = T::identity();
    let mut i: usize = 0;
    while i < pk_list.len()
        invariant
            i <= pk_list.len(),
            a_vec@.len() == pk_list@.len(),
            all_valid(pk_list@),
            all_wf(a_vec@),
            forall|j: int|
                0 <= j < a_vec@.len() ==> (#[trigger] a_vec@[j]).value() == agg_coefficient::<T>(
                    points_view(pk_list@),
                    pk_list@[j]@,
                ),
            T::valid(x@),
            x@ == key_sum::<T>(points_view(pk_list@), i as nat),
        decreases pk_list.len() - i,
    {
        let term = pk_list[i].mul(&a_vec[i]);
        x = x.add(&term);
        i += 1;
    }
    x
}

/// Verify a signature given the message and a list of public keys used in signing
pub fn verify<T: Group>(signature: Signature<T>, pk_list: Vec<T>, message: &[u8]) -> (ok: bool)
    requires
        signature.wf(),
        all_valid(pk_list@),
    ensures
        ok == verifies::<T>(signature@, points_view(pk_list@), message@),
{
    let s = signature.s();
    let r_point = signature.r_point();
    let a_vec = key_coefficients(&pk_list);
    let x = combine_keys(&pk_list, &a_vec);
    if x.is_identity() || r_point.is_identity() {
        return false;
    }
    let c = hash_sig(x, r_point, message);
    let left = T::generator().mul(&s);
    let right = r_point.add(&x.mul(&c));
    left.equals(&right)
}

/// The byte strings of a list of vectors.
pub open spec fn vecs_view(list: Seq<Vec<u8>>) -> Seq<Seq<u8>> {
    Seq::new(list.len(), |i: int| list[i]@)
}

/// Verifies a signature as it arrives: the bytes of the signature, the
/// encodings of the signers' public keys in order, and the message. Bytes
/// that are no signature and encodings that are no keys are refused.
pub fn verify_bytes<T: Group>(signature: &[u8], pk_list: &Vec<Vec<u8>>, message: &[u8]) -> (ok:
    bool)
    ensures
        ok == encoded_verifies::<T>(signature@, vecs_view(pk_list@), message@),
{
    let sig = match Signature::<T>::from_bytes(signature) {
        Some(sig) => sig,
        None => {
            return false;
        },
    };
    let ghost pks = vecs_view(pk_list@);
    let mut keys: Vec<T> = Vec::new();
    let mut i: usize = 0;
    while i < pk_list.len()
        invariant
            i <= pk_list.len(),
            pks == vecs_view(pk_list@),
            keys@.len() == i,
            all_valid(keys@),
            forall|j: int| 0 <= j < i ==> (#[trigger] keys@[j])@ == pks[j],
        decreases pk_list.len() - i,
    {
        match T::from_bytes(pk_list[i].as_slice()) {
            Some(key) => {
                keys.push(key);
            },
            None => {
                assert(!T::valid(pks[i as int]));
                return false;
            },
        }
        i += 1;
    }
    proof {
        assert(points_view(keys@) =~= pks);
        assert forall|j: int| 0 <= j < pks.len() implies T::valid(#[trigger] pks[j]) by {
            assert(T::valid(keys@[j]@));
        }
    }
    verify(sig, keys, message)
}

} // verus!
