use vstd::prelude::*;
use vstd::arithmetic::div_mod::lemma_small_mod;
use vstd::slice::slice_to_vec;
use elliptic_curve::PrimeField;
use crate::group::be_value;
use crate::group::field_add;
use crate::group::field_inverse;
use crate::group::field_mul;
use crate::group::lemma_be_value_injective;
use crate::group::lemma_inverse_unique;
use crate::group::Field;

verus! {

/// Number of bytes in the canonical encoding of a scalar.
pub const SCALAR_LEN: usize = 32;

/// The order `n` of the secp256k1 group, which is the modulus of its scalar
/// field.
pub open spec fn group_order() -> nat {
    0xFFFFFFFFFFFFFFFFFFFFFFFFFFFFFFFEBAAEDCE6AF48A03BBFD25E8CD0364141nat
}

/// Whether a byte string is the canonical encoding of a scalar: 32 bytes
/// that denote, as a big-endian number, a number below the group order.
pub open spec fn valid_scalar(enc: Seq<u8>) -> bool {
    &&& enc.len() == SCALAR_LEN
    &&& be_value(enc) < group_order()
}

/// An element of the scalar field of secp256k1, held as its canonical
/// big-endian encoding.
#[derive(Clone, Copy, Debug)]
pub struct Scalar {
    bytes: [u8; 32],
}

impl Scalar {
    /// The held bytes.
    pub closed spec fn bytes(&self) -> Seq<u8> {
        self.bytes@
    }

    /// The canonical encoding as an array.
    pub fn to_array(&self) -> (r: [u8; 32])
        ensures
            r@ == self.bytes(),
    {
        self.bytes
    }

    /// Decodes a scalar, from `PrimeField::from_repr` on `k256::Scalar`,
    /// which accepts exactly the big-endian numbers below the group order;
    /// the bytes are kept as they are.
    #[verifier::external_body]
    fn decode(bytes: &[u8; 32]) -> (r: Option<Scalar>)
        ensures
            r.is_some() == (be_value(bytes@) < group_order()),
            r.is_some() ==> r.unwrap().bytes() == bytes@,
    {
        let s: Option<k256::Scalar> = k256::Scalar::from_repr((*bytes).into()).into();
        s.map(|_| Scalar { bytes: *bytes })
    }

    /// The scalar of a small number, from `k256::Scalar::from(u64)`: the
    /// result denotes the number itself, which is below the group order.
    #[verifier::external_body]
    fn of_u64(k: u64) -> (r: Scalar)
        ensures
            valid_scalar(r.bytes()),
            be_value(r.bytes()) == k,
    {
        Scalar { bytes: k256::Scalar::from(k).to_repr().into() }
    }

    /// The scalar of a number of 128 bits, from `PrimeField::from_u128` on
    /// `k256::Scalar`: the result denotes the number itself, which is below
    /// the group order.
    #[verifier::external_body]
    fn of_u128(k: u128) -> (r: Scalar)
        ensures
            valid_scalar(r.bytes()),
            be_value(r.bytes()) == k,
    {
        Scalar { bytes: k256::Scalar::from_u128(k).to_repr().into() }
    }

    /// A scalar sampled by `Field::random` on `k256::Scalar` from the
    /// thread's random number generator. Nothing is claimed of the outcome
    /// but that it is a scalar; it may be zero.
    #[verifier::external_body]
    fn sample() -> (r: Scalar)
        ensures
            valid_scalar(r.bytes()),
    {
        let s = <k256::Scalar as elliptic_curve::Field>::random(rand::thread_rng());
        Scalar { bytes: s.to_repr().into() }
    }

    /// Sum of two scalars, from `k256::Scalar::add`: addition modulo the group
    /// order on the numbers that the two encodings denote.
    #[verifier::external_body]
    fn sum(&self, other: &Scalar) -> (r: Scalar)
        requires
            valid_scalar(self.bytes()),
            valid_scalar(other.bytes()),
        ensures
            valid_scalar(r.bytes()),
            be_value(r.bytes()) == field_add(
                group_order(),
                be_value(self.bytes()),
                be_value(other.bytes()),
            ),
    {
        let a = k256::Scalar::from_repr(self.bytes.into()).unwrap();
        let b = k256::Scalar::from_repr(other.bytes.into()).unwrap();
        Scalar { bytes: a.add(&b).to_repr().into() }
    }

    /// Product of two scalars, from `k256::Scalar::mul`: multiplication
    /// modulo the group order on the numbers that the two encodings denote.
    #[verifier::external_body]
    fn product(&self, other: &Scalar) -> (r: Scalar)
        requires
            valid_scalar(self.bytes()),
            valid_scalar(other.bytes()),
        ensures
            valid_scalar(r.bytes()),
            be_value(r.bytes()) == field_mul(
                group_order(),
                be_value(self.bytes()),
                be_value(other.bytes()),
            ),
    {
        let a = k256::Scalar::from_repr(self.bytes.into()).unwrap();
        let b = k256::Scalar::from_repr(other.bytes.into()).unwrap();
        Scalar { bytes: a.mul(&b).to_repr().into() }
    }

    /// Twice a scalar, from `Field::double` on `k256::Scalar`, which adds the
    /// scalar to itself modulo the group order.
    #[verifier::external_body]
    fn twice(&self) -> (r: Scalar)
        requires
            valid_scalar(self.bytes()),
        ensures
            valid_scalar(r.bytes()),
            be_value(r.bytes()) == field_add(
                group_order(),
                be_value(self.bytes()),
                be_value(self.bytes()),
            ),
    {
        let a = k256::Scalar::from_repr(self.bytes.into()).unwrap();
        Scalar { bytes: elliptic_curve::Field::double(&a).to_repr().into() }
    }

    /// The multiplicative inverse, from `k256::Scalar::invert`: there is none
    /// for zero, and for every other scalar the product of the scalar and the
    /// result is one.
    #[verifier::external_body]
    fn reciprocal(&self) -> (r: Option<Scalar>)
        requires
            valid_scalar(self.bytes()),
        ensures
            r.is_some() == (be_value(self.bytes()) != 0),
            r.is_some() ==> valid_scalar(r.unwrap().bytes()),
            r.is_some() ==> field_mul(
                group_order(),
                be_value(self.bytes()),
                be_value(r.unwrap().bytes()),
            ) == 1,
    {
        let a = k256::Scalar::from_repr(self.bytes.into()).unwrap();
        let inv: Option<k256::Scalar> = a.invert().into();
        inv.map(|v| Scalar { bytes: v.to_repr().into() })
    }
}

impl Field for Scalar {
    open spec fn order() -> nat {
        group_order()
    }

    open spec fn encoding_len() -> nat {
        SCALAR_LEN as nat
    }

    open spec fn valid(enc: Seq<u8>) -> bool {
        valid_scalar(enc)
    }

    open spec fn encoded_value(enc: Seq<u8>) -> nat {
        be_value(enc)
    }

    open spec fn value(&self) -> nat {
        be_value(self.bytes())
    }

    open spec fn encoding(&self) -> Seq<u8> {
        self.bytes()
    }

    open spec fn wf(&self) -> bool {
        valid_scalar(self.bytes())
    }

    proof fn lemma_order() {
    }

    proof fn lemma_wf(&self) {
    }

    fn encoded_len() -> (n: usize) {
        32
    }

    fn zero() -> (r: Scalar) {
        Scalar::of_u64(0)
    }

    fn one() -> (r: Scalar) {
        Scalar::of_u64(1)
    }

    fn from_u64(k: u64) -> (r: Scalar) {
        proof {
            lemma_small_mod(k as nat, group_order());
        }
        Scalar::of_u64(k)
    }

    fn from_u128(k: u128) -> (r: Scalar) {
        proof {
            lemma_small_mod(k as nat, group_order());
        }
        Scalar::of_u128(k)
    }

    fn random() -> (r: Scalar) {
        Scalar::sample()
    }

    fn add(&self, other: &Scalar) -> (r: Scalar) {
        self.sum(other)
    }

    fn mul(&self, other: &Scalar) -> (r: Scalar) {
        self.product(other)
    }

    fn double(&self) -> (r: Scalar) {
        self.twice()
    }

    fn invert(&self) -> (r: Option<Scalar>) {
        let r = self.reciprocal();
        proof {
            if r.is_some() {
                lemma_inverse_unique(
                    group_order(),
                    self.value(),
                    r.unwrap().value(),
                    field_inverse(group_order(), self.value()),
                );
            }
        }
        r
    }

    fn equals(&self, other: &Scalar) -> (r: bool) {
        let mut i: usize = 0;
        while i < 32
            invariant
                i <= 32,
                forall|j: int| 0 <= j < i ==> self.bytes@[j] == other.bytes@[j],
            decreases 32 - i,
        {
            if self.bytes[i] != other.bytes[i] {
                proof {
                    if self.value() == other.value() {
                        lemma_be_value_injective(self.bytes@, other.bytes@);
                    }
                }
                return false;
            }
            i += 1;
        }
        assert(self.bytes@ =~= other.bytes@);
        true
    }

    fn is_zero(&self) -> (r: bool) {
        let z = Scalar::of_u64(0);
        self.equals(&z)
    }

    fn to_bytes(&self) -> (r: Vec<u8>) {
        slice_to_vec(self.bytes.as_slice())
    }

    fn from_bytes(bytes: &[u8]) -> (r: Option<Scalar>) {
        if bytes.len() != 32 {
            return None;
        }
        let mut buf = [0u8; 32];
        let mut i: usize = 0;
        while i < 32
            invariant
                i <= 32,
                bytes@.len() == 32,
                forall|j: int| 0 <= j < i ==> buf@[j] == bytes@[j],
            decreases 32 - i,
        {
            buf[i] = bytes[i];
            i += 1;
        }
        assert(buf@ =~= bytes@);
        Scalar::decode(&buf)
    }
}

} // verus!
