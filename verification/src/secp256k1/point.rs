use vstd::prelude::*;
use vstd::slice::slice_to_vec;
use elliptic_curve::group::GroupEncoding;
use elliptic_curve::PrimeField;
use crate::group::be_value;
use crate::group::Field;
use crate::group::Group;
use crate::secp256k1::scalar::valid_scalar;
use crate::secp256k1::scalar::Scalar;

verus! {

/// Number of bytes in the canonical encoding of a point.
pub const POINT_LEN: usize = 33;

/// The prime `p` of the field over which secp256k1 is defined.
pub open spec fn field_prime() -> nat {
    0xFFFFFFFFFFFFFFFFFFFFFFFFFFFFFFFFFFFFFFFFFFFFFFFFFFFFFFFEFFFFFC2Fnat
}

/// The square of a number modulo `p`.
pub open spec fn square_mod_p(y: nat) -> nat {
    (y * y) % field_prime()
}

/// Whether a number is the `x` coordinate of a point of the curve
/// `y^2 = x^3 + 7`: it is below `p`, and `x^3 + 7` is a square modulo `p`.
pub open spec fn is_x_coordinate(x: nat) -> bool {
    &&& x < field_prime()
    &&& exists|y: nat| y < field_prime() && #[trigger] square_mod_p(y) == (x * x * x + 7) % field_prime()
}

/// Whether `k256::ProjectivePoint::from_bytes` accepts 33 bytes as the
/// encoding of a point: they are zero throughout, which is the identity, or
/// a tag of the compressed or of the compact form followed by the big-endian
/// `x` coordinate of a point of the curve.
pub open spec fn is_curve_point(enc: Seq<u8>) -> bool {
    &&& enc.len() == POINT_LEN
    &&& {
        ||| enc == identity_encoding()
        ||| {
            &&& enc[0] == 0x02 || enc[0] == 0x03 || enc[0] == 0x05
            &&& is_x_coordinate(be_value(enc.subrange(1, 33)))
        }
    }
}

/// The canonical encoding of the sum of the two points with the given
/// encodings, as `k256::ProjectivePoint` adds them.
pub uninterp spec fn curve_add(a: Seq<u8>, b: Seq<u8>) -> Seq<u8>;

/// The canonical encoding of the point with the given encoding multiplied by
/// the scalar that denotes `k`, as `k256::ProjectivePoint` multiplies them.
pub uninterp spec fn curve_mul(p: Seq<u8>, k: nat) -> Seq<u8>;

/// The canonical encoding of the identity element: zero bytes throughout.
pub open spec fn identity_encoding() -> Seq<u8> {
    Seq::new(33, |i: int| 0u8)
}

/// The canonical encoding of the base point of secp256k1: the tag of an even
/// `y` coordinate, then the `x` coordinate.
pub open spec fn generator_encoding() -> Seq<u8> {
    seq![
        0x02u8, 0x79, 0xbe, 0x66, 0x7e, 0xf9, 0xdc, 0xbb, 0xac, 0x55, 0xa0, 0x62, 0x95, 0xce,
        0x87, 0x0b, 0x07, 0x02, 0x9b, 0xfc, 0xdb, 0x2d, 0xce, 0x28, 0xd9, 0x59, 0xf2, 0x81,
        0x5b, 0x16, 0xf8, 0x17, 0x98,
    ]
}

/// Whether a byte string starts with a tag of the canonical form: that of
/// the identity, or that of a compressed point with an even or an odd `y`
/// coordinate. The curve also accepts the tag of the compact form, under
/// which a point has a second encoding.
pub open spec fn canonical_tag(enc: Seq<u8>) -> bool {
    enc.len() > 0 && (enc[0] == 0x00 || enc[0] == 0x02 || enc[0] == 0x03)
}

/// Whether a byte string is the canonical encoding of a point: it has the
/// length of one, a tag of the canonical form, and the curve accepts it.
/// Every point has exactly one such encoding.
pub open spec fn valid_encoding(enc: Seq<u8>) -> bool {
    &&& enc.len() == POINT_LEN
    &&& canonical_tag(enc)
    &&& is_curve_point(enc)
}

/// Tells whether two byte strings are equal.
pub fn bytes_equal(a: &[u8], b: &[u8]) -> (r: bool)
    ensures
        r == (a@ == b@),
{
    if a.len() != b.len() {
        return false;
    }
    let mut i: usize = 0;
    while i < a.len()
        invariant
            i <= a.len(),
            a.len() == b.len(),
            forall|j: int| 0 <= j < i ==> a@[j] == b@[j],
        decreases a.len() - i,
    {
        if a[i] != b[i] {
            return false;
        }
        i += 1;
    }
    assert(a@ =~= b@);
    true
}

/// An element of the secp256k1 group, held as its canonical encoding.
#[derive(Clone, Copy, Debug)]
pub struct Point {
    bytes: [u8; 33],
}

impl View for Point {
    type V = Seq<u8>;

    /// The canonical encoding.
    closed spec fn view(&self) -> Seq<u8> {
        self.bytes@
    }
}

impl Point {
    /// The identity element, from `k256::ProjectivePoint::IDENTITY`, which
    /// `to_bytes` encodes as zero bytes throughout and `from_bytes` accepts.
    #[verifier::external_body]
    fn neutral() -> (r: Point)
        ensures
            valid_encoding(r@),
            r@ == identity_encoding(),
    {
        Point { bytes: k256::ProjectivePoint::IDENTITY.to_bytes().into() }
    }

    /// The base point, from `k256::ProjectivePoint::GENERATOR`, which
    /// `to_bytes` encodes in compressed form and `from_bytes` accepts.
    #[verifier::external_body]
    fn base() -> (r: Point)
        ensures
            valid_encoding(r@),
            r@ == generator_encoding(),
    {
        Point { bytes: k256::ProjectivePoint::GENERATOR.to_bytes().into() }
    }

    /// Sum of two points, from the `Add` of `k256::ProjectivePoint`: the
    /// result is the canonical encoding of a point, as `to_bytes` gives it,
    /// and is named by `curve_add`.
    #[verifier::external_body]
    fn sum(&self, other: &Point) -> (r: Point)
        requires
            valid_encoding(self@),
            valid_encoding(other@),
        ensures
            valid_encoding(r@),
            r@ == curve_add(self@, other@),
    {
        let a = k256::ProjectivePoint::from_bytes(&self.bytes.into()).unwrap();
        let b = k256::ProjectivePoint::from_bytes(&other.bytes.into()).unwrap();
        Point { bytes: (a + b).to_bytes().into() }
    }

    /// A point multiplied by a scalar, from the `Mul` of
    /// `k256::ProjectivePoint`: the result is the canonical encoding of a
    /// point, as `to_bytes` gives it, and is named by `curve_mul`.
    #[verifier::external_body]
    fn scaled(&self, k: [u8; 32]) -> (r: Point)
        requires
            valid_encoding(self@),
            valid_scalar(k@),
        ensures
            valid_encoding(r@),
            r@ == curve_mul(self@, be_value(k@)),
    {
        let p = k256::ProjectivePoint::from_bytes(&self.bytes.into()).unwrap();
        let s = k256::Scalar::from_repr(k.into()).unwrap();
        Point { bytes: (p * s).to_bytes().into() }
    }

    /// Decodes a point, from `k256::ProjectivePoint::from_bytes`, which
    /// accepts the encoding of the identity and, under the tags of the
    /// compressed and the compact form, every `x` below the field prime for
    /// which `x^3 + 7` has a square root. The bytes are kept as they are
    /// where that function accepts them.
    #[verifier::external_body]
    fn decode(bytes: &[u8; 33]) -> (r: Option<Point>)
        ensures
            r.is_some() == is_curve_point(bytes@),
            r.is_some() ==> r.unwrap()@ == bytes@,
    {
        let p: Option<k256::ProjectivePoint> =
            k256::ProjectivePoint::from_bytes(&(*bytes).into()).into();
        p.map(|_| Point { bytes: *bytes })
    }
}

impl Group for Point {
    type Scalar = Scalar;

    open spec fn valid(enc: Seq<u8>) -> bool {
        valid_encoding(enc)
    }

    open spec fn encoding_len() -> nat {
        POINT_LEN as nat
    }

    open spec fn identity_spec() -> Seq<u8> {
        identity_encoding()
    }

    open spec fn generator_spec() -> Seq<u8> {
        generator_encoding()
    }

    open spec fn add_spec(a: Seq<u8>, b: Seq<u8>) -> Seq<u8> {
        curve_add(a, b)
    }

    open spec fn mul_spec(p: Seq<u8>, k: nat) -> Seq<u8> {
        curve_mul(p, k)
    }

    proof fn lemma_valid(enc: Seq<u8>) {
    }

    fn encoded_len() -> (n: usize) {
        33
    }

    fn identity() -> (r: Point) {
        Point::neutral()
    }

    fn generator() -> (r: Point) {
        Point::base()
    }

    fn add(&self, other: &Point) -> (r: Point) {
        self.sum(other)
    }

    fn mul(&self, k: &Scalar) -> (r: Point) {
        let bytes = k.to_array();
        assert(be_value(bytes@) == k.value());
        self.scaled(bytes)
    }

    fn equals(&self, other: &Point) -> (r: bool) {
        bytes_equal(self.bytes.as_slice(), other.bytes.as_slice())
    }

    fn is_identity(&self) -> (r: bool) {
        let mut i: usize = 0;
        while i < 33
            invariant
                i <= 33,
                forall|j: int| 0 <= j < i ==> self.bytes@[j] == 0,
            decreases 33 - i,
        {
            if self.bytes[i] != 0 {
                return false;
            }
            i += 1;
        }
        assert(self.bytes@ =~= identity_encoding());
        true
    }

    fn to_bytes(&self) -> (r: Vec<u8>) {
        slice_to_vec(self.bytes.as_slice())
    }

    fn from_bytes(bytes: &[u8]) -> (r: Option<Point>) {
        if bytes.len() != 33 {
            return None;
        }
        if bytes[0] != 0x00 && bytes[0] != 0x02 && bytes[0] != 0x03 {
            return None;
        }
        let mut buf = [0u8; 33];
        let mut i: usize = 0;
        while i < 33
            invariant
                i <= 33,
                bytes@.len() == 33,
                forall|j: int| 0 <= j < i ==> buf@[j] == bytes@[j],
            decreases 33 - i,
        {
            buf[i] = bytes[i];
            i += 1;
        }
        assert(buf@ =~= bytes@);
        Point::decode(&buf)
    }
}

} // verus!
