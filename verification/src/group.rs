use vstd::prelude::*;

verus! {

/// The number that a byte string denotes when read with its first byte as the
/// most significant digit in base 256.
pub open spec fn be_value(s: Seq<u8>) -> nat
    decreases s.len(),
{
    if s.len() == 0 {
        0
    } else {
        be_value(s.drop_last()) * 256 + s.last() as nat
    }
}

/// The number that a byte string denotes when read with its first byte as the
/// least significant digit in base 256.
pub open spec fn le_value(s: Seq<u8>) -> nat
    decreases s.len(),
{
    if s.len() == 0 {
        0
    } else {
        s.first() as nat + 256 * le_value(s.drop_first())
    }
}

/// Sum of two elements of the field of `n` elements.
pub open spec fn field_add(n: nat, a: nat, b: nat) -> nat {
    (a + b) % n
}

/// Product of two elements of the field of `n` elements.
pub open spec fn field_mul(n: nat, a: nat, b: nat) -> nat {
    (a * b) % n
}

/// The multiplicative inverse of an element of the field of `n` elements,
/// where it has one.
pub open spec fn field_inverse(n: nat, a: nat) -> nat {
    choose|v: nat| v < n && field_mul(n, a, v) == 1
}

/// The scalar field that a group comes with: the integers modulo the order
/// of the group. An element is a number below the order; it has a canonical
/// encoding of a fixed length.
pub trait Field: Sized + Copy {
    /// The number of elements of the field.
    spec fn order() -> nat;

    /// The number of bytes of an encoding.
    spec fn encoding_len() -> nat;

    /// Whether a byte string is the canonical encoding of an element.
    spec fn valid(enc: Seq<u8>) -> bool;

    /// The number of the element with the given encoding.
    spec fn encoded_value(enc: Seq<u8>) -> nat;

    /// The element as a number.
    spec fn value(&self) -> nat;

    /// The canonical encoding of the element.
    spec fn encoding(&self) -> Seq<u8>;

    /// Whether the value is an element of the field.
    spec fn wf(&self) -> bool;

    /// The field has more than one element.
    proof fn lemma_order()
        ensures
            Self::order() > 1,
    ;

    /// An element is a number below the order, and its encoding is a
    /// canonical one, of the length of one.
    proof fn lemma_wf(&self)
        requires
            self.wf(),
        ensures
            self.value() < Self::order(),
            self.value() == Self::encoded_value(self.encoding()),
            Self::valid(self.encoding()),
            self.encoding().len() == Self::encoding_len(),
    ;

    /// The number of bytes of an encoding.
    fn encoded_len() -> (n: usize)
        ensures
            n == Self::encoding_len(),
    ;

    /// The additive identity.
    fn zero() -> (r: Self)
        ensures
            r.wf(),
            r.value() == 0,
    ;

    /// The multiplicative identity.
    fn one() -> (r: Self)
        ensures
            r.wf(),
            r.value() == 1,
    ;

    /// The element that a number of 64 bits reduces to.
    fn from_u64(k: u64) -> (r: Self)
        ensures
            r.wf(),
            r.value() == (k as nat) % Self::order(),
    ;

    /// The element that a number of 128 bits reduces to.
    fn from_u128(k: u128) -> (r: Self)
        ensures
            r.wf(),
            r.value() == (k as nat) % Self::order(),
    ;

    /// A freshly sampled element. Nothing is promised of the outcome but
    /// that it is an element; it may be zero.
    fn random() -> (r: Self)
        ensures
            r.wf(),
    ;

    /// The sum of two elements.
    fn add(&self, other: &Self) -> (r: Self)
        requires
            self.wf(),
            other.wf(),
        ensures
            r.wf(),
            r.value() == field_add(Self::order(), self.value(), other.value()),
    ;

    /// The product of two elements.
    fn mul(&self, other: &Self) -> (r: Self)
        requires
            self.wf(),
            other.wf(),
        ensures
            r.wf(),
            r.value() == field_mul(Self::order(), self.value(), other.value()),
    ;

    /// Twice the element.
    fn double(&self) -> (r: Self)
        requires
            self.wf(),
        ensures
            r.wf(),
            r.value() == field_add(Self::order(), self.value(), self.value()),
    ;

    /// The multiplicative inverse; zero has none.
    fn invert(&self) -> (r: Option<Self>)
        requires
            self.wf(),
        ensures
            r.is_some() == (self.value() != 0),
            r.is_some() ==> r.unwrap().wf() && r.unwrap().value() == field_inverse(
                Self::order(),
                self.value(),
            ),
            r.is_some() ==> field_mul(Self::order(), self.value(), r.unwrap().value()) == 1,
    ;

    /// Tells whether two elements are the same.
    fn equals(&self, other: &Self) -> (r: bool)
        requires
            self.wf(),
            other.wf(),
        ensures
            r == (self.value() == other.value()),
    ;

    /// Tells whether the element is zero.
    fn is_zero(&self) -> (r: bool)
        requires
            self.wf(),
        ensures
            r == (self.value() == 0),
    ;

    /// The canonical encoding.
    fn to_bytes(&self) -> (r: Vec<u8>)
        requires
            self.wf(),
        ensures
            r@ == self.encoding(),
    ;

    /// Reads an element from its canonical encoding; other byte strings
    /// give none.
    fn from_bytes(bytes: &[u8]) -> (r: Option<Self>)
        ensures
            r.is_some() == Self::valid(bytes@),
            r.is_some() ==> r.unwrap().wf() && r.unwrap().encoding() == bytes@,
    ;
}

/// The group that the protocols work in, with its scalar field: a generator
/// and an identity, addition of elements, multiplication of an element by a
/// scalar, and a canonical encoding of a fixed length.
///
/// The view of an element is its canonical encoding, and the operations are
/// stated over encodings. Nothing here says that they obey the laws of a
/// group: what needs the laws takes them as a hypothesis.
pub trait Group: View<V = Seq<u8>> + Sized + Copy {
    /// The scalar field of the group.
    type Scalar: Field;

    /// Whether a byte string is the canonical encoding of an element.
    spec fn valid(enc: Seq<u8>) -> bool;

    /// The number of bytes of an encoding.
    spec fn encoding_len() -> nat;

    /// The encoding of the identity element.
    spec fn identity_spec() -> Seq<u8>;

    /// The encoding of the generator.
    spec fn generator_spec() -> Seq<u8>;

    /// The encoding of the sum of the elements with the given encodings.
    spec fn add_spec(a: Seq<u8>, b: Seq<u8>) -> Seq<u8>;

    /// The encoding of the element with the given encoding multiplied by the
    /// scalar `k`.
    spec fn mul_spec(p: Seq<u8>, k: nat) -> Seq<u8>;

    /// An encoding has the length of one.
    proof fn lemma_valid(enc: Seq<u8>)
        requires
            Self::valid(enc),
        ensures
            enc.len() == Self::encoding_len(),
    ;

    /// The number of bytes of an encoding.
    fn encoded_len() -> (n: usize)
        ensures
            n == Self::encoding_len(),
    ;

    /// The identity element.
    fn identity() -> (r: Self)
        ensures
            Self::valid(r@),
            r@ == Self::identity_spec(),
    ;

    /// The generator.
    fn generator() -> (r: Self)
        ensures
            Self::valid(r@),
            r@ == Self::generator_spec(),
    ;

    /// The sum of two elements.
    fn add(&self, other: &Self) -> (r: Self)
        requires
            Self::valid(self@),
            Self::valid(other@),
        ensures
            Self::valid(r@),
            r@ == Self::add_spec(self@, other@),
    ;

    /// The element multiplied by a scalar.
    fn mul(&self, k: &Self::Scalar) -> (r: Self)
        requires
            Self::valid(self@),
            k.wf(),
        ensures
            Self::valid(r@),
            r@ == Self::mul_spec(self@, k.value()),
    ;

    /// Tells whether two elements are the same.
    fn equals(&self, other: &Self) -> (r: bool)
        requires
            Self::valid(self@),
            Self::valid(other@),
        ensures
            r == (self@ == other@),
    ;

    /// Tells whether the element is the identity.
    fn is_identity(&self) -> (r: bool)
        requires
            Self::valid(self@),
        ensures
            r == (self@ == Self::identity_spec()),
    ;

    /// The canonical encoding.
    fn to_bytes(&self) -> (r: Vec<u8>)
        requires
            Self::valid(self@),
        ensures
            r@ == self@,
    ;

    /// Reads an element from its canonical encoding; other byte strings
    /// give none.
    fn from_bytes(bytes: &[u8]) -> (r: Option<Self>)
        ensures
            r.is_some() == Self::valid(bytes@),
            r.is_some() ==> r.unwrap()@ == bytes@,
    ;
}

/// A field element has at most one multiplicative inverse.
pub proof fn lemma_inverse_unique(n: nat, a: nat, v: nat, w: nat)
    requires
        n > 1,
        v < n,
        w < n,
        field_mul(n, a, v) == 1,
        field_mul(n, a, w) == 1,
    ensures
        v == w,
{
    let n = n as int;
    let a = a as int;
    let v = v as int;
    let w = w as int;
    vstd::arithmetic::div_mod::lemma_small_mod(v as nat, n as nat);
    vstd::arithmetic::div_mod::lemma_small_mod(w as nat, n as nat);
    vstd::arithmetic::div_mod::lemma_mul_mod_noop_right(v, a * w, n);
    assert(v * ((a * w) % n) == v) by (nonlinear_arith)
        requires
            (a * w) % n == 1,
    ;
    assert((v * (a * w)) % n == v);
    vstd::arithmetic::div_mod::lemma_mul_mod_noop_right(w, a * v, n);
    assert(w * ((a * v) % n) == w) by (nonlinear_arith)
        requires
            (a * v) % n == 1,
    ;
    assert((w * (a * v)) % n == w);
    assert(v * (a * w) == w * (a * v)) by (nonlinear_arith);
}

/// Two byte strings of one length that denote the same number are equal.
pub proof fn lemma_be_value_injective(a: Seq<u8>, b: Seq<u8>)
    requires
        a.len() == b.len(),
        be_value(a) == be_value(b),
    ensures
        a == b,
    decreases a.len(),
{
    if a.len() > 0 {
        let x = be_value(a.drop_last());
        let y = be_value(b.drop_last());
        assert(x * 256 + a.last() as nat == y * 256 + b.last() as nat);
        assert(x == y && a.last() == b.last());
        lemma_be_value_injective(a.drop_last(), b.drop_last());
        assert(a =~= a.drop_last().push(a.last()));
        assert(b =~= b.drop_last().push(b.last()));
    } else {
        assert(a =~= b);
    }
}

} // verus!
