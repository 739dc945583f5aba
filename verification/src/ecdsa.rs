use vstd::prelude::*;
use vstd::arithmetic::div_mod::lemma_add_mod_noop;
use vstd::arithmetic::div_mod::lemma_mul_mod_noop;
use vstd::arithmetic::div_mod::lemma_small_mod;
use crate::group::field_add;
use crate::group::field_inverse;
use crate::group::field_mul;
use crate::group::le_value;
use crate::group::Field;
use crate::group::Group;
use crate::hash::digest_of;
use crate::hash::digest_scalar;
use crate::hash::fold_digest;
use crate::hash::sha256;
use crate::secp256k1::Point;

verus! {

/// 256 to the power `n`.
pub open spec fn pow256(n: nat) -> nat
    decreases n,
{
    if n == 0 {
        1
    } else {
        256 * pow256((n - 1) as nat)
    }
}

/// 2 to the power `n`.
pub open spec fn pow2(n: nat) -> nat
    decreases n,
{
    if n == 0 {
        1
    } else {
        2 * pow2((n - 1) as nat)
    }
}

/// The scalar of a message: its SHA-256 digest read as a big-endian number
/// and reduced modulo the order `n`.
pub open spec fn message_scalar(n: nat, message: Seq<u8>) -> nat {
    digest_scalar(n, sha256(message))
}

/// The scalar of a byte string that is read as a little-endian number and
/// reduced modulo the order `n`.
pub open spec fn bytes_scalar(n: nat, x: Seq<u8>) -> nat {
    le_value(x) % n
}

/// The scalar of the `x` coordinate of the element with the given encoding.
pub open spec fn x_scalar<G: CurveGroup>(p: Seq<u8>) -> nat {
    bytes_scalar(G::Scalar::order(), G::x_spec(p))
}

/// The signature that the secret key `sk` gives with the nonce `k`: `r` is
/// the scalar of the nonce point's `x` coordinate, and `s` is
/// `(z + r * sk) / k` for the message's scalar `z`.
pub open spec fn ecdsa_signature<G: CurveGroup>(sk: nat, k: nat, message: Seq<u8>) -> (nat, nat) {
    let n = G::Scalar::order();
    let z = message_scalar(n, message);
    let r = x_scalar::<G>(G::mul_spec(G::generator_spec(), k));
    let s = field_mul(n, field_inverse(n, k), field_add(n, z, field_mul(n, r, sk)));
    (r, s)
}

/// What signing gives for a sampled nonce `k`: nothing where the sample is
/// zero, and else the signature of that nonce.
pub open spec fn ecdsa_outcome<G: CurveGroup>(sk: nat, k: nat, message: Seq<u8>) -> Option<
    (nat, nat),
> {
    if k == 0 {
        None
    } else {
        Some(ecdsa_signature::<G>(sk, k, message))
    }
}

/// The numbers of the two scalars of a signature, where there is one.
pub open spec fn signature_values<F: Field>(sig: Option<(F, F)>) -> Option<(nat, nat)> {
    match sig {
        Some(pair) => Some((pair.0.value(), pair.1.value())),
        None => None,
    }
}

/// The point that the verifier rebuilds from a signature, a message and a
/// public key.
pub open spec fn ecdsa_point<G: CurveGroup>(
    r: nat,
    s: nat,
    message: Seq<u8>,
    pk: Seq<u8>,
) -> Seq<u8> {
    let n = G::Scalar::order();
    let z = message_scalar(n, message);
    let s_inv = field_inverse(n, s);
    let u1 = field_mul(n, z, s_inv);
    let u2 = field_mul(n, r, s_inv);
    G::add_spec(G::mul_spec(G::generator_spec(), u1), G::mul_spec(pk, u2))
}

/// Whether a signature is accepted: the public key is not the identity, `s`
/// is not zero, the rebuilt point is not the identity, and the scalar of its
/// `x` coordinate is `r`.
pub open spec fn ecdsa_verifies<G: CurveGroup>(
    r: nat,
    s: nat,
    message: Seq<u8>,
    pk: Seq<u8>,
) -> bool {
    &&& pk != G::identity_spec()
    &&& s != 0
    &&& ecdsa_point::<G>(r, s, message, pk) != G::identity_spec()
    &&& x_scalar::<G>(ecdsa_point::<G>(r, s, message, pk)) == r
}

// Requires the implementations of methods to create ECDSA signatures
pub trait ECDSAGroup: CurveGroup {
    /// Samples a private key. It is a scalar; nothing else is promised of
    /// it.
    fn generate_private_key() -> (sk: Self::Scalar)
        ensures
            sk.wf(),
    ;

    /// The public key of a private key: the generator multiplied by it.
    fn generate_public_key(sk: Self::Scalar) -> (pk: Self)
        requires
            sk.wf(),
        ensures
            Self::valid(pk@),
            pk@ == Self::mul_spec(Self::generator_spec(), sk.value()),
    ;

    /// Signs a message with a freshly sampled nonce: what is returned is
    /// what signing gives for some sample. There is no signature where the
    /// sample is zero; otherwise the signature is the one of that nonce.
    fn sign(secret_key: Self::Scalar, message: &[u8]) -> (sig: Option<
        (Self::Scalar, Self::Scalar),
    >)
        requires
            secret_key.wf(),
        ensures
            sig is Some ==> sig.unwrap().0.wf() && sig.unwrap().1.wf(),
            exists|k: nat|
                k < Self::Scalar::order() && #[trigger] ecdsa_outcome::<Self>(
                    secret_key.value(),
                    k,
                    message@,
                ) == signature_values(sig),
    ;

    /// Verifies a signature over a message against a public key. A public
    /// key that is the identity, a zero `s` and a rebuilt point that is the
    /// identity are refused.
    fn verify(signature: (Self::Scalar, Self::Scalar), message: &[u8], public_key: Self) -> (ok:
        bool)
        requires
            signature.0.wf(),
            signature.1.wf(),
            Self::valid(public_key@),
        ensures
            ok == ecdsa_verifies::<Self>(
                signature.0.value(),
                signature.1.value(),
                message@,
                public_key@,
            ),
    ;
}

// Provides methods to extract the x coordinate from an elliptic curve point and convert that coordinate into an element of the scalar field.
pub trait CurveGroup: Group {
    /// The bytes of the `x` coordinate of the element with the given
    /// encoding.
    spec fn x_spec(enc: Seq<u8>) -> Seq<u8>;

    // This function must be implemented for any curve that you are using with this code (see below for an example with Point)
    /// The bytes of the `x` coordinate; their number is a multiple of
    /// sixteen.
    fn x(&self) -> (r: Vec<u8>)
        requires
            Self::valid(self@),
        ensures
            r@ == Self::x_spec(self@),
            r@.len() % 16 == 0,
    ;

    // Take bytes of x coordinate and convert to a scalar
    fn convert(&self) -> (r: Self::Scalar)
        requires
            Self::valid(self@),
        ensures
            r.wf(),
            r.value() == bytes_scalar(Self::Scalar::order(), Self::x_spec(self@)),
    {
        let x_bytes = self.x();
        scalar_from_le_bytes::<Self::Scalar>(x_bytes.as_slice())
    }
}

/// Multiplying by 256 raises the power of 256 by one; so does doubling
/// eight times.
pub proof fn lemma_pow2_pow256(n: nat)
    ensures
        pow2(8 * n) == pow256(n),
    decreases n,
{
    if n > 0 {
        lemma_pow2_pow256((n - 1) as nat);
        reveal_with_fuel(pow2, 9);
        assert(pow2(8 * n) == 256 * pow2((8 * n - 8) as nat));
    }
}

/// A power of 256 whose exponent is a sum is the product of the powers.
pub proof fn lemma_pow256_adds(a: nat, b: nat)
    ensures
        pow256(a + b) == pow256(a) * pow256(b),
    decreases a,
{
    if a > 0 {
        lemma_pow256_adds((a - 1) as nat, b);
        assert(pow256(a + b) == 256 * pow256((a + b - 1) as nat));
        assert(256 * (pow256((a - 1) as nat) * pow256(b)) == (256 * pow256((a - 1) as nat))
            * pow256(b)) by (nonlinear_arith);
    } else {
        assert(pow256(a) * pow256(b) == pow256(b)) by (nonlinear_arith)
            requires
                pow256(a) == 1,
        ;
    }
}

/// The sixteenth power of 256 is two to the 128.
pub proof fn lemma_pow256_16()
    ensures
        pow256(16) == 0x1_0000_0000_0000_0000_0000_0000_0000_0000,
{
    reveal_with_fuel(pow256, 17);
}

/// A little-endian number is below 256 to the number of its digits.
pub proof fn lemma_le_value_bound(s: Seq<u8>)
    ensures
        le_value(s) < pow256(s.len()),
    decreases s.len(),
{
    if s.len() > 0 {
        lemma_le_value_bound(s.drop_first());
    }
}

/// The little-endian number of two strings laid end to end: the number of
/// the first, plus the number of the second shifted by the first's length.
pub proof fn lemma_le_value_concat(a: Seq<u8>, b: Seq<u8>)
    ensures
        le_value(a + b) == le_value(a) + pow256(a.len()) * le_value(b),
    decreases a.len(),
{
    if a.len() == 0 {
        assert(a + b =~= b);
        assert(pow256(0) * le_value(b) == le_value(b)) by (nonlinear_arith)
            requires
                pow256(0) == 1,
        ;
    } else {
        lemma_le_value_concat(a.drop_first(), b);
        assert((a + b).drop_first() =~= a.drop_first() + b);
        assert((a + b).first() == a.first());
        let p = pow256((a.len() - 1) as nat);
        let lb = le_value(b);
        assert(256 * (le_value(a.drop_first()) + p * lb) == 256 * le_value(a.drop_first()) + (256
            * p) * lb) by (nonlinear_arith);
    }
}

/// Reads the sixteen bytes from `start` on as a little-endian number.
pub fn le_u128(bytes: &[u8], start: usize) -> (r: u128)
    requires
        start + 16 <= bytes@.len(),
    ensures
        r == le_value(bytes@.subrange(start as int, start + 16)),
{
    let mut acc: u128 = 0;
    let mut i: usize = 16;
    let len: usize = bytes.len();
    proof {
        assert(bytes@.subrange(start + 16, start + 16) =~= Seq::<u8>::empty());
    }
    while i > 0
        invariant
            i <= 16,
            start + 16 <= bytes@.len(),
            bytes@.len() == len,
            acc == le_value(bytes@.subrange(start + i, start + 16)),
        decreases i,
    {
        let byte: u8 = bytes[start + i - 1];
        proof {
            let longer = bytes@.subrange(start + i - 1, start + 16);
            let rest = bytes@.subrange(start + i as int, start + 16);
            assert(longer.drop_first() =~= rest);
            assert(longer.first() == byte);
            lemma_le_value_bound(longer);
            lemma_pow256_16();
            lemma_pow256_adds(longer.len(), (16 - longer.len()) as nat);
            assert(pow256(longer.len()) <= pow256(16)) by (nonlinear_arith)
                requires
                    pow256(16) == pow256(longer.len()) * pow256((16 - longer.len()) as nat),
                    pow256((16 - longer.len()) as nat) >= 1,
            ;
        }
        acc = acc * 256 + byte as u128;
        i -= 1;
    }
    acc
}

/// The scalar of a byte string whose length is a multiple of sixteen, read
/// as a little-endian number: every sixteen bytes give one number, which is
/// added at its place.
pub fn scalar_from_le_bytes<F: Field>(x_bytes: &[u8]) -> (res: F)
    requires
        x_bytes@.len() % 16 == 0,
    ensures
        res.wf(),
        res.value() == bytes_scalar(F::order(), x_bytes@),
{
    let mut place = F::one();
    let mut res = F::zero();

    let mut factor = F::one();
    let mut d: usize = 0;
    proof {
        F::lemma_order();
        lemma_small_mod(1, F::order());
    }
    while d < 128
        invariant
            d <= 128,
            factor.wf(),
            factor.value() == pow2(d as nat) % F::order(),
        decreases 128 - d,
    {
        let doubled = factor.double();
        proof {
            F::lemma_order();
            let p = pow2(d as nat);
            lemma_add_mod_noop(p as int, p as int, F::order() as int);
            assert(pow2((d + 1) as nat) == p + p);
        }
        factor = doubled;
        d += 1;
    }

    let len: usize = x_bytes.len();
    let chunks: usize = len / 16;
    let mut j: usize = 0;
    proof {
        assert(x_bytes@.subrange(0, 0) =~= Seq::<u8>::empty());
        lemma_small_mod(0, F::order());
    }
    while j < chunks
        invariant
            j <= chunks,
            chunks * 16 == x_bytes@.len(),
            x_bytes@.len() == len,
            factor.wf(),
            factor.value() == pow2(128) % F::order(),
            place.wf(),
            place.value() == pow256((16 * j) as nat) % F::order(),
            res.wf(),
            res.value() == bytes_scalar(F::order(), x_bytes@.subrange(0, 16 * j)),
        decreases chunks - j,
    {
        let num: u128 = le_u128(x_bytes, 16 * j);
        let scalar = F::from_u128(num);
        let term = place.mul(&scalar);
        let next = res.add(&term);
        let next_place = place.mul(&factor);
        proof {
            F::lemma_order();
            let n = F::order();
            let done = x_bytes@.subrange(0, 16 * j);
            let chunk = x_bytes@.subrange(16 * j, 16 * j + 16);
            assert(x_bytes@.subrange(0, 16 * j + 16) =~= done + chunk);
            lemma_le_value_concat(done, chunk);
            let power = pow256((16 * j) as nat);
            // the sum
            lemma_mul_mod_noop(power as int, le_value(chunk) as int, n as int);
            lemma_add_mod_noop(le_value(done) as int, (power * le_value(chunk)) as int, n as int);
            assert(next.value() == bytes_scalar(n, done + chunk));
            // the place
            lemma_pow2_pow256(16);
            lemma_pow256_adds((16 * j) as nat, 16);
            lemma_mul_mod_noop(power as int, pow256(16) as int, n as int);
            assert(next_place.value() == pow256((16 * (j + 1)) as nat) % n);
        }
        res = next;
        place = next_place;
        j += 1;
    }
    proof {
        assert(x_bytes@.subrange(0, x_bytes@.len() as int) =~= x_bytes@);
    }
    res
}

// Hash a message to be signed and return a scalar.
pub fn ecdsa_hash<T: Group>(input: &[u8]) -> (r: T::Scalar)
    ensures
        r.wf(),
        r.value() == message_scalar(T::Scalar::order(), input@),
{
    let hash = digest_of(input);
    let mut factor = T::Scalar::one();
    let mut d: usize = 0;
    proof {
        T::Scalar::lemma_order();
        lemma_small_mod(1, T::Scalar::order());
    }
    // Create a scalar with value 2^8
    while d < 8
        invariant
            d <= 8,
            factor.wf(),
            factor.value() == pow2(d as nat) % T::Scalar::order(),
        decreases 8 - d,
    {
        proof {
            T::Scalar::lemma_order();
            let p = pow2(d as nat);
            lemma_add_mod_noop(p as int, p as int, T::Scalar::order() as int);
            assert(pow2((d + 1) as nat) == p + p);
        }
        factor = factor.double();
        d += 1;
    }
    proof {
        reveal_with_fuel(pow2, 9);
    }
    // Construct a scalar from each byte
    fold_digest(hash.as_slice(), &factor)
}

/// Signs a message with the given nonce, which must not be zero.
pub fn sign_with_nonce<T: CurveGroup>(sk: T::Scalar, k: T::Scalar, message: &[u8]) -> (sig: (
    T::Scalar,
    T::Scalar,
))
    requires
        sk.wf(),
        k.wf(),
        k.value() != 0,
    ensures
        sig.0.wf(),
        sig.1.wf(),
        (sig.0.value(), sig.1.value()) == ecdsa_signature::<T>(sk.value(), k.value(), message@),
{
    let z = ecdsa_hash::<T>(message);
    let point = T::generator().mul(&k);
    let r = point.convert();
    let k_inv = match k.invert() {
        Some(k_inv) => k_inv,
        None => {
            proof {
                assert(false);
            }
            T::Scalar::zero()
        },
    };
    let s = k_inv.mul(&z.add(&r.mul(&sk)));
    (r, s)
}

/// Signs a message with a sampled nonce, whatever the sample is: there is
/// no signature exactly where the sample is zero, and else the signature is
/// the one of that nonce.
pub fn sign_with_sample<T: CurveGroup>(sk: T::Scalar, k: T::Scalar, message: &[u8]) -> (sig:
    Option<(T::Scalar, T::Scalar)>)
    requires
        sk.wf(),
        k.wf(),
    ensures
        sig is None <==> k.value() == 0,
        sig is Some ==> sig.unwrap().0.wf() && sig.unwrap().1.wf(),
        signature_values(sig) == ecdsa_outcome::<T>(sk.value(), k.value(), message@),
{
    // Check that k != 0
    if k.is_zero() {
        return None;
    }
    Some(sign_with_nonce::<T>(sk, k, message))
}

impl<T: CurveGroup> ECDSAGroup for T {
    fn generate_private_key() -> (sk: T::Scalar) {
        T::Scalar::random()
    }

    fn generate_public_key(sk: T::Scalar) -> (pk: T) {
        T::generator().mul(&sk)
    }

    fn sign(sk: T::Scalar, message: &[u8]) -> (sig: Option<(T::Scalar, T::Scalar)>) {
        let k = T::Scalar::random();
        let sig = sign_with_sample::<T>(sk, k, message);
        proof {
            k.lemma_wf();
            assert(ecdsa_outcome::<T>(sk.value(), k.value(), message@) == signature_values(sig));
        }
        sig
    }

    fn verify(signature: (T::Scalar, T::Scalar), message: &[u8], public_key: T) -> (ok: bool) {
        if public_key.is_identity() {
            return false;
        }
        let (r, s) = signature;
        let z = ecdsa_hash::<T>(message);
        let s_inv = match s.invert() {
            Some(s_inv) => s_inv,
            None => {
                return false;
            },
        };
        let u1 = z.mul(&s_inv);
        let u2 = r.mul(&s_inv);
        let point = T::generator().mul(&u1).add(&public_key.mul(&u2));
        if point.is_identity() {
            return false;
        }
        point.convert().equals(&r)
    }
}

impl CurveGroup for Point {
    open spec fn x_spec(enc: Seq<u8>) -> Seq<u8> {
        enc.subrange(1, 33)
    }

    fn x(&self) -> (r: Vec<u8>) {
        let bytes = self.to_bytes();
        let size: usize = 32;
        // Curve points are stored as an x coordinate with a tag to indicate sign; the sign is the first byte and the x coordinate is the remaining 32 bytes.
        let mut res: Vec<u8> = Vec::new();
        let mut i: usize = 0;
        while i < size
            invariant
                i <= size,
                size == 32,
                bytes@ == self@,
                bytes@.len() == 33,
                res@ == bytes@.subrange(1, 1 + i),
            decreases size - i,
        {
            res.push(bytes[1 + i]);
            assert(res@ =~= bytes@.subrange(1, 1 + i + 1));
            i += 1;
        }
        res
    }
}

} // verus!
