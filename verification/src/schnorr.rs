use vstd::prelude::*;
use vstd::string::StringSliceAdditionalSpecFns;
use crate::group::field_add;
use crate::group::field_mul;
use crate::group::Field;
use crate::group::Group;
use crate::hash::hash;
use crate::hash::hash_value;
use crate::hash::slices_view;

verus! {

/// The challenge of a Schnorr signature: the hash of the message, the public
/// key and the nonce point.
pub open spec fn schnorr_challenge<G: Group>(
    message: Seq<u8>,
    pk: Seq<u8>,
    r_point: Seq<u8>,
) -> nat {
    hash_value(G::Scalar::order(), seq![message, pk, r_point])
}

/// The signature that the secret key `sk` gives with the nonce `k`: the
/// scalar `k + sk * h` for the challenge `h`, and the nonce point.
pub open spec fn schnorr_signature<G: Group>(sk: nat, k: nat, message: Seq<u8>) -> (
    nat,
    Seq<u8>,
) {
    let n = G::Scalar::order();
    let r_point = G::mul_spec(G::generator_spec(), k);
    let pk = G::mul_spec(G::generator_spec(), sk);
    let h = schnorr_challenge::<G>(message, pk, r_point);
    (field_add(n, k, field_mul(n, sk, h)), r_point)
}

/// Whether a signature is accepted: the generator multiplied by `s` is the
/// nonce point plus the public key multiplied by the challenge.
pub open spec fn schnorr_verifies<G: Group>(
    s: nat,
    r_point: Seq<u8>,
    pk: Seq<u8>,
    message: Seq<u8>,
) -> bool {
    let h = schnorr_challenge::<G>(message, pk, r_point);
    G::mul_spec(G::generator_spec(), s) == G::add_spec(r_point, G::mul_spec(pk, h))
}

pub trait SchnorrGroup: Group {
    /// Samples a private key. It is a scalar; nothing else is promised of
    /// it.
    fn generate_private_key() -> (sk: Self::Scalar)
        ensures
            sk.wf(),
    ;

    /// The public key of a private key: the generator multiplied by it.
    fn generate_public_key(sk: Self::Scalar) -> (pk: Self)
        requires
            sk.wf(),
        ensures
            Self::valid(pk@),
            pk@ == Self::mul_spec(Self::generator_spec(), sk.value()),
    ;

    /// Signs a message with a freshly sampled nonce: the signature is the
    /// one of some nonce.
    fn sign(sk: Self::Scalar, message: &str) -> (sig: (Self::Scalar, Self))
        requires
            sk.wf(),
        ensures
            sig.0.wf(),
            Self::valid(sig.1@),
            exists|k: nat|
                k < Self::Scalar::order() && #[trigger] schnorr_signature::<Self>(
                    sk.value(),
                    k,
                    message.spec_bytes(),
                ) == (sig.0.value(), sig.1@),
    ;

    /// Verifies a signature over a message against a public key.
    fn verify(signature: (Self::Scalar, Self), pk: Self, message: &str) -> (ok: bool)
        requires
            signature.0.wf(),
            Self::valid(signature.1@),
            Self::valid(pk@),
        ensures
            ok == schnorr_verifies::<Self>(
                signature.0.value(),
                signature.1@,
                pk@,
                message.spec_bytes(),
            ),
    ;
}

/// Hashes a message, a public key and a nonce point into the challenge.
pub fn challenge_hash<T: Group>(message: &[u8], pk: &T, r_point: &T) -> (h: T::Scalar)
    requires
        T::valid(pk@),
        T::valid(r_point@),
    ensures
        h.wf(),
        h.value() == schnorr_challenge::<T>(message@, pk@, r_point@),
{
    // convert to bytes for hashing
    let pk_bytes = pk.to_bytes();
    let r_point_bytes = r_point.to_bytes();
    let mut inputs: Vec<&[u8]> = Vec::new();
    inputs.push(message);
    inputs.push(pk_bytes.as_slice());
    inputs.push(r_point_bytes.as_slice());
    assert(slices_view(inputs@) =~= seq![message@, pk@, r_point@]);
    hash::<T>(inputs)
}

/// Signs a message with the given nonce.
pub fn sign_with_nonce<T: Group>(sk: T::Scalar, r: T::Scalar, message: &[u8]) -> (sig: (
    T::Scalar,
    T,
))
    requires
        sk.wf(),
        r.wf(),
    ensures
        sig.0.wf(),
        T::valid(sig.1@),
        (sig.0.value(), sig.1@) == schnorr_signature::<T>(sk.value(), r.value(), message@),
{
    // r_point = r * generator
    let r_point = T::generator().mul(&r);
    let pk = T::generator().mul(&sk);
    let hash = challenge_hash(message, &pk, &r_point);
    let s = r.add(&sk.mul(&hash));
    // signature is s and r_point
    (s, r_point)
}

impl<T: Group> SchnorrGroup for T {
    fn generate_private_key() -> (sk: T::Scalar) {
        // generate random scalar
        T::Scalar::random()
    }

    fn generate_public_key(sk: T::Scalar) -> (pk: T) {
        // public key = secret key * generator
        T::generator().mul(&sk)
    }

    fn sign(sk: T::Scalar, message: &str) -> (sig: (T::Scalar, T)) {
        // r is a random scalar to be regenerated for each signature
        let r = T::Scalar::random();
        let sig = sign_with_nonce::<T>(sk, r, message.as_bytes());
        proof {
            r.lemma_wf();
            assert(schnorr_signature::<T>(sk.value(), r.value(), message.spec_bytes()) == (
                sig.0.value(),
                sig.1@,
            ));
        }
        sig
    }

    fn verify(signature: (T::Scalar, T), pk: T, message: &str) -> (ok: bool) {
        let (s, r_point) = signature;
        let hash = challenge_hash(message.as_bytes(), &pk, &r_point);
        // s * G = (r + sk*hash) * G = (r * G) + (sk * G * hash) = r_point + pk * hash
        let left = T::generator().mul(&s);
        let right = r_point.add(&pk.mul(&hash));
        left.equals(&right)
    }
}

} // verus!
