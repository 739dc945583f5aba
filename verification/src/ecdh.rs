use vstd::prelude::*;
use crate::group::Field;
use crate::group::Group;

verus! {

// Required functions for ECDH (elliptic curve Diffie Hellman exchange)
pub trait ECDHGroup: Group {
    /// Samples a private key. It is a scalar; nothing else is promised of
    /// it.
    fn generate_private_key() -> (sk: Self::Scalar)
        ensures
            sk.wf(),
    ;

    /// The public key of a private key: the generator multiplied by it.
    fn generate_public_key(sk: Self::Scalar) -> (pk: Self)
        requires
            sk.wf(),
        ensures
            Self::valid(pk@),
            pk@ == Self::mul_spec(Self::generator_spec(), sk.value()),
    ;

    /// The secret that a party derives from its own private key and the
    /// other party's public key: that public key multiplied by the private
    /// key.
    fn generate_secret(sk: Self::Scalar, pk: Self) -> (secret: Self)
        requires
            sk.wf(),
            Self::valid(pk@),
        ensures
            Self::valid(secret@),
            secret@ == Self::mul_spec(pk@, sk.value()),
    ;
}

impl<T: Group> ECDHGroup for T {
    // Private key is a random scalar
    fn generate_private_key() -> (sk: T::Scalar) {
        T::Scalar::random()
    }

    // Pk = sk * generator (in this case an elliptic curve point)
    fn generate_public_key(sk: T::Scalar) -> (pk: T) {
        T::generator().mul(&sk)
    }

    // If parties A and B both have private and public keys, they can generate a shared secret as follows:
    // Secret of A: pk_b * sk_a
    // Secret of B: pk_a * sk_b
    // pk_b = sk_b * generator
    // pk_a = sk_a * generator
    // Therefore, both secrets equal sk_b * sk_a * generator and are equal
    fn generate_secret(sk: T::Scalar, pk: T) -> (secret: T) {
        pk.mul(&sk)
    }
}

} // verus!
