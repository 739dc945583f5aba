use vstd::prelude::*;
use vstd::arithmetic::div_mod::lemma_add_mod_noop;
use vstd::arithmetic::div_mod::lemma_mul_mod_noop;
use vstd::arithmetic::div_mod::lemma_small_mod;
use sha2::Digest;
use crate::group::be_value;
use crate::group::Field;
use crate::group::Group;

verus! {

/// The SHA-256 digest of a byte string, as `sha2::Sha256` computes it.
pub uninterp spec fn sha256(data: Seq<u8>) -> Seq<u8>;

/// The parts of a hash input laid end to end, in order.
pub open spec fn concat(parts: Seq<Seq<u8>>) -> Seq<u8>
    decreases parts.len(),
{
    if parts.len() == 0 {
        Seq::empty()
    } else {
        concat(parts.drop_last()) + parts.last()
    }
}

/// The element of the field of `n` elements that a digest gives: the digest
/// is read as a big-endian number in base 256 and reduced modulo `n`. The
/// mapping is slightly biased towards small elements and is not a uniform
/// hash-to-field.
pub open spec fn digest_scalar(n: nat, digest: Seq<u8>) -> nat {
    be_value(digest) % n
}

/// The element of the field of `n` elements that the hash oracle gives for a
/// sequence of parts.
pub open spec fn hash_value(n: nat, parts: Seq<Seq<u8>>) -> nat {
    digest_scalar(n, sha256(concat(parts)))
}

/// The byte strings behind a vector of slices.
pub open spec fn slices_view(inputs: Seq<&[u8]>) -> Seq<Seq<u8>> {
    Seq::new(inputs.len(), |i: int| inputs[i]@)
}

/// The SHA-256 digest of a byte string, from `sha2::Sha256::digest`. The
/// digest is a function of the bytes alone and is named by `sha256`.
#[verifier::external_body]
pub(crate) fn digest_of(data: &[u8]) -> (r: [u8; 32])
    ensures
        r@ == sha256(data@),
{
    sha2::Sha256::digest(data).into()
}

/// One step of folding a digest into the field gives the same element as
/// reducing once at the end.
proof fn lemma_fold_step(p: nat, b: nat, n: nat)
    requires
        n > 0,
    ensures
        ((((p % n) * (256nat % n)) % n) + (b % n)) % n == (p * 256 + b) % n,
{
    lemma_mul_mod_noop(p as int, 256, n as int);
    lemma_add_mod_noop((p * 256) as int, b as int, n as int);
}

/// Folds a digest into a scalar field, first byte first: each step
/// multiplies the element by `base`, which is 256 in the field, and adds the
/// next byte.
pub(crate) fn fold_digest<F: Field>(digest: &[u8], base: &F) -> (r: F)
    requires
        base.wf(),
        base.value() == 256nat % F::order(),
    ensures
        r.wf(),
        r.value() == digest_scalar(F::order(), digest@),
{
    let mut scalar = F::zero();
    let mut i: usize = 0;
    proof {
        F::lemma_order();
        assert(digest@.subrange(0, 0) =~= Seq::<u8>::empty());
        lemma_small_mod(0, F::order());
    }
    while i < digest.len()
        invariant
            i <= digest.len(),
            scalar.wf(),
            base.wf(),
            base.value() == 256nat % F::order(),
            scalar.value() == digest_scalar(F::order(), digest@.subrange(0, i as int)),
        decreases digest.len() - i,
    {
        let byte: u8 = digest[i];
        let shifted = scalar.mul(base);
        let digit = F::from_u64(byte as u64);
        let next = shifted.add(&digit);
        proof {
            F::lemma_order();
            let prefix = digest@.subrange(0, i as int);
            let longer = digest@.subrange(0, i as int + 1);
            assert(longer.drop_last() =~= prefix);
            assert(longer.last() == byte);
            assert(be_value(longer) == be_value(prefix) * 256 + byte as nat);
            lemma_fold_step(be_value(prefix), byte as nat, F::order());
        }
        scalar = next;
        i += 1;
    }
    proof {
        assert(digest@.subrange(0, digest@.len() as int) =~= digest@);
    }
    scalar
}

/// Converts a digest to a scalar: the digest is read as a big-endian number
/// and reduced modulo the order of the field.
pub fn hash_to_scalar<T: Group>(digest: &[u8]) -> (r: T::Scalar)
    ensures
        r.wf(),
        r.value() == digest_scalar(T::Scalar::order(), digest@),
{
    let scalar256 = T::Scalar::from_u64(256);
    fold_digest(digest, &scalar256)
}

/// Appends the bytes of `part` to `buf`.
fn append(buf: &mut Vec<u8>, part: &[u8])
    ensures
        final(buf)@ == old(buf)@ + part@,
{
    let mut i: usize = 0;
    while i < part.len()
        invariant
            i <= part.len(),
            buf@ == old(buf)@ + part@.subrange(0, i as int),
        decreases part.len() - i,
    {
        buf.push(part[i]);
        i += 1;
        assert(buf@ =~= old(buf)@ + part@.subrange(0, i as int));
    }
    assert(part@.subrange(0, part@.len() as int) =~= part@);
}

/// The hash oracle: the SHA-256 digest of the inputs laid end to end, folded
/// into the scalar field of the group as a big-endian number. A caller that
/// needs domain separation passes its tag as the first input.
pub fn hash<T: Group>(inputs: Vec<&[u8]>) -> (r: T::Scalar)
    ensures
        r.wf(),
        r.value() == hash_value(T::Scalar::order(), slices_view(inputs@)),
{
    let mut data: Vec<u8> = Vec::new();
    let mut i: usize = 0;
    proof {
        assert(slices_view(inputs@).subrange(0, 0) =~= Seq::<Seq<u8>>::empty());
    }
    while i < inputs.len()
        invariant
            i <= inputs.len(),
            data@ == concat(slices_view(inputs@).subrange(0, i as int)),
        decreases inputs.len() - i,
    {
        append(&mut data, inputs[i]);
        proof {
            let parts = slices_view(inputs@);
            assert(parts.subrange(0, i as int + 1).drop_last() =~= parts.subrange(0, i as int));
            assert(parts.subrange(0, i as int + 1).last() == inputs@[i as int]@);
        }
        i += 1;
    }
    proof {
        let parts = slices_view(inputs@);
        assert(parts.subrange(0, parts.len() as int) =~= parts);
    }
    let digest = digest_of(data.as_slice());
    hash_to_scalar::<T>(digest.as_slice())
}

} // verus!
