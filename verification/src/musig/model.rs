use vstd::prelude::*;
use crate::group::field_add;
use crate::group::field_mul;
use crate::group::Field;
use crate::group::Group;
use crate::hash::hash_value;

verus! {

/// Why a signing session was aborted.
#[derive(Clone, Copy, Debug, PartialEq, Eq, Structural)]
pub enum SessionError {
    /// The session has no signers.
    EmptySignerSet,
    /// A public key of the list is the identity element.
    InvalidKey,
    /// A signer's nonce is zero.
    DegenerateNonce,
    /// The number of opened nonce points is not the number of signers.
    MissingContribution,
    /// An opened nonce point does not hash to the commitment published for it.
    CommitmentMismatch,
}

/// What a signer is: its secret, its public key and its nonce.
pub struct SignerView {
    pub secret: nat,
    pub public: Seq<u8>,
    pub nonce: nat,
}

/// What a signature is: the scalar `s` and the aggregate nonce point.
pub struct SignatureView {
    pub s: nat,
    pub r_point: Seq<u8>,
}

/// What a signing session holds.
pub struct SessionView {
    pub signers: Seq<SignerView>,
    pub message: Seq<u8>,
    pub a_vec: Seq<Option<nat>>,
    pub commitments: Seq<nat>,
    pub opened: Seq<Seq<u8>>,
    pub x: Seq<u8>,
    pub signature: Option<SignatureView>,
}

/// Domain tag of the key aggregation hash: the bytes of `agg`.
pub open spec fn agg_tag() -> Seq<u8> {
    seq![0x61u8, 0x67, 0x67]
}

/// Domain tag of the nonce commitment hash: the bytes of `com`.
pub open spec fn com_tag() -> Seq<u8> {
    seq![0x63u8, 0x6f, 0x6d]
}

/// Domain tag of the challenge hash: the bytes of `sig`.
pub open spec fn sig_tag() -> Seq<u8> {
    seq![0x73u8, 0x69, 0x67]
}

/// The encodings of a sequence of group elements.
pub open spec fn points_view<G: Group>(points: Seq<G>) -> Seq<Seq<u8>> {
    Seq::new(points.len(), |i: int| points[i]@)
}

/// The numbers of a sequence of scalars.
pub open spec fn scalars_view<F: Field>(scalars: Seq<F>) -> Seq<nat> {
    Seq::new(scalars.len(), |i: int| scalars[i].value())
}

/// Whether every element of a sequence is a valid group element.
pub open spec fn all_valid<G: Group>(points: Seq<G>) -> bool {
    forall|i: int| 0 <= i < points.len() ==> G::valid(#[trigger] points[i]@)
}

/// Whether every scalar of a sequence is well formed.
pub open spec fn all_wf<F: Field>(scalars: Seq<F>) -> bool {
    forall|i: int| 0 <= i < scalars.len() ==> (#[trigger] scalars[i]).wf()
}

/// The aggregation coefficient of the key `pk` within the ordered key list
/// `pks`: the hash of the tag, every key of the list in order, and `pk`.
pub open spec fn agg_coefficient<G: Group>(pks: Seq<Seq<u8>>, pk: Seq<u8>) -> nat {
    hash_value(G::Scalar::order(), seq![agg_tag()] + pks + seq![pk])
}

/// The commitment to a nonce point.
pub open spec fn commitment<G: Group>(r_point: Seq<u8>) -> nat {
    hash_value(G::Scalar::order(), seq![com_tag(), r_point])
}

/// The challenge that binds the aggregate key, the aggregate nonce point and
/// the message.
pub open spec fn challenge<G: Group>(x: Seq<u8>, r_point: Seq<u8>, message: Seq<u8>) -> nat {
    hash_value(G::Scalar::order(), seq![sig_tag(), x, r_point, message])
}

/// The sum of the first `n` keys of the list, each multiplied by its
/// aggregation coefficient, added up in list order from the identity.
pub open spec fn key_sum<G: Group>(pks: Seq<Seq<u8>>, n: nat) -> Seq<u8>
    decreases n,
{
    if n == 0 {
        G::identity_spec()
    } else {
        G::add_spec(
            key_sum::<G>(pks, (n - 1) as nat),
            G::mul_spec(pks[n - 1], agg_coefficient::<G>(pks, pks[n - 1])),
        )
    }
}

/// The aggregate public key of an ordered key list. The order is part of
/// what is hashed: another order gives other coefficients and another key.
pub open spec fn aggregate_key<G: Group>(pks: Seq<Seq<u8>>) -> Seq<u8> {
    key_sum::<G>(pks, pks.len())
}

/// The point that opens the commitment of the nonce `r`.
pub open spec fn nonce_point<G: Group>(r: nat) -> Seq<u8> {
    G::mul_spec(G::generator_spec(), r)
}

/// One signer's share of the signature: `nonce + c * a * secret`.
pub open spec fn partial_signature<G: Group>(nonce: nat, c: nat, a: nat, secret: nat) -> nat {
    let n = G::Scalar::order();
    field_add(n, nonce, field_mul(n, field_mul(n, c, a), secret))
}

/// A signer whose secret and nonce are field elements and whose public key
/// is the generator multiplied by its secret.
pub open spec fn valid_signer<G: Group>(s: SignerView) -> bool {
    &&& s.secret < G::Scalar::order()
    &&& s.nonce < G::Scalar::order()
    &&& s.public == G::mul_spec(G::generator_spec(), s.secret)
}

/// A signer set of valid signers.
pub open spec fn valid_signers<G: Group>(signers: Seq<SignerView>) -> bool {
    forall|i: int| 0 <= i < signers.len() ==> valid_signer::<G>(#[trigger] signers[i])
}

/// The public keys of a signer set, in order.
pub open spec fn public_keys(signers: Seq<SignerView>) -> Seq<Seq<u8>> {
    Seq::new(signers.len(), |i: int| signers[i].public)
}

/// The aggregation coefficients of a key list, in order.
pub open spec fn coefficients<G: Group>(pks: Seq<Seq<u8>>) -> Seq<Option<nat>> {
    Seq::new(pks.len(), |i: int| Some(agg_coefficient::<G>(pks, pks[i])))
}

/// The commitments that the signers publish, in order.
pub open spec fn commitments<G: Group>(signers: Seq<SignerView>) -> Seq<nat> {
    Seq::new(signers.len(), |i: int| commitment::<G>(nonce_point::<G>(signers[i].nonce)))
}

/// The nonce points that the signers reveal, in order.
pub open spec fn nonce_points<G: Group>(signers: Seq<SignerView>) -> Seq<Seq<u8>> {
    Seq::new(signers.len(), |i: int| nonce_point::<G>(signers[i].nonce))
}

/// The sum of the nonce points of the first `n` signers, from the identity.
pub open spec fn nonce_sum<G: Group>(signers: Seq<SignerView>, n: nat) -> Seq<u8>
    decreases n,
{
    if n == 0 {
        G::identity_spec()
    } else {
        G::add_spec(
            nonce_sum::<G>(signers, (n - 1) as nat),
            nonce_point::<G>(signers[n - 1].nonce),
        )
    }
}

/// The sum of the shares of the first `n` signers under the challenge `c`.
pub open spec fn share_sum<G: Group>(signers: Seq<SignerView>, c: nat, n: nat) -> nat
    decreases n,
{
    if n == 0 {
        0
    } else {
        let pks = public_keys(signers);
        field_add(
            G::Scalar::order(),
            share_sum::<G>(signers, c, (n - 1) as nat),
            partial_signature::<G>(
                signers[n - 1].nonce,
                c,
                agg_coefficient::<G>(pks, pks[n - 1]),
                signers[n - 1].secret,
            ),
        )
    }
}

/// The signature that a signer set assembles over a message.
pub open spec fn assembled_signature<G: Group>(
    signers: Seq<SignerView>,
    message: Seq<u8>,
) -> SignatureView {
    let x = aggregate_key::<G>(public_keys(signers));
    let r_point = nonce_sum::<G>(signers, signers.len());
    let c = challenge::<G>(x, r_point, message);
    SignatureView { s: share_sum::<G>(signers, c, signers.len()), r_point }
}

/// The verification equation of a signature for an ordered key list and a
/// message: the generator multiplied by `s` is the nonce point plus the
/// aggregate key multiplied by the challenge.
pub open spec fn verification_equation<G: Group>(
    sig: SignatureView,
    pks: Seq<Seq<u8>>,
    message: Seq<u8>,
) -> bool {
    let x = aggregate_key::<G>(pks);
    let c = challenge::<G>(x, sig.r_point, message);
    G::mul_spec(G::generator_spec(), sig.s) == G::add_spec(sig.r_point, G::mul_spec(x, c))
}

/// Whether a signature is accepted for an ordered key list and a message:
/// neither the aggregate key nor the nonce point is the identity, and the
/// verification equation holds.
pub open spec fn verifies<G: Group>(
    sig: SignatureView,
    pks: Seq<Seq<u8>>,
    message: Seq<u8>,
) -> bool {
    &&& aggregate_key::<G>(pks) != G::identity_spec()
    &&& sig.r_point != G::identity_spec()
    &&& verification_equation::<G>(sig, pks, message)
}

/// What the bytes of a signature stand for: the scalar of their first part
/// and, as the nonce point, their second part.
pub open spec fn decoded_signature<G: Group>(bytes: Seq<u8>) -> SignatureView {
    let cut = G::Scalar::encoding_len() as int;
    SignatureView {
        s: G::Scalar::encoded_value(bytes.subrange(0, cut)),
        r_point: bytes.subrange(cut, bytes.len() as int),
    }
}

/// Whether a byte string is the encoding of a signature: the encoding of a
/// scalar, then the encoding of a group element.
pub open spec fn valid_signature<G: Group>(bytes: Seq<u8>) -> bool {
    let cut = G::Scalar::encoding_len() as int;
    &&& bytes.len() == cut + G::encoding_len()
    &&& G::Scalar::valid(bytes.subrange(0, cut))
    &&& G::valid(bytes.subrange(cut, bytes.len() as int))
}

/// Whether every byte string of a list is the encoding of a group element.
pub open spec fn valid_keys<G: Group>(pks: Seq<Seq<u8>>) -> bool {
    forall|i: int| 0 <= i < pks.len() ==> G::valid(#[trigger] pks[i])
}

/// Whether the bytes of a signature are accepted for the encodings of an
/// ordered key list and a message: they are a signature, the encodings are
/// keys, and the signature verifies.
pub open spec fn encoded_verifies<G: Group>(
    signature: Seq<u8>,
    pks: Seq<Seq<u8>>,
    message: Seq<u8>,
) -> bool {
    &&& valid_signature::<G>(signature)
    &&& valid_keys::<G>(pks)
    &&& verifies::<G>(decoded_signature::<G>(signature), pks, message)
}

/// Whether every opened nonce point hashes to the commitment at its index,
/// as far as both lists reach.
pub open spec fn openings_match<G: Group>(r_points: Seq<Seq<u8>>, commitments: Seq<nat>) -> bool {
    forall|j: int|
        0 <= j < r_points.len() && j < commitments.len() ==> commitment::<G>(
            #[trigger] r_points[j],
        ) == commitments[j]
}

/// Whether a key of the list is the identity element.
pub open spec fn has_identity_key<G: Group>(pks: Seq<Seq<u8>>) -> bool {
    exists|i: int| 0 <= i < pks.len() && #[trigger] pks[i] == G::identity_spec()
}

/// Whether a signer of the set has a zero nonce.
pub open spec fn has_zero_nonce(signers: Seq<SignerView>) -> bool {
    exists|i: int| 0 <= i < signers.len() && (#[trigger] signers[i]).nonce == 0
}

/// Why key aggregation refuses a key list, if it does: the list is empty, or
/// one of its keys is the identity element.
pub open spec fn aggregation_error<G: Group>(pks: Seq<Seq<u8>>) -> Option<SessionError> {
    if pks.len() == 0 {
        Some(SessionError::EmptySignerSet)
    } else if has_identity_key::<G>(pks) {
        Some(SessionError::InvalidKey)
    } else {
        None
    }
}

/// Why the revealed nonce points are refused, if they are: one is missing
/// or one too many, or one does not hash to the commitment published at its
/// index.
pub open spec fn opening_error<G: Group>(
    signers: Seq<SignerView>,
    opened: Seq<Seq<u8>>,
) -> Option<SessionError> {
    if opened.len() != signers.len() {
        Some(SessionError::MissingContribution)
    } else if !openings_match::<G>(opened, commitments::<G>(signers)) {
        Some(SessionError::CommitmentMismatch)
    } else {
        None
    }
}

/// Why a signer set cannot sign in one process, if it cannot.
pub open spec fn signing_error<G: Group>(signers: Seq<SignerView>) -> Option<SessionError> {
    if aggregation_error::<G>(public_keys(signers)) is Some {
        aggregation_error::<G>(public_keys(signers))
    } else if has_zero_nonce(signers) {
        Some(SessionError::DegenerateNonce)
    } else {
        None
    }
}

/// A session before any round has run.
pub open spec fn initial<G: Group>(v: SessionView) -> bool {
    &&& v.a_vec == Seq::new(v.signers.len(), |i: int| None::<nat>)
    &&& v.commitments == Seq::<nat>::empty()
    &&& v.opened == Seq::<Seq<u8>>::empty()
    &&& v.x == G::identity_spec()
    &&& v.signature is None
}

/// A session whose keys have been aggregated.
pub open spec fn keys_aggregated<G: Group>(v: SessionView) -> bool {
    &&& aggregation_error::<G>(public_keys(v.signers)) is None
    &&& v.a_vec == coefficients::<G>(public_keys(v.signers))
    &&& v.x == aggregate_key::<G>(public_keys(v.signers))
}

/// A session whose signers have all published their commitments.
pub open spec fn commitments_published<G: Group>(v: SessionView) -> bool {
    &&& keys_aggregated::<G>(v)
    &&& !has_zero_nonce(v.signers)
    &&& v.commitments == commitments::<G>(v.signers)
}

/// A session whose commitments have been published, opened and checked.
pub open spec fn commitments_exchanged<G: Group>(v: SessionView) -> bool {
    &&& commitments_published::<G>(v)
    &&& opening_error::<G>(v.signers, v.opened) is None
}

/// A session that has assembled its signature.
pub open spec fn signature_assembled<G: Group>(v: SessionView) -> bool {
    &&& commitments_exchanged::<G>(v)
    &&& v.signature == Some(assembled_signature::<G>(v.signers, v.message))
}

} // verus!
