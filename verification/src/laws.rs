use vstd::prelude::*;
use vstd::arithmetic::div_mod::lemma_add_mod_noop;
use vstd::arithmetic::div_mod::lemma_add_mod_noop_right;
use vstd::arithmetic::div_mod::lemma_mod_bound;
use vstd::arithmetic::div_mod::lemma_mod_twice;
use vstd::arithmetic::div_mod::lemma_mul_mod_noop_left;
use vstd::arithmetic::div_mod::lemma_mul_mod_noop_right;
use vstd::arithmetic::div_mod::lemma_small_mod;
use crate::ecdsa::ecdsa_point;
use crate::ecdsa::ecdsa_signature;
use crate::ecdsa::ecdsa_verifies;
use crate::ecdsa::message_scalar;
use crate::ecdsa::CurveGroup;
use crate::group::be_value;
use crate::group::field_add;
use crate::group::field_inverse;
use crate::group::field_mul;
use crate::group::Field;
use crate::group::Group;
use crate::hash::concat;
use crate::hash::sha256;
use crate::hash::hash_value;
use crate::musig::model::agg_coefficient;
use crate::musig::model::agg_tag;
use crate::musig::model::aggregate_key;
use crate::musig::model::aggregation_error;
use crate::musig::model::assembled_signature;
use crate::musig::model::challenge;
use crate::musig::model::com_tag;
use crate::musig::model::commitment;
use crate::musig::model::commitments;
use crate::musig::model::key_sum;
use crate::musig::model::nonce_point;
use crate::musig::model::nonce_points;
use crate::musig::model::nonce_sum;
use crate::musig::model::opening_error;
use crate::musig::model::partial_signature;
use crate::musig::model::public_keys;
use crate::musig::model::share_sum;
use crate::musig::model::sig_tag;
use crate::musig::model::signing_error;
use crate::musig::model::valid_signer;
use crate::musig::model::valid_keys;
use crate::musig::model::valid_signers;
use crate::musig::model::verification_equation;
use crate::musig::model::verifies;
use crate::musig::model::SessionError;
use crate::musig::model::SignatureView;
use crate::musig::model::SignerView;
use crate::schnorr::schnorr_challenge;
use crate::schnorr::schnorr_signature;
use crate::schnorr::schnorr_verifies;

verus! {

/// The laws of a group on which its scalar field acts: addition of elements
/// is closed, commutative and associative with the identity as its neutral
/// element, and multiplication by scalars is closed, sends zero and the
/// identity to the identity, and distributes over the addition of scalars,
/// over the multiplication of scalars and over the addition of elements.
///
/// The arithmetic of the group is taken from outside and nothing of it is
/// proved here, so the laws are a hypothesis of what is proved from them.
pub open spec fn group_laws<G: Group>() -> bool {
    let n = G::Scalar::order();
    &&& G::valid(G::identity_spec())
    &&& G::valid(G::generator_spec())
    &&& forall|a: Seq<u8>, b: Seq<u8>|
        G::valid(a) && G::valid(b) ==> G::valid(#[trigger] G::add_spec(a, b))
    &&& forall|p: Seq<u8>, k: nat| G::valid(p) && k < n ==> G::valid(#[trigger] G::mul_spec(p, k))
    &&& forall|a: Seq<u8>, b: Seq<u8>|
        G::valid(a) && G::valid(b) ==> #[trigger] G::add_spec(a, b) == G::add_spec(b, a)
    &&& forall|a: Seq<u8>, b: Seq<u8>, c: Seq<u8>|
        G::valid(a) && G::valid(b) && G::valid(c) ==> #[trigger] G::add_spec(
            G::add_spec(a, b),
            c,
        ) == G::add_spec(a, G::add_spec(b, c))
    &&& forall|a: Seq<u8>| G::valid(a) ==> #[trigger] G::add_spec(G::identity_spec(), a) == a
    &&& forall|p: Seq<u8>| G::valid(p) ==> #[trigger] G::mul_spec(p, 0) == G::identity_spec()
    &&& forall|k: nat|
        k < n ==> #[trigger] G::mul_spec(G::identity_spec(), k) == G::identity_spec()
    &&& forall|p: Seq<u8>, j: nat, k: nat|
        G::valid(p) && j < n && k < n ==> #[trigger] G::add_spec(
            G::mul_spec(p, j),
            G::mul_spec(p, k),
        ) == G::mul_spec(p, field_add(n, j, k))
    &&& forall|p: Seq<u8>, j: nat, k: nat|
        G::valid(p) && j < n && k < n ==> #[trigger] G::mul_spec(G::mul_spec(p, j), k)
            == G::mul_spec(p, field_mul(n, j, k))
    &&& forall|p: Seq<u8>, q: Seq<u8>, k: nat|
        G::valid(p) && G::valid(q) && k < n ==> #[trigger] G::mul_spec(G::add_spec(p, q), k)
            == G::add_spec(G::mul_spec(p, k), G::mul_spec(q, k))
}

/// In a sum of two sums the two inner terms may change places.
proof fn lemma_swap_inner<G: Group>(a: Seq<u8>, b: Seq<u8>, c: Seq<u8>, d: Seq<u8>)
    requires
        group_laws::<G>(),
        G::valid(a),
        G::valid(b),
        G::valid(c),
        G::valid(d),
    ensures
        G::add_spec(G::add_spec(a, b), G::add_spec(c, d)) == G::add_spec(
            G::add_spec(a, c),
            G::add_spec(b, d),
        ),
{
    let cd = G::add_spec(c, d);
    let bd = G::add_spec(b, d);
    // (a + b) + (c + d) == a + (b + (c + d))
    assert(G::add_spec(G::add_spec(a, b), cd) == G::add_spec(a, G::add_spec(b, cd)));
    // b + (c + d) == (b + c) + d == (c + b) + d == c + (b + d)
    assert(G::add_spec(G::add_spec(b, c), d) == G::add_spec(b, cd));
    assert(G::add_spec(b, c) == G::add_spec(c, b));
    assert(G::add_spec(G::add_spec(c, b), d) == G::add_spec(c, bd));
    // a + (c + (b + d)) == (a + c) + (b + d)
    assert(G::add_spec(G::add_spec(a, c), bd) == G::add_spec(a, G::add_spec(c, bd)));
}

/// The product of three field elements does not depend on how it is
/// bracketed or ordered.
proof fn lemma_field_mul_rotate(n: nat, c: nat, a: nat, sk: nat)
    requires
        n > 0,
    ensures
        field_mul(n, field_mul(n, c, a), sk) == field_mul(n, sk, field_mul(n, a, c)),
{
    lemma_mul_mod_noop_left((c * a) as int, sk as int, n as int);
    lemma_mul_mod_noop_right(sk as int, (a * c) as int, n as int);
    assert((c * a) * sk == sk * (a * c)) by (nonlinear_arith);
}

/// What the hash oracle gives is an element of the field.
proof fn lemma_hash_below_order(n: nat, parts: Seq<Seq<u8>>)
    requires
        n > 0,
    ensures
        hash_value(n, parts) < n,
{
    lemma_mod_bound(be_value(sha256(concat(parts))) as int, n as int);
}

/// The sums that a session builds over the first `k` signers satisfy the
/// verification equation.
proof fn lemma_prefix_equation<G: Group>(signers: Seq<SignerView>, c: nat, k: nat)
    requires
        group_laws::<G>(),
        valid_signers::<G>(signers),
        c < G::Scalar::order(),
        k <= signers.len(),
    ensures
        G::valid(nonce_sum::<G>(signers, k)),
        G::valid(key_sum::<G>(public_keys(signers), k)),
        share_sum::<G>(signers, c, k) < G::Scalar::order(),
        G::mul_spec(G::generator_spec(), share_sum::<G>(signers, c, k)) == G::add_spec(
            nonce_sum::<G>(signers, k),
            G::mul_spec(key_sum::<G>(public_keys(signers), k), c),
        ),
    decreases k,
{
    let n = G::Scalar::order();
    let g = G::generator_spec();
    let id = G::identity_spec();
    let pks = public_keys(signers);
    G::Scalar::lemma_order();
    if k == 0 {
        assert(G::mul_spec(g, 0) == id);
        assert(G::mul_spec(id, c) == id);
        assert(G::add_spec(id, id) == id);
    } else {
        let j = (k - 1) as nat;
        lemma_prefix_equation::<G>(signers, c, j);
        let signer = signers[j as int];
        assert(valid_signer::<G>(signer));
        let pk = pks[j as int];
        assert(pk == signer.public);
        let a = agg_coefficient::<G>(pks, pk);
        lemma_hash_below_order(n, seq![agg_tag()] + pks + seq![pk]);
        let ca = field_mul(n, c, a);
        let ac = field_mul(n, a, c);
        let t = field_mul(n, ca, signer.secret);
        lemma_mod_bound((c * a) as int, n as int);
        lemma_mod_bound((a * c) as int, n as int);
        lemma_mod_bound((ca * signer.secret) as int, n as int);
        let share = partial_signature::<G>(signer.nonce, c, a, signer.secret);
        lemma_mod_bound((signer.nonce + t) as int, n as int);
        let s_old = share_sum::<G>(signers, c, j);
        let r_old = nonce_sum::<G>(signers, j);
        let x_old = key_sum::<G>(pks, j);
        let r_term = G::mul_spec(g, signer.nonce);
        let t_term = G::mul_spec(g, t);
        let xc_old = G::mul_spec(x_old, c);

        assert(share == field_add(n, signer.nonce, t));
        assert(share_sum::<G>(signers, c, k) == field_add(n, s_old, share));
        lemma_mod_bound((s_old + share) as int, n as int);
        assert(nonce_sum::<G>(signers, k) == G::add_spec(r_old, nonce_point::<G>(signer.nonce)));
        assert(key_sum::<G>(pks, k) == G::add_spec(x_old, G::mul_spec(pk, a)));

        // the left side: g * (s_old + share) == (r_old + x_old * c) + (g * r + g * t)
        assert(G::add_spec(r_term, t_term) == G::mul_spec(g, share));
        assert(G::add_spec(G::mul_spec(g, s_old), G::mul_spec(g, share)) == G::mul_spec(
            g,
            field_add(n, s_old, share),
        ));

        // the key term: (pk * a) * c == g * t
        assert(G::mul_spec(G::mul_spec(pk, a), c) == G::mul_spec(pk, ac));
        assert(G::mul_spec(G::mul_spec(g, signer.secret), ac) == G::mul_spec(
            g,
            field_mul(n, signer.secret, ac),
        ));
        lemma_field_mul_rotate(n, c, a, signer.secret);
        assert(G::mul_spec(G::mul_spec(pk, a), c) == t_term);

        // the right side: (x_old + pk * a) * c == x_old * c + g * t
        assert(G::valid(pk));
        assert(G::valid(G::mul_spec(pk, a)));
        assert(G::mul_spec(G::add_spec(x_old, G::mul_spec(pk, a)), c) == G::add_spec(
            xc_old,
            t_term,
        ));

        assert(G::valid(xc_old));
        assert(G::valid(r_term));
        assert(G::valid(t_term));
        lemma_swap_inner::<G>(r_old, xc_old, r_term, t_term);
    }
}

/// Every signature that a set of valid signers assembles over a message
/// satisfies the verification equation for the signers' public keys and the
/// same message, given the laws of the group, whatever the aggregate key and
/// the aggregate nonce point are. So the signature is accepted unless one of
/// the two is the identity, which the verifier refuses.
pub proof fn lemma_assembled_signature_verifies<G: Group>(
    signers: Seq<SignerView>,
    message: Seq<u8>,
)
    requires
        group_laws::<G>(),
        valid_signers::<G>(signers),
    ensures
        assembled_signature::<G>(signers, message).s < G::Scalar::order(),
        G::valid(assembled_signature::<G>(signers, message).r_point),
        G::valid(aggregate_key::<G>(public_keys(signers))),
        verification_equation::<G>(
            assembled_signature::<G>(signers, message),
            public_keys(signers),
            message,
        ),
        verifies::<G>(assembled_signature::<G>(signers, message), public_keys(signers), message)
            == (aggregate_key::<G>(public_keys(signers)) != G::identity_spec() && nonce_sum::<G>(
            signers,
            signers.len(),
        ) != G::identity_spec()),
{
    let pks = public_keys(signers);
    let x = aggregate_key::<G>(pks);
    let r_point = nonce_sum::<G>(signers, signers.len());
    let c = challenge::<G>(x, r_point, message);
    G::Scalar::lemma_order();
    lemma_hash_below_order(G::Scalar::order(), seq![sig_tag(), x, r_point, message]);
    lemma_prefix_equation::<G>(signers, c, signers.len());
}

/// What a group of prime order has beyond the laws of a group: a sum and
/// its first term determine the second term, and an element other than the
/// identity determines the scalar that it was multiplied by. Like the laws
/// of the group, this is a hypothesis of what is proved from it.
pub open spec fn cancellation_laws<G: Group>() -> bool {
    let n = G::Scalar::order();
    &&& forall|a: Seq<u8>, b: Seq<u8>, c: Seq<u8>|
        #![trigger G::add_spec(a, b), G::add_spec(a, c)]
        G::valid(a) && G::valid(b) && G::valid(c) && G::add_spec(a, b) == G::add_spec(a, c)
            ==> b == c
    &&& forall|p: Seq<u8>, j: nat, k: nat|
        #![trigger G::mul_spec(p, j), G::mul_spec(p, k)]
        G::valid(p) && p != G::identity_spec() && j < n && k < n && G::mul_spec(p, j)
            == G::mul_spec(p, k) ==> j == k
}

/// The weighted sum of the first `k` keys of a list of valid keys is a valid
/// element, given the laws of the group.
proof fn lemma_key_sum_is_valid<G: Group>(pks: Seq<Seq<u8>>, k: nat)
    requires
        group_laws::<G>(),
        valid_keys::<G>(pks),
        k <= pks.len(),
    ensures
        G::valid(key_sum::<G>(pks, k)),
    decreases k,
{
    if k > 0 {
        let j = (k - 1) as nat;
        lemma_key_sum_is_valid::<G>(pks, j);
        let pk = pks[j as int];
        assert(G::valid(pk));
        G::Scalar::lemma_order();
        lemma_hash_below_order(G::Scalar::order(), seq![agg_tag()] + pks + seq![pk]);
        assert(G::valid(G::mul_spec(pk, agg_coefficient::<G>(pks, pk))));
    }
}

/// A signature that is accepted for a message is refused for every message
/// that gives another challenge, given the laws of a group of prime order.
/// A message with one bit flipped gives another challenge unless its
/// digest falls on the same scalar.
pub proof fn lemma_other_message_is_refused<G: Group>(
    sig: SignatureView,
    pks: Seq<Seq<u8>>,
    message: Seq<u8>,
    other: Seq<u8>,
)
    requires
        group_laws::<G>(),
        cancellation_laws::<G>(),
        valid_keys::<G>(pks),
        G::valid(sig.r_point),
        verifies::<G>(sig, pks, message),
        challenge::<G>(aggregate_key::<G>(pks), sig.r_point, other) != challenge::<G>(
            aggregate_key::<G>(pks),
            sig.r_point,
            message,
        ),
    ensures
        !verifies::<G>(sig, pks, other),
{
    let n = G::Scalar::order();
    let x = aggregate_key::<G>(pks);
    let c = challenge::<G>(x, sig.r_point, message);
    let d = challenge::<G>(x, sig.r_point, other);
    G::Scalar::lemma_order();
    lemma_key_sum_is_valid::<G>(pks, pks.len());
    lemma_hash_below_order(n, seq![sig_tag(), x, sig.r_point, message]);
    lemma_hash_below_order(n, seq![sig_tag(), x, sig.r_point, other]);
    if verifies::<G>(sig, pks, other) {
        let xc = G::mul_spec(x, c);
        let xd = G::mul_spec(x, d);
        assert(G::valid(xc));
        assert(G::valid(xd));
        assert(G::add_spec(sig.r_point, xc) == G::add_spec(sig.r_point, xd));
        assert(xc == xd);
        assert(c == d);
    }
}

/// Two sessions of signers with the same secrets and keys but other nonces
/// each assemble a signature that satisfies the verification equation for
/// the same keys and message, given the laws of the group: which nonces were
/// sampled does not matter for acceptance, as long as the aggregate nonce
/// point of the session is not the identity.
pub proof fn lemma_sessions_with_other_nonces_verify<G: Group>(
    first: Seq<SignerView>,
    second: Seq<SignerView>,
    message: Seq<u8>,
)
    requires
        group_laws::<G>(),
        valid_signers::<G>(first),
        valid_signers::<G>(second),
        public_keys(first) == public_keys(second),
    ensures
        verification_equation::<G>(
            assembled_signature::<G>(first, message),
            public_keys(first),
            message,
        ),
        verification_equation::<G>(
            assembled_signature::<G>(second, message),
            public_keys(first),
            message,
        ),
        aggregate_key::<G>(public_keys(first)) != G::identity_spec() ==> (verifies::<G>(
            assembled_signature::<G>(first, message),
            public_keys(first),
            message,
        ) <==> nonce_sum::<G>(first, first.len()) != G::identity_spec()) && (verifies::<G>(
            assembled_signature::<G>(second, message),
            public_keys(first),
            message,
        ) <==> nonce_sum::<G>(second, second.len()) != G::identity_spec()),
{
    lemma_assembled_signature_verifies::<G>(first, message);
    lemma_assembled_signature_verifies::<G>(second, message);
}

/// Laying two lists end to end and then their parts gives the parts of the
/// first list and then the parts of the second.
pub proof fn lemma_concat_append(a: Seq<Seq<u8>>, b: Seq<Seq<u8>>)
    ensures
        concat(a + b) == concat(a) + concat(b),
    decreases b.len(),
{
    if b.len() == 0 {
        assert(a + b =~= a);
        assert(concat(a) + concat(b) =~= concat(a));
    } else {
        lemma_concat_append(a, b.drop_last());
        assert((a + b).drop_last() =~= a + b.drop_last());
        assert((a + b).last() == b.last());
        assert(concat(a) + (concat(b.drop_last()) + b.last()) =~= (concat(a) + concat(
            b.drop_last(),
        )) + b.last());
    }
}

/// Lists of as many parts, all of one length, that give the same bytes when
/// laid end to end are the same list.
pub proof fn lemma_concat_is_injective(a: Seq<Seq<u8>>, b: Seq<Seq<u8>>, len: nat)
    requires
        a.len() == b.len(),
        forall|i: int| 0 <= i < a.len() ==> (#[trigger] a[i]).len() == len,
        forall|i: int| 0 <= i < b.len() ==> (#[trigger] b[i]).len() == len,
        concat(a) == concat(b),
    ensures
        a == b,
    decreases a.len(),
{
    if a.len() == 0 {
        assert(a =~= b);
    } else {
        let whole = concat(a);
        let pa = concat(a.drop_last());
        let pb = concat(b.drop_last());
        assert(a.last().len() == len);
        assert(b.last().len() == len);
        assert(whole == pa + a.last());
        assert(whole == pb + b.last());
        assert(pa.len() == pb.len());
        assert(pa =~= whole.subrange(0, pa.len() as int));
        assert(pb =~= whole.subrange(0, pb.len() as int));
        assert(a.last() =~= whole.subrange(pa.len() as int, whole.len() as int));
        assert(b.last() =~= whole.subrange(pb.len() as int, whole.len() as int));
        lemma_concat_is_injective(a.drop_last(), b.drop_last(), len);
        assert(a =~= a.drop_last().push(a.last()));
        assert(b =~= b.drop_last().push(b.last()));
    }
}

/// The order of the key list is part of what is hashed for an aggregation
/// coefficient: two lists of as many valid keys that differ, as a list does
/// from a permutation of it, give different inputs to the hash of every
/// key. Whether the coefficients and the aggregate keys then differ is the
/// hash function's to say; the lists are never sorted.
pub proof fn lemma_key_order_is_hashed<G: Group>(
    pks: Seq<Seq<u8>>,
    other: Seq<Seq<u8>>,
    pk: Seq<u8>,
)
    requires
        valid_keys::<G>(pks),
        valid_keys::<G>(other),
        pks.len() == other.len(),
        pks != other,
    ensures
        concat(seq![agg_tag()] + pks + seq![pk]) != concat(seq![agg_tag()] + other + seq![pk]),
{
    let tag = seq![agg_tag()];
    let end = seq![pk];
    let left = concat(tag + pks + end);
    let right = concat(tag + other + end);
    lemma_concat_append(tag + pks, end);
    lemma_concat_append(tag, pks);
    lemma_concat_append(tag + other, end);
    lemma_concat_append(tag, other);
    if left == right {
        let t = concat(tag);
        let e = concat(end);
        let a = concat(pks);
        let b = concat(other);
        assert(left == t + a + e);
        assert(right == t + b + e);
        assert(a.len() == b.len());
        assert(a =~= left.subrange(t.len() as int, (t.len() + a.len()) as int));
        assert(b =~= right.subrange(t.len() as int, (t.len() + b.len()) as int));
        assert forall|i: int| 0 <= i < pks.len() implies (#[trigger] pks[i]).len()
            == G::encoding_len() by {
            G::lemma_valid(pks[i]);
        }
        assert forall|i: int| 0 <= i < other.len() implies (#[trigger] other[i]).len()
            == G::encoding_len() by {
            G::lemma_valid(other[i]);
        }
        lemma_concat_is_injective(pks, other, G::encoding_len());
    }
}

/// The three domain tags differ from one another, so that no input of one
/// hash is an input of another by its tag.
pub proof fn lemma_tags_are_distinct()
    ensures
        agg_tag() != com_tag(),
        agg_tag() != sig_tag(),
        com_tag() != sig_tag(),
{
    assert(agg_tag()[0] != com_tag()[0]);
    assert(agg_tag()[0] != sig_tag()[0]);
    assert(com_tag()[0] != sig_tag()[0]);
}

/// A key list that holds the identity element is refused at aggregation,
/// whatever else it holds, and so is every session over it.
pub proof fn lemma_identity_key_is_refused<G: Group>(signers: Seq<SignerView>, i: int)
    requires
        0 <= i < signers.len(),
        signers[i].public == G::identity_spec(),
    ensures
        aggregation_error::<G>(public_keys(signers)) == Some(SessionError::InvalidKey),
        signing_error::<G>(signers) == Some(SessionError::InvalidKey),
{
    let pks = public_keys(signers);
    assert(pks[i] == G::identity_spec());
}

/// When every signer has opened, a revealed nonce point that does not hash
/// to the commitment published for it aborts the session with a commitment
/// mismatch, whatever the other points are.
pub proof fn lemma_altered_opening_is_refused<G: Group>(
    signers: Seq<SignerView>,
    opened: Seq<Seq<u8>>,
    i: int,
)
    requires
        opened.len() == signers.len(),
        0 <= i < signers.len(),
        commitment::<G>(opened[i]) != commitment::<G>(nonce_point::<G>(signers[i].nonce)),
    ensures
        opening_error::<G>(signers, opened) == Some(SessionError::CommitmentMismatch),
{
    let published = commitments::<G>(signers);
    assert(commitment::<G>(opened[i]) != published[i]);
}

/// The nonce points that the signers committed to are accepted when they are
/// revealed unchanged.
pub proof fn lemma_honest_openings_are_accepted<G: Group>(signers: Seq<SignerView>)
    ensures
        opening_error::<G>(signers, nonce_points::<G>(signers)) is None,
{
}

/// Two parties that each multiply the other's public key by their own
/// private key arrive at the same secret, given the laws of the group.
pub proof fn lemma_shared_secret_agrees<G: Group>(sk_a: nat, sk_b: nat)
    requires
        group_laws::<G>(),
        sk_a < G::Scalar::order(),
        sk_b < G::Scalar::order(),
    ensures
        G::mul_spec(G::mul_spec(G::generator_spec(), sk_b), sk_a) == G::mul_spec(
            G::mul_spec(G::generator_spec(), sk_a),
            sk_b,
        ),
{
    let n = G::Scalar::order();
    let g = G::generator_spec();
    assert(G::mul_spec(G::mul_spec(g, sk_b), sk_a) == G::mul_spec(g, field_mul(n, sk_b, sk_a)));
    assert(G::mul_spec(G::mul_spec(g, sk_a), sk_b) == G::mul_spec(g, field_mul(n, sk_a, sk_b)));
    assert(sk_a * sk_b == sk_b * sk_a) by (nonlinear_arith);
}

/// A Schnorr signature is accepted for the public key of the secret that
/// made it and the message that it was made over, given the laws of the
/// group.
pub proof fn lemma_schnorr_signature_verifies<G: Group>(sk: nat, k: nat, message: Seq<u8>)
    requires
        group_laws::<G>(),
        sk < G::Scalar::order(),
        k < G::Scalar::order(),
    ensures
        schnorr_verifies::<G>(
            schnorr_signature::<G>(sk, k, message).0,
            schnorr_signature::<G>(sk, k, message).1,
            G::mul_spec(G::generator_spec(), sk),
            message,
        ),
{
    let n = G::Scalar::order();
    let g = G::generator_spec();
    let pk = G::mul_spec(g, sk);
    let r_point = G::mul_spec(g, k);
    let h = schnorr_challenge::<G>(message, pk, r_point);
    lemma_hash_below_order(n, seq![message, pk, r_point]);
    lemma_mod_bound((sk * h) as int, n as int);
    assert(G::mul_spec(G::mul_spec(g, sk), h) == G::mul_spec(g, field_mul(n, sk, h)));
    assert(G::add_spec(G::mul_spec(g, k), G::mul_spec(g, field_mul(n, sk, h))) == G::mul_spec(
        g,
        field_add(n, k, field_mul(n, sk, h)),
    ));
}

/// Whether an element of the field of `n` elements has a multiplicative
/// inverse. In a field of prime order every element but zero has one.
pub open spec fn has_inverse(n: nat, a: nat) -> bool {
    exists|v: nat| v < n && #[trigger] field_mul(n, a, v) == 1
}

/// The inverse of an element that has one multiplies with it to one.
proof fn lemma_inverse_multiplies_to_one(n: nat, a: nat)
    requires
        has_inverse(n, a),
    ensures
        field_inverse(n, a) < n,
        field_mul(n, a, field_inverse(n, a)) == 1,
{
    let v = choose|v: nat| v < n && #[trigger] field_mul(n, a, v) == 1;
    assert(v < n && field_mul(n, a, v) == 1);
}

/// With `s = (z + r * sk) / k`, the scalars that the verifier computes add
/// up to the nonce: `z / s + sk * (r / s) = k`.
proof fn lemma_ecdsa_scalars(n: nat, z: nat, r: nat, sk: nat, k: nat)
    requires
        n > 1,
        k < n,
        has_inverse(n, k),
        has_inverse(
            n,
            field_mul(n, field_inverse(n, k), field_add(n, z, field_mul(n, r, sk))),
        ),
    ensures
        ({
            let s = field_mul(n, field_inverse(n, k), field_add(n, z, field_mul(n, r, sk)));
            let s_inv = field_inverse(n, s);
            field_add(n, field_mul(n, z, s_inv), field_mul(n, sk, field_mul(n, r, s_inv))) == k
        }),
{
    let ki = field_inverse(n, k);
    let t = field_add(n, z, field_mul(n, r, sk));
    let s = field_mul(n, ki, t);
    let si = field_inverse(n, s);
    lemma_inverse_multiplies_to_one(n, k);
    lemma_inverse_multiplies_to_one(n, s);
    let m = n as int;
    // t is (z + r * sk) reduced
    lemma_add_mod_noop_right(z as int, (r * sk) as int, m);
    assert(t == (z + r * sk) % n);
    lemma_mod_bound((z + r * sk) as int, m);
    // (A) k * s reduces to t
    lemma_mul_mod_noop_right(k as int, (ki * t) as int, m);
    assert(k * (ki * t) == (k * ki) * t) by (nonlinear_arith);
    lemma_mul_mod_noop_left((k * ki) as int, t as int, m);
    lemma_small_mod(t, n);
    assert((k * s) % n == t);
    // (B) the sum of the verifier's scalars reduces to s_inv * t
    let u1 = field_mul(n, z, si);
    let u2 = field_mul(n, r, si);
    let p = z * si;
    let q = sk * (r * si);
    lemma_mul_mod_noop_right(sk as int, (r * si) as int, m);
    assert(field_mul(n, sk, u2) == q % n);
    lemma_add_mod_noop((p) as int, (q) as int, m);
    lemma_mod_twice(p as int, m);
    lemma_mod_twice(q as int, m);
    lemma_add_mod_noop((p % n) as int, (q % n) as int, m);
    assert(field_add(n, u1, field_mul(n, sk, u2)) == (p + q) % n);
    assert(p + q == si * (z + r * sk)) by (nonlinear_arith)
        requires
            p == z * si,
            q == sk * (r * si),
    ;
    lemma_mul_mod_noop_right(si as int, (z + r * sk) as int, m);
    assert((p + q) % n == (si * t) % n);
    // (C) s_inv * t reduces to k
    lemma_mul_mod_noop_right(si as int, (k * s) as int, m);
    assert(si * (k * s) == k * (s * si)) by (nonlinear_arith);
    lemma_mul_mod_noop_right(k as int, (s * si) as int, m);
    lemma_small_mod(k, n);
    assert((si * t) % n == k);
}

/// An ECDSA signature is accepted for the public key of the secret that
/// made it and the message that it was made over, given the laws of the
/// group and where the nonce and `s` have inverses: the verifier rebuilds
/// the nonce point. It is refused only where the verifier refuses a
/// degenerate case: a public key or a nonce point that is the identity, or
/// a zero `s`.
pub proof fn lemma_ecdsa_signature_verifies<G: CurveGroup>(sk: nat, k: nat, message: Seq<u8>)
    requires
        group_laws::<G>(),
        sk < G::Scalar::order(),
        k < G::Scalar::order(),
        has_inverse(G::Scalar::order(), k),
        has_inverse(G::Scalar::order(), ecdsa_signature::<G>(sk, k, message).1),
    ensures
        ({
            let (r, s) = ecdsa_signature::<G>(sk, k, message);
            let pk = G::mul_spec(G::generator_spec(), sk);
            let nonce_point = G::mul_spec(G::generator_spec(), k);
            &&& ecdsa_point::<G>(r, s, message, pk) == nonce_point
            &&& ecdsa_verifies::<G>(r, s, message, pk) == (pk != G::identity_spec() && s != 0
                && nonce_point != G::identity_spec())
        }),
{
    let n = G::Scalar::order();
    let g = G::generator_spec();
    G::Scalar::lemma_order();
    let z = message_scalar(n, message);
    let (r, s) = ecdsa_signature::<G>(sk, k, message);
    let s_inv = field_inverse(n, s);
    let u1 = field_mul(n, z, s_inv);
    let u2 = field_mul(n, r, s_inv);
    lemma_ecdsa_scalars(n, z, r, sk, k);
    lemma_mod_bound((z * s_inv) as int, n as int);
    lemma_mod_bound((r * s_inv) as int, n as int);
    lemma_mod_bound((sk * u2) as int, n as int);
    let pk = G::mul_spec(g, sk);
    assert(G::mul_spec(G::mul_spec(g, sk), u2) == G::mul_spec(g, field_mul(n, sk, u2)));
    assert(G::add_spec(G::mul_spec(g, u1), G::mul_spec(g, field_mul(n, sk, u2))) == G::mul_spec(
        g,
        field_add(n, u1, field_mul(n, sk, u2)),
    ));
}

} // verus!
