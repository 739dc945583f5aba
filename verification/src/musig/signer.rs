use vstd::prelude::*;
use crate::group::Field;
use crate::group::Group;
use crate::musig::model::all_valid;
use crate::musig::model::all_wf;
use crate::musig::model::commitment;
use crate::musig::model::nonce_point;
use crate::musig::model::openings_match;
use crate::musig::model::partial_signature;
use crate::musig::model::points_view;
use crate::musig::model::scalars_view;
use crate::musig::model::valid_signer;
use crate::musig::model::SessionError;
use crate::musig::model::SignerView;
use crate::musig::oracle::hash_com;

verus! {

/// Represents a signer with a secret key, public key, and randomly generated value r
#[derive(Debug)]
pub struct Signer<G: Group> {
    sk: G::Scalar,
    pk: G,
    r: G::Scalar,
}

impl<G: Group> Clone for Signer<G> {
    fn clone(&self) -> (r: Self)
        ensures
            r == *self,
    {
        *self
    }
}

impl<G: Group> Copy for Signer<G> {

}

impl<G: Group> View for Signer<G> {
    type V = SignerView;

    closed spec fn view(&self) -> SignerView {
        SignerView { secret: self.sk.value(), public: self.pk@, nonce: self.r.value() }
    }
}

impl<G: Group> Signer<G> {
    /// A signer is well formed when its parts are, and its public key is the
    /// generator multiplied by its secret.
    pub closed spec fn wf(&self) -> bool {
        &&& self.sk.wf()
        &&& G::valid(self.pk@)
        &&& self.r.wf()
        &&& self.pk@ == G::mul_spec(G::generator_spec(), self.sk.value())
    }

    /// A well-formed signer is a valid one, with a valid public key.
    pub proof fn lemma_wf_is_valid(self)
        requires
            self.wf(),
        ensures
            valid_signer::<G>(self@),
            G::valid(self@.public),
    {
        self.sk.lemma_wf();
        self.r.lemma_wf();
    }

    /// A signer with the secret `sk` and the session nonce `r`. Neither is
    /// tested: a session refuses a signer whose public key is the identity
    /// or whose nonce is zero.
    pub fn new(sk: G::Scalar, r: G::Scalar) -> (signer: Self)
        requires
            sk.wf(),
            r.wf(),
        ensures
            signer.wf(),
            signer@.secret == sk.value(),
            signer@.nonce == r.value(),
            signer@.public == G::mul_spec(G::generator_spec(), sk.value()),
    {
        let pk = G::generator().mul(&sk);
        Signer { sk, pk, r }
    }

    /// A signer with the secret `sk` and the session nonce `r`, where neither
    /// is zero: a zero secret is an invalid key, a zero nonce is degenerate.
    pub fn try_new(sk: G::Scalar, r: G::Scalar) -> (res: Result<Self, SessionError>)
        requires
            sk.wf(),
            r.wf(),
        ensures
            match res {
                Ok(signer) => {
                    &&& sk.value() != 0
                    &&& r.value() != 0
                    &&& signer.wf()
                    &&& signer@.secret == sk.value()
                    &&& signer@.nonce == r.value()
                    &&& signer@.public == G::mul_spec(G::generator_spec(), sk.value())
                },
                Err(e) => if sk.value() == 0 {
                    e == SessionError::InvalidKey
                } else {
                    r.value() == 0 && e == SessionError::DegenerateNonce
                },
            },
    {
        if sk.is_zero() {
            return Err(SessionError::InvalidKey);
        }
        if r.is_zero() {
            return Err(SessionError::DegenerateNonce);
        }
        Ok(Signer::new(sk, r))
    }

    /// A signer with a freshly sampled secret and a freshly sampled nonce.
    /// A sample that is zero is never accepted: the caller samples again.
    pub fn random() -> (res: Result<Self, SessionError>)
        ensures
            match res {
                Ok(signer) => signer.wf() && signer@.secret != 0 && signer@.nonce != 0,
                Err(e) => e == SessionError::InvalidKey || e == SessionError::DegenerateNonce,
            },
    {
        let sk = G::Scalar::random();
        let r = G::Scalar::random();
        Signer::try_new(sk, r)
    }

    /// creates the point R = generator * r
    pub fn r_point(&self) -> (p: G)
        requires
            self.wf(),
        ensures
            G::valid(p@),
            p@ == nonce_point::<G>(self@.nonce),
    {
        G::generator().mul(&self.r)
    }

    /// Creates the signer's contribution to the collective signature: r + c * a * sk
    pub fn s(&self, c: G::Scalar, a: G::Scalar) -> (share: G::Scalar)
        requires
            self.wf(),
            c.wf(),
            a.wf(),
        ensures
            share.wf(),
            share.value() == partial_signature::<G>(
                self@.nonce,
                c.value(),
                a.value(),
                self@.secret,
            ),
    {
        self.r.add(&c.mul(&a).mul(&self.sk))
    }

    /// Returns the signer's public key
    pub fn pk(&self) -> (p: G)
        requires
            self.wf(),
        ensures
            G::valid(p@),
            p@ == self@.public,
    {
        self.pk
    }

    /// Tells whether the signer's nonce is zero.
    pub fn has_zero_nonce(&self) -> (zero: bool)
        requires
            self.wf(),
        ensures
            zero == (self@.nonce == 0),
    {
        self.r.is_zero()
    }

    /// Returns hash_com of the signer's R point
    pub fn commit(&self) -> (t: G::Scalar)
        requires
            self.wf(),
        ensures
            t.wf(),
            t.value() == commitment::<G>(nonce_point::<G>(self@.nonce)),
    {
        hash_com(self.r_point())
    }

    /// Verify a commitment to a randomly generated point like one produced by the commit function
    pub fn verify_commit(commitment: G::Scalar, r_point: G) -> (ok: bool)
        requires
            commitment.wf(),
            G::valid(r_point@),
        ensures
            ok == (self::commitment::<G>(r_point@) == commitment.value()),
    {
        hash_com(r_point).equals(&commitment)
    }

    /// Verify commitments from all other signers: there must be one nonce
    /// point for every commitment, and every nonce point must open the
    /// commitment at its index. A list that is short of an opening, or has one
    /// too many, is refused.
    pub fn verify_all_commits(&self, r_point_vec: &Vec<G>, commit_vec: &Vec<G::Scalar>) -> (ok:
        bool)
        requires
            all_wf(commit_vec@),
            all_valid(r_point_vec@),
        ensures
            ok == (r_point_vec@.len() == commit_vec@.len() && openings_match::<G>(
                points_view(r_point_vec@),
                scalars_view(commit_vec@),
            )),
    {
        if r_point_vec.len() != commit_vec.len() {
            return false;
        }
        let mut verifier = true;
        let mut i: usize = 0;
        while i < commit_vec.len()
            invariant
                i <= commit_vec.len(),
                r_point_vec@.len() == commit_vec@.len(),
                all_wf(commit_vec@),
                all_valid(r_point_vec@),
                verifier == (forall|j: int|
                    0 <= j < i ==> commitment::<G>(#[trigger] r_point_vec@[j]@)
                        == commit_vec@[j].value()),
            decreases commit_vec.len() - i,
        {
            let one = Signer::<G>::verify_commit(commit_vec[i], r_point_vec[i]);
            verifier = verifier && one;
            i += 1;
        }
        proof {
            let rs = points_view(r_point_vec@);
            let cs = scalars_view(commit_vec@);
            if verifier {
                assert forall|j: int| 0 <= j < rs.len() && j < cs.len() implies commitment::<G>(
                    #[trigger] rs[j],
                ) == cs[j] by {
                    assert(commitment::<G>(r_point_vec@[j]@) == commit_vec@[j].value());
                }
            } else {
                let j = choose|j: int|
                    0 <= j < i && commitment::<G>(#[trigger] r_point_vec@[j]@)
                        != commit_vec@[j].value();
                assert(commitment::<G>(rs[j]) != cs[j]);
            }
        }
        verifier
    }
}

} // verus!
