use vstd::prelude::*;
use crate::group::Field;
use crate::group::Group;
use crate::musig::model::agg_coefficient;
use crate::musig::model::aggregate_key;
use crate::musig::model::aggregation_error;
use crate::musig::model::all_valid;
use crate::musig::model::all_wf;
use crate::musig::model::assembled_signature;
use crate::musig::model::coefficients;
use crate::musig::model::commitment;
use crate::musig::model::commitments;
use crate::musig::model::commitments_exchanged;
use crate::musig::model::commitments_published;
use crate::musig::model::has_zero_nonce;
use crate::musig::model::initial;
use crate::musig::model::keys_aggregated;
use crate::musig::model::nonce_point;
use crate::musig::model::nonce_points;
use crate::musig::model::nonce_sum;
use crate::musig::model::opening_error;
use crate::musig::model::openings_match;
use crate::musig::model::points_view;
use crate::musig::model::public_keys;
use crate::musig::model::scalars_view;
use crate::musig::model::share_sum;
use crate::musig::model::signature_assembled;
use crate::musig::model::signing_error;
use crate::musig::model::valid_signer;
use crate::musig::model::valid_signers;
use crate::musig::model::SessionError;
use crate::musig::model::SessionView;
use crate::musig::model::SignerView;
use crate::musig::oracle::hash_sig;
use crate::musig::signature::combine_keys;
use crate::musig::signature::key_coefficients;
use crate::musig::signature::Signature;
use crate::musig::signer::Signer;

verus! {

/// The views of a sequence of signers.
pub open spec fn signers_view<G: Group>(signers: Seq<Signer<G>>) -> Seq<SignerView> {
    Seq::new(signers.len(), |i: int| signers[i]@)
}

/// The number of a coefficient, where there is one.
pub open spec fn coefficient_view<F: Field>(a: Option<F>) -> Option<nat> {
    match a {
        Some(a) => Some(a.value()),
        None => None,
    }
}

/// Represents a signature process with signers, a message, a vector of 'a' values, commitments, opened commitments, a collective public key, and a signature.
#[derive(Debug)]
pub struct MuSig<'a, G: Group> {
    signers: &'a [Signer<G>],
    message: &'a [u8],
    a_vec: Vec<Option<G::Scalar>>,
    commitment_vec: Vec<G::Scalar>,
    opened_commitment_vec: Vec<G>,
    /// Collective public key
    x: G,
    signature: Option<Signature<G>>,
}

impl<'a, G: Group> View for MuSig<'a, G> {
    type V = SessionView;

    closed spec fn view(&self) -> SessionView {
        SessionView {
            signers: signers_view(self.signers@),
            message: self.message@,
            a_vec: Seq::new(self.a_vec@.len(), |i: int| coefficient_view(self.a_vec@[i])),
            commitments: scalars_view(self.commitment_vec@),
            opened: points_view(self.opened_commitment_vec@),
            x: self.x@,
            signature: match self.signature {
                Some(sig) => Some(sig@),
                None => None,
            },
        }
    }
}

impl<'a, G: Group> MuSig<'a, G> {
    /// A session is well formed when everything it holds is.
    pub closed spec fn wf(&self) -> bool {
        &&& forall|i: int| 0 <= i < self.signers@.len() ==> (#[trigger] self.signers@[i]).wf()
        &&& forall|i: int|
            0 <= i < self.a_vec@.len() ==> (#[trigger] self.a_vec@[i]) is Some
                ==> self.a_vec@[i].unwrap().wf()
        &&& all_wf(self.commitment_vec@)
        &&& all_valid(self.opened_commitment_vec@)
        &&& G::valid(self.x@)
        &&& self.signature is Some ==> self.signature.unwrap().wf()
    }

    /// The signers of a well-formed session are valid.
    pub proof fn lemma_signers_are_valid(self)
        requires
            self.wf(),
        ensures
            valid_signers::<G>(self@.signers),
    {
        assert forall|i: int| 0 <= i < self@.signers.len() implies valid_signer::<G>(
            #[trigger] self@.signers[i],
        ) by {
            self.signers@[i].lemma_wf_is_valid();
        }
    }

    /// Create new signature process with signers and a message and no data in the other fields
    pub fn new(signers: &'a [Signer<G>], message: &'a [u8]) -> (m: Self)
        requires
            forall|i: int| 0 <= i < signers@.len() ==> (#[trigger] signers@[i]).wf(),
        ensures
            m.wf(),
            m@.signers == signers_view(signers@),
            m@.message == message@,
            initial::<G>(m@),
    {
        let mut a_vec: Vec<Option<G::Scalar>> = Vec::new();
        let mut i: usize = 0;
        while i < signers.len()
            invariant
                i <= signers.len(),
                a_vec@.len() == i,
                forall|j: int| 0 <= j < i ==> (#[trigger] a_vec@[j]) is None,
            decreases signers.len() - i,
        {
            a_vec.push(None);
            i += 1;
        }
        let m = MuSig {
            signers,
            message,
            a_vec,
            commitment_vec: Vec::new(),
            opened_commitment_vec: Vec::new(),
            x: G::identity(),
            signature: None,
        };
        proof {
            assert(m@.a_vec =~= Seq::new(m@.signers.len(), |i: int| None::<nat>));
            assert(m@.commitments =~= Seq::<nat>::empty());
            assert(m@.opened =~= Seq::<Seq<u8>>::empty());
        }
        m
    }

    /// Complete all stages of signing from initial setup
    pub fn sign(self) -> (r: Result<Signature<G>, SessionError>)
        requires
            self.wf(),
            initial::<G>(self@),
        ensures
            match r {
                Ok(sig) => signing_error::<G>(self@.signers) is None && sig.wf() && sig@
                    == assembled_signature::<G>(self@.signers, self@.message),
                Err(e) => signing_error::<G>(self@.signers) == Some(e),
            },
    {
        R0::from(self).sign()
    }

    /// The public keys of the signers, in order.
    fn public_key_list(&self) -> (all_pk: Vec<G>)
        requires
            self.wf(),
        ensures
            points_view(all_pk@) == public_keys(self@.signers),
            all_valid(all_pk@),
    {
        let mut all_pk: Vec<G> = Vec::new();
        let mut i: usize = 0;
        while i < self.signers.len()
            invariant
                i <= self.signers.len(),
                self.wf(),
                all_pk@.len() == i,
                all_valid(all_pk@),
                forall|j: int| 0 <= j < i ==> (#[trigger] all_pk@[j])@ == self.signers@[j]@.public,
            decreases self.signers.len() - i,
        {
            all_pk.push(self.signers[i].pk());
            i += 1;
        }
        assert(points_view(all_pk@) =~= public_keys(self@.signers));
        all_pk
    }
}

// Type state encode state of signature scheme; it is impossible to complete a signature round without all previous required rounds being completed.
/// Initial signature state
pub struct R0<'a, G: Group>(MuSig<'a, G>);

/// State after completing round 1 of the signature process
pub struct R1<'a, G: Group>(MuSig<'a, G>);

/// State within round 2: every signer has published its commitment, and no
/// nonce point has been taken yet
pub struct Committed<'a, G: Group>(MuSig<'a, G>);

/// State after completing round 2 of the signature process
pub struct R2<'a, G: Group>(MuSig<'a, G>);

/// State after completing round 3 of the signature process
pub struct R3<'a, G: Group>(MuSig<'a, G>);

impl<'a, G: Group> R0<'a, G> {
    /// What the session holds.
    pub closed spec fn session(&self) -> SessionView {
        self.0@
    }

    /// The state is well formed when the session is and no round has run.
    pub closed spec fn wf(&self) -> bool {
        &&& self.0.wf()
        &&& initial::<G>(self.0@)
    }

    /// Create R0 state from initial multi sig
    pub fn from(m: MuSig<'a, G>) -> (r0: Self)
        requires
            m.wf(),
            initial::<G>(m@),
        ensures
            r0.wf(),
            r0.session() == m@,
    {
        R0(m)
    }

    /// Round 1: Aggregate public keys, create 'a' for each signer by hashing all public keys plus each signer's individual public key and create aggregated public key.
    /// An empty signer set and a key list that holds the identity element
    /// are refused.
    pub fn round_1(self) -> (r: Result<R1<'a, G>, SessionError>)
        requires
            self.wf(),
        ensures
            match r {
                Ok(r1) => {
                    &&& r1.wf()
                    &&& r1.session() == (SessionView {
                        a_vec: coefficients::<G>(public_keys(self.session().signers)),
                        x: aggregate_key::<G>(public_keys(self.session().signers)),
                        ..self.session()
                    })
                },
                Err(e) => aggregation_error::<G>(public_keys(self.session().signers)) == Some(e),
            },
            r is Ok <==> aggregation_error::<G>(public_keys(self.session().signers)) is None,
    {
        let ghost v0 = self.session();
        let ghost pks = public_keys(v0.signers);
        let mut m = self.0;
        assert(m@ == v0);
        let all_pk = m.public_key_list();
        if all_pk.len() == 0 {
            return Err(SessionError::EmptySignerSet);
        }
        let mut i: usize = 0;
        while i < all_pk.len()
            invariant
                i <= all_pk.len(),
                all_valid(all_pk@),
                points_view(all_pk@) == pks,
                pks == public_keys(self.session().signers),
                forall|j: int| 0 <= j < i ==> #[trigger] pks[j] != G::identity_spec(),
            decreases all_pk.len() - i,
        {
            if all_pk[i].is_identity() {
                assert(pks.len() == all_pk@.len());
                assert(pks[i as int] == all_pk@[i as int]@);
                assert(pks[i as int] == G::identity_spec());
                return Err(SessionError::InvalidKey);
            }
            i += 1;
        }
        let a_list = key_coefficients(&all_pk);
        let x = combine_keys(&all_pk, &a_list);
        let mut a_vec: Vec<Option<G::Scalar>> = Vec::new();
        let mut k: usize = 0;
        while k < a_list.len()
            invariant
                k <= a_list.len(),
                a_vec@.len() == k,
                a_list@.len() == pks.len(),
                points_view(all_pk@) == pks,
                all_wf(a_list@),
                forall|j: int|
                    0 <= j < a_list@.len() ==> (#[trigger] a_list@[j]).value()
                        == agg_coefficient::<G>(pks, all_pk@[j]@),
                forall|j: int|
                    0 <= j < k ==> (#[trigger] a_vec@[j]) is Some && a_vec@[j].unwrap().wf()
                        && a_vec@[j].unwrap().value() == agg_coefficient::<G>(pks, pks[j]),
            decreases a_list.len() - k,
        {
            assert(pks[k as int] == all_pk@[k as int]@);
            a_vec.push(Some(a_list[k]));
            k += 1;
        }
        m.a_vec = a_vec;
        m.x = x;
        proof {
            assert(m@.a_vec =~= coefficients::<G>(pks));
        }
        Ok(R1(m))
    }

    /// Run all rounds of signing and create a signature given an initial multi sig.
    pub fn sign(self) -> (r: Result<Signature<G>, SessionError>)
        requires
            self.wf(),
        ensures
            match r {
                Ok(sig) => signing_error::<G>(self.session().signers) is None && sig.wf() && sig@
                    == assembled_signature::<G>(self.session().signers, self.session().message),
                Err(e) => signing_error::<G>(self.session().signers) == Some(e),
            },
    {
        let r1 = match self.round_1() {
            Ok(r1) => r1,
            Err(e) => {
                return Err(e);
            },
        };
        let r2 = match r1.round_2() {
            Ok(r2) => r2,
            Err(e) => {
                return Err(e);
            },
        };
        Ok(r2.round_3().signature())
    }
}

impl<'a, G: Group> R1<'a, G> {
    /// What the session holds.
    pub closed spec fn session(&self) -> SessionView {
        self.0@
    }

    /// The state is well formed when the session is and its keys have been
    /// aggregated, with nothing else computed.
    pub closed spec fn wf(&self) -> bool {
        &&& self.0.wf()
        &&& keys_aggregated::<G>(self.0@)
        &&& self.0@.commitments == Seq::<nat>::empty()
        &&& self.0@.opened == Seq::<Seq<u8>>::empty()
        &&& self.0@.signature is None
    }

    /// The first half of round 2: every signer publishes the commitment to
    /// its nonce point. A zero nonce is refused. No nonce point is taken
    /// before this has been done: the state that takes them comes out of it.
    pub fn commit(self) -> (r: Result<Committed<'a, G>, SessionError>)
        requires
            self.wf(),
        ensures
            match r {
                Ok(committed) => {
                    &&& committed.wf()
                    &&& committed.session() == (SessionView {
                        commitments: commitments::<G>(self.session().signers),
                        ..self.session()
                    })
                },
                Err(e) => e == SessionError::DegenerateNonce,
            },
            r is Err <==> has_zero_nonce(self.session().signers),
    {
        let ghost v0 = self.session();
        let mut m = self.0;
        assert(m@ == v0);
        let n: usize = m.signers.len();
        let mut i: usize = 0;
        while i < n
            invariant
                i <= n,
                n == m.signers@.len(),
                m.wf(),
                m@ == v0,
                v0 == self.session(),
                forall|j: int| 0 <= j < i ==> (#[trigger] v0.signers[j]).nonce != 0,
            decreases n - i,
        {
            if m.signers[i].has_zero_nonce() {
                assert(v0.signers.len() == n);
                assert(v0.signers[i as int] == m.signers@[i as int]@);
                assert(v0.signers[i as int].nonce == 0);
                return Err(SessionError::DegenerateNonce);
            }
            i += 1;
        }
        let mut commitment_vec: Vec<G::Scalar> = Vec::new();
        let mut k: usize = 0;
        while k < n
            invariant
                k <= n,
                n == m.signers@.len(),
                m.wf(),
                m@ == v0,
                commitment_vec@.len() == k,
                all_wf(commitment_vec@),
                forall|j: int|
                    0 <= j < k ==> (#[trigger] commitment_vec@[j]).value() == commitment::<G>(
                        nonce_point::<G>(v0.signers[j].nonce),
                    ),
            decreases n - k,
        {
            commitment_vec.push(m.signers[k].commit());
            k += 1;
        }
        assert(scalars_view(commitment_vec@) =~= commitments::<G>(v0.signers));
        m.commitment_vec = commitment_vec;
        Ok(Committed(m))
    }

    /// Round 2: Each signer randomly generates r, a scalar, and creates R = r * generator. They compute hash_com(R) and publish this commitment. Then, all signers publicize their R and verify all commitments.
    /// A zero nonce is refused; nothing else can fail, as each signer opens
    /// what it committed to.
    pub fn round_2(self) -> (r: Result<R2<'a, G>, SessionError>)
        requires
            self.wf(),
        ensures
            match r {
                Ok(r2) => {
                    &&& r2.wf()
                    &&& r2.session() == (SessionView {
                        commitments: commitments::<G>(self.session().signers),
                        opened: nonce_points::<G>(self.session().signers),
                        ..self.session()
                    })
                },
                Err(e) => e == SessionError::DegenerateNonce,
            },
            r is Err <==> has_zero_nonce(self.session().signers),
    {
        let committed = match self.commit() {
            Ok(committed) => committed,
            Err(e) => {
                return Err(e);
            },
        };
        let opened = committed.nonce_points();
        proof {
            assert(openings_match::<G>(
                nonce_points::<G>(self.session().signers),
                commitments::<G>(self.session().signers),
            ));
        }
        committed.open(opened)
    }
}

impl<'a, G: Group> Committed<'a, G> {
    /// What the session holds.
    pub closed spec fn session(&self) -> SessionView {
        self.0@
    }

    /// The state is well formed when the session is and its commitments have
    /// been published, with no nonce point taken and no signature.
    pub closed spec fn wf(&self) -> bool {
        &&& self.0.wf()
        &&& commitments_published::<G>(self.0@)
        &&& self.0@.opened == Seq::<Seq<u8>>::empty()
        &&& self.0@.signature is None
    }

    /// The commitments that the signers have published, in order.
    pub fn commitments(&self) -> (published: Vec<G::Scalar>)
        requires
            self.wf(),
        ensures
            scalars_view(published@) == commitments::<G>(self.session().signers),
            all_wf(published@),
    {
        let mut published: Vec<G::Scalar> = Vec::new();
        let mut i: usize = 0;
        while i < self.0.commitment_vec.len()
            invariant
                i <= self.0.commitment_vec.len(),
                self.wf(),
                published@.len() == i,
                forall|j: int| 0 <= j < i ==> published@[j] == self.0.commitment_vec@[j],
            decreases self.0.commitment_vec.len() - i,
        {
            published.push(self.0.commitment_vec[i]);
            i += 1;
        }
        assert(published@ =~= self.0.commitment_vec@);
        published
    }

    /// The nonce points of the session's own signers, in order: what an
    /// honest party reveals.
    pub fn nonce_points(&self) -> (opened: Vec<G>)
        requires
            self.wf(),
        ensures
            points_view(opened@) == nonce_points::<G>(self.session().signers),
            all_valid(opened@),
    {
        let mut opened: Vec<G> = Vec::new();
        let mut i: usize = 0;
        while i < self.0.signers.len()
            invariant
                i <= self.0.signers.len(),
                self.wf(),
                opened@.len() == i,
                all_valid(opened@),
                forall|j: int|
                    0 <= j < i ==> (#[trigger] opened@[j])@ == nonce_point::<G>(
                        self.0.signers@[j]@.nonce,
                    ),
            decreases self.0.signers.len() - i,
        {
            opened.push(self.0.signers[i].r_point());
            i += 1;
        }
        assert(points_view(opened@) =~= nonce_points::<G>(self.session().signers));
        opened
    }

    /// The second half of round 2: takes the nonce points as the parties
    /// revealed them, and lets every signer check them against the
    /// commitments. A missing opening and a point that does not hash to its
    /// commitment each abort the session.
    pub fn open(self, opened: Vec<G>) -> (r: Result<R2<'a, G>, SessionError>)
        requires
            self.wf(),
            all_valid(opened@),
        ensures
            match r {
                Ok(r2) => {
                    &&& r2.wf()
                    &&& r2.session() == (SessionView {
                        opened: points_view(opened@),
                        ..self.session()
                    })
                },
                Err(e) => opening_error::<G>(self.session().signers, points_view(opened@))
                    == Some(e),
            },
            r is Ok <==> opening_error::<G>(self.session().signers, points_view(opened@))
                is None,
    {
        let mut m = self.0;
        let n: usize = m.signers.len();
        if opened.len() != n {
            return Err(SessionError::MissingContribution);
        }
        assert(m.commitment_vec@.len() == scalars_view(m.commitment_vec@).len());
        let mut verifier = true;
        let mut s: usize = 0;
        while s < n
            invariant
                s <= n,
                n == m.signers@.len(),
                n > 0,
                m.wf(),
                all_valid(opened@),
                opened@.len() == n,
                m.commitment_vec@.len() == n,
                verifier == (s == 0 || openings_match::<G>(
                    points_view(opened@),
                    scalars_view(m.commitment_vec@),
                )),
            decreases n - s,
        {
            let ver = m.signers[s].verify_all_commits(&opened, &m.commitment_vec);
            verifier = verifier && ver;
            s += 1;
        }
        if verifier {
            m.opened_commitment_vec = opened;
            Ok(R2(m))
        } else {
            Err(SessionError::CommitmentMismatch)
        }
    }
}

impl<'a, G: Group> R2<'a, G> {
    /// What the session holds.
    pub closed spec fn session(&self) -> SessionView {
        self.0@
    }

    /// The state is well formed when the session is and its commitments have
    /// been exchanged, with no signature yet.
    pub closed spec fn wf(&self) -> bool {
        &&& self.0.wf()
        &&& commitments_exchanged::<G>(self.0@)
        &&& self.0@.signature is None
    }

    /// Round 3: Create collective R and create signature
    pub fn round_3(self) -> (r3: R3<'a, G>)
        requires
            self.wf(),
        ensures
            r3.wf(),
            r3.session() == (SessionView {
                signature: Some(
                    assembled_signature::<G>(self.session().signers, self.session().message),
                ),
                ..self.session()
            }),
    {
        let ghost v0 = self.session();
        let mut m = self.0;
        assert(m@ == v0);
        let n: usize = m.signers.len();
        let mut r_point = G::identity();
        let mut i: usize = 0;
        while i < n
            invariant
                i <= n,
                n == m.signers@.len(),
                m.wf(),
                m@ == v0,
                G::valid(r_point@),
                r_point@ == nonce_sum::<G>(v0.signers, i as nat),
            decreases n - i,
        {
            r_point = r_point.add(&m.signers[i].r_point());
            i += 1;
        }
        let c = hash_sig(m.x, r_point, m.message);
        let mut s = G::Scalar::zero();
        let mut k: usize = 0;
        while k < n
            invariant
                k <= n,
                n == m.signers@.len(),
                m.wf(),
                m@ == v0,
                keys_aggregated::<G>(v0),
                c.wf(),
                s.wf(),
                s.value() == share_sum::<G>(v0.signers, c.value(), k as nat),
            decreases n - k,
        {
            assert(v0.a_vec.len() == m.a_vec@.len());
            assert(v0.a_vec.len() == public_keys(v0.signers).len());
            assert(v0.a_vec[k as int] == coefficient_view(m.a_vec@[k as int]));
            let a = match m.a_vec[k] {
                Some(a) => a,
                None => {
                    proof {
                        assert(false);
                    }
                    G::Scalar::zero()
                },
            };
            s = s.add(&m.signers[k].s(c, a));
            k += 1;
        }
        m.signature = Some(Signature::new(s, r_point));
        R3(m)
    }
}

impl<'a, G: Group> R3<'a, G> {
    /// What the session holds.
    pub closed spec fn session(&self) -> SessionView {
        self.0@
    }

    /// The state is well formed when the session is and it holds the
    /// assembled signature.
    pub closed spec fn wf(&self) -> bool {
        &&& self.0.wf()
        &&& signature_assembled::<G>(self.0@)
    }

    /// The signature that the session assembled.
    pub fn signature(&self) -> (sig: Signature<G>)
        requires
            self.wf(),
        ensures
            sig.wf(),
            sig@ == assembled_signature::<G>(self.session().signers, self.session().message),
    {
        match self.0.signature {
            Some(sig) => sig,
            None => {
                proof {
                    assert(false);
                }
                Signature::new(G::Scalar::zero(), G::identity())
            },
        }
    }
}

} // verus!
