use elliptic_curves::group::Field;
use elliptic_curves::group::Group;
use elliptic_curves::musig::combine_keys;
use elliptic_curves::musig::hash_agg;
use elliptic_curves::musig::hash_com;
use elliptic_curves::musig::hash_sig;
use elliptic_curves::musig::key_coefficients;
use elliptic_curves::musig::verify;
use elliptic_curves::musig::verify_bytes;
use elliptic_curves::musig::MuSig;
use elliptic_curves::musig::SessionError;
use elliptic_curves::musig::Signature;
use elliptic_curves::musig::Signer;
use elliptic_curves::musig::R0;
use elliptic_curves::secp256k1::Point;
use elliptic_curves::secp256k1::Scalar;

fn scalar(k: u8) -> Scalar {
    Scalar::from_u64(k as u64)
}

fn public_key(sk: Scalar) -> Point {
    Point::generator().mul(&sk)
}

fn fixed_signers() -> Vec<Signer<Point>> {
    vec![
        Signer::<Point>::new(scalar(11), scalar(21)),
        Signer::<Point>::new(scalar(12), scalar(22)),
        Signer::<Point>::new(scalar(13), scalar(23)),
    ]
}

fn random_signers(n: usize) -> Vec<Signer<Point>> {
    let mut signers = Vec::new();
    while signers.len() < n {
        if let Ok(signer) = Signer::<Point>::random() {
            signers.push(signer);
        }
    }
    signers
}

fn keys_of(signers: &[Signer<Point>]) -> Vec<Point> {
    signers.iter().map(|signer| signer.pk()).collect()
}

fn aggregate(pks: &Vec<Point>) -> Point {
    combine_keys(pks, &key_coefficients(pks))
}

#[test]
fn signature_of_any_signer_set_verifies() {
    for n in 1..6 {
        let signers = random_signers(n);
        let signature = MuSig::new(&signers, b"a message").sign().unwrap();
        assert!(verify(signature, keys_of(&signers), b"a message"));
    }
}

#[test]
fn single_signer_signature_verifies() {
    let signers = vec![Signer::<Point>::new(scalar(5), scalar(6))];
    let signature = MuSig::new(&signers, b"").sign().unwrap();
    assert!(verify(signature, keys_of(&signers), b""));
    assert!(!verify(signature, keys_of(&signers), b"\0"));
}

#[test]
fn flipping_one_bit_of_the_message_fails_verification() {
    let signers = fixed_signers();
    let message = b"hello-world".to_vec();
    let signature = MuSig::new(&signers, &message).sign().unwrap();
    for byte in 0..message.len() {
        for bit in 0..8 {
            let mut altered = message.clone();
            altered[byte] ^= 1 << bit;
            assert!(!verify(signature, keys_of(&signers), &altered));
        }
    }
    assert!(verify(signature, keys_of(&signers), &message));
}

#[test]
fn example_of_three_signers() {
    let signers = random_signers(3);
    let signature = MuSig::new(&signers, b"hello-world").sign().unwrap();
    assert_eq!(verify(signature, keys_of(&signers), b"hello-world"), true);
    assert_eq!(verify(signature, keys_of(&signers), b"hello-worle"), false);
}

#[test]
fn altered_nonce_point_aborts_with_commitment_mismatch() {
    let signers = fixed_signers();
    for altered in 0..signers.len() {
        let mut opened: Vec<Point> = signers.iter().map(|signer| signer.r_point()).collect();
        opened[altered] = public_key(scalar(99));
        let r1 = R0::from(MuSig::new(&signers, b"m")).round_1().ok().unwrap();
        match r1.commit().ok().unwrap().open(opened) {
            Err(e) => assert_eq!(e, SessionError::CommitmentMismatch),
            Ok(_) => panic!("the session went on with an altered nonce point"),
        }
    }
}

#[test]
fn honest_openings_are_accepted() {
    let signers = fixed_signers();
    let opened: Vec<Point> = signers.iter().map(|signer| signer.r_point()).collect();
    let r1 = R0::from(MuSig::new(&signers, b"m")).round_1().ok().unwrap();
    let committed = r1.commit().ok().unwrap();
    let published = committed.commitments();
    assert_eq!(published.len(), 3);
    for i in 0..3 {
        assert_eq!(published[i].to_bytes(), signers[i].commit().to_bytes());
    }
    let r2 = committed.open(opened).ok().unwrap();
    let by_hand = r2.round_3().signature();
    let at_once = MuSig::new(&signers, b"m").sign().unwrap();
    assert_eq!(by_hand.to_bytes(), at_once.to_bytes());
    assert!(verify(by_hand, keys_of(&signers), b"m"));
}

#[test]
fn swapped_openings_abort_with_commitment_mismatch() {
    let signers = fixed_signers();
    let mut opened: Vec<Point> = signers.iter().map(|signer| signer.r_point()).collect();
    opened.swap(0, 2);
    let r1 = R0::from(MuSig::new(&signers, b"m")).round_1().ok().unwrap();
    let committed = r1.commit().ok().unwrap();
    assert_eq!(committed.open(opened).err(), Some(SessionError::CommitmentMismatch));
}

#[test]
fn missing_opening_aborts_the_session() {
    let signers = fixed_signers();
    let mut opened: Vec<Point> = signers.iter().map(|signer| signer.r_point()).collect();
    opened.pop();
    let r1 = R0::from(MuSig::new(&signers, b"m")).round_1().ok().unwrap();
    let committed = r1.commit().ok().unwrap();
    assert_eq!(committed.open(opened).err(), Some(SessionError::MissingContribution));

    let mut too_many: Vec<Point> = signers.iter().map(|signer| signer.r_point()).collect();
    too_many.push(signers[0].r_point());
    let r1 = R0::from(MuSig::new(&signers, b"m")).round_1().ok().unwrap();
    let committed = r1.commit().ok().unwrap();
    assert_eq!(committed.open(too_many).err(), Some(SessionError::MissingContribution));
}

#[test]
fn permuted_key_list_changes_the_aggregate_key() {
    let signers = fixed_signers();
    let pks = keys_of(&signers);
    let mut permuted = pks.clone();
    permuted.swap(0, 1);
    assert!(!aggregate(&pks).equals(&aggregate(&permuted)));
    let mut rotated = pks.clone();
    rotated.rotate_left(1);
    assert!(!aggregate(&pks).equals(&aggregate(&rotated)));
    // and a signature does not verify against the permuted list
    let signature = MuSig::new(&signers, b"m").sign().unwrap();
    assert!(verify(signature, pks, b"m"));
    assert!(!verify(signature, permuted, b"m"));
}

#[test]
fn aggregate_key_is_the_weighted_sum_of_the_keys() {
    let signers = fixed_signers();
    let pks = keys_of(&signers);
    let coefficients = key_coefficients(&pks);
    assert_eq!(coefficients.len(), 3);
    for i in 0..3 {
        assert_eq!(coefficients[i].to_bytes(), hash_agg(&pks, &pks[i]).to_bytes());
    }
    // (a_1 sk_1 + a_2 sk_2 + a_3 sk_3) G, with the arithmetic done on the bytes of known small cases
    let one = vec![pks[0]];
    let a = key_coefficients(&one);
    let x = aggregate(&one);
    assert!(x.equals(&pks[0].mul(&a[0])));
    assert!(aggregate(&Vec::new()).is_identity());
}

#[test]
fn identity_key_is_rejected_at_aggregation() {
    let identity_holder = Signer::<Point>::new(Scalar::zero(), scalar(21));
    assert!(identity_holder.pk().is_identity());
    for place in 0..3 {
        let mut signers = fixed_signers();
        signers[place] = identity_holder;
        let r0 = R0::from(MuSig::new(&signers, b"m"));
        assert_eq!(r0.round_1().err(), Some(SessionError::InvalidKey));
        assert_eq!(MuSig::new(&signers, b"m").sign().err(), Some(SessionError::InvalidKey));
        assert_eq!(
            MuSig::new(&signers, b"another").sign().err(),
            Some(SessionError::InvalidKey)
        );
    }
    let alone = vec![identity_holder];
    assert_eq!(MuSig::new(&alone, b"m").sign().err(), Some(SessionError::InvalidKey));
}

#[test]
fn empty_signer_set_is_rejected() {
    let signers: Vec<Signer<Point>> = Vec::new();
    assert_eq!(MuSig::new(&signers, b"m").sign().err(), Some(SessionError::EmptySignerSet));
    let r0 = R0::from(MuSig::new(&signers, b"m"));
    assert_eq!(r0.round_1().err(), Some(SessionError::EmptySignerSet));
}

#[test]
fn zero_nonce_is_rejected() {
    let mut signers = fixed_signers();
    signers[1] = Signer::<Point>::new(scalar(12), Scalar::zero());
    assert_eq!(MuSig::new(&signers, b"m").sign().err(), Some(SessionError::DegenerateNonce));
    let r1 = R0::from(MuSig::new(&signers, b"m")).round_1().ok().unwrap();
    assert_eq!(r1.round_2().err(), Some(SessionError::DegenerateNonce));
    let r1 = R0::from(MuSig::new(&signers, b"m")).round_1().ok().unwrap();
    assert_eq!(r1.commit().err(), Some(SessionError::DegenerateNonce));
    // the identity key is found first
    signers[0] = Signer::<Point>::new(Scalar::zero(), scalar(21));
    assert_eq!(MuSig::new(&signers, b"m").sign().err(), Some(SessionError::InvalidKey));
}

#[test]
fn guarded_signer_refuses_zero() {
    assert_eq!(Signer::<Point>::try_new(Scalar::zero(), scalar(1)).err(), Some(SessionError::InvalidKey));
    assert_eq!(
        Signer::<Point>::try_new(scalar(1), Scalar::zero()).err(),
        Some(SessionError::DegenerateNonce)
    );
    assert_eq!(
        Signer::<Point>::try_new(Scalar::zero(), Scalar::zero()).err(),
        Some(SessionError::InvalidKey)
    );
    let signer = Signer::<Point>::try_new(scalar(1), scalar(2)).unwrap();
    assert!(signer.pk().equals(&public_key(scalar(1))));
    assert!(signer.r_point().equals(&public_key(scalar(2))));
}

#[test]
fn independent_nonces_give_different_valid_signatures() {
    let secrets = [scalar(11), scalar(12), scalar(13)];
    let first: Vec<Signer<Point>> =
        secrets.iter().map(|sk| Signer::<Point>::new(*sk, Scalar::random())).collect();
    let second: Vec<Signer<Point>> =
        secrets.iter().map(|sk| Signer::<Point>::new(*sk, Scalar::random())).collect();
    let pks = keys_of(&first);
    assert_eq!(
        pks.iter().map(|p| p.to_bytes()).collect::<Vec<_>>(),
        keys_of(&second).iter().map(|p| p.to_bytes()).collect::<Vec<_>>()
    );
    let a = MuSig::new(&first, b"message").sign().unwrap();
    let b = MuSig::new(&second, b"message").sign().unwrap();
    assert_ne!(a.to_bytes(), b.to_bytes());
    assert!(verify(a, pks.clone(), b"message"));
    assert!(verify(b, pks, b"message"));
}

#[test]
fn same_nonces_give_the_same_signature() {
    let a = MuSig::new(&fixed_signers(), b"message").sign().unwrap();
    let b = MuSig::new(&fixed_signers(), b"message").sign().unwrap();
    assert_eq!(a.to_bytes(), b.to_bytes());
}

fn sum(a: Scalar, b: Scalar) -> Scalar {
    a.add(&b)
}

#[test]
fn signature_parts_follow_the_formulas() {
    let signers = fixed_signers();
    let pks = keys_of(&signers);
    let signature = MuSig::new(&signers, b"message").sign().unwrap();
    // R is the sum of the nonce points: (r_1 + r_2 + r_3) G
    let r_sum = scalar(21 + 22 + 23);
    assert!(signature.r_point().equals(&public_key(r_sum)));
    // s is the sum of the shares under c = H(sig, X, R, m) and a_i = H(agg, keys, key_i)
    let x = aggregate(&pks);
    let c = hash_sig(x, signature.r_point(), b"message");
    let a = key_coefficients(&pks);
    let mut s = Scalar::zero();
    for i in 0..3 {
        s = sum(s, signers[i].s(c, a[i]));
    }
    assert_eq!(signature.s().to_bytes(), s.to_bytes());
    // under another challenge the sum is another
    let mut other = Scalar::zero();
    for i in 0..3 {
        other = sum(other, signers[i].s(scalar(1), a[i]));
    }
    assert_ne!(signature.s().to_bytes(), other.to_bytes());
}

#[test]
fn nonces_that_cancel_give_a_signature_that_is_refused() {
    // the nonces 1 and n - 1 add up to zero, so the aggregate nonce point is the identity
    let minus_one: [u8; 32] = [
        0xff, 0xff, 0xff, 0xff, 0xff, 0xff, 0xff, 0xff, 0xff, 0xff, 0xff, 0xff, 0xff, 0xff, 0xff,
        0xfe, 0xba, 0xae, 0xdc, 0xe6, 0xaf, 0x48, 0xa0, 0x3b, 0xbf, 0xd2, 0x5e, 0x8c, 0xd0, 0x36,
        0x41, 0x40,
    ];
    let signers = vec![
        Signer::<Point>::new(scalar(11), Scalar::one()),
        Signer::<Point>::new(scalar(12), Scalar::from_bytes(&minus_one).unwrap()),
    ];
    let signature = MuSig::new(&signers, b"m").sign().unwrap();
    assert!(signature.r_point().is_identity());
    assert!(!verify(signature, keys_of(&signers), b"m"));
}

#[test]
fn partial_signature_is_nonce_plus_challenge_times_coefficient_times_secret() {
    // r + c * a * sk with small numbers: 4 + 2 * 3 * 5 = 34
    let signer = Signer::<Point>::new(scalar(5), scalar(4));
    assert_eq!(signer.s(scalar(2), scalar(3)).to_bytes(), scalar(34).to_bytes());
    assert_eq!(signer.s(Scalar::zero(), scalar(3)).to_bytes(), scalar(4).to_bytes());
    assert_eq!(signer.s(scalar(2), Scalar::one()).to_bytes(), scalar(14).to_bytes());
}

#[test]
fn commitment_opens_only_with_its_nonce_point() {
    let signer = Signer::<Point>::new(scalar(5), scalar(4));
    let t = signer.commit();
    assert_eq!(t.to_bytes(), hash_com(signer.r_point()).to_bytes());
    assert!(Signer::<Point>::verify_commit(t, signer.r_point()));
    assert!(!Signer::<Point>::verify_commit(t, signer.pk()));
    assert!(!Signer::<Point>::verify_commit(scalar(1), signer.r_point()));
}

#[test]
fn verify_all_commits_needs_one_opening_for_every_commitment() {
    let signers = fixed_signers();
    let commits: Vec<Scalar> = signers.iter().map(|s| s.commit()).collect();
    let points: Vec<Point> = signers.iter().map(|s| s.r_point()).collect();
    assert!(signers[0].verify_all_commits(&points, &commits));
    // an opening is missing, or all are
    assert!(!signers[0].verify_all_commits(&points[..2].to_vec(), &commits));
    assert!(!signers[0].verify_all_commits(&Vec::new(), &commits));
    // a commitment is missing
    assert!(!signers[0].verify_all_commits(&points, &commits[..2].to_vec()));
    // a wrong opening
    let mut wrong = points.clone();
    wrong[2] = points[0];
    assert!(!signers[0].verify_all_commits(&wrong, &commits));
    // the wrong opening is not forgiven for being cut off with its commitment
    assert!(!signers[0].verify_all_commits(&wrong, &commits[..2].to_vec()));
    // shorter lists of equal length that match are a full set of their own
    assert!(signers[0].verify_all_commits(&points[..2].to_vec(), &commits[..2].to_vec()));
    assert!(signers[0].verify_all_commits(&Vec::new(), &Vec::new()));
}

#[test]
fn verifier_refuses_the_identity_as_nonce_point() {
    let signers = fixed_signers();
    let pks = keys_of(&signers);
    let identity = Point::identity();
    let forged = Signature::<Point>::new(Scalar::zero(), identity);
    assert!(!verify(forged, pks.clone(), b"m"));
    // a signature of other signers
    let others = vec![Signer::<Point>::new(scalar(1), scalar(2))];
    let signature = MuSig::new(&others, b"m").sign().unwrap();
    assert!(!verify(signature, pks, b"m"));
    assert!(!verify(signature, Vec::new(), b"m"));
}

#[test]
fn signature_round_trips_through_its_bytes() {
    let signature = MuSig::new(&fixed_signers(), b"message").sign().unwrap();
    let bytes = signature.to_bytes();
    assert_eq!(bytes.len(), 65);
    assert_eq!(&bytes[..32], &signature.s().to_bytes()[..]);
    assert_eq!(&bytes[32..], &signature.r_point().to_bytes()[..]);
    let back = Signature::<Point>::from_bytes(&bytes).unwrap();
    assert_eq!(back.to_bytes(), bytes);
    assert!(verify(back, keys_of(&fixed_signers()), b"message"));
}

#[test]
fn signature_is_not_read_from_bad_bytes() {
    let signature = MuSig::new(&fixed_signers(), b"message").sign().unwrap();
    let bytes = signature.to_bytes();
    assert!(Signature::<Point>::from_bytes(&bytes[..64]).is_none());
    assert!(Signature::<Point>::from_bytes(&[]).is_none());
    let mut long = bytes.clone();
    long.push(0);
    assert!(Signature::<Point>::from_bytes(&long).is_none());
    // a scalar that is not below the group order
    let mut big = bytes.clone();
    for b in big[..32].iter_mut() {
        *b = 0xff;
    }
    assert!(Signature::<Point>::from_bytes(&big).is_none());
    // a point with a tag that is not canonical
    let mut compact = bytes.clone();
    compact[32] = 0x05;
    assert!(Signature::<Point>::from_bytes(&compact).is_none());
    let mut uncompressed = bytes.clone();
    uncompressed[32] = 0x04;
    assert!(Signature::<Point>::from_bytes(&uncompressed).is_none());
}

fn encoded_keys(signers: &[Signer<Point>]) -> Vec<Vec<u8>> {
    signers.iter().map(|signer| signer.pk().to_bytes()).collect()
}

#[test]
fn received_signature_verifies_from_its_bytes() {
    let signers = fixed_signers();
    let signature = MuSig::new(&signers, b"message").sign().unwrap();
    let bytes = signature.to_bytes();
    let keys = encoded_keys(&signers);
    assert!(verify_bytes::<Point>(&bytes, &keys, b"message"));
    assert!(!verify_bytes::<Point>(&bytes, &keys, b"messagf"));
    let mut reordered = keys.clone();
    reordered.swap(1, 2);
    assert!(!verify_bytes::<Point>(&bytes, &reordered, b"message"));
}

#[test]
fn received_bytes_that_are_no_signature_or_no_keys_are_refused() {
    let signers = fixed_signers();
    let signature = MuSig::new(&signers, b"message").sign().unwrap();
    let bytes = signature.to_bytes();
    let keys = encoded_keys(&signers);
    // a signature cut short, and one with a byte too many
    assert!(!verify_bytes::<Point>(&bytes[..64], &keys, b"message"));
    let mut long = bytes.clone();
    long.push(0);
    assert!(!verify_bytes::<Point>(&long, &keys, b"message"));
    assert!(!verify_bytes::<Point>(&[], &keys, b"message"));
    // a key in another form: the compact tag
    let mut compact = keys.clone();
    compact[2][0] = 0x05;
    assert!(!verify_bytes::<Point>(&bytes, &compact, b"message"));
    // a key cut short
    let mut short = keys.clone();
    short[0].pop();
    assert!(!verify_bytes::<Point>(&bytes, &short, b"message"));
    // no keys at all
    assert!(!verify_bytes::<Point>(&bytes, &Vec::new(), b"message"));
    // a flipped bit in s
    let mut flipped = bytes.clone();
    flipped[31] ^= 1;
    assert!(!verify_bytes::<Point>(&flipped, &keys, b"message"));
}
