use elliptic_curves::group::Field;
use elliptic_curves::group::Group;
use elliptic_curves::musig::verify;
use elliptic_curves::musig::MuSig;
use elliptic_curves::musig::Signer;
use elliptic_curves::secp256k1::Point;
use elliptic_curves::secp256k1::Scalar;
use rand::distributions::Alphanumeric;
use rand::Rng;

#[test]
fn musig_test_true() {
    for _ in 1..100 {
        musig_test_true_aux()
    }
}

#[test]
fn musig_test_false() {
    for _ in 1..100 {
        musig_test_false_aux()
    }
}

/// Generate random string for testing
fn musig_random_message(length: usize) -> String {
    let message: Vec<char> = rand::thread_rng()
        .sample_iter(&Alphanumeric)
        .take(length)
        .map(char::from)
        .collect();
    let message2 = message.into_iter().collect::<String>();
    message2
}

/// Generate random signer for testing
fn musig_random_signer<T: Group>() -> Signer<T> {
    let sk = <T::Scalar as Field>::random();
    let r = <T::Scalar as Field>::random();
    Signer::new(sk, r)
}

/// Test that a signature verifies when it its message is passed intact through the verifier
fn musig_test_true_aux() {
    let message_str = musig_random_message(10);
    let message = message_str.as_bytes();
    let num_signers = rand::thread_rng().gen_range(5..20);
    let mut signers = Vec::new();
    for _ in 1..num_signers {
        signers.push(musig_random_signer::<Point>());
    }
    let pk_list = signers.iter().map(|signer| signer.pk()).collect();
    let musig = MuSig::<Point>::new(&signers[..], message);
    let signature = musig.sign().unwrap();

    let verifier = verify(signature, pk_list, message);
    assert_eq!(verifier, true);
}

/// Test that a signature fails to verify when its message is altered
fn musig_test_false_aux() {
    let message_str = musig_random_message(10);
    let message = message_str.as_bytes();
    let num_signers = rand::thread_rng().gen_range(5..20);
    let mut signers = Vec::new();
    for _ in 1..num_signers {
        signers.push(musig_random_signer::<Point>());
    }
    let pk_list = signers.iter().map(|signer| signer.pk()).collect();
    let musig = MuSig::<Point>::new(&signers[..], message);
    let signature = musig.sign().unwrap();

    let message_altered_str = musig_random_message(11);
    let message_altered = message_altered_str.as_bytes();
    let verifier = verify(signature, pk_list, message_altered);
    assert_eq!(verifier, false);
}

#[test]
fn musig_signer_keeps_its_parts() {
    let signer = Signer::<Point>::new(Scalar::from_u64(3), Scalar::from_u64(4));
    assert!(signer.pk().equals(&Point::generator().mul(&Scalar::from_u64(3))));
    assert!(signer.r_point().equals(&Point::generator().mul(&Scalar::from_u64(4))));
    assert!(!signer.has_zero_nonce());
    let copy = signer.clone();
    assert!(copy.pk().equals(&signer.pk()));
}
