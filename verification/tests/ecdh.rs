use elliptic_curves::ecdh::ECDHGroup;
use elliptic_curves::group::Field;
use elliptic_curves::group::Group;
use elliptic_curves::secp256k1::Point;
use elliptic_curves::secp256k1::Scalar;

#[test]
fn ecdh_test() {
    for _ in 1..100 {
        ecdh_test_aux()
    }
}

// Generate a two random signers and create a shared secret, then check that the shared secrets are equal.
fn ecdh_test_aux() {
    let sk_a = Point::generate_private_key();
    let pk_a = Point::generate_public_key(sk_a);

    let sk_b = Point::generate_private_key();
    let pk_b = Point::generate_public_key(sk_b);

    let secret_a = Point::generate_secret(sk_a, pk_b);
    let secret_b = Point::generate_secret(sk_b, pk_a);

    assert_eq!(secret_a.to_bytes(), secret_b.to_bytes());
    assert!(secret_a.equals(&secret_b));
}

#[test]
fn ecdh_public_key_of_one_is_the_generator() {
    let pk = Point::generate_public_key(Scalar::one());
    let expected: [u8; 33] = [
        0x02, 0x79, 0xbe, 0x66, 0x7e, 0xf9, 0xdc, 0xbb, 0xac, 0x55, 0xa0, 0x62, 0x95, 0xce, 0x87,
        0x0b, 0x07, 0x02, 0x9b, 0xfc, 0xdb, 0x2d, 0xce, 0x28, 0xd9, 0x59, 0xf2, 0x81, 0x5b, 0x16,
        0xf8, 0x17, 0x98,
    ];
    assert_eq!(pk.to_bytes(), expected);
    assert!(pk.equals(&Point::generator()));
}

#[test]
fn ecdh_public_key_of_zero_is_the_identity() {
    let pk = Point::generate_public_key(Scalar::zero());
    assert_eq!(pk.to_bytes(), vec![0u8; 33]);
    assert!(pk.is_identity());
    assert!(pk.equals(&Point::identity()));
}

#[test]
fn ecdh_secret_differs_from_both_public_keys() {
    let sk_a = Point::generate_private_key();
    let sk_b = Point::generate_private_key();
    let pk_b = Point::generate_public_key(sk_b);
    let secret = Point::generate_secret(sk_a, pk_b);
    assert!(!secret.equals(&pk_b));
    assert!(!secret.equals(&Point::generate_public_key(sk_a)));
}

#[test]
fn ecdh_secret_is_the_product_of_both_keys() {
    // 3 * (5 * G) == 15 * G
    let three = Scalar::from_u64(3);
    let five = Scalar::from_u64(5);
    let secret = Point::generate_secret(three, Point::generate_public_key(five));
    assert!(secret.equals(&Point::generate_public_key(Scalar::from_u64(15))));
    assert!(secret.equals(&Point::generate_secret(five, Point::generate_public_key(three))));
}
