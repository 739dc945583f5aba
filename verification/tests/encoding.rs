use elliptic_curves::group::Field;
use elliptic_curves::group::Group;
use elliptic_curves::secp256k1::point::bytes_equal;
use elliptic_curves::secp256k1::Point;
use elliptic_curves::secp256k1::Scalar;

const GENERATOR: [u8; 33] = [
    0x02, 0x79, 0xbe, 0x66, 0x7e, 0xf9, 0xdc, 0xbb, 0xac, 0x55, 0xa0, 0x62, 0x95, 0xce, 0x87, 0x0b,
    0x07, 0x02, 0x9b, 0xfc, 0xdb, 0x2d, 0xce, 0x28, 0xd9, 0x59, 0xf2, 0x81, 0x5b, 0x16, 0xf8, 0x17,
    0x98,
];

// twice the base point, in compressed form
const DOUBLE_GENERATOR: [u8; 33] = [
    0x02, 0xc6, 0x04, 0x7f, 0x94, 0x41, 0xed, 0x7d, 0x6d, 0x30, 0x45, 0x40, 0x6e, 0x95, 0xc0, 0x7c,
    0xd8, 0x5c, 0x77, 0x8e, 0x4b, 0x8c, 0xef, 0x3c, 0xa7, 0xab, 0xac, 0x09, 0xb9, 0x5c, 0x70, 0x9e,
    0xe5,
];

const ORDER: [u8; 32] = [
    0xff, 0xff, 0xff, 0xff, 0xff, 0xff, 0xff, 0xff, 0xff, 0xff, 0xff, 0xff, 0xff, 0xff, 0xff, 0xfe,
    0xba, 0xae, 0xdc, 0xe6, 0xaf, 0x48, 0xa0, 0x3b, 0xbf, 0xd2, 0x5e, 0x8c, 0xd0, 0x36, 0x41, 0x41,
];

#[test]
fn point_is_read_from_canonical_bytes_only() {
    let g = Point::from_bytes(&GENERATOR).unwrap();
    assert_eq!(g.to_bytes(), GENERATOR);
    assert!(Point::from_bytes(&[0u8; 33]).unwrap().is_identity());
    assert!(Point::from_bytes(&GENERATOR[..32]).is_none());
    assert!(Point::from_bytes(&[]).is_none());
    let mut compact = GENERATOR;
    compact[0] = 0x05;
    assert!(Point::from_bytes(&compact).is_none());
    let mut tagged_zero = [0u8; 33];
    tagged_zero[0] = 0x02;
    // x = 0 is on no point of the curve
    assert!(Point::from_bytes(&tagged_zero).is_none());
    let mut odd = GENERATOR;
    odd[0] = 0x03;
    let minus_g = Point::from_bytes(&odd).unwrap();
    assert!(!minus_g.equals(&g));
}

#[test]
fn point_arithmetic_matches_known_points() {
    let g = Point::from_bytes(&GENERATOR).unwrap();
    let two = Scalar::from_u64(2);
    assert_eq!(g.mul(&two).to_bytes(), DOUBLE_GENERATOR);
    assert_eq!(Point::generator().mul(&two).to_bytes(), DOUBLE_GENERATOR);
    assert!(!Point::generator().mul(&two).is_identity());
    assert!(g.equals(&Point::generator().mul(&Scalar::one())));
}

#[test]
fn scalar_is_read_from_numbers_below_the_order_only() {
    assert!(Scalar::from_bytes(&ORDER).is_none());
    let mut below = ORDER;
    below[31] -= 1;
    let largest = Scalar::from_bytes(&below).unwrap();
    assert_eq!(largest.to_bytes(), below);
    assert!(Scalar::from_bytes(&[0xff; 32]).is_none());
    assert!(Scalar::from_bytes(&[0u8; 31]).is_none());
    assert!(Scalar::from_bytes(&[0u8; 33]).is_none());
    assert!(Scalar::from_bytes(&[0u8; 32]).unwrap().is_zero());
    assert!(!largest.is_zero());
    assert!(largest.equals(&largest));
    assert!(!largest.equals(&Scalar::one()));
    // the largest element is its own inverse: (-1) * (-1) = 1
    assert_eq!(largest.invert().unwrap().to_bytes(), below);
}

#[test]
fn zero_and_one_have_their_encodings() {
    assert_eq!(Scalar::zero().to_bytes(), vec![0u8; 32]);
    let mut one = [0u8; 32];
    one[31] = 1;
    assert_eq!(Scalar::one().to_bytes(), one);
    assert!(Scalar::zero().is_zero());
    assert!(!Scalar::one().is_zero());
}

#[test]
fn bytes_equal_compares_length_and_content() {
    assert!(bytes_equal(&[], &[]));
    assert!(bytes_equal(&[1, 2, 3], &[1, 2, 3]));
    assert!(!bytes_equal(&[1, 2, 3], &[1, 2]));
    assert!(!bytes_equal(&[1, 2, 3], &[1, 2, 4]));
    assert!(!bytes_equal(&[0], &[]));
}

#[test]
fn random_private_keys_differ() {
    let a = Scalar::random();
    let b = Scalar::random();
    assert!(!a.equals(&b));
}

fn minus_one() -> Scalar {
    let mut below = ORDER;
    below[31] -= 1;
    Scalar::from_bytes(&below).unwrap()
}

#[test]
fn scalar_addition_is_modular() {
    let three = Scalar::from_u64(3);
    let four = Scalar::from_u64(4);
    assert_eq!(three.add(&four).to_bytes(), Scalar::from_u64(7).to_bytes());
    assert_eq!(three.add(&Scalar::zero()).to_bytes(), three.to_bytes());
    // (n - 1) + 2 = 1
    assert_eq!(minus_one().add(&Scalar::from_u64(2)).to_bytes(), Scalar::one().to_bytes());
    assert!(minus_one().add(&Scalar::one()).is_zero());
}

#[test]
fn scalar_multiplication_is_modular() {
    let three = Scalar::from_u64(3);
    let four = Scalar::from_u64(4);
    assert_eq!(three.mul(&four).to_bytes(), Scalar::from_u64(12).to_bytes());
    assert_eq!(three.mul(&Scalar::one()).to_bytes(), three.to_bytes());
    assert!(three.mul(&Scalar::zero()).is_zero());
    // (n - 1) * (n - 1) = 1, and (n - 1) * 3 = n - 3
    assert_eq!(minus_one().mul(&minus_one()).to_bytes(), Scalar::one().to_bytes());
    let mut expected = ORDER;
    expected[31] -= 3;
    assert_eq!(minus_one().mul(&three).to_bytes(), expected);
    // 2^64 * 2^64 = 2^128
    let big = Scalar::from_u128(1u128 << 64);
    let mut square = [0u8; 32];
    square[15] = 1;
    assert_eq!(big.mul(&big).to_bytes(), square);
}

#[test]
fn scalar_doubling_is_modular() {
    assert_eq!(Scalar::from_u64(5).double().to_bytes(), Scalar::from_u64(10).to_bytes());
    assert!(Scalar::zero().double().is_zero());
    // 2 * (n - 1) = n - 2
    let mut expected = ORDER;
    expected[31] -= 2;
    assert_eq!(minus_one().double().to_bytes(), expected);
}

#[test]
fn scalar_inverse_multiplies_to_one() {
    assert!(Scalar::zero().invert().is_none());
    assert_eq!(Scalar::one().invert().unwrap().to_bytes(), Scalar::one().to_bytes());
    let two = Scalar::from_u64(2);
    let half = two.invert().unwrap();
    assert_ne!(half.to_bytes(), two.to_bytes());
    assert_eq!(half.mul(&two).to_bytes(), Scalar::one().to_bytes());
    // the half of one is (n + 1) / 2
    let expected: [u8; 32] = [
        0x7f, 0xff, 0xff, 0xff, 0xff, 0xff, 0xff, 0xff, 0xff, 0xff, 0xff, 0xff, 0xff, 0xff, 0xff,
        0xff, 0x5d, 0x57, 0x6e, 0x73, 0x57, 0xa4, 0x50, 0x1d, 0xdf, 0xe9, 0x2f, 0x46, 0x68, 0x1b,
        0x20, 0xa1,
    ];
    assert_eq!(half.to_bytes(), expected);
}

#[test]
fn scalar_of_numbers_has_their_big_endian_encoding() {
    let mut expected = [0u8; 32];
    expected[24..].copy_from_slice(&0x0102030405060708u64.to_be_bytes());
    assert_eq!(Scalar::from_u64(0x0102030405060708).to_bytes(), expected);
    let mut wide = [0u8; 32];
    wide[16..].copy_from_slice(&u128::MAX.to_be_bytes());
    assert_eq!(Scalar::from_u128(u128::MAX).to_bytes(), wide);
    assert_eq!(Scalar::from_u128(7).to_bytes(), Scalar::from_u64(7).to_bytes());
    assert_eq!(Scalar::from_u64(7).to_array().to_vec(), Scalar::from_u64(7).to_bytes());
}

#[test]
fn point_addition_matches_known_points() {
    let g = Point::generator();
    assert_eq!(g.add(&g).to_bytes(), DOUBLE_GENERATOR);
    assert_eq!(g.add(&Point::identity()).to_bytes(), GENERATOR);
    assert_eq!(Point::identity().add(&g).to_bytes(), GENERATOR);
    assert!(Point::identity().add(&Point::identity()).is_identity());
    // G + (-G) is the identity
    let mut odd = GENERATOR;
    odd[0] = 0x03;
    let minus_g = Point::from_bytes(&odd).unwrap();
    assert!(g.add(&minus_g).is_identity());
    assert!(g.mul(&minus_one()).equals(&minus_g));
    // 2G + G = 3G
    let three = g.mul(&Scalar::from_u64(3));
    assert!(g.add(&g).add(&g).equals(&three));
    assert!(!three.equals(&g));
}

#[test]
fn encodings_have_their_lengths() {
    assert_eq!(<Scalar as Field>::encoded_len(), 32);
    assert_eq!(<Point as Group>::encoded_len(), 33);
    assert_eq!(Scalar::random().to_bytes().len(), 32);
    assert_eq!(Point::generator().to_bytes().len(), 33);
}

#[test]
fn point_with_x_not_below_the_field_prime_is_refused() {
    // the field prime itself, and the largest number of 32 bytes
    let prime: [u8; 32] = [
        0xff, 0xff, 0xff, 0xff, 0xff, 0xff, 0xff, 0xff, 0xff, 0xff, 0xff, 0xff, 0xff, 0xff, 0xff,
        0xff, 0xff, 0xff, 0xff, 0xff, 0xff, 0xff, 0xff, 0xff, 0xff, 0xff, 0xff, 0xfe, 0xff, 0xff,
        0xfc, 0x2f,
    ];
    for tag in [0x02u8, 0x03] {
        let mut enc = vec![tag];
        enc.extend_from_slice(&prime);
        assert!(Point::from_bytes(&enc).is_none());
        let mut top = vec![tag];
        top.extend_from_slice(&[0xff; 32]);
        assert!(Point::from_bytes(&top).is_none());
        // the x coordinate of the base point is below the prime and on the curve
        let mut base = vec![tag];
        base.extend_from_slice(&GENERATOR[1..]);
        assert!(Point::from_bytes(&base).is_some());
    }
    // a zero tag with anything behind it is no identity
    let mut tagged = [0u8; 33];
    tagged[32] = 1;
    assert!(Point::from_bytes(&tagged).is_none());
}
