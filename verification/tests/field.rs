use blstrs::Scalar;
use poly_circuit::field::{fr_from_i128, FieldElement, ENCODED_LEN, SMALL_LEN};

const MODULUS_LE: [u8; 32] = [
    1, 0, 0, 0, 255, 255, 255, 255, 254, 91, 254, 255, 2, 164, 189, 83, 5, 216, 161, 9, 8, 216, 57,
    51, 72, 125, 157, 41, 83, 167, 237, 115,
];

fn minus_one() -> FieldElement {
    let mut bytes = MODULUS_LE;
    bytes[0] = 0;
    FieldElement::from_bytes_le(&bytes).unwrap()
}

fn small(bytes: &[u8; 32]) -> i128 {
    let mut low = [0u8; 16];
    low.copy_from_slice(&bytes[..16]);
    i128::from_le_bytes(low)
}

#[test]
fn widths() {
    assert_eq!(ENCODED_LEN, 32);
    assert_eq!(SMALL_LEN, 16);
}

#[test]
fn encodes_the_output_of_the_polynomial() {
    let encoded = fr_from_i128(138187310705323168727523).to_bytes_le();
    let expected: [u8; 32] = [
        227, 129, 151, 169, 189, 250, 44, 38, 67, 29, 0, 0, 0, 0, 0, 0, 0, 0, 0, 0, 0, 0, 0, 0, 0,
        0, 0, 0, 0, 0, 0, 0,
    ];
    assert_eq!(encoded, expected);
}

#[test]
fn encoding_is_little_endian_and_zero_padded() {
    let encoded = fr_from_i128(0x0102).to_bytes_le();
    assert_eq!(encoded[0], 2);
    assert_eq!(encoded[1], 1);
    assert!(encoded[2..].iter().all(|b| *b == 0));
}

#[test]
fn encodes_zero() {
    assert_eq!(fr_from_i128(0).to_bytes_le(), [0u8; 32]);
}

#[test]
fn encodes_the_largest_integer() {
    let encoded = fr_from_i128(i128::MAX).to_bytes_le();
    assert!(encoded[..15].iter().all(|b| *b == 255));
    assert_eq!(encoded[15], 127);
    assert!(encoded[16..].iter().all(|b| *b == 0));
}

#[test]
fn encodes_a_negative_integer_by_its_bit_pattern() {
    let encoded = fr_from_i128(-1).to_bytes_le();
    assert!(encoded[..16].iter().all(|b| *b == 255));
    assert!(encoded[16..].iter().all(|b| *b == 0));
    let lowest = fr_from_i128(i128::MIN).to_bytes_le();
    assert!(lowest[..15].iter().all(|b| *b == 0));
    assert_eq!(lowest[15], 128);
    assert!(lowest[16..].iter().all(|b| *b == 0));
}

#[test]
fn decoding_recovers_the_integer() {
    let samples: [i128; 9] = [
        0,
        1,
        255,
        256,
        2022,
        138187310705323168727523,
        i128::MAX,
        -1,
        i128::MIN,
    ];
    for v in samples {
        let bytes = fr_from_i128(v).to_bytes_le();
        assert_eq!(small(&bytes), v);
        assert!(bytes[16..].iter().all(|b| *b == 0));
        assert_eq!(FieldElement::from_bytes_le(&bytes), Some(fr_from_i128(v)));
    }
}

#[test]
fn encoding_agrees_with_the_field_library() {
    let x = Scalar::from(2022u64);
    let x2 = x * x;
    let x4 = x2 * x2;
    let x5 = x4 * x;
    let x7 = x5 * x2;
    let out = x7 + x5 + Scalar::from(3u64);
    assert_eq!(fr_from_i128(138187310705323168727523).to_bytes_le(), out.to_bytes_le());
    assert_ne!(fr_from_i128(138187310705323168727522).to_bytes_le(), out.to_bytes_le());
}

#[test]
fn from_u64_agrees_with_the_integer_encoding() {
    assert_eq!(FieldElement::from_u64(0), fr_from_i128(0));
    assert_eq!(FieldElement::from_u64(3), fr_from_i128(3));
    assert_eq!(FieldElement::from_u64(u64::MAX), fr_from_i128(u64::MAX as i128));
    assert_eq!(FieldElement::from_u64(2022).to_bytes_le()[..2], [0xe6, 0x07]);
}

#[test]
fn from_bytes_accepts_numbers_below_the_order() {
    let mut bytes = MODULUS_LE;
    bytes[0] = 0;
    let top = FieldElement::from_bytes_le(&bytes);
    assert!(top.is_some());
    assert_eq!(top.unwrap().to_bytes_le(), bytes);
    assert!(FieldElement::from_bytes_le(&[0u8; 32]).is_some());
}

#[test]
fn from_bytes_rejects_the_order_and_above() {
    assert_eq!(FieldElement::from_bytes_le(&MODULUS_LE), None);
    let mut above = MODULUS_LE;
    above[0] = 2;
    assert_eq!(FieldElement::from_bytes_le(&above), None);
    assert_eq!(FieldElement::from_bytes_le(&[255u8; 32]), None);
}

#[test]
fn add_is_addition_in_the_field() {
    let a = fr_from_i128(2022);
    let b = fr_from_i128(3);
    assert_eq!(a.add(&b), fr_from_i128(2025));
    assert_eq!(a.add(&fr_from_i128(0)), a);
}

#[test]
fn add_wraps_at_the_order() {
    let one = fr_from_i128(1);
    assert_eq!(minus_one().add(&one), fr_from_i128(0));
    assert_eq!(minus_one().add(&fr_from_i128(5)), fr_from_i128(4));
}

#[test]
fn mul_is_multiplication_in_the_field() {
    let a = fr_from_i128(2022);
    assert_eq!(a.mul(&a), fr_from_i128(4088484));
    assert_eq!(a.mul(&fr_from_i128(1)), a);
    assert_eq!(a.mul(&fr_from_i128(0)), fr_from_i128(0));
}

#[test]
fn mul_wraps_at_the_order() {
    assert_eq!(minus_one().mul(&minus_one()), fr_from_i128(1));
    let big = fr_from_i128(i128::MAX);
    let expected = Scalar::from_bytes_le(&big.to_bytes_le()).unwrap()
        * Scalar::from_bytes_le(&big.to_bytes_le()).unwrap();
    assert_eq!(big.mul(&big).to_bytes_le(), expected.to_bytes_le());
}
