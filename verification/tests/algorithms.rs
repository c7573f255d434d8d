use tsproto::algorithms::{
    biguint_from_bytes_be, biguint_to_array, bytes_all_zero, pow2_bytes, solve_rsa_puzzle,
};

fn wide(bytes: &[u8], width: usize) -> Vec<u8> {
    let mut v = vec![0u8; width - bytes.len()];
    v.extend_from_slice(bytes);
    v
}

/// Reading a fixed-width big-endian array as a big integer and writing
/// it back is the identity, leading zeros included.
#[test]
fn fixed_width_roundtrip() {
    let mut a = vec![0u8; 64];
    a[0] = 0;
    a[5] = 0x17;
    a[63] = 0x01;
    let v = biguint_from_bytes_be(&a);
    assert_eq!(biguint_to_array(&v), a);

    let zeros = vec![0u8; 64];
    let z = biguint_from_bytes_be(&zeros);
    assert_eq!(biguint_to_array(&z), zeros);

    let mut top = vec![0xFFu8; 64];
    top[0] = 0x7F;
    let t = biguint_from_bytes_be(&top);
    assert_eq!(biguint_to_array(&t), top);
}

/// With level 0 the puzzle answer is x mod n.
#[test]
fn puzzle_level_zero_is_mod() {
    let y = solve_rsa_puzzle(&wide(&[7], 64), &wide(&[5], 64), 0).unwrap();
    assert_eq!(y, wide(&[2], 64));
}

/// Iterated squaring: 2 -> 4 -> 16 -> 256, and 256 mod 5 = 1.
#[test]
fn puzzle_level_three() {
    let y = solve_rsa_puzzle(&wide(&[2], 64), &wide(&[5], 64), 3).unwrap();
    assert_eq!(y, wide(&[1], 64));
}

/// A larger puzzle against an independently computed value:
/// 0xABCD ^ (2^10) mod 0xFFF1.
#[test]
fn puzzle_larger_modulus() {
    let y = solve_rsa_puzzle(&wide(&[0xAB, 0xCD], 64), &wide(&[0xFF, 0xF1], 64), 10).unwrap();
    let x = num::BigUint::from_bytes_be(&[0xAB, 0xCD]);
    let n = num::BigUint::from_bytes_be(&[0xFF, 0xF1]);
    let e = num::BigUint::from(1u8) << 10u32;
    let expect = x.modpow(&e, &n).to_bytes_be();
    assert_eq!(y, wide(&expect, 64));
}

/// A zero modulus has no answer.
#[test]
fn puzzle_zero_modulus_rejected() {
    assert!(solve_rsa_puzzle(&wide(&[2], 64), &wide(&[0], 64), 3).is_none());
}

/// The exponent construction writes 2^level big-endian.
#[test]
fn pow2_bytes_exact() {
    assert_eq!(pow2_bytes(0), vec![1]);
    assert_eq!(pow2_bytes(7), vec![128]);
    assert_eq!(pow2_bytes(8), vec![1, 0]);
    assert_eq!(pow2_bytes(10), vec![4, 0]);
    assert_eq!(pow2_bytes(16), vec![1, 0, 0]);
}

#[test]
fn zero_detection() {
    assert!(bytes_all_zero(&vec![0, 0, 0]));
    assert!(bytes_all_zero(&Vec::new()));
    assert!(!bytes_all_zero(&vec![0, 1, 0]));
}
