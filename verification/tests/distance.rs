use hamming_bitwise_fast::{array, hamming_bitwise_fast, slice};

fn check_all_bits_different(size: usize) {
    let a = vec![0u8; size];
    let b = vec![0xFFu8; size];
    assert_eq!(slice::distance(&a, &b), (size * 8) as u32);
}

#[test]
fn slice_distance_all_bits_different_7_bytes() {
    check_all_bits_different(7);
}

#[test]
fn slice_distance_all_bits_different_13_bytes() {
    check_all_bits_different(13);
}

#[test]
fn slice_distance_all_bits_different_64_bytes() {
    check_all_bits_different(64);
}

#[test]
fn slice_distance_all_bits_different_96_bytes() {
    check_all_bits_different(96);
}

#[test]
fn slice_distance_all_bits_different_100_bytes() {
    check_all_bits_different(100);
}

#[test]
fn slice_distance_all_bits_different_128_bytes() {
    check_all_bits_different(128);
}

#[test]
fn slice_distance_all_bits_different_256_bytes() {
    check_all_bits_different(256);
}

fn check_identical(size: usize) {
    let a = vec![0u8; size];
    assert_eq!(slice::distance(&a, &a), 0);
}

#[test]
fn slice_distance_identical_7_bytes() {
    check_identical(7);
}

#[test]
fn slice_distance_identical_64_bytes() {
    check_identical(64);
}

#[test]
fn slice_distance_identical_128_bytes() {
    check_identical(128);
}

fn check_single_bit(size: usize) {
    let a = vec![0u8; size];
    let mut b = vec![0u8; size];
    b[0] = 1;
    assert_eq!(slice::distance(&a, &b), 1);
}

#[test]
fn slice_distance_single_bit_7_bytes() {
    check_single_bit(7);
}

#[test]
fn slice_distance_single_bit_128_bytes() {
    check_single_bit(128);
}

fn check_array_distance_128(fill_b: u8, expected: u32) {
    let a = [0u8; 128];
    let b = [fill_b; 128];
    assert_eq!(array::distance(&a, &b), expected);
}

#[test]
fn array_distance_128_all_bits_different() {
    check_array_distance_128(0xFF, 1024);
}

#[test]
fn array_distance_128_identical() {
    check_array_distance_128(0x00, 0);
}

#[test]
fn array_distance_128_one_bit_per_byte() {
    check_array_distance_128(0x01, 128);
}

#[test]
fn array_distance_single_bit() {
    let mut a = [0u8; 128];
    let b = [0u8; 128];
    a[0] = 1;
    assert_eq!(array::distance(&a, &b), 1);
}

#[test]
fn array_matches_slice() {
    let a: [u8; 128] = std::array::from_fn(|i| i as u8);
    let b: [u8; 128] = std::array::from_fn(|i| (i + 128) as u8);
    assert_eq!(array::distance(&a, &b), slice::distance(&a, &b));
}

#[test]
fn crate_alias_matches_slice_distance() {
    let a: Vec<u8> = (0..77u32).map(|i| (i * 37) as u8).collect();
    let b: Vec<u8> = (0..77u32).map(|i| (i * 91 + 5) as u8).collect();
    assert_eq!(hamming_bitwise_fast(&a, &b), slice::distance(&a, &b));
}

#[test]
fn word_and_tail_exact_values() {
    // One full word and three trailing bytes.
    let a = [1u8, 2, 3, 4, 5, 6, 7, 8, 0x0F, 0xF0, 0xAA];
    let b = [0u8; 11];
    // 1+1+2+1+2+2+3+1 in the word, 4+4+4 in the tail.
    assert_eq!(slice::distance(&a, &b), 25);
    assert_eq!(array::distance(&a, &b), 25);
}

#[test]
fn word_distance_depends_on_every_byte() {
    let a = [0x80u8, 0, 0, 0, 0, 0, 0, 0x01];
    let b = [0x00u8, 0, 0, 0, 0, 0, 0, 0x03];
    assert_eq!(slice::distance(&a, &b), 2);
    let c = [0xFFu8, 0xFF, 0, 0, 0, 0, 0, 0];
    let d = [0x00u8, 0x0F, 0, 0, 0, 0, 0, 0xFF];
    assert_eq!(slice::distance(&c, &d), 20);
}

#[test]
fn empty_inputs_have_distance_zero() {
    let a: [u8; 0] = [];
    assert_eq!(slice::distance(&a, &a), 0);
    assert_eq!(array::distance(&a, &a), 0);
}
