use hamming_bitwise_fast::naive::{
    hamming_distance_auto_vectorized, naive_hamming_distance, naive_hamming_distance_iter,
};
use hamming_bitwise_fast::slice;

#[test]
fn naive_variants_agree_with_slice_distance() {
    for len in [0usize, 1, 7, 8, 9, 16, 23, 64, 129] {
        let a: Vec<u8> = (0..len).map(|i| (i * 29 + 3) as u8).collect();
        let b: Vec<u8> = (0..len).map(|i| (i * 71 + 11) as u8).collect();
        let expected = slice::distance(&a, &b) as u64;
        assert_eq!(naive_hamming_distance(&a, &b), expected);
        assert_eq!(naive_hamming_distance_iter(&a, &b), expected);
        assert_eq!(hamming_distance_auto_vectorized(&a, &b), expected);
    }
}

#[test]
fn naive_variants_exact_value() {
    let a = [1u8, 2, 3, 4, 5, 6, 7, 8, 0x0F, 0xF0, 0xAA];
    let b = [0u8; 11];
    assert_eq!(naive_hamming_distance(&a, &b), 25);
    assert_eq!(naive_hamming_distance_iter(&a, &b), 25);
    assert_eq!(hamming_distance_auto_vectorized(&a, &b), 25);
}
