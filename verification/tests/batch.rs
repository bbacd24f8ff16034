use hamming_bitwise_fast::{array, slice};

fn check_array_batch_128(fill: u8, expected: u32) {
    let source = [0u8; 128];
    let targets = [[fill; 128]];
    let mut out = [0u32; 1];
    array::batch(&source, &targets, &mut out);
    assert_eq!(out[0], expected);
}

#[test]
fn array_batch_128_all_bits_different() {
    check_array_batch_128(0xFF, 1024);
}

#[test]
fn array_batch_128_identical() {
    check_array_batch_128(0x00, 0);
}

#[test]
fn array_batch_128_one_bit_per_byte() {
    check_array_batch_128(0x01, 128);
}

fn check_array_batch_13(fill: u8, expected: u32) {
    let source = [0u8; 13];
    let targets = [[fill; 13]];
    let mut out = [0u32; 1];
    array::batch(&source, &targets, &mut out);
    assert_eq!(out[0], expected);
}

#[test]
fn array_batch_13_all_bits_different() {
    check_array_batch_13(0xFF, 104);
}

#[test]
fn array_batch_13_identical() {
    check_array_batch_13(0x00, 0);
}

#[test]
fn array_batch_multiple_targets() {
    let num_targets = 3;
    let source = [0u8; 128];
    let targets = [[0xFFu8; 128], [0u8; 128], [1u8; 128]];
    let mut out = [0u32; 3];
    array::batch(&source, &targets[..num_targets], &mut out[..num_targets]);
    assert_eq!(out[..num_targets], [1024, 0, 128][..num_targets]);
}

fn check_slice_batch_128(fill: u8, expected: u32) {
    let source = vec![0u8; 128];
    let target = vec![fill; 128];
    let targets: Vec<&[u8]> = vec![target.as_slice()];
    let mut out = vec![0u32; 1];
    slice::batch(&source, &targets, &mut out);
    assert_eq!(out[0], expected);
    assert_eq!(slice::distance(&source, &target), expected);
}

#[test]
fn slice_batch_128_all_bits_different() {
    check_slice_batch_128(0xFF, 1024);
}

#[test]
fn slice_batch_128_identical() {
    check_slice_batch_128(0x00, 0);
}

#[test]
fn slice_batch_128_one_bit_per_byte() {
    check_slice_batch_128(0x01, 128);
}

#[test]
fn slice_batch_multiple_targets() {
    let num_targets = 3;
    let source = vec![0u8; 128];
    let t1 = vec![0xFFu8; 128];
    let t2 = vec![0u8; 128];
    let t3 = vec![1u8; 128];
    let all = vec![t1, t2, t3];
    let targets: Vec<&[u8]> = all[..num_targets].iter().map(|v| v.as_slice()).collect();
    let mut out = vec![0u32; num_targets];
    slice::batch(&source, &targets, &mut out);
    assert_eq!(out, [1024, 0, 128][..num_targets]);
    for (i, target) in targets.iter().enumerate() {
        assert_eq!(out[i], slice::distance(&source, target));
    }
}

#[test]
fn slice_batch_empty() {
    let targets: Vec<&[u8]> = vec![];
    let source = vec![0u8; 128];
    let mut out: Vec<u32> = vec![];
    slice::batch(&source, &targets, &mut out);
    assert!(out.is_empty());
}

#[test]
fn array_batch_entries_match_single_distance() {
    let source: [u8; 21] = std::array::from_fn(|i| (i * 13) as u8);
    let targets: Vec<[u8; 21]> = (0..5u8)
        .map(|k| std::array::from_fn(|i| (i as u8).wrapping_mul(k).wrapping_add(k)))
        .collect();
    let mut out = vec![7u32; 5];
    array::batch(&source, &targets, &mut out);
    for (i, target) in targets.iter().enumerate() {
        assert_eq!(out[i], array::distance(&source, target));
    }
}
