use foto::fingerprint::{clamp_threshold, count_bits, hamming_distance, within_threshold};

#[test]
fn distance_of_equal_fingerprints_is_zero() {
    let a = [0x12u8, 0x34, 0x56, 0x78, 0x9a, 0xbc, 0xde, 0xf0];
    assert_eq!(hamming_distance(&a, &a), 0);
}

#[test]
fn distance_counts_differing_bits() {
    let a = [0u8; 8];
    let b = [0b0001_1111u8, 0, 0, 0, 0, 0, 0, 0];
    assert_eq!(hamming_distance(&a, &b), 5);
    assert_eq!(hamming_distance(&b, &a), 5);
    let c = [0xffu8; 8];
    assert_eq!(hamming_distance(&a, &c), 64);
}

#[test]
fn count_bits_is_population_count() {
    for x in 0..=255u8 {
        assert_eq!(count_bits(x), x.count_ones() as u64);
    }
}

#[test]
fn thresholds_above_the_bit_length_are_clamped() {
    assert_eq!(clamp_threshold(0), 0);
    assert_eq!(clamp_threshold(64), 64);
    assert_eq!(clamp_threshold(65), 64);
    assert_eq!(clamp_threshold(u64::MAX), 64);
    assert!(within_threshold(&[0u8; 8], &[0xffu8; 8], 1000));
    assert!(!within_threshold(&[0u8; 8], &[0xffu8; 8], 63));
}

#[test]
fn distance_pairs_the_bytes_in_their_order() {
    let a = [0xffu8, 0, 0, 0, 0, 0, 0, 0];
    let b = [0u8, 0, 0, 0, 0, 0, 0, 0xff];
    assert_eq!(hamming_distance(&a, &b), 16);
    let c = [0x0fu8, 0, 0, 0, 0, 0, 0, 0];
    assert_eq!(hamming_distance(&a, &c), 4);
}
