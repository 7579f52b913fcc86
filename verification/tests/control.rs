//! Tests of the pitch control value, the target wavelength it induces, and
//! the sample codec that carries samples across the transport.

use voice_changer::codec::{decode_sample, encode_sample};
use voice_changer::pitch::{ratio_is_valid, target_q16, RATIO_MAX, RATIO_MIN, RATIO_ONE};

#[test]
fn target_wavelength_is_monotone_in_the_ratio() {
    // Ratios 0.5, 1.0 and 2.0 give strictly decreasing target wavelengths.
    let half = target_q16(160, 0x8000);
    let unit = target_q16(160, RATIO_ONE);
    let double = target_q16(160, 0x2_0000);
    assert!(double < unit && unit < half);
    // And the values are exact: 320, 160 and 80 samples in Q16.16.
    assert_eq!(half, 320 << 16);
    assert_eq!(unit, 160 << 16);
    assert_eq!(double, 80 << 16);
}

#[test]
fn unit_ratio_keeps_the_nominal_wavelength() {
    for &l in &[2usize, 3, 160, 441, 4096] {
        assert_eq!(target_q16(l, RATIO_ONE), (l as u64) << 16);
    }
}

#[test]
fn ratio_validity_matches_the_documented_range() {
    assert!(!ratio_is_valid(0));
    assert!(!ratio_is_valid(RATIO_MIN - 1));
    assert!(ratio_is_valid(RATIO_MIN));
    assert!(ratio_is_valid(RATIO_ONE));
    assert!(ratio_is_valid(RATIO_MAX));
    assert!(!ratio_is_valid(RATIO_MAX + 1));
}

#[test]
fn sample_codec_round_trips_exactly() {
    for &s in &[0i32, 1, -1, 1_000_000, -1_000_000, 0x3039, -0x3039, i32::MAX, i32::MIN] {
        let (b0, b1, b2, b3) = encode_sample(s);
        assert_eq!(decode_sample(b0, b1, b2, b3), s);
    }
}

#[test]
fn sample_codec_is_little_endian_twos_complement() {
    assert_eq!(encode_sample(1), (1, 0, 0, 0));
    assert_eq!(encode_sample(0x0403_0201), (1, 2, 3, 4));
    assert_eq!(encode_sample(-1), (0xff, 0xff, 0xff, 0xff));
    assert_eq!(encode_sample(-2), (0xfe, 0xff, 0xff, 0xff));
}
