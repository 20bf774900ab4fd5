use ufire_iso_ec::codec::float_bits_from_u16;
use ufire_iso_ec::probe::{
    EC_NAN_BITS, EC_TEMP_COEFFICIENT_DEFAULT_BITS, EC_TEMP_CONSTANT_DEFAULT_BITS,
};

#[test]
fn float_bits_from_u16_matches_the_exact_cast() {
    let samples: Vec<u16> = vec![
        0, 1, 2, 3, 4, 5, 7, 8, 15, 16, 31, 0x3c, 0x4f, 100, 127, 128, 255, 256, 1000, 1023, 1024,
        4095, 4096, 32767, 32768, 65534, 65535,
    ];
    for n in samples {
        assert_eq!(
            float_bits_from_u16(n),
            (n as f32).to_bits(),
            "encoding of {} disagrees with the cast",
            n
        );
    }
}

#[test]
fn float_bits_from_u16_zero_is_positive_zero() {
    assert_eq!(float_bits_from_u16(0), 0u32);
    assert_eq!(f32::from_bits(float_bits_from_u16(0)), 0.0f32);
}

#[test]
fn nan_constant_is_a_quiet_nan() {
    assert!(f32::from_bits(EC_NAN_BITS).is_nan());
}

#[test]
fn default_constants_are_exactly_25_and_0_019() {
    assert_eq!(f32::from_bits(EC_TEMP_CONSTANT_DEFAULT_BITS), 25.0f32);
    assert_eq!(EC_TEMP_CONSTANT_DEFAULT_BITS, 25.0f32.to_bits());
    assert_eq!(f32::from_bits(EC_TEMP_COEFFICIENT_DEFAULT_BITS), 0.019f32);
    assert_eq!(EC_TEMP_COEFFICIENT_DEFAULT_BITS, 0.019f32.to_bits());
}
