use automapaper::single::{Single, HALF_BITS, ONE_BITS, TENTH_BITS, ZERO_BITS};

#[test]
fn named_bits_are_the_numbers_they_say() {
    assert_eq!(f32::from_bits(ZERO_BITS), 0.0);
    assert_eq!(f32::from_bits(TENTH_BITS), 0.1);
    assert_eq!(f32::from_bits(TENTH_BITS), 1.0 / 10.0);
    assert_eq!(f32::from_bits(HALF_BITS), 0.5);
    assert_eq!(f32::from_bits(ONE_BITS), 1.0);
}

#[test]
fn every_byte_over_255_is_what_the_hardware_divides() {
    for byte in 0..=255u8 {
        let expected = (byte as f32 / 255.0).to_bits();
        assert_eq!(Single::from_ratio(byte as u32, 255).bits, expected, "{byte}");
    }
}

#[test]
fn integers_are_converted_as_the_hardware_does() {
    let samples = [
        0u32, 1, 2, 3, 255, 256, 1080, 1920, 3840, 16_777_215, 16_777_216, 16_777_217,
        16_777_218, 16_777_219, 33_554_431, 33_554_433, 33_554_434, 33_554_435, 33_554_438,
        2_147_483_647, 2_147_483_648, 4_294_967_040, 4_294_967_167, 4_294_967_168, 4_294_967_295,
    ];
    for n in samples {
        assert_eq!(Single::from_ratio(n, 1).bits, (n as f32).to_bits(), "{n}");
    }
}

#[test]
fn small_quotients_are_what_the_hardware_divides() {
    for num in [1u32, 2, 3, 5, 7, 1000, 65_537, 16_777_215] {
        for den in [1u32, 2, 3, 7, 10, 255, 4096, 9_999_991] {
            let expected = (num as f32 / den as f32).to_bits();
            assert_eq!(Single::from_ratio(num, den).bits, expected, "{num} / {den}");
        }
    }
    assert_eq!(Single::from_ratio(1, 10).bits, TENTH_BITS);
    assert_eq!(Single::from_ratio(7, 7).bits, ONE_BITS);
}

#[test]
fn rounding_keeps_order() {
    let mut last = 0;
    for n in 0..2000u32 {
        let bits = Single::from_ratio(n, 2000).bits;
        assert!(bits >= last);
        assert!(bits <= ONE_BITS);
        last = bits;
    }
}

#[test]
fn at_most_zero_is_the_comparison_with_zero() {
    let samples = [
        0.0f32,
        -0.0,
        1.0,
        -1.0,
        f32::MIN_POSITIVE,
        -f32::MIN_POSITIVE,
        f32::INFINITY,
        f32::NEG_INFINITY,
        f32::NAN,
        -f32::NAN,
        f32::from_bits(1),
        f32::from_bits(0x8000_0001),
    ];
    for x in samples {
        assert_eq!(Single::from_bits(x.to_bits()).is_at_most_zero(), x <= 0.0, "{x}");
    }
}
