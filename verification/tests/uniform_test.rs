use automapaper::single::{Single, ONE_BITS};
use automapaper::uniform::{
    parse_hex_color, parse_uniform_value, value_splits_character, ColorError, ColorValue,
};

fn floats(color: ColorValue) -> Vec<f32> {
    match color {
        ColorValue::ColorRgb(c) => c.iter().map(|s| f32::from_bits(s.bits)).collect(),
        ColorValue::ColorRgba(c) => c.iter().map(|s| f32::from_bits(s.bits)).collect(),
    }
}

#[test]
fn six_digits_are_a_colour_without_alpha() {
    let color = parse_uniform_value("#ff8000").unwrap();
    assert!(matches!(color, ColorValue::ColorRgb(_)));
    assert_eq!(floats(color), vec![1.0, 128.0 / 255.0, 0.0]);
}

#[test]
fn eight_digits_are_a_colour_with_alpha() {
    let color = parse_uniform_value("#01020304").unwrap();
    assert!(matches!(color, ColorValue::ColorRgba(_)));
    assert_eq!(floats(color), vec![1.0 / 255.0, 2.0 / 255.0, 3.0 / 255.0, 4.0 / 255.0]);
}

#[test]
fn hash_is_optional_and_case_does_not_matter() {
    let expected = floats(parse_uniform_value("#abcdef").unwrap());
    assert_eq!(floats(parse_uniform_value("abcdef").unwrap()), expected);
    assert_eq!(floats(parse_uniform_value("#ABCDEF").unwrap()), expected);
    assert_eq!(floats(parse_hex_color("aBcDeF").unwrap()), expected);
}

#[test]
fn every_written_colour_reads_back() {
    for byte in 0..=255u8 {
        let text = format!("#{:02x}{:02X}{:02x}{:02X}", byte, 255 - byte, byte / 2, byte);
        let expected: Vec<f32> = [byte, 255 - byte, byte / 2, byte]
            .iter()
            .map(|b| *b as f32 / 255.0)
            .collect();
        assert_eq!(floats(parse_uniform_value(&text).unwrap()), expected);
        assert!(!value_splits_character(&text));
    }
}

#[test]
fn plus_sign_and_digit_are_a_number() {
    let color = parse_uniform_value("+f+0+1").unwrap();
    assert_eq!(floats(color), vec![15.0 / 255.0, 0.0, 1.0 / 255.0]);
    assert_eq!(u8::from_str_radix("+f", 16), Ok(15));
    assert_eq!(parse_uniform_value("++00ff").unwrap_err(), ColorError::InvalidDigit);
    assert_eq!(parse_uniform_value("f+00ff").unwrap_err(), ColorError::InvalidDigit);
    assert_eq!(parse_uniform_value("-100ff").unwrap_err(), ColorError::InvalidDigit);
}

#[test]
fn pairs_of_bytes_read_as_std_reads_them() {
    for high in 0..128u8 {
        for low in 0..128u8 {
            let pair = String::from_utf8(vec![high, low]).unwrap();
            let text = format!("{pair}0000");
            if text.starts_with('#') {
                continue;
            }
            match (u8::from_str_radix(&pair, 16), parse_uniform_value(&text)) {
                (Ok(byte), Ok(color)) => assert_eq!(floats(color)[0], byte as f32 / 255.0),
                (Err(e), Err(error)) => {
                    assert_eq!(error, ColorError::InvalidDigit);
                    assert_eq!(e.to_string(), error.message());
                }
                _ => panic!("{pair:?}"),
            }
        }
    }
}

#[test]
fn wrong_lengths_are_refused() {
    for text in ["", "#", "fff", "#fffff", "#fffffff", "#fffffffff", "##ffffff"] {
        let error = parse_uniform_value(text).unwrap_err();
        assert_eq!(error, ColorError::WrongLength);
        assert_eq!(error.message(), "expected #RRGGBB or #RRGGBBAA");
    }
}

#[test]
fn bad_digits_are_refused() {
    for text in ["#gg0000", "00gg00", "0000gg", "000000gg", "#ff ff0"] {
        let error = parse_uniform_value(text).unwrap_err();
        assert_eq!(error, ColorError::InvalidDigit);
        assert_eq!(error.message(), "invalid digit found in string");
    }
    assert_eq!(parse_uniform_value("éabcd").unwrap_err(), ColorError::InvalidDigit);
}

#[test]
fn characters_that_pairs_would_cut_are_found() {
    assert!(value_splits_character("aéabc"));
    assert!(value_splits_character("#aéabc"));
    assert!(value_splits_character("00aéa"));
    assert!(!value_splits_character("zzaéa"));
    assert!(!value_splits_character("éabcd"));
    assert!(!value_splits_character("aé"));
    assert!(!value_splits_character("#00ff00"));
}

#[test]
fn colour_without_alpha_is_opaque() {
    let c = [Single::from_bits(1), Single::from_bits(2), Single::from_bits(3)];
    let rgba = ColorValue::ColorRgb(c).into();
    assert_eq!(rgba.map(|s| s.bits), [1, 2, 3, ONE_BITS]);
    let with_alpha = [c[0], c[1], c[2], Single::from_bits(4)];
    assert_eq!(ColorValue::ColorRgba(with_alpha).into().map(|s| s.bits), [1, 2, 3, 4]);
}

#[test]
fn different_bytes_give_different_channels() {
    let first = |byte: u8| floats(parse_uniform_value(&format!("{byte:02x}0000")).unwrap())[0];
    for byte in 0..255u8 {
        assert!(first(byte) < first(byte + 1));
    }
    assert_eq!(first(0), 0.0);
    assert_eq!(first(255), 1.0);
}
