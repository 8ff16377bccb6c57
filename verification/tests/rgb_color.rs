use colorgen_nvim::palette::RgbColor;
use colorgen_nvim::palette::RgbParsingError;

#[test]
fn parses_lowercase_literal() {
    let c = RgbColor::from_str("#abb2bf").unwrap();
    assert_eq!(c.0, [0xab, 0xb2, 0xbf]);
}

#[test]
fn parses_uppercase_and_mixed_case() {
    let c = RgbColor::from_str("#ABB2BF").unwrap();
    assert_eq!(c.0, [0xab, 0xb2, 0xbf]);
    let c = RgbColor::from_str("#AbB2bF").unwrap();
    assert_eq!(c.0, [0xab, 0xb2, 0xbf]);
}

#[test]
fn round_trips_to_lowercase() {
    let c = RgbColor::from_str("#AbB2bF").unwrap();
    assert_eq!(c.render(), "#abb2bf");
    let c = RgbColor::from_str("#1E222A").unwrap();
    assert_eq!(c.render(), "#1e222a");
    let c = RgbColor::from_str("#010203").unwrap();
    assert_eq!(c.0, [1, 2, 3]);
    assert_eq!(c.render(), "#010203");
}

#[test]
fn renders_every_nibble_value() {
    let c = RgbColor([0x00, 0x9f, 0xfe]);
    assert_eq!(c.render(), "#009ffe");
}

#[test]
fn rejects_missing_hash() {
    assert!(RgbColor::from_str("abb2bf").is_err());
    assert!(RgbColor::from_str("").is_err());
}

#[test]
fn rejects_three_digit_shorthand() {
    // A literal must spell out all six digits; the CSS-style shorthand
    // is not expanded.
    assert!(RgbColor::from_str("#abc").is_err());
}

#[test]
fn rejects_bad_digits_and_lengths() {
    assert!(RgbColor::from_str("#12345g").is_err());
    assert!(RgbColor::from_str("#12345").is_err());
    assert!(RgbColor::from_str("#1234567").is_err());
    assert!(RgbColor::from_str("#").is_err());
}

#[test]
fn parsing_error_message() {
    assert_eq!(RgbParsingError.message(), "failed to parse a hex color");
}
