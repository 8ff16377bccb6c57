use colorgen_nvim::sections::color_spec::parser::Color;
use colorgen_nvim::sections::color_spec::ColorFormat;
use colorgen_nvim::sections::color_spec::ColorSpec;

fn parse_format(input: &str) -> ColorFormat {
    match ColorSpec::from_str(input).unwrap() {
        ColorSpec::Color(f) => f,
        ColorSpec::Link(t) => panic!("expected a color format, got a link to {t}"),
    }
}

fn ref_name(c: &Option<Color>) -> &str {
    match c {
        Some(Color::PaletteRef(n)) => n.as_str(),
        other => panic!("expected a palette reference, got {other:?}"),
    }
}

#[test]
fn link_form_parses_to_link() {
    match ColorSpec::from_str("link:foo").unwrap() {
        ColorSpec::Link(t) => assert_eq!(t, "foo"),
        other => panic!("expected a link, got {other:?}"),
    }
}

#[test]
fn link_form_keeps_everything_after_the_colon() {
    match ColorSpec::from_str("link:foo bar - 101").unwrap() {
        ColorSpec::Link(t) => assert_eq!(t, "foo bar - 101"),
        other => panic!("expected a link, got {other:?}"),
    }
    match ColorSpec::from_str("link:").unwrap() {
        ColorSpec::Link(t) => assert_eq!(t, ""),
        other => panic!("expected a link, got {other:?}"),
    }
}

#[test]
fn empty_input_leaves_every_field_absent() {
    let f = parse_format("");
    assert!(f.fg.is_none());
    assert!(f.bg.is_none());
    assert!(f.style.is_none());
    assert!(f.special.is_none());
    assert!(f.blend.is_none());
}

#[test]
fn truncation_equals_explicit_padding() {
    let truncated = ColorSpec::from_str("fg bg").unwrap().render();
    let padded = ColorSpec::from_str("fg bg - - -").unwrap().render();
    assert_eq!(truncated, padded);

    let truncated = ColorSpec::from_str("").unwrap().render();
    let padded = ColorSpec::from_str("- - - - -").unwrap().render();
    assert_eq!(truncated, padded);

    let truncated = ColorSpec::from_str("a b u sp").unwrap().render();
    let padded = ColorSpec::from_str("a b u sp -").unwrap().render();
    assert_eq!(truncated, padded);
}

#[test]
fn fields_fill_in_positional_order() {
    let f = parse_format("fg bg u sp 42");
    assert_eq!(ref_name(&f.fg), "fg");
    assert_eq!(ref_name(&f.bg), "bg");
    let st = f.style.unwrap();
    assert!(st.underline);
    assert!(!st.bold);
    assert_eq!(ref_name(&f.special), "sp");
    assert_eq!(f.blend, Some(42));
}

#[test]
fn explicit_dash_skips_a_field() {
    let f = parse_format("- bg u");
    assert!(f.fg.is_none());
    assert_eq!(ref_name(&f.bg), "bg");
    let st = f.style.unwrap();
    assert!(st.underline);
    assert!(!st.standout && !st.undercurl && !st.underdouble && !st.underdotted);
    assert!(!st.underdashed && !st.strikethrough && !st.italic && !st.bold);
    assert!(!st.reverse && !st.nocombine);
    assert!(f.special.is_none());
    assert!(f.blend.is_none());
}

#[test]
fn hex_literal_field_decodes() {
    let f = parse_format("#abB2Bf bg");
    match &f.fg {
        Some(Color::Color(rgb)) => assert_eq!(rgb.0, [0xab, 0xb2, 0xbf]),
        other => panic!("expected a literal color, got {other:?}"),
    }
}

#[test]
fn odd_hex_shapes_are_palette_references() {
    let f = parse_format("#abc");
    assert_eq!(ref_name(&f.fg), "#abc");
    let f = parse_format("#abcdefgh");
    assert_eq!(ref_name(&f.fg), "#abcdefgh");
}

#[test]
fn every_style_flag_decodes() {
    let f = parse_format("- - oucdthsibrn");
    let st = f.style.unwrap();
    assert!(st.standout && st.underline && st.undercurl && st.underdouble);
    assert!(st.underdotted && st.underdashed && st.strikethrough && st.italic);
    assert!(st.bold && st.reverse && st.nocombine);
}

#[test]
fn unknown_style_character_fails() {
    let err = ColorSpec::from_str("a b uxb").unwrap_err();
    assert_eq!(err.0, "a b uxb");
    assert_eq!(err.1, "style character 'x' not recognized");
}

#[test]
fn dash_inside_style_run_fails() {
    let err = ColorSpec::from_str("a b u-").unwrap_err();
    // the first offending character is the dash
    assert_eq!(err.1, "style character '-' not recognized");
}

#[test]
fn blend_bounds_are_inclusive() {
    assert_eq!(parse_format("a b u - 0").blend, Some(0));
    assert_eq!(parse_format("a b u - 100").blend, Some(100));
}

#[test]
fn blend_above_hundred_fails() {
    let err = ColorSpec::from_str("a b u - 101").unwrap_err();
    assert_eq!(err.0, "a b u - 101");
    assert_eq!(err.1, "blend 101 out of range 0..=100");
    let err = ColorSpec::from_str("a b u - 1000").unwrap_err();
    assert_eq!(err.1, "blend 1000 out of range 0..=100");
}

#[test]
fn negative_blend_fails() {
    let err = ColorSpec::from_str("a b u - -1").unwrap_err();
    assert_eq!(err.1, "blend must be a base-10 integer");
}

#[test]
fn sixth_field_fails() {
    let err = ColorSpec::from_str("a b u sp 50 extra").unwrap_err();
    assert_eq!(err.1, "expected at most 5 fields");
}

#[test]
fn doubled_space_fails() {
    let err = ColorSpec::from_str("a  b").unwrap_err();
    assert_eq!(err.1, "empty field");
}

#[test]
fn leading_or_trailing_space_fails() {
    assert_eq!(ColorSpec::from_str(" a").unwrap_err().1, "empty field");
    assert_eq!(ColorSpec::from_str("a ").unwrap_err().1, "empty field");
}

#[test]
fn blend_accepts_leading_zeros() {
    assert_eq!(parse_format("a b u - 050").blend, Some(50));
    assert_eq!(parse_format("a b u - 000").blend, Some(0));
}

#[test]
fn parse_error_message_wraps_input_and_cause() {
    let err = ColorSpec::from_str("a b u - 101").unwrap_err();
    assert_eq!(
        err.message(),
        "failed to parse \"a b u - 101\" with error \"blend 101 out of range 0..=100\""
    );
}
