use colorgen_nvim::palette::Palette;
use colorgen_nvim::palette::RgbColor;
use colorgen_nvim::sections::check_palette_ref;
use colorgen_nvim::sections::color_spec::parser::Color;
use colorgen_nvim::sections::color_spec::ColorSpec;
use colorgen_nvim::sections::Section;
use colorgen_nvim::sections::Sections;

fn demo_palette() -> Palette {
    let mut palette = Palette::new();
    assert!(palette.insert("fg".to_string(), RgbColor::from_str("#abb2bf").unwrap()));
    assert!(palette.insert("bg".to_string(), RgbColor::from_str("#1e222a").unwrap()));
    palette
}

#[test]
fn palette_resolves_inserted_names() {
    let palette = demo_palette();
    assert_eq!(palette.resolve("fg").unwrap().0, [0xab, 0xb2, 0xbf]);
    assert_eq!(palette.resolve("bg").unwrap().0, [0x1e, 0x22, 0x2a]);
    assert!(palette.resolve("red").is_none());
}

#[test]
fn palette_keeps_insertion_order_and_rejects_duplicates() {
    let mut palette = demo_palette();
    assert!(!palette.insert("fg".to_string(), RgbColor([0, 0, 0])));
    let entries = palette.entries();
    assert_eq!(entries.len(), 2);
    assert_eq!(entries[0].0, "fg");
    assert_eq!(entries[0].1.0, [0xab, 0xb2, 0xbf]);
    assert_eq!(entries[1].0, "bg");
}

#[test]
fn resolved_references_validate_silently() {
    let palette = demo_palette();
    let sections = Sections(vec![(
        "highlights".to_string(),
        Section(vec![("Normal".to_string(), ColorSpec::from_str("fg bg").unwrap())]),
    )]);
    assert!(sections.check_colors(&palette).is_ok());
}

#[test]
fn missing_reference_names_section_group_and_color() {
    let palette = demo_palette();
    let sections = Sections(vec![(
        "highlights".to_string(),
        Section(vec![("Comment".to_string(), ColorSpec::from_str("red").unwrap())]),
    )]);
    let err = sections.check_colors(&palette).unwrap_err();
    assert_eq!(err.section_name, "highlights");
    assert_eq!(err.highlight_group, "Comment");
    assert_eq!(err.color_ref, "red");
    assert_eq!(
        err.message(),
        "In highlight group highlights.Comment the palette color red could not be found"
    );
}

#[test]
fn links_are_exempt_from_the_check() {
    let palette = demo_palette();
    let sections = Sections(vec![(
        "highlights".to_string(),
        Section(vec![(
            "Special".to_string(),
            ColorSpec::from_str("link:NotAPaletteName").unwrap(),
        )]),
    )]);
    assert!(sections.check_colors(&palette).is_ok());
}

#[test]
fn literals_are_exempt_from_the_check() {
    let palette = Palette::new();
    let sections = Sections(vec![(
        "highlights".to_string(),
        Section(vec![("Normal".to_string(), ColorSpec::from_str("#abb2bf").unwrap())]),
    )]);
    assert!(sections.check_colors(&palette).is_ok());
}

#[test]
fn background_and_special_references_are_checked_too() {
    let palette = demo_palette();
    let sections = Sections(vec![(
        "syntax".to_string(),
        Section(vec![("Error".to_string(), ColorSpec::from_str("fg bg u missing").unwrap())]),
    )]);
    let err = sections.check_colors(&palette).unwrap_err();
    assert_eq!(err.section_name, "syntax");
    assert_eq!(err.highlight_group, "Error");
    assert_eq!(err.color_ref, "missing");
}

#[test]
fn first_violation_in_declaration_order_is_reported() {
    let palette = demo_palette();
    let sections = Sections(vec![(
        "highlights".to_string(),
        Section(vec![
            ("First".to_string(), ColorSpec::from_str("missing_one").unwrap()),
            ("Second".to_string(), ColorSpec::from_str("missing_two").unwrap()),
        ]),
    )]);
    let err = sections.check_colors(&palette).unwrap_err();
    assert_eq!(err.highlight_group, "First");
    assert_eq!(err.color_ref, "missing_one");
}

#[test]
fn foreground_violation_wins_over_background() {
    let palette = demo_palette();
    let sections = Sections(vec![(
        "highlights".to_string(),
        Section(vec![("Normal".to_string(), ColorSpec::from_str("bad_fg bad_bg").unwrap())]),
    )]);
    let err = sections.check_colors(&palette).unwrap_err();
    assert_eq!(err.color_ref, "bad_fg");
}

#[test]
fn check_palette_ref_reports_one_field() {
    let palette = demo_palette();
    let present = Some(Color::PaletteRef("fg".to_string()));
    assert!(check_palette_ref(&present, &palette, "s", "g").is_ok());
    let absent = Some(Color::PaletteRef("nope".to_string()));
    let err = check_palette_ref(&absent, &palette, "s", "g").unwrap_err();
    assert_eq!(err.section_name, "s");
    assert_eq!(err.highlight_group, "g");
    assert_eq!(err.color_ref, "nope");
    assert!(check_palette_ref(&None, &palette, "s", "g").is_ok());
}
