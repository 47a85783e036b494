//! Font requests with one family.

use anvi_core::gui::single_font::FontSpec;

fn size(bits: u32) -> f32 {
    f32::from_bits(bits)
}

fn parse(guifont: &str) -> Option<FontSpec> {
    let reading = FontSpec::scan(guifont)
        .and_then(|c| c.size)
        .and_then(|s| s.parse::<f32>().ok())
        .map(f32::to_bits);
    FontSpec::parse(guifont, reading)
}

#[test]
fn font_parses_underscore_as_space() {
    let spec = parse("UDEV_Gothic:h12").expect("can be parsed");
    assert_eq!(spec.family, "UDEV Gothic");
    assert_eq!(size(spec.size_bits), 12.0);
}

#[test]
fn font_parses_literal_space_in_family() {
    let spec = parse("MS Gothic:h11").expect("can be parsed");
    assert_eq!(spec.family, "MS Gothic");
    assert_eq!(size(spec.size_bits), 11.0);
}

#[test]
fn font_parses_fractional_size() {
    let spec = parse("  Cascadia_Mono:h10.5  ").expect("can be parsed");
    assert_eq!(spec.family, "Cascadia Mono");
    assert_eq!(size(spec.size_bits), 10.5);
}

#[test]
fn font_rejects_unparsable_specs() {
    assert_eq!(parse(""), None);
    assert_eq!(parse("   "), None);
    assert_eq!(parse("MS Gothic"), None);
    assert_eq!(parse("MS Gothic:"), None);
    assert_eq!(parse("MS Gothic:h"), None);
    assert_eq!(parse("MS Gothic:habc"), None);
    assert_eq!(parse("MS Gothic:h0"), None);
    assert_eq!(parse("MS Gothic:h-12"), None);
    assert_eq!(parse("MS Gothic:h1200"), None);
    assert_eq!(parse(":h12"), None);
    assert_eq!(parse("_:h12"), None);
    assert_eq!(parse("MS Gothic:h12:b"), None);
    assert_eq!(parse("MS Gothic:h12:h14"), None);
    assert_eq!(parse("UDEV_Gothic:h12,MS_Gothic:h12"), None);
}

#[test]
fn default_is_the_last_resort_font() {
    let spec = FontSpec::default();
    assert_eq!(spec.family, "MS Gothic");
    assert_eq!(size(spec.size_bits), 12.0);
}

#[test]
fn fallback_chain_appends_the_last_resort_font() {
    let spec = parse("UDEV_Gothic:h12").expect("can be parsed");
    assert_eq!(spec.fallback_chain(), "UDEV Gothic, MS Gothic");
}

#[test]
fn font_fallback_chain_has_no_duplicate_last_resort() {
    assert_eq!(FontSpec::default().fallback_chain(), "MS Gothic");
    let spec = parse("ms_gothic:h12").expect("can be parsed");
    assert_eq!(spec.fallback_chain(), "MS Gothic");
}
