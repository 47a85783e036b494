//! Font requests with several candidates.

use anvi_core::gui::font::{
    fallback_names, pick_source, FontRequest, FontSource, FontSpec, GuiFont, DEFAULT_SIZE_BITS,
    MAX_SIZE_BITS, MIN_SIZE_BITS,
};

fn size(bits: u32) -> f32 {
    f32::from_bits(bits)
}

fn parse(guifont: &str) -> GuiFont {
    let readings: Vec<Option<u32>> = match FontSpec::scan(guifont) {
        FontRequest::Candidates(candidates) => candidates
            .iter()
            .map(|c| c.size.as_ref().and_then(|s| s.parse::<f32>().ok()).map(f32::to_bits))
            .collect(),
        _ => Vec::new(),
    };
    FontSpec::parse(guifont, &readings)
}

fn spec(guifont: &str) -> FontSpec {
    match parse(guifont) {
        GuiFont::Spec(spec) => spec,
        other => panic!("cannot be parsed: {other:?}"),
    }
}

#[test]
fn parses_underscore_as_space() {
    let spec = spec("UDEV_Gothic:h12");
    assert_eq!(spec.families, ["UDEV Gothic"]);
    assert_eq!(size(spec.size_bits), 12.0);
}

#[test]
fn parses_literal_space_in_family() {
    let spec = spec("MS Gothic:h11");
    assert_eq!(spec.families, ["MS Gothic"]);
    assert_eq!(size(spec.size_bits), 11.0);
}

#[test]
fn parses_fractional_size() {
    let spec = spec("  Cascadia_Mono:h10.5  ");
    assert_eq!(spec.families, ["Cascadia Mono"]);
    assert_eq!(size(spec.size_bits), 10.5);
}

#[test]
fn parses_a_candidate_list_and_takes_the_first_size() {
    let spec = spec("UDEV_Gothic:h12,MS_Gothic:h14,Consolas");
    assert_eq!(spec.families, ["UDEV Gothic", "MS Gothic", "Consolas"]);
    assert_eq!(size(spec.size_bits), 12.0);
}

#[test]
fn the_nvim_default_guifont_is_not_a_request() {
    assert_eq!(
        parse("Cascadia Code,Cascadia Mono,Consolas,Courier New,monospace"),
        GuiFont::Unspecified
    );
}

#[test]
fn a_family_without_a_size_leaves_the_font_to_the_gui() {
    assert_eq!(parse(""), GuiFont::Unspecified);
    assert_eq!(parse("   "), GuiFont::Unspecified);
    assert_eq!(parse("MS Gothic"), GuiFont::Unspecified);
}

#[test]
fn rejects_unparsable_specs() {
    assert_eq!(parse("MS Gothic:"), GuiFont::Invalid);
    assert_eq!(parse("MS Gothic:h"), GuiFont::Invalid);
    assert_eq!(parse("MS Gothic:habc"), GuiFont::Invalid);
    assert_eq!(parse("MS Gothic:h0"), GuiFont::Invalid);
    assert_eq!(parse("MS Gothic:h-12"), GuiFont::Invalid);
    assert_eq!(parse("MS Gothic:h1200"), GuiFont::Invalid);
    assert_eq!(parse(":h12"), GuiFont::Invalid);
    assert_eq!(parse("_:h12"), GuiFont::Invalid);
    assert_eq!(parse("A:h12,:h12"), GuiFont::Invalid);
    assert_eq!(parse("MS Gothic:h12:b"), GuiFont::Invalid);
    assert_eq!(parse("MS Gothic:h12:h14"), GuiFont::Invalid);
}

#[test]
fn default_is_the_bundled_font() {
    let spec = FontSpec::default();
    assert_eq!(spec.families, ["Moralerspace Argon HW"]);
    assert_eq!(size(spec.size_bits), 12.0);
}

#[test]
fn primary_is_the_first_family_that_exists() {
    let spec = spec("Missing_One:h12,Missing_Two:h12,Consolas:h12");
    assert_eq!(
        spec.primary(|family| family == "Consolas"),
        Some("Consolas")
    );
    assert_eq!(spec.primary(|_| false), None);
}

#[test]
fn fallback_chain_appends_the_bundled_font() {
    assert_eq!(
        spec("UDEV_Gothic:h12").fallback_chain(),
        "UDEV Gothic, Moralerspace Argon HW"
    );
    assert_eq!(
        spec("A:h12,B:h12").fallback_chain(),
        "A, B, Moralerspace Argon HW"
    );
}

#[test]
fn fallback_chain_has_no_duplicate_last_resort() {
    assert_eq!(
        FontSpec::default().fallback_chain(),
        "Moralerspace Argon HW"
    );
    assert_eq!(
        spec("moralerspace_argon_hw:h12").fallback_chain(),
        "moralerspace argon hw"
    );
}

#[test]
fn sizes_are_held_as_the_bits_of_a_number() {
    assert_eq!(DEFAULT_SIZE_BITS, 12.0f32.to_bits());
    assert_eq!(size(MIN_SIZE_BITS), 1.0);
    assert_eq!(size(MAX_SIZE_BITS), 400.0);
}

#[test]
fn sizes_outside_the_range_are_refused() {
    for (text, accepted) in [
        ("1", true),
        ("0.99", false),
        ("400", true),
        ("400.1", false),
        ("NaN", false),
        ("inf", false),
        ("-0", false),
        ("1e2", true),
        ("+5", true),
    ] {
        let parsed = parse(&format!("F:h{text}"));
        assert_eq!(matches!(parsed, GuiFont::Spec(_)), accepted, "{text}");
    }
}

#[test]
fn the_chain_lists_its_names() {
    let chain = spec("A_B:h12, C :h3").fallback_chain();
    assert_eq!(chain, "A B, C, Moralerspace Argon HW");
    let names: Vec<String> = fallback_names(&chain)
        .iter()
        .map(|n| String::from_utf16(&n[..n.len() - 1]).expect("valid"))
        .collect();
    assert_eq!(names, ["A B", "C", "Moralerspace Argon HW"]);
    assert!(fallback_names(&chain).iter().all(|n| n.last() == Some(&0)));
    assert!(fallback_names(" , ,").is_empty());
}

#[test]
fn a_bundled_font_wins_over_one_of_the_system() {
    assert_eq!(pick_source(Some(3), Some(5)), Some((FontSource::Bundled, 3)));
    assert_eq!(pick_source(None, Some(5)), Some((FontSource::System, 5)));
    assert_eq!(pick_source(None, None), None);
}
