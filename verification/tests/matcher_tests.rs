use podium_analysis::analyzed_victor_banner::AnalyzedVictorBanner;
use podium_analysis::color::Color;
use podium_analysis::raster::Raster;
use podium_analysis::victor_banner::VictorBanner;

fn gray(v: u8) -> Color {
    Color { r: v, g: v, b: v }
}

const LIGHT: u8 = 232;
const DARK: u8 = 8;

/// A two-tone banner with a dark block at the given columns.
fn banner_pixels(glyph_columns: std::ops::Range<usize>) -> Vec<Color> {
    let mut pixels = vec![gray(LIGHT); 16 * 6];
    for x in glyph_columns {
        for y in 2..4 {
            pixels[y * 16 + x] = gray(DARK);
        }
    }
    pixels
}

fn fingerprint_of(pixels: Vec<Color>) -> AnalyzedVictorBanner {
    let raster = Raster::new(16, 6, pixels).unwrap();
    let banner = VictorBanner {
        image: raster.as_region(),
    };
    AnalyzedVictorBanner::from(&banner)
}

#[test]
fn banner_matches_itself() {
    let fingerprint = fingerprint_of(banner_pixels(4..12));
    assert!(fingerprint.matches(&fingerprint));
}

#[test]
fn two_fingerprints_of_the_same_banner_match() {
    let one = fingerprint_of(banner_pixels(4..12));
    let other = fingerprint_of(banner_pixels(4..12));
    assert!(one.matches(&other));
}

#[test]
fn clear_banner_matches_partially_obscured_banner() {
    let clear = fingerprint_of(banner_pixels(4..12));

    // the same banner with an overlay blob: a third color that classifies as
    // indeterminate, brighter than the dark tone and off the border so the
    // palette estimate is untouched
    let mut obscured_pixels = banner_pixels(4..12);
    for x in 6..10 {
        for y in 1..5 {
            obscured_pixels[y * 16 + x] = gray(120);
        }
    }
    let obscured = fingerprint_of(obscured_pixels);

    assert!(clear.matches(&obscured));
    assert!(obscured.matches(&clear));
}

#[test]
fn completely_different_banners_do_not_match() {
    // the two glyph blocks are disjoint, so each banner is definite
    // foreground where the other is definite background
    let one = fingerprint_of(banner_pixels(2..6));
    let other = fingerprint_of(banner_pixels(9..13));
    assert!(!one.matches(&other));
    assert!(!other.matches(&one));
}

#[test]
fn matching_ignores_indeterminate_on_either_side() {
    let clear = fingerprint_of(banner_pixels(4..12));
    // the overlay swallows most of the glyph but leaves some dark stroke
    // visible, so the palette estimate still finds the true dark tone
    let mut obscured_pixels = banner_pixels(4..12);
    for x in 6..14 {
        for y in 1..5 {
            obscured_pixels[y * 16 + x] = gray(120);
        }
    }
    let heavily_obscured = fingerprint_of(obscured_pixels);
    assert!(heavily_obscured.matches(&clear));
    assert!(clear.matches(&heavily_obscured));
}
