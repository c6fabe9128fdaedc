use podium_analysis::analyzed_victor_banner::AnalyzedBannerPixel;
use podium_analysis::analyzed_victor_banner::AnalyzedVictorBanner;
use podium_analysis::color::Color;
use podium_analysis::iter_ext::IterExt;
use podium_analysis::raster::Raster;
use podium_analysis::victor_banner::VictorBanner;

fn gray(v: u8) -> Color {
    Color { r: v, g: v, b: v }
}

#[test]
fn can_analyze_pixel() {
    let banner_white = Color { r: 232, g: 232, b: 232 };
    let banner_black = Color::black();
    let halo = gray(120);
    // a 4 x 3 grid: white everywhere, one black glyph pixel at (1, 1), and a
    // halo pixel at (3, 1) that poisons its neighborhood
    let mut pixels = vec![banner_white; 12];
    pixels[1 * 4 + 1] = banner_black;
    pixels[1 * 4 + 3] = halo;
    let raster = Raster::new(4, 3, pixels).unwrap();
    let region = raster.as_region();

    // black tone in a pure neighborhood: foreground
    assert_eq!(
        AnalyzedVictorBanner::analyze_pixel(&region, 1, 1, banner_white, banner_black),
        AnalyzedBannerPixel::Black
    );
    // white tone in a pure neighborhood: background
    assert_eq!(
        AnalyzedVictorBanner::analyze_pixel(&region, 0, 0, banner_white, banner_black),
        AnalyzedBannerPixel::White
    );
    // a third color is never trusted
    assert_eq!(
        AnalyzedVictorBanner::analyze_pixel(&region, 3, 1, banner_white, banner_black),
        AnalyzedBannerPixel::Invalid
    );
    // a white pixel next to the halo fails the purity rule
    assert_eq!(
        AnalyzedVictorBanner::analyze_pixel(&region, 2, 1, banner_white, banner_black),
        AnalyzedBannerPixel::Invalid
    );
    assert_eq!(
        AnalyzedVictorBanner::analyze_pixel(&region, 3, 0, banner_white, banner_black),
        AnalyzedBannerPixel::Invalid
    );
}

#[test]
fn edge_pixels_are_not_penalized_for_missing_neighbors() {
    let banner_white = gray(230);
    let banner_black = gray(10);
    let raster = Raster::new(2, 1, vec![banner_white, banner_black]).unwrap();
    let region = raster.as_region();
    assert_eq!(
        AnalyzedVictorBanner::analyze_pixel(&region, 0, 0, banner_white, banner_black),
        AnalyzedBannerPixel::White
    );
    assert_eq!(
        AnalyzedVictorBanner::analyze_pixel(&region, 1, 0, banner_white, banner_black),
        AnalyzedBannerPixel::Black
    );
}

#[test]
fn single_pixel_region_classifies_without_neighbors() {
    // all four neighbor lookups fall outside the region and auto-pass
    let only = gray(77);
    let raster = Raster::new(1, 1, vec![only]).unwrap();
    let region = raster.as_region();
    assert_eq!(
        AnalyzedVictorBanner::analyze_pixel(&region, 0, 0, only, Color::black()),
        AnalyzedBannerPixel::White
    );
    let banner = VictorBanner { image: raster.as_region() };
    let fingerprint = AnalyzedVictorBanner::from(&banner);
    assert_eq!(fingerprint.width(), 1);
    assert_eq!(fingerprint.height(), 1);
    // the single pixel is both the dominant border color and the darkest
    // pixel, and the light test comes first
    assert_eq!(fingerprint.pixel_at(0, 0).unwrap(), AnalyzedBannerPixel::White);
}

fn two_tone_banner() -> Raster {
    let light = gray(232);
    let dark = gray(8);
    let mut pixels = vec![light; 16 * 6];
    for x in 4..12 {
        for y in 2..4 {
            pixels[y * 16 + x] = dark;
        }
    }
    Raster::new(16, 6, pixels).unwrap()
}

#[test]
fn can_analyze_victor_banner() {
    let raster = two_tone_banner();
    let banner = VictorBanner { image: raster.as_region() };
    let analyzed = AnalyzedVictorBanner::from(&banner);

    assert_eq!(banner.image.width(), analyzed.width());
    assert_eq!(banner.image.height(), analyzed.height());

    // a clean two-tone banner leaves nothing indeterminate
    let invalid_count = analyzed
        .pixels()
        .filter_count(|&p| p == AnalyzedBannerPixel::Invalid);
    assert_eq!(invalid_count, 0);

    // foreground pixels sit exactly where the dark block was painted
    assert_eq!(analyzed.pixel_at(5, 2).unwrap(), AnalyzedBannerPixel::Black);
    assert_eq!(analyzed.pixel_at(0, 0).unwrap(), AnalyzedBannerPixel::White);
    assert_eq!(analyzed.pixel_at(16, 0), None);
}

#[test]
fn filter_count_counts_matching_items() {
    let values: Vec<u32> = vec![3, 1, 4, 1, 5, 9, 2, 6];
    assert_eq!(values.filter_count(|&v| v > 3), 4);
    assert_eq!(values.filter_count(|_| false), 0);
    assert_eq!(values.filter_count(|_| true), 8);
}
