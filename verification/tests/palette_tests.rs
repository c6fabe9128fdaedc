use podium_analysis::color::Color;
use podium_analysis::error::AnalysisError;
use podium_analysis::full_podium_image::FullPodiumImage;
use podium_analysis::raster::Raster;
use podium_analysis::victor_banner::VictorBanner;
use podium_analysis::victor_banner::get_border_pixel_color_count;
use podium_analysis::victor_banner::get_color_counts;

fn gray(v: u8) -> Color {
    Color { r: v, g: v, b: v }
}

fn tally_lookup(tally: &[(Color, usize)], c: Color) -> Option<usize> {
    tally.iter().find(|entry| entry.0 == c).map(|entry| entry.1)
}

#[test]
fn can_get_border_pixel_color_count() {
    let black = Color::black();
    let white = Color::white();
    let raster = Raster::new(100, 10, vec![black; 1000]).unwrap();
    let region = raster.as_region();
    let count_map = get_border_pixel_color_count(&region);
    assert_eq!(count_map.len(), 1);

    let different_black_instance = Color { r: 0, g: 0, b: 0 };
    assert!(tally_lookup(&count_map, different_black_instance).is_some());
    // each border pixel counted once: 2 * 100 + 2 * (10 - 2)
    assert_eq!(tally_lookup(&count_map, black).unwrap(), 216);

    let mut pixels = vec![black; 1000];
    pixels[0 * 100 + 99] = white; // (99, 0)
    pixels[5 * 100 + 0] = Color { r: 255, g: 255, b: 255 }; // (0, 5)
    let raster = Raster::new(100, 10, pixels).unwrap();
    let region = raster.as_region();
    let count_map = get_border_pixel_color_count(&region);
    assert_eq!(count_map.len(), 2);
    assert_eq!(tally_lookup(&count_map, black).unwrap(), 214);
    assert_eq!(tally_lookup(&count_map, white).unwrap(), 2);
}

#[test]
fn border_count_of_single_row_region_counts_each_pixel_once() {
    let raster = Raster::new(4, 1, vec![gray(9); 4]).unwrap();
    let region = raster.as_region();
    let tally = get_border_pixel_color_count(&region);
    assert_eq!(tally, vec![(gray(9), 4)]);
}

#[test]
fn color_counts_are_exact_and_keyed_by_first_occurrence() {
    let pixels = vec![gray(1), gray(2), gray(1), gray(3), gray(2), gray(1)];
    let tally = get_color_counts(&pixels);
    assert_eq!(tally, vec![(gray(1), 3), (gray(2), 2), (gray(3), 1)]);
    assert_eq!(get_color_counts(&Vec::new()), vec![]);
}

fn banner_over(width: usize, height: usize, pixels: Vec<Color>) -> Raster {
    Raster::new(width, height, pixels).unwrap()
}

#[test]
fn can_determine_victor_banner_white_color() {
    // border almost entirely one tone; interior holds the glyphs
    let light = Color { r: 232, g: 200, b: 180 };
    let dark = Color { r: 10, g: 5, b: 0 };
    let mut pixels = vec![light; 12 * 6];
    for x in 3..9 {
        pixels[2 * 12 + x] = dark;
        pixels[3 * 12 + x] = dark;
    }
    let raster = banner_over(12, 6, pixels);
    let banner = VictorBanner { image: raster.as_region() };
    assert_eq!(banner.determine_white_color(), light);
}

#[test]
fn white_color_tie_breaks_by_border_scan_order() {
    // a 2 x 1 region: the whole border is [a, b], a tie broken toward a
    let a = gray(100);
    let b = gray(200);
    let raster = banner_over(2, 1, vec![a, b]);
    let banner = VictorBanner { image: raster.as_region() };
    assert_eq!(banner.determine_white_color(), a);
}

#[test]
fn can_determine_victor_banner_black_color() {
    let light = gray(220);
    let dark = Color { r: 10, g: 3, b: 17 };
    let darker = Color { r: 0, g: 0, b: 6 };
    let mut pixels = vec![light; 10 * 4];
    pixels[1 * 10 + 4] = dark;
    pixels[2 * 10 + 7] = darker;
    let raster = banner_over(10, 4, pixels);
    let banner = VictorBanner { image: raster.as_region() };
    assert_eq!(banner.determine_black_color(), darker);
}

#[test]
fn black_color_tie_breaks_by_row_major_order() {
    // two pixels with equal channel sums; the earlier one wins
    let light = gray(200);
    let first = Color { r: 0, g: 0, b: 30 };
    let second = Color { r: 30, g: 0, b: 0 };
    let mut pixels = vec![light; 9];
    pixels[2] = first;
    pixels[7] = second;
    let raster = banner_over(3, 3, pixels);
    let banner = VictorBanner { image: raster.as_region() };
    assert_eq!(banner.determine_black_color(), first);
}

#[test]
fn light_and_dark_colors_differ_on_two_tone_banners() {
    let light = gray(232);
    let dark = gray(12);
    let mut pixels = vec![light; 20 * 8];
    for x in 5..15 {
        for y in 3..5 {
            pixels[y * 20 + x] = dark;
        }
    }
    let raster = banner_over(20, 8, pixels);
    let banner = VictorBanner { image: raster.as_region() };
    let white = banner.determine_white_color();
    let black = banner.determine_black_color();
    assert_eq!(white, light);
    assert_eq!(black, dark);
    assert_ne!(white, black);
}

#[test]
fn banner_window_is_fixed_within_the_podium_image() {
    let mut pixels = vec![gray(50); 320 * 200];
    // the banner window starts at (72, 35) and is 179 x 23
    pixels[35 * 320 + 72] = gray(250);
    let podium = FullPodiumImage {
        image: Raster::new(320, 200, pixels).unwrap(),
    };
    let banner = VictorBanner::from(&podium).unwrap();
    assert_eq!(banner.image.width(), 179);
    assert_eq!(banner.image.height(), 23);
    assert_eq!(banner.image.pixel_at(0, 0).unwrap(), gray(250));
    assert_eq!(banner.image.pixel_at(1, 0).unwrap(), gray(50));
}

#[test]
fn banner_window_outside_a_small_image_is_an_error() {
    let podium = FullPodiumImage {
        image: Raster::new(100, 100, vec![gray(50); 100 * 100]).unwrap(),
    };
    assert_eq!(
        VictorBanner::from(&podium).unwrap_err(),
        AnalysisError::OutOfBounds
    );
}

#[test]
fn palette_depends_on_content_not_storage_order() {
    // mirroring the rows permutes storage while keeping the same multiset of
    // border pixels; with no ties in play the palette is identical
    let light = gray(210);
    let dark = gray(15);
    let stray = gray(120);
    let mut pixels = vec![light; 8 * 4];
    pixels[1 * 8 + 3] = dark;
    pixels[2 * 8 + 0] = stray; // a border pixel on the left column
    let mirrored: Vec<Color> = (0..32)
        .map(|i| {
            let x = i % 8;
            let y = i / 8;
            pixels[(3 - y) * 8 + x]
        })
        .collect();
    let r1 = banner_over(8, 4, pixels);
    let r2 = banner_over(8, 4, mirrored);
    let b1 = VictorBanner { image: r1.as_region() };
    let b2 = VictorBanner { image: r2.as_region() };
    assert_eq!(b1.determine_white_color(), b2.determine_white_color());
    assert_eq!(b1.determine_black_color(), b2.determine_black_color());
}
