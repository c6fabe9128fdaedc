use podium_analysis::color::Color;
use podium_analysis::error::AnalysisError;
use podium_analysis::raster::Raster;

fn solid(width: usize, height: usize, c: Color) -> Raster {
    Raster::new(width, height, vec![c; width * height]).expect("buffer length matches dimensions")
}

fn gray(v: u8) -> Color {
    Color { r: v, g: v, b: v }
}

#[test]
fn raster_new_rejects_wrong_buffer_length() {
    let pixels = vec![gray(0); 9];
    assert!(Raster::new(2, 4, pixels).is_none());
    let pixels = vec![gray(0); 8];
    assert!(Raster::new(2, 4, pixels).is_some());
}

#[test]
fn pixel_at_reads_row_major() {
    let mut pixels = vec![gray(0); 6];
    pixels[1 * 3 + 2] = gray(9);
    let raster = Raster::new(3, 2, pixels).unwrap();
    let region = raster.as_region();
    assert_eq!(region.pixel_at(2, 1).unwrap(), gray(9));
    assert_eq!(region.pixel_at(0, 0).unwrap(), gray(0));
}

#[test]
fn pixel_at_out_of_bounds_fails() {
    let raster = solid(3, 2, gray(7));
    let region = raster.as_region();
    assert_eq!(region.pixel_at(3, 0), Err(AnalysisError::OutOfBounds));
    assert_eq!(region.pixel_at(0, 2), Err(AnalysisError::OutOfBounds));
}

#[test]
fn subregion_remaps_coordinates() {
    let mut pixels = vec![gray(0); 20];
    pixels[2 * 5 + 3] = gray(42);
    let raster = Raster::new(5, 4, pixels).unwrap();
    let sub = raster.subregion(2, 1, 3, 3).unwrap();
    assert_eq!(sub.pixel_at(1, 1).unwrap(), gray(42));
    assert_eq!(sub.width(), 3);
    assert_eq!(sub.height(), 3);
}

#[test]
fn subregion_out_of_bounds_fails() {
    let raster = solid(5, 4, gray(1));
    let region = raster.as_region();
    assert_eq!(
        region.subregion(3, 0, 3, 2).unwrap_err(),
        AnalysisError::OutOfBounds
    );
    assert_eq!(
        region.subregion(0, 2, 2, 3).unwrap_err(),
        AnalysisError::OutOfBounds
    );
    assert!(region.subregion(2, 1, 3, 3).is_ok());
}

#[test]
fn nested_subregions_compose_offsets() {
    let mut pixels = vec![gray(0); 100];
    pixels[7 * 10 + 6] = gray(99);
    let raster = Raster::new(10, 10, pixels).unwrap();
    let outer = raster.subregion(2, 3, 8, 7).unwrap();
    let inner = outer.subregion(1, 2, 4, 4).unwrap();
    // inner (x, y) maps to raster (3 + x, 5 + y)
    assert_eq!(inner.pixel_at(3, 2).unwrap(), gray(99));
}

#[test]
fn color_equality_is_exact() {
    assert_eq!(Color { r: 1, g: 2, b: 3 }, Color { r: 1, g: 2, b: 3 });
    assert_ne!(Color { r: 1, g: 2, b: 3 }, Color { r: 1, g: 2, b: 4 });
    assert_eq!(Color::white(), Color { r: 255, g: 255, b: 255 });
    assert_eq!(Color::black(), Color { r: 0, g: 0, b: 0 });
    assert_eq!(Color { r: 10, g: 20, b: 30 }.sum(), 60);
}
