use vstd::prelude::*;

use crate::color::Color;
use crate::error::AnalysisError;

verus! {

/// An immutable 2D grid of colors, width x height, row-major. Owned by
/// whichever component decoded or derived it; every lookup goes through a
/// rectangular `Region` view.
#[derive(Debug)]
pub struct Raster {
    width: usize,
    height: usize,
    pixels: Vec<Color>,
}

impl Raster {
    pub closed spec fn spec_width(self) -> int {
        self.width as int
    }

    pub closed spec fn spec_height(self) -> int {
        self.height as int
    }

    /// The backing buffer holds exactly one color per coordinate.
    pub closed spec fn wf(self) -> bool {
        self.pixels@.len() == self.width * self.height
    }

    /// The color at (x, y); x runs across a row, y down the rows.
    pub closed spec fn pixel(self, x: int, y: int) -> Color {
        self.pixels@[y * (self.width as int) + x]
    }

    /// Builds a raster from a row-major buffer. Succeeds exactly when the
    /// buffer length matches the requested dimensions.
    pub fn new(width: usize, height: usize, pixels: Vec<Color>) -> (r: Option<Raster>)
        ensures
            r is Some <==> pixels@.len() == width * height,
            r matches Some(img) ==> img.wf() && img.spec_width() == width && img.spec_height()
                == height && forall|x: int, y: int|
                0 <= x < width && 0 <= y < height ==> #[trigger] img.pixel(x, y) == pixels@[y
                    * width + x],
    {
        let n = pixels.len();
        match width.checked_mul(height) {
            Some(total) => {
                if total == n {
                    Some(Raster { width, height, pixels })
                } else {
                    None
                }
            },
            None => None,
        }
    }

    pub fn width(&self) -> (w: usize)
        ensures
            w == self.spec_width(),
    {
        self.width
    }

    pub fn height(&self) -> (h: usize)
        ensures
            h == self.spec_height(),
    {
        self.height
    }

    /// Unchecked lookup; in-bounds coordinates are the caller's proof burden.
    pub(crate) fn get(&self, x: usize, y: usize) -> (c: Color)
        requires
            self.wf(),
            x < self.spec_width(),
            y < self.spec_height(),
        ensures
            c == self.pixel(x as int, y as int),
    {
        proof {
            assert((y as int) * (self.width as int) + (x as int) < (self.width as int) * (
            self.height as int)) by (nonlinear_arith)
                requires
                    (y as int) < (self.height as int),
                    (x as int) < (self.width as int),
                    0 <= x as int,
                    0 <= y as int,
            ;
            assert(self.pixels@.len() == (self.width as int) * (self.height as int));
        }
        let _buffer_len = self.pixels.len();
        let idx: usize = y * self.width + x;
        self.pixels[idx]
    }

    /// The whole raster as a region.
    pub fn as_region<'a>(&'a self) -> (r: Region<'a>)
        requires
            self.wf(),
        ensures
            r.wf(),
            r.spec_width() == self.spec_width(),
            r.spec_height() == self.spec_height(),
            forall|x: int, y: int|
                0 <= x < self.spec_width() && 0 <= y < self.spec_height()
                    ==> #[trigger] r.pixel(x, y) == self.pixel(x, y),
    {
        Region { raster: self, left: 0, top: 0, width: self.width, height: self.height }
    }

    /// A rectangular view of this raster. Fails with `OutOfBounds` exactly
    /// when the requested rectangle exceeds the raster's extent.
    pub fn subregion<'a>(
        &'a self,
        left: usize,
        top: usize,
        width: usize,
        height: usize,
    ) -> (r: Result<Region<'a>, AnalysisError>)
        requires
            self.wf(),
        ensures
            r is Ok <==> left + width <= self.spec_width() && top + height <= self.spec_height(),
            r matches Ok(sub) ==> sub.wf() && sub.spec_width() == width && sub.spec_height()
                == height && forall|x: int, y: int|
                0 <= x < width && 0 <= y < height ==> #[trigger] sub.pixel(x, y) == self.pixel(
                    left + x,
                    top + y,
                ),
            r matches Err(e) ==> e == AnalysisError::OutOfBounds,
    {
        self.as_region().subregion(left, top, width, height)
    }
}

/// The 8-bit RGB raster that a PNG byte stream decodes to, if any: its
/// width, its height, and its pixels in row-major order. PNG decoding is a
/// function of the bytes alone.
pub uninterp spec fn rgb_png_decoding(bytes: Seq<u8>) -> Option<(nat, nat, Seq<Color>)>;

/// Relies on lodepng::decode24: decodes an in-memory PNG byte stream to an
/// 8-bit RGB bitmap whose buffer holds exactly width * height pixels, failing
/// on any stream that is not a decodable PNG.
#[verifier::external_body]
pub(crate) fn decode_rgb_png(bytes: &Vec<u8>) -> (r: Result<Raster, AnalysisError>)
    ensures
        r is Ok <==> rgb_png_decoding(bytes@) is Some,
        r matches Ok(img) ==> img.wf() && (rgb_png_decoding(bytes@) matches Some(t)
            && img.spec_width() == t.0 && img.spec_height() == t.1 && forall|x: int, y: int|
            0 <= x < t.0 && 0 <= y < t.1 ==> #[trigger] img.pixel(x, y) == t.2[y * t.0 + x]),
        r matches Err(e) ==> e == AnalysisError::DecodeFailed,
{
    match lodepng::decode24(bytes.as_slice()) {
        Ok(bitmap) => {
            let pixels = bitmap.buffer.iter().map(
                |p| Color { r: p.r, g: p.g, b: p.b },
            ).collect();
            Ok(Raster { width: bitmap.width, height: bitmap.height, pixels })
        },
        Err(_) => Err(AnalysisError::DecodeFailed),
    }
}

/// A non-owning rectangular view (offset + width + height) into a raster.
/// It never copies pixel data; every lookup is a coordinate remapping.
#[derive(Debug)]
pub struct Region<'a> {
    raster: &'a Raster,
    left: usize,
    top: usize,
    width: usize,
    height: usize,
}

impl<'a> Region<'a> {
    pub closed spec fn spec_width(self) -> int {
        self.width as int
    }

    pub closed spec fn spec_height(self) -> int {
        self.height as int
    }

    /// The view stays inside its backing raster.
    pub closed spec fn wf(self) -> bool {
        self.raster.wf() && self.left + self.width <= self.raster.spec_width() && self.top
            + self.height <= self.raster.spec_height()
    }

    /// The color at (x, y) in the region's own coordinate space, 0-indexed
    /// from the region's top-left.
    pub closed spec fn pixel(self, x: int, y: int) -> Color {
        self.raster.pixel(self.left + x, self.top + y)
    }

    /// All pixels of the region in row-major order.
    pub open spec fn pixel_seq(self) -> Seq<Color> {
        Seq::new(
            (self.spec_width() * self.spec_height()) as nat,
            |i: int| self.pixel(i % self.spec_width(), i / self.spec_width()),
        )
    }

    pub fn width(&self) -> (w: usize)
        ensures
            w == self.spec_width(),
    {
        self.width
    }

    pub fn height(&self) -> (h: usize)
        ensures
            h == self.spec_height(),
    {
        self.height
    }

    /// Unchecked lookup; in-bounds coordinates are the caller's proof burden.
    pub(crate) fn get(&self, x: usize, y: usize) -> (c: Color)
        requires
            self.wf(),
            x < self.spec_width(),
            y < self.spec_height(),
        ensures
            c == self.pixel(x as int, y as int),
    {
        self.raster.get(self.left + x, self.top + y)
    }

    /// Copies the region's pixels out in row-major order, for analyses that
    /// work on the flat sequence.
    pub fn collect_pixels(&self) -> (v: Vec<Color>)
        requires
            self.wf(),
        ensures
            v@ == self.pixel_seq(),
    {
        let w = self.width();
        let h = self.height();
        let ghost ps = self.pixel_seq();
        let mut v: Vec<Color> = Vec::new();
        let mut y: usize = 0;
        while y < h
            invariant
                self.wf(),
                w == self.spec_width(),
                h == self.spec_height(),
                ps == self.pixel_seq(),
                y <= h,
                v@ == ps.take((y as int) * (w as int)),
            decreases h - y,
        {
            let mut x: usize = 0;
            while x < w
                invariant
                    self.wf(),
                    w == self.spec_width(),
                    h == self.spec_height(),
                    ps == self.pixel_seq(),
                    y < h,
                    x <= w,
                    v@ == ps.take((y as int) * (w as int) + x),
                decreases w - x,
            {
                let c = self.get(x, y);
                proof {
                    assert((y as int) * (w as int) + (x as int) + 1 <= (w as int) * (h as int))
                        by (nonlinear_arith)
                        requires
                            0 <= (y as int) < (h as int),
                            0 <= (x as int) < (w as int),
                    ;
                    let k = (y as int) * (w as int) + (x as int);
                    vstd::arithmetic::div_mod::lemma_fundamental_div_mod_converse_div(
                        k,
                        w as int,
                        y as int,
                        x as int,
                    );
                    vstd::arithmetic::div_mod::lemma_fundamental_div_mod_converse_mod(
                        k,
                        w as int,
                        y as int,
                        x as int,
                    );
                    assert(ps[k] == self.pixel(x as int, y as int));
                    assert(ps.take(k + 1) =~= ps.take(k).push(ps[k]));
                }
                v.push(c);
                x += 1;
            }
            proof {
                assert((y as int) * (w as int) + (w as int) == ((y as int) + 1) * (w as int))
                    by (nonlinear_arith);
            }
            y += 1;
        }
        proof {
            assert((h as int) * (w as int) == (w as int) * (h as int)) by (nonlinear_arith);
            assert(ps.take((h as int) * (w as int)) =~= ps);
        }
        v
    }

    /// Checked lookup. Fails with `OutOfBounds` exactly when (x, y) lies
    /// outside the region.
    pub fn pixel_at(&self, x: usize, y: usize) -> (r: Result<Color, AnalysisError>)
        requires
            self.wf(),
        ensures
            r is Ok <==> x < self.spec_width() && y < self.spec_height(),
            r matches Ok(c) ==> c == self.pixel(x as int, y as int),
            r matches Err(e) ==> e == AnalysisError::OutOfBounds,
    {
        if x < self.width && y < self.height {
            Ok(self.get(x, y))
        } else {
            Err(AnalysisError::OutOfBounds)
        }
    }

    /// A sub-rectangle of this region, in the region's own coordinates.
    /// Fails with `OutOfBounds` exactly when the rectangle exceeds the
    /// region's extent.
    pub fn subregion(&self, left: usize, top: usize, width: usize, height: usize) -> (r: Result<
        Region<'a>,
        AnalysisError,
    >)
        requires
            self.wf(),
        ensures
            r is Ok <==> left + width <= self.spec_width() && top + height <= self.spec_height(),
            r matches Ok(sub) ==> sub.wf() && sub.spec_width() == width && sub.spec_height()
                == height && forall|x: int, y: int|
                0 <= x < width && 0 <= y < height ==> #[trigger] sub.pixel(x, y) == self.pixel(
                    left + x,
                    top + y,
                ),
            r matches Err(e) ==> e == AnalysisError::OutOfBounds,
    {
        if width <= self.width && left <= self.width - width && height <= self.height && top
            <= self.height - height {
            Ok(
                Region {
                    raster: self.raster,
                    left: self.left + left,
                    top: self.top + top,
                    width,
                    height,
                },
            )
        } else {
            Err(AnalysisError::OutOfBounds)
        }
    }
}

} // verus!
