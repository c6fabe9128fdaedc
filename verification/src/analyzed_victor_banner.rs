use vstd::prelude::*;

use crate::color::Color;
use crate::raster::Region;
use crate::victor_banner::VictorBanner;
use crate::victor_banner::is_dark_color;
use crate::victor_banner::is_light_color;

verus! {

/// Classification of one banner pixel against the banner's two-tone palette.
#[derive(Clone, Copy, PartialEq, Eq, Structural, Debug)]
pub enum AnalyzedBannerPixel {
    /// Indeterminate: anti-aliased, obscured, or otherwise untrusted; treated
    /// as a wildcard when fingerprints are compared.
    Invalid,
    /// Background: the light tone in a locally pure neighborhood.
    White,
    /// Foreground: the dark tone in a locally pure neighborhood.
    Black,
}

/// An out-of-bounds neighbor passes automatically (edge pixels are never
/// penalized for missing neighbors); an in-bounds neighbor must be one of the
/// two palette tones.
pub open spec fn neighbor_is_palette(
    region: Region,
    x: int,
    y: int,
    white: Color,
    black: Color,
) -> bool {
    if 0 <= x < region.spec_width() && 0 <= y < region.spec_height() {
        region.pixel(x, y) == white || region.pixel(x, y) == black
    } else {
        true
    }
}

/// The purity rule: all four orthogonal neighbors are palette tones or lie
/// outside the region. Pixels that fail it sit next to a third color, such
/// as a glyph anti-aliasing halo, and are not trusted.
pub open spec fn purity_spec(region: Region, x: int, y: int, white: Color, black: Color) -> bool {
    neighbor_is_palette(region, x - 1, y, white, black) && neighbor_is_palette(
        region,
        x + 1,
        y,
        white,
        black,
    ) && neighbor_is_palette(region, x, y - 1, white, black) && neighbor_is_palette(
        region,
        x,
        y + 1,
        white,
        black,
    )
}

/// How one banner pixel is classified: the light tone in a pure neighborhood
/// is background, the dark tone in a pure neighborhood is foreground, and
/// everything else is indeterminate.
pub open spec fn analyze_pixel_spec(
    region: Region,
    x: int,
    y: int,
    white: Color,
    black: Color,
) -> AnalyzedBannerPixel {
    if region.pixel(x, y) == white && purity_spec(region, x, y, white, black) {
        AnalyzedBannerPixel::White
    } else if region.pixel(x, y) == black && purity_spec(region, x, y, white, black) {
        AnalyzedBannerPixel::Black
    } else {
        AnalyzedBannerPixel::Invalid
    }
}

/// Two classified pixels are compatible when either is indeterminate or they
/// agree exactly.
pub open spec fn pixel_compatible(a: AnalyzedBannerPixel, b: AnalyzedBannerPixel) -> bool {
    a == AnalyzedBannerPixel::Invalid || b == AnalyzedBannerPixel::Invalid || a == b
}

/// The banner's fingerprint: a classified raster of the same shape as the
/// banner region it was derived from, immutable once built, used only for
/// identity comparison between rounds.
pub struct AnalyzedVictorBanner {
    width: usize,
    height: usize,
    pixels: Vec<AnalyzedBannerPixel>,
}

/// Fingerprints match when no coordinate holds two definite, different
/// classifications; indeterminate pixels are compatible with anything.
pub open spec fn matches_spec(a: AnalyzedVictorBanner, b: AnalyzedVictorBanner) -> bool {
    forall|x: int, y: int|
        0 <= x < a.spec_width() && 0 <= y < a.spec_height() ==> pixel_compatible(
            #[trigger] a.pixel(x, y),
            b.pixel(x, y),
        )
}

/// The grid holds, pixel for pixel, the classification of `region` against
/// the palette (white, black).
pub open spec fn classification_of(
    grid: AnalyzedVictorBanner,
    region: Region,
    white: Color,
    black: Color,
) -> bool {
    &&& grid.wf()
    &&& grid.spec_width() == region.spec_width()
    &&& grid.spec_height() == region.spec_height()
    &&& forall|x: int, y: int|
        0 <= x < region.spec_width() && 0 <= y < region.spec_height() ==> #[trigger] grid.pixel(
            x,
            y,
        ) == analyze_pixel_spec(region, x, y, white, black)
}

impl AnalyzedVictorBanner {
    pub closed spec fn spec_width(self) -> int {
        self.width as int
    }

    pub closed spec fn spec_height(self) -> int {
        self.height as int
    }

    pub closed spec fn wf(self) -> bool {
        self.pixels@.len() == self.width * self.height
    }

    /// The classification at (x, y), row-major.
    pub closed spec fn pixel(self, x: int, y: int) -> AnalyzedBannerPixel {
        self.pixels@[y * (self.width as int) + x]
    }

    pub fn width(&self) -> (w: usize)
        ensures
            w == self.spec_width(),
    {
        self.width
    }

    pub fn height(&self) -> (h: usize)
        ensures
            h == self.spec_height(),
    {
        self.height
    }

    /// Unchecked lookup; in-bounds coordinates are the caller's proof burden.
    fn get(&self, x: usize, y: usize) -> (p: AnalyzedBannerPixel)
        requires
            self.wf(),
            x < self.spec_width(),
            y < self.spec_height(),
        ensures
            p == self.pixel(x as int, y as int),
    {
        proof {
            assert((y as int) * (self.width as int) + (x as int) < (self.width as int) * (
            self.height as int)) by (nonlinear_arith)
                requires
                    (y as int) < (self.height as int),
                    (x as int) < (self.width as int),
                    0 <= x as int,
                    0 <= y as int,
            ;
            assert(self.pixels@.len() == (self.width as int) * (self.height as int));
        }
        let _buffer_len = self.pixels.len();
        let idx: usize = y * self.width + x;
        self.pixels[idx]
    }

    /// Checked lookup, for callers outside the library's proofs.
    pub fn pixel_at(&self, x: usize, y: usize) -> (r: Option<AnalyzedBannerPixel>)
        requires
            self.wf(),
        ensures
            r is Some <==> x < self.spec_width() && y < self.spec_height(),
            r matches Some(p) ==> p == self.pixel(x as int, y as int),
    {
        if x < self.width && y < self.height {
            Some(self.get(x, y))
        } else {
            None
        }
    }

    /// The classifications in row-major order, for callers that inspect the
    /// fingerprint as a flat list.
    pub fn pixels(&self) -> (v: Vec<AnalyzedBannerPixel>)
        requires
            self.wf(),
        ensures
            v@.len() == self.spec_width() * self.spec_height(),
            forall|x: int, y: int|
                0 <= x < self.spec_width() && 0 <= y < self.spec_height() ==> #[trigger] v@[y
                    * self.spec_width() + x] == self.pixel(x, y),
    {
        let mut v: Vec<AnalyzedBannerPixel> = Vec::new();
        let mut k: usize = 0;
        while k < self.pixels.len()
            invariant
                k <= self.pixels@.len(),
                v@ == self.pixels@.take(k as int),
            decreases self.pixels@.len() - k,
        {
            proof {
                assert(self.pixels@.take(k as int + 1) =~= self.pixels@.take(k as int).push(
                    self.pixels@[k as int],
                ));
            }
            v.push(self.pixels[k]);
            k += 1;
        }
        proof {
            assert(self.pixels@.take(self.pixels@.len() as int) =~= self.pixels@);
            assert forall|x: int, y: int|
                0 <= x < self.spec_width() && 0 <= y < self.spec_height() implies #[trigger] v@[y
                * self.spec_width() + x] == self.pixel(x, y) by {
                assert(y * (self.width as int) + x < (self.width as int) * (self.height as int))
                    by (nonlinear_arith)
                    requires
                        0 <= y < (self.height as int),
                        0 <= x < (self.width as int),
                ;
            };
        }
        v
    }

    /// Classifies every pixel of the banner region against the palette the
    /// region itself determines, assembling the comparable fingerprint.
    pub fn from(victor_banner: &VictorBanner) -> (r: AnalyzedVictorBanner)
        requires
            victor_banner.image.wf(),
            victor_banner.image.spec_width() >= 1,
            victor_banner.image.spec_height() >= 1,
        ensures
            r.wf(),
            r.spec_width() == victor_banner.image.spec_width(),
            r.spec_height() == victor_banner.image.spec_height(),
            exists|white: Color, black: Color|
                is_light_color(victor_banner.image, white) && is_dark_color(
                    victor_banner.image,
                    black,
                ) && #[trigger] classification_of(r, victor_banner.image, white, black),
    {
        let region = &victor_banner.image;
        let width = region.width();
        let height = region.height();
        let banner_white = victor_banner.determine_white_color();
        let banner_black = victor_banner.determine_black_color();
        let ghost target = Seq::new(
            ((width as int) * (height as int)) as nat,
            |k: int|
                analyze_pixel_spec(
                    *region,
                    k % (width as int),
                    k / (width as int),
                    banner_white,
                    banner_black,
                ),
        );
        let mut analyzed_pixels: Vec<AnalyzedBannerPixel> = Vec::new();
        let mut y: usize = 0;
        while y < height
            invariant
                region.wf(),
                width == region.spec_width(),
                height == region.spec_height(),
                y <= height,
                target.len() == (width as int) * (height as int),
                forall|k: int|
                    0 <= k < target.len() ==> #[trigger] target[k] == analyze_pixel_spec(
                        *region,
                        k % (width as int),
                        k / (width as int),
                        banner_white,
                        banner_black,
                    ),
                analyzed_pixels@ == target.take((y as int) * (width as int)),
            decreases height - y,
        {
            let mut x: usize = 0;
            while x < width
                invariant
                    region.wf(),
                    width == region.spec_width(),
                    height == region.spec_height(),
                    y < height,
                    x <= width,
                    target.len() == (width as int) * (height as int),
                    forall|k: int|
                        0 <= k < target.len() ==> #[trigger] target[k] == analyze_pixel_spec(
                            *region,
                            k % (width as int),
                            k / (width as int),
                            banner_white,
                            banner_black,
                        ),
                    analyzed_pixels@ == target.take((y as int) * (width as int) + x),
                decreases width - x,
            {
                let analyzed_pixel = Self::analyze_pixel(region, x, y, banner_white, banner_black);
                proof {
                    assert((y as int) * (width as int) + (x as int) + 1 <= (width as int) * (
                    height as int)) by (nonlinear_arith)
                        requires
                            0 <= (y as int) < (height as int),
                            0 <= (x as int) < (width as int),
                    ;
                    let k = (y as int) * (width as int) + (x as int);
                    vstd::arithmetic::div_mod::lemma_fundamental_div_mod_converse_div(
                        k,
                        width as int,
                        y as int,
                        x as int,
                    );
                    vstd::arithmetic::div_mod::lemma_fundamental_div_mod_converse_mod(
                        k,
                        width as int,
                        y as int,
                        x as int,
                    );
                    assert(target[k] == analyze_pixel_spec(
                        *region,
                        x as int,
                        y as int,
                        banner_white,
                        banner_black,
                    ));
                    assert(target.take(k + 1) =~= target.take(k).push(target[k]));
                }
                analyzed_pixels.push(analyzed_pixel);
                x += 1;
            }
            proof {
                assert((y as int) * (width as int) + (width as int) == ((y as int) + 1) * (
                width as int)) by (nonlinear_arith);
            }
            y += 1;
        }
        proof {
            assert((height as int) * (width as int) == (width as int) * (height as int))
                by (nonlinear_arith);
            assert(target.take((height as int) * (width as int)) =~= target);
        }
        let result = AnalyzedVictorBanner { width, height, pixels: analyzed_pixels };
        proof {
            assert forall|x: int, y: int|
                0 <= x < region.spec_width() && 0 <= y < region.spec_height()
                    implies #[trigger] result.pixel(x, y) == analyze_pixel_spec(
                *region,
                x,
                y,
                banner_white,
                banner_black,
            ) by {
                assert(y * (width as int) + x < (width as int) * (height as int))
                    by (nonlinear_arith)
                    requires
                        0 <= y < (height as int),
                        0 <= x < (width as int),
                ;
                vstd::arithmetic::div_mod::lemma_fundamental_div_mod_converse_div(
                    y * (width as int) + x,
                    width as int,
                    y,
                    x,
                );
                vstd::arithmetic::div_mod::lemma_fundamental_div_mod_converse_mod(
                    y * (width as int) + x,
                    width as int,
                    y,
                    x,
                );
            };
            assert(classification_of(result, victor_banner.image, banner_white, banner_black));
        }
        result
    }

    /// Classifies the single pixel at (x, y) of `image` against the palette
    /// (banner_white, banner_black).
    pub fn analyze_pixel(
        image: &Region,
        x: usize,
        y: usize,
        banner_white: Color,
        banner_black: Color,
    ) -> (r: AnalyzedBannerPixel)
        requires
            image.wf(),
            x < image.spec_width(),
            y < image.spec_height(),
        ensures
            r == analyze_pixel_spec(*image, x as int, y as int, banner_white, banner_black),
    {
        let original_pixel = image.get(x, y);
        if original_pixel == banner_white && Self::is_pixel_surrounded_by_black_and_white(
            image,
            x,
            y,
            banner_white,
            banner_black,
        ) {
            AnalyzedBannerPixel::White
        } else if original_pixel == banner_black && Self::is_pixel_surrounded_by_black_and_white(
            image,
            x,
            y,
            banner_white,
            banner_black,
        ) {
            AnalyzedBannerPixel::Black
        } else {
            AnalyzedBannerPixel::Invalid
        }
    }

    /// The purity rule on the four orthogonal neighbors of (pixel_x, pixel_y).
    fn is_pixel_surrounded_by_black_and_white(
        image: &Region,
        pixel_x: usize,
        pixel_y: usize,
        white: Color,
        black: Color,
    ) -> (r: bool)
        requires
            image.wf(),
            pixel_x < image.spec_width(),
            pixel_y < image.spec_height(),
        ensures
            r == purity_spec(*image, pixel_x as int, pixel_y as int, white, black),
    {
        let w = image.width();
        let h = image.height();
        let left_ok = if pixel_x == 0 {
            true
        } else {
            Self::is_pixel_black_or_white(image, pixel_x - 1, pixel_y, white, black)
        };
        let right_ok = if pixel_x + 1 >= w {
            true
        } else {
            Self::is_pixel_black_or_white(image, pixel_x + 1, pixel_y, white, black)
        };
        let up_ok = if pixel_y == 0 {
            true
        } else {
            Self::is_pixel_black_or_white(image, pixel_x, pixel_y - 1, white, black)
        };
        let down_ok = if pixel_y + 1 >= h {
            true
        } else {
            Self::is_pixel_black_or_white(image, pixel_x, pixel_y + 1, white, black)
        };
        left_ok && right_ok && up_ok && down_ok
    }

    /// Whether the pixel at (x, y) is a palette tone, with any coordinate at
    /// or past the region's extent passing automatically.
    fn is_pixel_black_or_white(image: &Region, x: usize, y: usize, white: Color, black: Color) -> (r:
        bool)
        requires
            image.wf(),
        ensures
            r == neighbor_is_palette(*image, x as int, y as int, white, black),
    {
        if x >= image.width() || y >= image.height() {
            return true;
        }
        let pixel = image.get(x, y);
        pixel == white || pixel == black
    }

    /// Compares two same-shaped fingerprints, treating indeterminate pixels
    /// as wildcards: true exactly when no coordinate shows two definite,
    /// different classifications.
    pub fn matches(&self, other: &AnalyzedVictorBanner) -> (r: bool)
        requires
            self.wf(),
            other.wf(),
            self.spec_width() == other.spec_width(),
            self.spec_height() == other.spec_height(),
        ensures
            r == matches_spec(*self, *other),
    {
        let width = self.width();
        let height = self.height();
        let mut y: usize = 0;
        while y < height
            invariant
                self.wf(),
                other.wf(),
                width == self.spec_width(),
                height == self.spec_height(),
                self.spec_width() == other.spec_width(),
                self.spec_height() == other.spec_height(),
                y <= height,
                forall|xx: int, yy: int|
                    0 <= xx < width && 0 <= yy < y ==> pixel_compatible(
                        #[trigger] self.pixel(xx, yy),
                        other.pixel(xx, yy),
                    ),
            decreases height - y,
        {
            let mut x: usize = 0;
            while x < width
                invariant
                    self.wf(),
                    other.wf(),
                    width == self.spec_width(),
                    height == self.spec_height(),
                    self.spec_width() == other.spec_width(),
                    self.spec_height() == other.spec_height(),
                    y < height,
                    x <= width,
                    forall|xx: int, yy: int|
                        0 <= xx < width && 0 <= yy < y ==> pixel_compatible(
                            #[trigger] self.pixel(xx, yy),
                            other.pixel(xx, yy),
                        ),
                    forall|xx: int|
                        0 <= xx < x ==> pixel_compatible(
                            #[trigger] self.pixel(xx, y as int),
                            other.pixel(xx, y as int),
                        ),
                decreases width - x,
            {
                let self_pixel = self.get(x, y);
                let other_pixel = other.get(x, y);
                let either_invalid = matches!(self_pixel, AnalyzedBannerPixel::Invalid) || matches!(
                    other_pixel,
                    AnalyzedBannerPixel::Invalid,
                );
                if !either_invalid && self_pixel != other_pixel {
                    return false;
                }
                x += 1;
            }
            y += 1;
        }
        true
    }
}

/// A fingerprint always matches itself: every pixel is compatible with
/// itself, so matching is reflexive.
pub proof fn lemma_matches_reflexive(a: AnalyzedVictorBanner)
    ensures
        matches_spec(a, a),
{
}

/// Indeterminate is a wildcard: a fingerprint that agrees with another
/// wherever both are definite — for instance one derived from a partially
/// obscured capture of the same banner — matches it.
pub proof fn lemma_obscured_matches(a: AnalyzedVictorBanner, b: AnalyzedVictorBanner)
    requires
        a.spec_width() == b.spec_width(),
        a.spec_height() == b.spec_height(),
        forall|x: int, y: int|
            0 <= x < a.spec_width() && 0 <= y < a.spec_height() ==> #[trigger] b.pixel(x, y)
                == a.pixel(x, y) || b.pixel(x, y) == AnalyzedBannerPixel::Invalid || a.pixel(x, y)
                == AnalyzedBannerPixel::Invalid,
    ensures
        matches_spec(a, b),
{
}

/// Two fingerprints that disagree at even one definite coordinate do not
/// match.
pub proof fn lemma_definite_mismatch(
    a: AnalyzedVictorBanner,
    b: AnalyzedVictorBanner,
    x: int,
    y: int,
)
    requires
        0 <= x < a.spec_width(),
        0 <= y < a.spec_height(),
        a.pixel(x, y) != AnalyzedBannerPixel::Invalid,
        b.pixel(x, y) != AnalyzedBannerPixel::Invalid,
        a.pixel(x, y) != b.pixel(x, y),
    ensures
        !matches_spec(a, b),
{
    assert(!pixel_compatible(a.pixel(x, y), b.pixel(x, y)));
}

/// Classifying the same banner twice gives fingerprints that match: the
/// derived palette is unique, so the two classifications agree pixel for
/// pixel.
pub proof fn lemma_same_banner_fingerprints_match(
    region: Region,
    f1: AnalyzedVictorBanner,
    f2: AnalyzedVictorBanner,
    white1: Color,
    black1: Color,
    white2: Color,
    black2: Color,
)
    requires
        is_light_color(region, white1),
        is_dark_color(region, black1),
        classification_of(f1, region, white1, black1),
        is_light_color(region, white2),
        is_dark_color(region, black2),
        classification_of(f2, region, white2, black2),
    ensures
        matches_spec(f1, f2),
{
    crate::victor_banner::lemma_light_color_unique(region, white1, white2);
    crate::victor_banner::lemma_dark_color_unique(region, black1, black2);
    assert forall|x: int, y: int|
        0 <= x < f1.spec_width() && 0 <= y < f1.spec_height() implies pixel_compatible(
        #[trigger] f1.pixel(x, y),
        f2.pixel(x, y),
    ) by {
        assert(f1.pixel(x, y) == analyze_pixel_spec(region, x, y, white1, black1));
        assert(f2.pixel(x, y) == analyze_pixel_spec(region, x, y, white1, black1));
    };
}

/// In a 1x1 region all four neighbor lookups fall outside the region, so the
/// purity rule passes automatically for any palette: classifying such a
/// region never reads out of bounds.
pub proof fn lemma_single_pixel_purity(region: Region, white: Color, black: Color)
    requires
        region.spec_width() == 1,
        region.spec_height() == 1,
    ensures
        purity_spec(region, 0, 0, white, black),
{
}

} // verus!
