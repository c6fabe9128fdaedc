use vstd::prelude::*;

use crate::color::Color;
use crate::error::AnalysisError;
use crate::full_podium_image::FullPodiumImage;
use crate::raster::Region;
use crate::seq_facts::first_index;
use crate::seq_facts::lemma_first_index_in_prefix;
use crate::seq_facts::lemma_first_index_of_new;
use crate::seq_facts::lemma_occurrence_count_take_succ;
use crate::seq_facts::lemma_take_one_more;
use crate::seq_facts::occurrence_count;

verus! {

/// Victor banner window size, fixed by the game's podium layout.
pub const BANNER_WIDTH: usize = 179;

pub const BANNER_HEIGHT: usize = 23;

/// The region's top row, left to right.
pub open spec fn top_row(region: Region) -> Seq<Color> {
    Seq::new(region.spec_width() as nat, |x: int| region.pixel(x, 0))
}

/// The region's bottom row, left to right; empty when the top row already
/// covers it.
pub open spec fn bottom_row(region: Region) -> Seq<Color> {
    if region.spec_height() >= 2 {
        Seq::new(region.spec_width() as nat, |x: int| region.pixel(x, region.spec_height() - 1))
    } else {
        Seq::empty()
    }
}

/// How many border pixels each side column holds, corners excluded.
pub open spec fn side_height(region: Region) -> nat {
    if region.spec_height() >= 2 {
        (region.spec_height() - 2) as nat
    } else {
        0
    }
}

/// The region's leftmost column, top to bottom, corners excluded.
pub open spec fn left_column(region: Region) -> Seq<Color> {
    Seq::new(side_height(region), |y: int| region.pixel(0, y + 1))
}

/// The region's rightmost column, top to bottom, corners excluded; empty when
/// the left column already covers it.
pub open spec fn right_column(region: Region) -> Seq<Color> {
    if region.spec_width() >= 2 {
        Seq::new(side_height(region), |y: int| region.pixel(region.spec_width() - 1, y + 1))
    } else {
        Seq::empty()
    }
}

/// Every pixel on the region's outer border, each counted exactly once: top
/// row, bottom row, then the side columns without the corners. This scan
/// order is the deterministic tie-break order for palette estimation.
pub open spec fn border_seq(region: Region) -> Seq<Color> {
    top_row(region) + bottom_row(region) + left_column(region) + right_column(region)
}

/// An exact description of a color tally of `s`: every entry pairs a color
/// with its occurrence count, every distinct color of `s` has exactly one
/// entry, and entries appear in order of first occurrence.
pub open spec fn tally_correct(s: Seq<Color>, tally: Seq<(Color, usize)>) -> bool {
    &&& forall|i: int|
        0 <= i < tally.len() ==> (#[trigger] tally[i]).1 == occurrence_count(s, tally[i].0)
    &&& forall|i: int| 0 <= i < tally.len() ==> s.contains((#[trigger] tally[i]).0)
    &&& forall|c: Color|
        s.contains(c) ==> exists|i: int| 0 <= i < tally.len() && (#[trigger] tally[i]).0 == c
    &&& forall|i: int, j: int|
        0 <= i < j < tally.len() ==> first_index(s, (#[trigger] tally[i]).0) < first_index(
            s,
            (#[trigger] tally[j]).0,
        )
}

/// Collects the region's border pixels in the border scan order.
pub(crate) fn get_border_pixels(region: &Region) -> (v: Vec<Color>)
    requires
        region.wf(),
        region.spec_width() >= 1,
        region.spec_height() >= 1,
    ensures
        v@ == border_seq(*region),
{
    let w = region.width();
    let h = region.height();
    let mut v: Vec<Color> = Vec::new();
    let mut x: usize = 0;
    while x < w
        invariant
            region.wf(),
            w == region.spec_width(),
            h == region.spec_height(),
            h >= 1,
            x <= w,
            v@ == top_row(*region).take(x as int),
        decreases w - x,
    {
        let c = region.get(x, 0);
        proof {
            assert(top_row(*region).take(x as int + 1) =~= top_row(*region).take(x as int).push(
                top_row(*region)[x as int],
            ));
        }
        v.push(c);
        x += 1;
    }
    proof {
        assert(top_row(*region).take(w as int) =~= top_row(*region));
    }
    if h >= 2 {
        let mut x: usize = 0;
        while x < w
            invariant
                region.wf(),
                w == region.spec_width(),
                h == region.spec_height(),
                h >= 2,
                x <= w,
                v@ == top_row(*region) + bottom_row(*region).take(x as int),
            decreases w - x,
        {
            let c = region.get(x, h - 1);
            proof {
                assert((top_row(*region) + bottom_row(*region).take(x as int)).push(
                    bottom_row(*region)[x as int],
                ) =~= top_row(*region) + bottom_row(*region).take(x as int + 1));
            }
            v.push(c);
            x += 1;
        }
        proof {
            assert(bottom_row(*region).take(w as int) =~= bottom_row(*region));
        }
    } else {
        proof {
            assert(top_row(*region) + bottom_row(*region) =~= top_row(*region));
        }
    }
    let side: usize = if h >= 2 {
        h - 2
    } else {
        0
    };
    let ghost tb = top_row(*region) + bottom_row(*region);
    let mut y: usize = 0;
    while y < side
        invariant
            region.wf(),
            w == region.spec_width(),
            h == region.spec_height(),
            w >= 1,
            side == side_height(*region),
            y <= side,
            tb == top_row(*region) + bottom_row(*region),
            v@ == tb + left_column(*region).take(y as int),
        decreases side - y,
    {
        let c = region.get(0, y + 1);
        proof {
            assert((tb + left_column(*region).take(y as int)).push(left_column(*region)[y as int])
                =~= tb + left_column(*region).take(y as int + 1));
        }
        v.push(c);
        y += 1;
    }
    proof {
        assert(left_column(*region).take(side as int) =~= left_column(*region));
    }
    let ghost tbl = tb + left_column(*region);
    if w >= 2 {
        let mut y: usize = 0;
        while y < side
            invariant
                region.wf(),
                w == region.spec_width(),
                h == region.spec_height(),
                w >= 2,
                side == side_height(*region),
                y <= side,
                tbl == top_row(*region) + bottom_row(*region) + left_column(*region),
                v@ == tbl + right_column(*region).take(y as int),
            decreases side - y,
        {
            let c = region.get(w - 1, y + 1);
            proof {
                assert((tbl + right_column(*region).take(y as int)).push(
                    right_column(*region)[y as int],
                ) =~= tbl + right_column(*region).take(y as int + 1));
            }
            v.push(c);
            y += 1;
        }
        proof {
            assert(right_column(*region).take(side as int) =~= right_column(*region));
        }
    } else {
        proof {
            assert(tbl + right_column(*region) =~= tbl);
        }
    }
    proof {
        assert(v@ =~= border_seq(*region));
    }
    v
}

/// Counts how many pixels of `pixels` equal `c` exactly.
pub(crate) fn count_color(pixels: &Vec<Color>, c: Color) -> (n: usize)
    ensures
        n == occurrence_count(pixels@, c),
{
    let mut n: usize = 0;
    let mut k: usize = 0;
    while k < pixels.len()
        invariant
            k <= pixels@.len(),
            n <= k,
            n == occurrence_count(pixels@.take(k as int), c),
        decreases pixels@.len() - k,
    {
        proof {
            lemma_occurrence_count_take_succ(pixels@, k as int, c);
        }
        if pixels[k] == c {
            n += 1;
        }
        k += 1;
    }
    proof {
        assert(pixels@.take(pixels@.len() as int) =~= pixels@);
    }
    n
}

/// Whether the tally already has an entry for `c`.
fn tally_has_key(tally: &Vec<(Color, usize)>, c: Color) -> (r: bool)
    ensures
        r == exists|i: int| 0 <= i < tally@.len() && (#[trigger] tally@[i]).0 == c,
{
    let mut i: usize = 0;
    while i < tally.len()
        invariant
            i <= tally@.len(),
            forall|j: int| 0 <= j < i ==> (#[trigger] tally@[j]).0 != c,
        decreases tally@.len() - i,
    {
        if tally[i].0 == c {
            return true;
        }
        i += 1;
    }
    false
}

/// Tallies occurrence counts per distinct color, local to a single call.
/// Entries appear in order of first occurrence, each with its exact count.
pub fn get_color_counts(pixels: &Vec<Color>) -> (tally: Vec<(Color, usize)>)
    ensures
        tally_correct(pixels@, tally@),
{
    let ghost ps = pixels@;
    let mut tally: Vec<(Color, usize)> = Vec::new();
    let mut k: usize = 0;
    while k < pixels.len()
        invariant
            ps == pixels@,
            k <= ps.len(),
            forall|i: int|
                0 <= i < tally@.len() ==> (#[trigger] tally@[i]).1 == occurrence_count(
                    ps,
                    tally@[i].0,
                ),
            forall|i: int| 0 <= i < tally@.len() ==> ps.take(k as int).contains(
                (#[trigger] tally@[i]).0,
            ),
            forall|c: Color|
                ps.take(k as int).contains(c) ==> exists|i: int|
                    0 <= i < tally@.len() && (#[trigger] tally@[i]).0 == c,
            forall|i: int, j: int|
                0 <= i < j < tally@.len() ==> first_index(ps, (#[trigger] tally@[i]).0)
                    < first_index(ps, (#[trigger] tally@[j]).0),
        decreases ps.len() - k,
    {
        let c = pixels[k];
        let ghost old_tally = tally@;
        if !tally_has_key(&tally, c) {
            let n = count_color(pixels, c);
            tally.push((c, n));
            proof {
                lemma_first_index_of_new(ps, k as int);
                assert forall|i: int, j: int| 0 <= i < j < tally@.len() implies first_index(
                    ps,
                    (#[trigger] tally@[i]).0,
                ) < first_index(ps, (#[trigger] tally@[j]).0) by {
                    if j < old_tally.len() {
                        assert(tally@[i] == old_tally[i]);
                        assert(tally@[j] == old_tally[j]);
                    } else {
                        assert(tally@[j] == (c, n));
                        assert(tally@[i] == old_tally[i]);
                        lemma_first_index_in_prefix(ps, k as int, old_tally[i].0);
                    }
                };
            }
        }
        proof {
            lemma_take_one_more(ps, k as int);
            assert(exists|i: int| 0 <= i < tally@.len() && (#[trigger] tally@[i]).0 == c) by {
                if tally@.len() > old_tally.len() {
                    assert(tally@[old_tally.len() as int].0 == c);
                } else {
                    let i0 = choose|i: int|
                        0 <= i < old_tally.len() && (#[trigger] old_tally[i]).0 == c;
                    assert(tally@[i0].0 == c);
                }
            };
            assert forall|c2: Color| #[trigger] ps.take(k as int + 1).contains(c2) implies exists|i: int|
                0 <= i < tally@.len() && (#[trigger] tally@[i]).0 == c2 by {
                if ps.take(k as int).contains(c2) {
                    let i = choose|i: int|
                        0 <= i < old_tally.len() && (#[trigger] old_tally[i]).0 == c2;
                    assert(tally@[i].0 == c2);
                } else {
                    assert(c2 == c);
                }
            };
            assert forall|i: int| 0 <= i < tally@.len() implies ps.take(k as int + 1).contains(
                (#[trigger] tally@[i]).0,
            ) by {
                if i < old_tally.len() {
                    assert(tally@[i] == old_tally[i]);
                    assert(ps.take(k as int).contains(old_tally[i].0));
                    assert(ps.take(k as int + 1).contains(old_tally[i].0));
                } else {
                    assert(tally@[i].0 == c);
                    assert(ps[k as int] == c);
                    assert(ps.take(k as int + 1)[k as int] == c);
                    assert(ps.take(k as int + 1).contains(c));
                }
            };
        }
        k += 1;
    }
    proof {
        assert(ps.take(ps.len() as int) =~= ps);
    }
    tally
}

/// Witnesses that `c` is the border color selected as the light tone: it
/// occurs at border position `i`, no border color occurs more often, and
/// every color seen before position `i` occurs strictly less often (so `i`
/// is the first occurrence of the earliest maximal color).
pub open spec fn is_light_witness(region: Region, c: Color, i: int) -> bool {
    let b = border_seq(region);
    &&& 0 <= i < b.len()
    &&& b[i] == c
    &&& forall|d: Color|
        b.contains(d) ==> #[trigger] occurrence_count(b, d) <= occurrence_count(b, c)
    &&& forall|j: int| 0 <= j < i ==> occurrence_count(b, #[trigger] b[j]) < occurrence_count(b, c)
}

/// `c` is the region's light tone: the most frequent border color, ties
/// broken in favor of the earliest first occurrence in border scan order.
pub open spec fn is_light_color(region: Region, c: Color) -> bool {
    exists|i: int| is_light_witness(region, c, i)
}

/// Witnesses that `c` is the pixel selected as the dark tone: it occurs at
/// row-major position `i`, no pixel is darker, and every pixel before `i` is
/// strictly brighter (so `i` is the first darkest position).
pub open spec fn is_dark_witness(region: Region, c: Color, i: int) -> bool {
    let p = region.pixel_seq();
    &&& 0 <= i < p.len()
    &&& p[i] == c
    &&& forall|j: int|
        0 <= j < p.len() ==> (#[trigger] p[j]).brightness() >= c.brightness()
    &&& forall|j: int| 0 <= j < i ==> (#[trigger] p[j]).brightness() > c.brightness()
}

/// `c` is the region's dark tone: the pixel minimizing the channel sum, ties
/// broken in favor of the first occurrence in row-major order.
pub open spec fn is_dark_color(region: Region, c: Color) -> bool {
    exists|i: int| is_dark_witness(region, c, i)
}

/// Returns the color of the darkest pixel anywhere in the region (minimal
/// channel sum, first in row-major order among equally dark pixels).
pub fn get_darkest_color(region: &Region) -> (c: Color)
    requires
        region.wf(),
        region.spec_width() >= 1,
        region.spec_height() >= 1,
    ensures
        is_dark_color(*region, c),
{
    let pixels = region.collect_pixels();
    proof {
        assert(region.spec_width() * region.spec_height() >= 1) by (nonlinear_arith)
            requires
                region.spec_width() >= 1,
                region.spec_height() >= 1,
        ;
    }
    let mut best: usize = 0;
    let mut best_sum: u32 = pixels[0].sum();
    let mut k: usize = 1;
    while k < pixels.len()
        invariant
            pixels@ == region.pixel_seq(),
            1 <= k <= pixels@.len(),
            best < k,
            best_sum == pixels@[best as int].brightness(),
            forall|j: int|
                0 <= j < k ==> (#[trigger] pixels@[j]).brightness() >= pixels@[
                    best as int
                ].brightness(),
            forall|j: int|
                0 <= j < best ==> (#[trigger] pixels@[j]).brightness() > pixels@[
                    best as int
                ].brightness(),
        decreases pixels@.len() - k,
    {
        let s = pixels[k].sum();
        if s < best_sum {
            best = k;
            best_sum = s;
        }
        k += 1;
    }
    let c = pixels[best];
    proof {
        assert(is_dark_witness(*region, c, best as int));
    }
    c
}

/// The in-game "Player X Wins" banner: a fixed-size view into the podium
/// image, rendered in a two-tone palette that varies by game theme.
#[derive(Debug)]
pub struct VictorBanner<'a> {
    pub image: Region<'a>,
}

impl<'a> VictorBanner<'a> {
    /// Carves the fixed banner window out of the podium image. Fails with
    /// `OutOfBounds` exactly when the image is smaller than the layout.
    pub fn from(podium_image: &'a FullPodiumImage) -> (r: Result<VictorBanner<'a>, AnalysisError>)
        requires
            podium_image.image.wf(),
        ensures
            r is Ok <==> 72 + BANNER_WIDTH <= podium_image.image.spec_width() && 35 + BANNER_HEIGHT
                <= podium_image.image.spec_height(),
            r matches Ok(banner) ==> banner.image.wf() && banner.image.spec_width() == BANNER_WIDTH
                && banner.image.spec_height() == BANNER_HEIGHT && forall|x: int, y: int|
                0 <= x < BANNER_WIDTH && 0 <= y < BANNER_HEIGHT ==> #[trigger] banner.image.pixel(
                    x,
                    y,
                ) == podium_image.image.pixel(72 + x, 35 + y),
            r matches Err(e) ==> e == AnalysisError::OutOfBounds,
    {
        let (top_left_x, top_left_y) = FullPodiumImage::get_victor_banner_top_left_position();
        match podium_image.image.subregion(top_left_x, top_left_y, BANNER_WIDTH, BANNER_HEIGHT) {
            Ok(image) => Ok(VictorBanner { image }),
            Err(e) => Err(e),
        }
    }

    /// Derives the banner's light tone: the dominant border color, on the
    /// rationale that a banner's border is almost entirely flat background.
    pub fn determine_white_color(&self) -> (c: Color)
        requires
            self.image.wf(),
            self.image.spec_width() >= 1,
            self.image.spec_height() >= 1,
        ensures
            is_light_color(self.image, c),
    {
        let ghost b = border_seq(self.image);
        let pixel_counts = get_border_pixel_color_count(&self.image);
        proof {
            assert(b.len() >= 1);
            assert(b.contains(b[0]));
            assert(pixel_counts@.len() >= 1) by {
                let i = choose|i: int|
                    0 <= i < pixel_counts@.len() && (#[trigger] pixel_counts@[i]).0 == b[0];
            };
        }
        let mut best: usize = 0;
        let mut m: usize = 1;
        while m < pixel_counts.len()
            invariant
                tally_correct(b, pixel_counts@),
                1 <= m <= pixel_counts@.len(),
                best < m,
                forall|i: int|
                    0 <= i < m ==> (#[trigger] pixel_counts@[i]).1 <= pixel_counts@[best as int].1,
                forall|i: int|
                    0 <= i < best ==> (#[trigger] pixel_counts@[i]).1 < pixel_counts@[
                        best as int
                    ].1,
            decreases pixel_counts@.len() - m,
        {
            if pixel_counts[m].1 > pixel_counts[best].1 {
                best = m;
            }
            m += 1;
        }
        let c = pixel_counts[best].0;
        proof {
            let tally = pixel_counts@;
            let n = tally[best as int].1;
            assert(b.contains(c));
            crate::seq_facts::lemma_first_index_ensures(b, c);
            let fi = first_index(b, c);
            assert forall|d: Color| b.contains(d) implies #[trigger] occurrence_count(b, d)
                <= occurrence_count(b, c) by {
                let i = choose|i: int| 0 <= i < tally.len() && (#[trigger] tally[i]).0 == d;
                assert(tally[i].1 <= n);
            };
            assert forall|j: int| 0 <= j < fi implies occurrence_count(b, #[trigger] b[j])
                < occurrence_count(b, c) by {
                let d = b[j];
                assert(b.contains(d));
                let i = choose|i: int| 0 <= i < tally.len() && (#[trigger] tally[i]).0 == d;
                crate::seq_facts::lemma_first_index_ensures(b, d);
                assert(first_index(b, d) <= j);
                if i == best {
                    assert(d == c);
                    assert(b[j] != c);
                } else if i > best {
                    assert(first_index(b, tally[best as int].0) < first_index(b, tally[i].0));
                } else {
                    assert(tally[i].1 < n);
                }
            };
            assert(is_light_witness(self.image, c, fi));
        }
        c
    }

    /// Derives the banner's dark tone: the darkest pixel anywhere in the
    /// banner, reliably part of the foreground glyph stroke.
    pub fn determine_black_color(&self) -> (c: Color)
        requires
            self.image.wf(),
            self.image.spec_width() >= 1,
            self.image.spec_height() >= 1,
        ensures
            is_dark_color(self.image, c),
    {
        get_darkest_color(&self.image)
    }
}

/// The tie policy pins the light tone down: two colors that both qualify are
/// the same color.
pub proof fn lemma_light_color_unique(region: Region, c1: Color, c2: Color)
    requires
        is_light_color(region, c1),
        is_light_color(region, c2),
    ensures
        c1 == c2,
{
    let b = border_seq(region);
    let i1 = choose|i: int| is_light_witness(region, c1, i);
    let i2 = choose|i: int| is_light_witness(region, c2, i);
    assert(b.contains(c1));
    assert(b.contains(c2));
    if i1 < i2 {
        assert(occurrence_count(b, b[i1]) < occurrence_count(b, c2));
    } else if i2 < i1 {
        assert(occurrence_count(b, b[i2]) < occurrence_count(b, c1));
    }
}

/// The tie policy pins the dark tone down: two colors that both qualify are
/// the same color.
pub proof fn lemma_dark_color_unique(region: Region, c1: Color, c2: Color)
    requires
        is_dark_color(region, c1),
        is_dark_color(region, c2),
    ensures
        c1 == c2,
{
    let p = region.pixel_seq();
    let i1 = choose|i: int| is_dark_witness(region, c1, i);
    let i2 = choose|i: int| is_dark_witness(region, c2, i);
    if i1 < i2 {
        assert(p[i1].brightness() > c2.brightness());
        assert(p[i1].brightness() >= c2.brightness() && p[i2].brightness() >= c1.brightness());
    } else if i2 < i1 {
        assert(p[i2].brightness() > c1.brightness());
    }
}

/// Light-tone estimation reads only pixel content: over two borders holding
/// the same multiset of colors, the selected light tones occur equally often
/// (the same maximal frequency), whatever the storage order.
pub proof fn lemma_light_color_depends_on_content(
    r1: Region,
    r2: Region,
    c1: Color,
    c2: Color,
)
    requires
        border_seq(r1).to_multiset() == border_seq(r2).to_multiset(),
        is_light_color(r1, c1),
        is_light_color(r2, c2),
    ensures
        occurrence_count(border_seq(r1), c1) == occurrence_count(border_seq(r2), c2),
{
    let b1 = border_seq(r1);
    let b2 = border_seq(r2);
    let i1 = choose|i: int| is_light_witness(r1, c1, i);
    let i2 = choose|i: int| is_light_witness(r2, c2, i);
    assert(b1.contains(c1));
    assert(b2.contains(c2));
    lemma_seq_contains_iff_multiset(b1, c2);
    lemma_seq_contains_iff_multiset(b2, c2);
    lemma_seq_contains_iff_multiset(b1, c1);
    lemma_seq_contains_iff_multiset(b2, c1);
    crate::seq_facts::lemma_occurrence_count_multiset(b1, c1);
    crate::seq_facts::lemma_occurrence_count_multiset(b2, c1);
    crate::seq_facts::lemma_occurrence_count_multiset(b1, c2);
    crate::seq_facts::lemma_occurrence_count_multiset(b2, c2);
    assert(b1.contains(c2));
    assert(b2.contains(c1));
    assert(occurrence_count(b1, c2) <= occurrence_count(b1, c1));
    assert(occurrence_count(b2, c1) <= occurrence_count(b2, c2));
}

/// Dark-tone estimation reads only pixel content: over two regions holding
/// the same multiset of pixels, the selected dark tones are equally dark.
pub proof fn lemma_dark_color_depends_on_content(r1: Region, r2: Region, c1: Color, c2: Color)
    requires
        r1.pixel_seq().to_multiset() == r2.pixel_seq().to_multiset(),
        is_dark_color(r1, c1),
        is_dark_color(r2, c2),
    ensures
        c1.brightness() == c2.brightness(),
{
    let p1 = r1.pixel_seq();
    let p2 = r2.pixel_seq();
    let i1 = choose|i: int| is_dark_witness(r1, c1, i);
    let i2 = choose|i: int| is_dark_witness(r2, c2, i);
    assert(p1.contains(c1));
    assert(p2.contains(c2));
    lemma_seq_contains_iff_multiset(p1, c2);
    lemma_seq_contains_iff_multiset(p2, c2);
    lemma_seq_contains_iff_multiset(p1, c1);
    lemma_seq_contains_iff_multiset(p2, c1);
    assert(p1.contains(c2));
    assert(p2.contains(c1));
    let j1 = choose|j: int| 0 <= j < p1.len() && p1[j] == c2;
    let j2 = choose|j: int| 0 <= j < p2.len() && p2[j] == c1;
    assert(p1[j1].brightness() >= c1.brightness());
    assert(p2[j2].brightness() >= c2.brightness());
}

/// A sequence contains a color exactly when its multiset does.
proof fn lemma_seq_contains_iff_multiset(s: Seq<Color>, c: Color)
    ensures
        s.contains(c) <==> s.to_multiset().count(c) > 0,
{
    s.to_multiset_ensures();
}

/// Tallies the colors of the region's outer border, in border scan order.
pub fn get_border_pixel_color_count(region: &Region) -> (tally: Vec<(Color, usize)>)
    requires
        region.wf(),
        region.spec_width() >= 1,
        region.spec_height() >= 1,
    ensures
        tally_correct(border_seq(*region), tally@),
{
    let border_pixels = get_border_pixels(region);
    get_color_counts(&border_pixels)
}

} // verus!
