use vstd::prelude::*;

use crate::color::Color;
use crate::error::AnalysisError;
use crate::raster::Raster;
use crate::raster::rgb_png_decoding;
use crate::score_placard::ScorePlacard;
use crate::score_placard::is_score_placard_of;
use crate::score_placard::is_score_placard_spec;

verus! {

/// Placard probe window size, fixed by the game's podium layout.
pub const PLACARD_WIDTH: usize = 21;

pub const PLACARD_HEIGHT: usize = 8;

/// The row that every placard probe sits on, and the probe columns of each
/// layout, fixed by the game's podium screen. A layout change is a one-place
/// edit here.
pub const PLACARD_ROW: usize = 149;

pub const FOUR_PLAYER_PLACARD_COLUMNS: [usize; 4] = [85, 127, 169, 211];

pub const THREE_PLAYER_PLACARD_COLUMNS: [usize; 3] = [106, 148, 190];

/// Row-major colors of the w x h window of `img` whose top-left corner is
/// (left, top).
pub open spec fn window_seq(img: Raster, left: int, top: int, w: int, h: int) -> Seq<Color> {
    Seq::new((w * h) as nat, |i: int| img.pixel(left + i % w, top + i / w))
}

/// Whether the fixed-size placard window at (left, top) passes the placard
/// test.
pub open spec fn placard_at_spec(img: Raster, left: int, top: int) -> bool {
    is_score_placard_of(window_seq(img, left, top, PLACARD_WIDTH as int, PLACARD_HEIGHT as int))
}

/// The four top-left probe positions of the 4-player placard layout.
pub open spec fn four_player_probes_pass(img: Raster) -> bool {
    &&& placard_at_spec(img, FOUR_PLAYER_PLACARD_COLUMNS[0] as int, PLACARD_ROW as int)
    &&& placard_at_spec(img, FOUR_PLAYER_PLACARD_COLUMNS[1] as int, PLACARD_ROW as int)
    &&& placard_at_spec(img, FOUR_PLAYER_PLACARD_COLUMNS[2] as int, PLACARD_ROW as int)
    &&& placard_at_spec(img, FOUR_PLAYER_PLACARD_COLUMNS[3] as int, PLACARD_ROW as int)
}

/// A 2-player podium occupies only the two centered slots of the 4-player
/// coordinate grid.
pub open spec fn two_player_probes_pass(img: Raster) -> bool {
    &&& placard_at_spec(img, FOUR_PLAYER_PLACARD_COLUMNS[1] as int, PLACARD_ROW as int)
    &&& placard_at_spec(img, FOUR_PLAYER_PLACARD_COLUMNS[2] as int, PLACARD_ROW as int)
}

/// The three top-left probe positions of the 3-player placard layout.
pub open spec fn three_player_probes_pass(img: Raster) -> bool {
    &&& placard_at_spec(img, THREE_PLAYER_PLACARD_COLUMNS[0] as int, PLACARD_ROW as int)
    &&& placard_at_spec(img, THREE_PLAYER_PLACARD_COLUMNS[1] as int, PLACARD_ROW as int)
    &&& placard_at_spec(img, THREE_PLAYER_PLACARD_COLUMNS[2] as int, PLACARD_ROW as int)
}

/// The ordered decision tree over the probe layouts, evaluated top to bottom.
/// The middle-pair check must come before the 3-player check: a 2-player image
/// satisfies neither the all-4 nor the all-3 test.
pub open spec fn player_count_spec(img: Raster) -> Option<u32> {
    if four_player_probes_pass(img) {
        Some(4u32)
    } else if two_player_probes_pass(img) {
        Some(2u32)
    } else if three_player_probes_pass(img) {
        Some(3u32)
    } else {
        None
    }
}

/// Every probed placard window lies inside the image: the rightmost probe
/// column plus the placard width, and the probe row plus the placard height.
pub open spec fn probe_layout_fits(img: Raster) -> bool {
    &&& FOUR_PLAYER_PLACARD_COLUMNS[3] + PLACARD_WIDTH <= img.spec_width()
    &&& PLACARD_ROW + PLACARD_HEIGHT <= img.spec_height()
}

/// A decoded end-of-round podium screenshot at the game's fixed UI layout.
#[derive(Debug)]
pub struct FullPodiumImage {
    pub image: Raster,
}

impl FullPodiumImage {
    /// Builds a podium image from an in-memory PNG byte stream, decoded as
    /// 8-bit RGB. Succeeds exactly when the bytes decode; reading the stream
    /// from wherever it lives is the caller's business.
    pub fn from_png_bytes(bytes: &Vec<u8>) -> (r: Result<FullPodiumImage, AnalysisError>)
        ensures
            r is Ok <==> rgb_png_decoding(bytes@) is Some,
            r matches Ok(p) ==> p.image.wf() && (rgb_png_decoding(bytes@) matches Some(t)
                && p.image.spec_width() == t.0 && p.image.spec_height() == t.1 && forall|
                x: int,
                y: int,
            |
                0 <= x < t.0 && 0 <= y < t.1 ==> #[trigger] p.image.pixel(x, y) == t.2[y * t.0
                    + x]),
            r matches Err(e) ==> e == AnalysisError::DecodeFailed,
    {
        match crate::raster::decode_rgb_png(bytes) {
            Ok(image) => Ok(FullPodiumImage { image }),
            Err(e) => Err(e),
        }
    }

    /// Tests the fixed-size placard window whose top-left corner is `coord`.
    /// Fails with `OutOfBounds` exactly when the window exceeds the image.
    pub fn is_top_left_of_score_placard_at(&self, coord: (usize, usize)) -> (r: Result<
        bool,
        AnalysisError,
    >)
        requires
            self.image.wf(),
        ensures
            r is Ok <==> coord.0 + PLACARD_WIDTH <= self.image.spec_width() && coord.1
                + PLACARD_HEIGHT <= self.image.spec_height(),
            r matches Ok(b) ==> b == placard_at_spec(self.image, coord.0 as int, coord.1 as int),
            r matches Err(e) ==> e == AnalysisError::OutOfBounds,
    {
        let (left, top) = coord;
        let sub = match self.image.subregion(left, top, PLACARD_WIDTH, PLACARD_HEIGHT) {
            Ok(sub) => sub,
            Err(e) => {
                return Err(e);
            },
        };
        let verdict = ScorePlacard::is_score_placard(&sub);
        proof {
            let w = PLACARD_WIDTH as int;
            let h = PLACARD_HEIGHT as int;
            assert(sub.pixel_seq() =~= window_seq(self.image, left as int, top as int, w, h)) by {
                assert forall|i: int| 0 <= i < w * h implies sub.pixel_seq()[i] == window_seq(
                    self.image,
                    left as int,
                    top as int,
                    w,
                    h,
                )[i] by {
                    assert(0 <= i % w < w);
                    assert(0 <= i / w < h);
                };
            };
            assert(is_score_placard_spec(sub) == placard_at_spec(
                self.image,
                left as int,
                top as int,
            ));
        }
        Ok(verdict)
    }

    /// Resolves the number of players shown on the podium from the placard
    /// layouts, walking the decision tree in its fixed order. Fails with
    /// `OutOfBounds` when the image is smaller than the probe layout, and
    /// with `UndeterminedPlayerCount` when no layout matches.
    pub fn get_player_count(&self) -> (r: Result<u32, AnalysisError>)
        requires
            self.image.wf(),
        ensures
            r is Ok <==> probe_layout_fits(self.image) && player_count_spec(self.image) is Some,
            r matches Ok(n) ==> player_count_spec(self.image) == Some(n),
            r matches Err(e) ==> e == (if probe_layout_fits(self.image) {
                AnalysisError::UndeterminedPlayerCount
            } else {
                AnalysisError::OutOfBounds
            }),
    {
        let four_player_columns = FOUR_PLAYER_PLACARD_COLUMNS;
        let p0 = self.is_top_left_of_score_placard_at((four_player_columns[0], PLACARD_ROW))?;
        let p1 = self.is_top_left_of_score_placard_at((four_player_columns[1], PLACARD_ROW))?;
        let p2 = self.is_top_left_of_score_placard_at((four_player_columns[2], PLACARD_ROW))?;
        let p3 = self.is_top_left_of_score_placard_at((four_player_columns[3], PLACARD_ROW))?;
        if p0 && p1 && p2 && p3 {
            Ok(4)
        } else if p1 && p2 {
            Ok(2)
        } else {
            let three_player_columns = THREE_PLAYER_PLACARD_COLUMNS;
            let q0 = self.is_top_left_of_score_placard_at((three_player_columns[0], PLACARD_ROW))?;
            let q1 = self.is_top_left_of_score_placard_at((three_player_columns[1], PLACARD_ROW))?;
            let q2 = self.is_top_left_of_score_placard_at((three_player_columns[2], PLACARD_ROW))?;
            if q0 && q1 && q2 {
                Ok(3)
            } else {
                Err(AnalysisError::UndeterminedPlayerCount)
            }
        }
    }

    /// The fixed top-left corner of the victor banner within the podium image.
    pub fn get_victor_banner_top_left_position() -> (pos: (usize, usize))
        ensures
            pos.0 == 72,
            pos.1 == 35,
    {
        (72, 35)
    }
}

/// If the four 4-player probe windows all pass the placard test, the decision
/// tree resolves to exactly 4 players.
pub proof fn lemma_four_placards_imply_four_players(img: Raster)
    requires
        four_player_probes_pass(img),
    ensures
        player_count_spec(img) == Some(4u32),
{
}

/// The resolver reads nothing but pixel content: two images of equal
/// dimensions that agree on every pixel resolve to the same player count,
/// provided the probe layout fits. (For smaller images both resolutions fail
/// with the same error.)
pub proof fn lemma_player_count_depends_only_on_pixels(a: Raster, b: Raster)
    requires
        a.spec_width() == b.spec_width(),
        a.spec_height() == b.spec_height(),
        probe_layout_fits(a),
        forall|x: int, y: int|
            0 <= x < a.spec_width() && 0 <= y < a.spec_height() ==> #[trigger] a.pixel(x, y)
                == b.pixel(x, y),
    ensures
        player_count_spec(a) == player_count_spec(b),
{
    lemma_probe_window_eq(a, b, 85, PLACARD_ROW as int);
    lemma_probe_window_eq(a, b, 127, PLACARD_ROW as int);
    lemma_probe_window_eq(a, b, 169, PLACARD_ROW as int);
    lemma_probe_window_eq(a, b, 211, PLACARD_ROW as int);
    lemma_probe_window_eq(a, b, 106, PLACARD_ROW as int);
    lemma_probe_window_eq(a, b, 148, PLACARD_ROW as int);
    lemma_probe_window_eq(a, b, 190, PLACARD_ROW as int);
}

/// An in-bounds placard window reads the same colors out of two images that
/// agree pixel-for-pixel.
proof fn lemma_probe_window_eq(a: Raster, b: Raster, left: int, top: int)
    requires
        a.spec_width() == b.spec_width(),
        a.spec_height() == b.spec_height(),
        0 <= left,
        0 <= top,
        left + PLACARD_WIDTH <= a.spec_width(),
        top + PLACARD_HEIGHT <= a.spec_height(),
        forall|x: int, y: int|
            0 <= x < a.spec_width() && 0 <= y < a.spec_height() ==> #[trigger] a.pixel(x, y)
                == b.pixel(x, y),
    ensures
        placard_at_spec(a, left, top) == placard_at_spec(b, left, top),
{
    let w = PLACARD_WIDTH as int;
    let h = PLACARD_HEIGHT as int;
    assert(window_seq(a, left, top, w, h) =~= window_seq(b, left, top, w, h)) by {
        assert forall|i: int| 0 <= i < w * h implies window_seq(a, left, top, w, h)[i]
            == window_seq(b, left, top, w, h)[i] by {
            assert(0 <= i % w < w);
            assert(0 <= i / w < h);
        };
    };
}

} // verus!
