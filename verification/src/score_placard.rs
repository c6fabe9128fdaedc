use vstd::prelude::*;

use crate::color::Color;
use crate::color::contains_color;
use crate::raster::Region;
use crate::seq_facts::lemma_take_one_more;

verus! {

broadcast use vstd::seq_lib::lemma_seq_contains_after_push;

/// A score placard: a small fixed-size panel showing a player's score, used
/// as a structural landmark to infer the player count.
pub struct ScorePlacard;

/// The set of distinct colors appearing in a pixel sequence.
pub open spec fn distinct_colors(pixels: Seq<Color>) -> Set<Color> {
    pixels.to_set()
}

/// The unique-color-count heuristic: a real placard shows a flat background
/// plus one or two glyph colors, where pure white is a common glyph
/// anti-aliasing artifact; anything else yields more distinct colors.
pub open spec fn is_score_placard_of(pixels: Seq<Color>) -> bool {
    let s = distinct_colors(pixels);
    s.len() == 2 || (s.len() == 3 && s.contains(Color::white_spec()))
}

/// The placard test applied to a region's pixels.
pub open spec fn is_score_placard_spec(region: Region) -> bool {
    is_score_placard_of(region.pixel_seq())
}

impl ScorePlacard {
    /// Decides whether the region looks like a score placard: true exactly
    /// when it shows 2 distinct colors, or 3 of which one is pure white.
    pub fn is_score_placard(maybe_placard: &Region) -> (r: bool)
        requires
            maybe_placard.wf(),
        ensures
            r == is_score_placard_spec(*maybe_placard),
    {
        let pixels = maybe_placard.collect_pixels();
        let ghost ps = pixels@;
        let mut unique_colors: Vec<Color> = Vec::new();
        let mut k: usize = 0;
        while k < pixels.len()
            invariant
                ps == pixels@,
                k <= ps.len(),
                unique_colors@.no_duplicates(),
                forall|c: Color| unique_colors@.contains(c) <==> ps.take(k as int).contains(c),
            decreases ps.len() - k,
        {
            let c = pixels[k];
            let ghost seen = unique_colors@;
            if !contains_color(&unique_colors, c) {
                unique_colors.push(c);
            }
            proof {
                lemma_take_one_more(ps, k as int);
                assert forall|c2: Color|
                    unique_colors@.contains(c2) <==> ps.take(k as int + 1).contains(c2) by {
                    assert(ps.take(k as int + 1).contains(c2) <==> ps.take(k as int).contains(c2)
                        || ps[k as int] == c2);
                    assert(seen.contains(c2) <==> ps.take(k as int).contains(c2));
                    if seen.contains(c) {
                        assert(unique_colors@ == seen);
                    } else {
                        assert(unique_colors@ == seen.push(c));
                        assert(seen.push(c).contains(c2) <==> c == c2 || seen.contains(c2));
                    }
                };
            }
            k += 1;
        }
        proof {
            assert(ps.take(ps.len() as int) =~= ps);
            assert(unique_colors@.to_set() =~= distinct_colors(ps));
            unique_colors@.unique_seq_to_set();
        }
        let count = unique_colors.len();
        count == 2 || (count == 3 && contains_color(&unique_colors, Color::white()))
    }
}

} // verus!
