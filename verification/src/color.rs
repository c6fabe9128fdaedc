use vstd::prelude::*;

verus! {

/// An exact three-channel 8-bit color. Equality is component-wise with no
/// tolerance or distance metric anywhere in the library; this is a deliberate,
/// load-bearing invariant of the classification heuristics.
#[derive(Clone, Copy, PartialEq, Eq, Structural, Debug)]
pub struct Color {
    pub r: u8,
    pub g: u8,
    pub b: u8,
}

impl Color {
    /// Channel sum, the brightness measure that darkest-pixel selection
    /// minimizes.
    pub open spec fn brightness(self) -> int {
        self.r + self.g + self.b
    }

    /// The canonical application-wide white, matched exactly by the placard
    /// detector as a common glyph anti-aliasing artifact color.
    pub open spec fn white_spec() -> Color {
        Color { r: 255, g: 255, b: 255 }
    }

    pub open spec fn black_spec() -> Color {
        Color { r: 0, g: 0, b: 0 }
    }

    pub fn white() -> (c: Color)
        ensures
            c == Color::white_spec(),
    {
        Color { r: 255, g: 255, b: 255 }
    }

    pub fn black() -> (c: Color)
        ensures
            c == Color::black_spec(),
    {
        Color { r: 0, g: 0, b: 0 }
    }

    /// Executable channel sum; 3 * 255 fits comfortably in a u32.
    pub fn sum(self) -> (s: u32)
        ensures
            s == self.brightness(),
    {
        self.r as u32 + self.g as u32 + self.b as u32
    }
}

/// Linear scan for an exact color match.
pub(crate) fn contains_color(colors: &Vec<Color>, c: Color) -> (r: bool)
    ensures
        r == colors@.contains(c),
{
    let mut i: usize = 0;
    while i < colors.len()
        invariant
            i <= colors@.len(),
            forall|j: int| 0 <= j < i ==> colors@[j] != c,
        decreases colors@.len() - i,
    {
        if colors[i] == c {
            return true;
        }
        i += 1;
    }
    false
}

} // verus!
