//! Blue-green-red colour ramp over normalized heights.

use vstd::prelude::*;

verus! {

/// An opaque 8-bit RGB display colour.
#[derive(Clone, Copy, Debug, PartialEq, Eq, Structural)]
pub struct Color {
    pub r: u8,
    pub g: u8,
    pub b: u8,
}

impl Color {
    pub open spec fn rgb(self) -> (int, int, int) {
        (self.r as int, self.g as int, self.b as int)
    }

    /// Solid black, the colour given to heights outside `[0, 1]`.
    pub fn black() -> (c: Color)
        ensures
            c.rgb() == (0int, 0int, 0int),
    {
        Color { r: 0, g: 0, b: 0 }
    }

    /// Solid white, the colour of a freshly allocated vertex.
    pub fn white() -> (c: Color)
        ensures
            c.rgb() == (255int, 255int, 255int),
    {
        Color { r: 255, g: 255, b: 255 }
    }
}

/// `a / b` rounded to the nearest integer, halves upward (for `a >= 0`, `b > 0`).
pub open spec fn round_div(a: int, b: int) -> int {
    (2 * a + b) / (2 * b)
}

/// The colour of normalized height `num / den`.
///
/// Below one half the ramp runs from blue towards yellow (`t = 2h`,
/// red = green = `round(255 t)`, blue = `round(255 (1 - t))`); from one half
/// on it runs from yellow to red (`t = 2h - 1`, red = 255,
/// green = `round(255 (1 - t))`, blue = 0). Heights outside `[0, 1]` are black.
pub open spec fn height_color(num: int, den: int) -> (int, int, int) {
    if num < 0 || num > den {
        (0, 0, 0)
    } else if 2 * num < den {
        let rg = round_div(510 * num, den);
        (rg, rg, round_div(255 * (den - 2 * num), den))
    } else {
        (255, round_div(510 * (den - num), den), 0)
    }
}

/// The midpoint of the ramp, used for surfaces of no height extent.
pub open spec fn midpoint_color() -> (int, int, int) {
    height_color(1, 2)
}

proof fn lemma_round_div_byte(a: int, b: int)
    requires
        b > 0,
        0 <= a <= 255 * b,
    ensures
        0 <= round_div(a, b) <= 255,
{
    assert(0 <= (2 * a + b) / (2 * b) < 256) by (nonlinear_arith)
        requires
            b > 0,
            0 <= a <= 255 * b,
    {
        assert(2 * a + b < 256 * (2 * b));
        assert(0 <= 2 * a + b);
    }
}

/// Colour of the normalized height `num / den`: the ramp of
/// [`height_color`], black when the height lies outside `[0, 1]`.
pub fn color_from_height(num: i128, den: u64) -> (c: Color)
    requires
        den > 0,
    ensures
        c.rgb() == height_color(num as int, den as int),
{
    if num < 0 || num > den as i128 {
        return Color::black();
    }
    let n: u128 = num as u128;
    let d: u128 = den as u128;
    if 2 * n < d {
        proof {
            lemma_round_div_byte(510 * n, d as int);
            lemma_round_div_byte(255 * (d - 2 * n), d as int);
        }
        let rg: u128 = (2 * (510 * n) + d) / (2 * d);
        let b: u128 = (2 * (255 * (d - 2 * n)) + d) / (2 * d);
        Color { r: rg as u8, g: rg as u8, b: b as u8 }
    } else {
        proof {
            lemma_round_div_byte(510 * (d - n), d as int);
        }
        let g: u128 = (2 * (510 * (d - n)) + d) / (2 * d);
        Color { r: 255, g: g as u8, b: 0 }
    }
}

} // verus!
