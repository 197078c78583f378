//! Colours: hue, saturation and value on one side, red, green and blue on the
//! other, and the conversion from the first to the second.

use vstd::prelude::*;
use crate::fixed::{
    product, round_div, round_div_i128, saturate, saturate_i128, ONE,
};

verus! {

/// Sixty degrees of hue: the width of one of the six sectors of the colour
/// wheel.
pub const SECTOR: i64 = 60_000_000;

/// A colour as red, green and blue. The channels are scalars; a displayed
/// colour has them in the range from zero to one.
#[derive(Copy, Clone, Debug, PartialEq, Eq, Structural)]
pub struct RGB(pub i64, pub i64, pub i64);

/// A colour as hue, saturation and value. The hue counts degrees and is
/// expected from zero up to, but not including, 360; saturation and value are
/// expected in the range from zero to one. None of this is enforced.
#[derive(Copy, Clone, Debug, PartialEq, Eq, Structural)]
pub struct HSV(pub i64, pub i64, pub i64);

/// The remainder of `h` on division by a positive `m`, with the sign of `h`.
pub open spec fn rem_toward_zero(h: int, m: int) -> int {
    if h >= 0 {
        h % m
    } else {
        -((-h) % m)
    }
}

/// How far the hue `h` stands from the edges of its pair of sectors: as the
/// hue runs through a pair of sectors, the wedge rises from zero to `SECTOR`
/// and falls back to zero. It is `SECTOR` times `1 - |(h / 60) mod 2 - 1|`,
/// the remainder taken with the sign of `h`.
pub open spec fn wedge(h: int) -> int {
    let t = rem_toward_zero(h, 2 * SECTOR);
    if t >= SECTOR {
        2 * SECTOR - t
    } else {
        t
    }
}

/// The second-largest channel of the colour with chroma `c` and hue `h`,
/// before the lightness is added.
pub open spec fn second_channel(c: int, h: int) -> int {
    saturate(round_div(c * wedge(h), SECTOR as int))
}

impl RGB {
    /// The colour with `x` added to every channel.
    pub open spec fn add_spec(self, x: int) -> RGB {
        RGB(
            saturate(self.0 + x) as i64,
            saturate(self.1 + x) as i64,
            saturate(self.2 + x) as i64,
        )
    }

    /// The colour of full chroma `c` and second-largest channel `x` in the
    /// sector of a hue `h` below 360 degrees, before the lightness is added.
    /// The sixth sector takes every hue from 300 degrees on.
    pub open spec fn sector_colour(h: int, c: int, x: int) -> RGB
        recommends
            h < 6 * SECTOR,
    {
        if h < SECTOR {
            RGB(c as i64, x as i64, 0)
        } else if h < 2 * SECTOR {
            RGB(x as i64, c as i64, 0)
        } else if h < 3 * SECTOR {
            RGB(0, c as i64, x as i64)
        } else if h < 4 * SECTOR {
            RGB(0, x as i64, c as i64)
        } else if h < 5 * SECTOR {
            RGB(x as i64, 0, c as i64)
        } else {
            RGB(c as i64, 0, x as i64)
        }
    }

    /// The colour that stands for hue, saturation and value. Below 360
    /// degrees the chroma is the product of saturation and value, the sector
    /// of the hue says which channels get the chroma and the wedge, and what
    /// the value has beyond the chroma is added to all three. From 360
    /// degrees on the colour is black, whatever saturation and value are.
    pub open spec fn from_hsv_spec(hsv: HSV) -> RGB {
        if hsv.0 >= 6 * SECTOR {
            RGB(0, 0, 0)
        } else {
            let c = product(hsv.1 as int, hsv.2 as int);
            let x = second_channel(c, hsv.0 as int);
            let m = saturate(hsv.2 - c);
            Self::sector_colour(hsv.0 as int, c, x).add_spec(m)
        }
    }

    /// Converts hue, saturation and value into red, green and blue. A hue of
    /// 360 degrees or more is not wrapped round: it gives black.
    pub fn from_hsv(hsv: &HSV) -> (rgb: RGB)
        ensures
            rgb == Self::from_hsv_spec(*hsv),
            hsv.0 >= 6 * SECTOR ==> rgb == RGB(0, 0, 0),
    {
        let h: i64 = hsv.0;
        if h >= 6 * SECTOR {
            return RGB(0, 0, 0);
        }
        let c: i64 = times(hsv.1, hsv.2);
        let x: i64 = second(c, h);
        let m: i64 = saturate_i128(hsv.2 as i128 - c as i128);
        let base: RGB = if h < SECTOR {
            RGB(c, x, 0)
        } else if h < 2 * SECTOR {
            RGB(x, c, 0)
        } else if h < 3 * SECTOR {
            RGB(0, c, x)
        } else if h < 4 * SECTOR {
            RGB(0, x, c)
        } else if h < 5 * SECTOR {
            RGB(x, 0, c)
        } else {
            RGB(c, 0, x)
        };
        base.add(m)
    }

    /// Adds `x` to red, green and blue. A channel that would leave the range
    /// of `i64` stops at its end.
    pub fn add(self, x: i64) -> (rgb: RGB)
        ensures
            rgb == self.add_spec(x as int),
    {
        RGB(
            saturate_i128(self.0 as i128 + x as i128),
            saturate_i128(self.1 as i128 + x as i128),
            saturate_i128(self.2 as i128 + x as i128),
        )
    }

    /// The colour as an array of red, green, blue and the given opacity.
    pub fn to_arr(self, opacity: i64) -> (arr: [i64; 4])
        ensures
            arr@ == seq![self.0, self.1, self.2, opacity],
    {
        let arr: [i64; 4] = [self.0, self.1, self.2, opacity];
        assert(arr@ =~= seq![self.0, self.1, self.2, opacity]);
        arr
    }
}

/// The product of two scalars.
fn times(a: i64, b: i64) -> (c: i64)
    ensures
        c == product(a as int, b as int),
{
    assert(-(0x8000_0000_0000_0000 * 0x8000_0000_0000_0000) < a * b <= 0x8000_0000_0000_0000
        * 0x8000_0000_0000_0000) by (nonlinear_arith)
        requires
            -0x8000_0000_0000_0000 <= a < 0x8000_0000_0000_0000,
            -0x8000_0000_0000_0000 <= b < 0x8000_0000_0000_0000,
    ;
    saturate_i128(round_div_i128((a as i128) * (b as i128), ONE as i128))
}

/// The wedge of the hue `h`.
fn wedge_of(h: i64) -> (w: i64)
    ensures
        w == wedge(h as int),
        -2 * SECTOR < w <= SECTOR,
{
    let turn: i128 = 2 * (SECTOR as i128);
    let t: i128 = if h >= 0 {
        (h as i128) % turn
    } else {
        -((-(h as i128)) % turn)
    };
    if t >= SECTOR as i128 {
        (turn - t) as i64
    } else {
        t as i64
    }
}

/// The second-largest channel of the colour with chroma `c` and hue `h`.
fn second(c: i64, h: i64) -> (x: i64)
    ensures
        x == second_channel(c as int, h as int),
{
    let w: i64 = wedge_of(h);
    assert(-(0x8000_0000_0000_0000 * 120_000_000) <= c * w <= 0x8000_0000_0000_0000
        * 120_000_000) by (nonlinear_arith)
        requires
            -0x8000_0000_0000_0000 <= c < 0x8000_0000_0000_0000,
            -120_000_000 < w <= 60_000_000,
    ;
    saturate_i128(round_div_i128((c as i128) * (w as i128), SECTOR as i128))
}

} // verus!
