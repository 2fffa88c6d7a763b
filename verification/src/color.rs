//! Additive RGB colors over exact rational channels.

use crate::rat::{opt_v, rat_add_v, rat_div_v, rat_mul_v, rat_sub_v, iabs, Rat, RatV};
use vstd::arithmetic::div_mod::lemma_fundamental_div_mod;
use vstd::prelude::*;

verus! {

/// The specification-level value of a color.
pub struct ColorV {
    pub r: RatV,
    pub g: RatV,
    pub b: RatV,
}

/// An additive RGB color. Channels are nominally in `[0, 1]` but this is
/// not enforced; out-of-range channels survive arithmetic unchanged and
/// only [`Color::to_bytes`] truncates and wraps them.
#[derive(Clone, Copy, Debug, PartialEq, Eq, Structural)]
pub struct Color {
    pub r: Rat,
    pub g: Rat,
    pub b: Rat,
}

impl View for Color {
    type V = ColorV;

    open spec fn view(&self) -> ColorV {
        ColorV { r: self.r@, g: self.g@, b: self.b@ }
    }
}

/// One byte of the fixed four-byte pixel layout.
#[derive(Clone, Copy, Debug, PartialEq, Eq, Structural)]
pub struct Rgba {
    pub r: u8,
    pub g: u8,
    pub b: u8,
    pub a: u8,
}

/// The view of an optional color result.
pub open spec fn oc(r: Option<Color>) -> Option<ColorV> {
    match r {
        Some(c) => Some(c@),
        None => None,
    }
}

/// Mirror of channelwise addition.
pub open spec fn color_add_v(a: ColorV, b: ColorV) -> Option<ColorV> {
    match (rat_add_v(a.r, b.r), rat_add_v(a.g, b.g), rat_add_v(a.b, b.b)) {
        (Some(r), Some(g), Some(bl)) => Some(ColorV { r, g, b: bl }),
        _ => None,
    }
}

/// Mirror of channelwise subtraction.
pub open spec fn color_sub_v(a: ColorV, b: ColorV) -> Option<ColorV> {
    match (rat_sub_v(a.r, b.r), rat_sub_v(a.g, b.g), rat_sub_v(a.b, b.b)) {
        (Some(r), Some(g), Some(bl)) => Some(ColorV { r, g, b: bl }),
        _ => None,
    }
}

/// Mirror of channelwise multiplication.
pub open spec fn color_mul_v(a: ColorV, b: ColorV) -> Option<ColorV> {
    match (rat_mul_v(a.r, b.r), rat_mul_v(a.g, b.g), rat_mul_v(a.b, b.b)) {
        (Some(r), Some(g), Some(bl)) => Some(ColorV { r, g, b: bl }),
        _ => None,
    }
}

/// Mirror of scaling every channel by a rational.
pub open spec fn color_scale_v(a: ColorV, s: RatV) -> Option<ColorV> {
    match (rat_mul_v(a.r, s), rat_mul_v(a.g, s), rat_mul_v(a.b, s)) {
        (Some(r), Some(g), Some(bl)) => Some(ColorV { r, g, b: bl }),
        _ => None,
    }
}

/// Mirror of dividing every channel by a rational.
pub open spec fn color_div_v(a: ColorV, s: RatV) -> Option<ColorV> {
    match (rat_div_v(a.r, s), rat_div_v(a.g, s), rat_div_v(a.b, s)) {
        (Some(r), Some(g), Some(bl)) => Some(ColorV { r, g, b: bl }),
        _ => None,
    }
}

/// Every channel is zero in value.
pub open spec fn color_is_black_v(c: ColorV) -> bool {
    c.r.n == 0 && c.g.n == 0 && c.b.n == 0
}

/// The zero color value.
pub open spec fn color_black_v() -> ColorV {
    ColorV {
        r: RatV { n: 0, d: 1 },
        g: RatV { n: 0, d: 1 },
        b: RatV { n: 0, d: 1 },
    }
}

/// Mirror of summing the first `i` colors of a sequence, left to right
/// from black.
pub open spec fn color_sum_v(cs: Seq<ColorV>, i: int) -> Option<ColorV>
    decreases i,
{
    if i <= 0 {
        Some(color_black_v())
    } else {
        match color_sum_v(cs, i - 1) {
            None => None,
            Some(acc) => color_add_v(acc, cs[i - 1]),
        }
    }
}

/// Once a partial color sum is unrepresentable, every longer sum is too.
proof fn lemma_color_sum_none_mono(cs: Seq<ColorV>, k: int, i: int)
    requires
        k <= i,
        color_sum_v(cs, k) == None::<ColorV>,
    ensures
        color_sum_v(cs, i) == None::<ColorV>,
    decreases i,
{
    if i > k {
        lemma_color_sum_none_mono(cs, k, i - 1);
    }
}

/// The channel value multiplied by 256 and truncated toward zero, then
/// wrapped to a byte. Channels at or above one therefore wrap to low bytes
/// rather than saturating; callers are expected to keep channels nominal.
pub open spec fn chan_byte_v(q: RatV) -> u8 {
    let t = if q.n >= 0 {
        (q.n * 256) / q.d
    } else {
        -(((-q.n) * 256) / q.d)
    };
    (t % 256) as u8
}

/// A channel whose scaled magnitude stays computable.
pub open spec fn chan_ok_v(q: RatV) -> bool {
    iabs(q.n) * 256 <= u128::MAX
}

/// Mirror of the conversion to four opaque bytes.
pub open spec fn color_bytes_v(c: ColorV) -> Option<Rgba> {
    if chan_ok_v(c.r) && chan_ok_v(c.g) && chan_ok_v(c.b) {
        Some(
            Rgba {
                r: chan_byte_v(c.r),
                g: chan_byte_v(c.g),
                b: chan_byte_v(c.b),
                a: 255,
            },
        )
    } else {
        None
    }
}

impl Color {
    /// The color with the given channels.
    pub fn new(r: Rat, g: Rat, b: Rat) -> (c: Color)
        ensures
            c@ == (ColorV { r: r@, g: g@, b: b@ }),
    {
        Color { r, g, b }
    }

    /// The all-zero color.
    pub fn black() -> (c: Color)
        ensures
            c@ == color_black_v(),
    {
        let z = Rat::from_int(0);
        Color { r: z, g: z, b: z }
    }

    /// The exact sum of a sequence of colors, left to right from black,
    /// or `None` when some partial sum cannot be represented.
    pub fn sum_of(colors: &Vec<Color>) -> (r: Option<Color>)
        ensures
            oc(r) == color_sum_v(
                colors@.map_values(|c: Color| c@),
                colors@.len() as int,
            ),
    {
        let ghost cs = colors@.map_values(|c: Color| c@);
        let mut total = Color::black();
        let mut i: usize = 0;
        while i < colors.len()
            invariant
                i <= colors@.len(),
                cs == colors@.map_values(|c: Color| c@),
                cs.len() == colors@.len(),
                color_sum_v(cs, i as int) == Some(total@),
            decreases colors@.len() - i,
        {
            proof {
                assert(cs[i as int] == colors@[i as int]@);
            }
            total = match total.add(&colors[i]) {
                Some(v) => v,
                None => {
                    proof {
                        lemma_color_sum_none_mono(cs, i as int + 1, cs.len() as int);
                    }
                    return None;
                },
            };
            i = i + 1;
        }
        Some(total)
    }

    /// The exact channelwise sum.
    pub fn add(&self, o: &Color) -> (c: Option<Color>)
        ensures
            oc(c) == color_add_v(self@, o@),
    {
        let r = match self.r.add(&o.r) {
            Some(v) => v,
            None => {
                return None;
            },
        };
        let g = match self.g.add(&o.g) {
            Some(v) => v,
            None => {
                return None;
            },
        };
        let b = match self.b.add(&o.b) {
            Some(v) => v,
            None => {
                return None;
            },
        };
        Some(Color { r, g, b })
    }

    /// The exact channelwise difference.
    pub fn sub(&self, o: &Color) -> (c: Option<Color>)
        ensures
            oc(c) == color_sub_v(self@, o@),
    {
        let r = match self.r.sub(&o.r) {
            Some(v) => v,
            None => {
                return None;
            },
        };
        let g = match self.g.sub(&o.g) {
            Some(v) => v,
            None => {
                return None;
            },
        };
        let b = match self.b.sub(&o.b) {
            Some(v) => v,
            None => {
                return None;
            },
        };
        Some(Color { r, g, b })
    }

    /// The exact channelwise product.
    pub fn mul(&self, o: &Color) -> (c: Option<Color>)
        ensures
            oc(c) == color_mul_v(self@, o@),
    {
        let r = match self.r.mul(&o.r) {
            Some(v) => v,
            None => {
                return None;
            },
        };
        let g = match self.g.mul(&o.g) {
            Some(v) => v,
            None => {
                return None;
            },
        };
        let b = match self.b.mul(&o.b) {
            Some(v) => v,
            None => {
                return None;
            },
        };
        Some(Color { r, g, b })
    }

    /// The exact scaling of every channel by `s`.
    pub fn scale(&self, s: &Rat) -> (c: Option<Color>)
        ensures
            oc(c) == color_scale_v(self@, s@),
    {
        let r = match self.r.mul(s) {
            Some(v) => v,
            None => {
                return None;
            },
        };
        let g = match self.g.mul(s) {
            Some(v) => v,
            None => {
                return None;
            },
        };
        let b = match self.b.mul(s) {
            Some(v) => v,
            None => {
                return None;
            },
        };
        Some(Color { r, g, b })
    }

    /// The exact division of every channel by `s`.
    pub fn div(&self, s: &Rat) -> (c: Option<Color>)
        requires
            s@.n != 0,
        ensures
            oc(c) == color_div_v(self@, s@),
    {
        let r = match self.r.div(s) {
            Some(v) => v,
            None => {
                return None;
            },
        };
        let g = match self.g.div(s) {
            Some(v) => v,
            None => {
                return None;
            },
        };
        let b = match self.b.div(s) {
            Some(v) => v,
            None => {
                return None;
            },
        };
        Some(Color { r, g, b })
    }

    /// Whether every channel is zero.
    pub fn is_black(&self) -> (r: bool)
        ensures
            r == color_is_black_v(self@),
    {
        self.r.is_zero() && self.g.is_zero() && self.b.is_zero()
    }

    /// The four opaque bytes of this color: each channel multiplied by 256,
    /// truncated toward zero and wrapped to a byte, with alpha fixed at
    /// 255. Channels outside `[0, 1)` wrap rather than saturate; that
    /// behavior is part of the contract.
    pub fn to_bytes(&self) -> (r: Option<Rgba>)
        ensures
            match r {
                Some(p) => color_bytes_v(self@) == Some(p),
                None => color_bytes_v(self@) == None::<Rgba>,
            },
    {
        let br = match chan_byte(&self.r) {
            Some(v) => v,
            None => {
                return None;
            },
        };
        let bg = match chan_byte(&self.g) {
            Some(v) => v,
            None => {
                return None;
            },
        };
        let bb = match chan_byte(&self.b) {
            Some(v) => v,
            None => {
                return None;
            },
        };
        Some(Rgba { r: br, g: bg, b: bb, a: 255 })
    }
}

/// One channel of the byte conversion.
fn chan_byte(q: &Rat) -> (r: Option<u8>)
    ensures
        match r {
            Some(b) => chan_ok_v(q@) && b == chan_byte_v(q@),
            None => !chan_ok_v(q@),
        },
{
    let (mag, den, neg) = q.parts();
    let prod = match mag.checked_mul(256) {
        Some(v) => v,
        None => {
            return None;
        },
    };
    let quot = prod / den;
    let m = quot % 256;
    proof {
        lemma_fundamental_div_mod(quot as int, 256);
    }
    if neg && m != 0 {
        proof {
            let t = -(quot as int);
            let k = quot as int / 256;
            assert(t == 256 * (-k - 1) + (256 - m)) by (nonlinear_arith)
                requires
                    quot as int == 256 * k + m as int,
                    0 < m as int && (m as int) < 256,
                    t == -(quot as int),
            ;
            vstd::arithmetic::div_mod::lemma_fundamental_div_mod_converse_mod(
                t,
                256,
                -k - 1,
                256 - m as int,
            );
        }
        Some((256 - m) as u8)
    } else {
        proof {
            if neg {
                let t = -(quot as int);
                let k = quot as int / 256;
                assert(t == 256 * (-k) + 0) by (nonlinear_arith)
                    requires
                        quot as int == 256 * k + m as int,
                        m as int == 0,
                        t == -(quot as int),
                ;
                vstd::arithmetic::div_mod::lemma_fundamental_div_mod_converse_mod(
                    t,
                    256,
                    -k,
                    0,
                );
            }
        }
        Some(m as u8)
    }
}

} // verus!
