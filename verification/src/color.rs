//! RGB colors, linear gradient interpolation, and the per-border gradient
//! configuration.
//!
//! Interpolation positions are exact rationals `num / den` with
//! `0 <= num <= den`, so every channel value is pinned down exactly by the
//! contract (no floating point is involved).

use vstd::prelude::*;
use vstd::string::StringExecFns;

verus! {

/// A 24-bit RGB color.
#[derive(Clone, Copy, Debug, PartialEq, Eq, Structural)]
pub struct Rgb {
    pub r: u8,
    pub g: u8,
    pub b: u8,
}

/// Value of one channel interpolated linearly from `a` to `b` at position
/// `num / den`, with the fractional part truncated toward `a`.
pub open spec fn spec_lerp(a: u8, b: u8, num: int, den: int) -> int {
    if b >= a {
        a + (b - a) * num / den
    } else {
        a - (a - b) * num / den
    }
}

pub proof fn lemma_lerp_bounds(a: u8, b: u8, num: int, den: int)
    requires
        0 <= num <= den,
        den >= 1,
    ensures
        0 <= spec_lerp(a, b, num, den) <= 255,
        num == 0 ==> spec_lerp(a, b, num, den) == a,
        num == den ==> spec_lerp(a, b, num, den) == b,
{
    if b >= a {
        lemma_scale_le((b - a) as nat, num, den);
    } else {
        lemma_scale_le((a - b) as nat, num, den);
    }
}

/// For `0 <= num <= den`, scaling a non-negative quantity by `num / den`
/// never enlarges it, and scaling by `den / den` keeps it.
proof fn lemma_scale_le(d: nat, num: int, den: int)
    by (nonlinear_arith)
    requires
        0 <= num <= den,
        den >= 1,
    ensures
        0 <= d * num / den <= d,
        num == den ==> d * num / den == d,
{
}

/// Both colors interpolated channel by channel at position `num / den`.
pub open spec fn spec_interpolate(start: Rgb, end: Rgb, num: int, den: int) -> Rgb {
    Rgb {
        r: spec_lerp(start.r, end.r, num, den) as u8,
        g: spec_lerp(start.g, end.g, num, den) as u8,
        b: spec_lerp(start.b, end.b, num, den) as u8,
    }
}

/// Linear interpolation between two colors at position `num / den`.
///
/// Position `0 / den` yields `start` exactly and `den / den` yields `end`
/// exactly; every channel is interpolated independently.
pub fn interpolate_color(start: Rgb, end: Rgb, num: u16, den: u16) -> (c: Rgb)
    requires
        num <= den,
        den >= 1,
    ensures
        c == spec_interpolate(start, end, num as int, den as int),
        c.r == spec_lerp(start.r, end.r, num as int, den as int),
        c.g == spec_lerp(start.g, end.g, num as int, den as int),
        c.b == spec_lerp(start.b, end.b, num as int, den as int),
{
    Rgb {
        r: lerp_channel(start.r, end.r, num, den),
        g: lerp_channel(start.g, end.g, num, den),
        b: lerp_channel(start.b, end.b, num, den),
    }
}

fn lerp_channel(a: u8, b: u8, num: u16, den: u16) -> (v: u8)
    requires
        num <= den,
        den >= 1,
    ensures
        v == spec_lerp(a, b, num as int, den as int),
{
    proof {
        lemma_lerp_bounds(a, b, num as int, den as int);
    }
    if b >= a {
        let diff: u32 = (b - a) as u32;
        assert(diff * (num as u32) <= 255 * 65535) by (nonlinear_arith)
            requires
                diff <= 255,
                num <= 65535,
        ;
        let step: u32 = diff * (num as u32) / (den as u32);
        a + (step as u8)
    } else {
        let diff: u32 = (a - b) as u32;
        assert(diff * (num as u32) <= 255 * 65535) by (nonlinear_arith)
            requires
                diff <= 255,
                num <= 65535,
        ;
        let step: u32 = diff * (num as u32) / (den as u32);
        a - (step as u8)
    }
}

/// The eight colors of a gradient border: a start and an end color for the
/// top, right, bottom and left edges.
#[derive(Clone, Copy, Debug, PartialEq, Eq, Structural)]
pub struct GradientConfig {
    /// Starts in the top left corner and runs to the top right corner.
    pub top_start: Rgb,
    pub top_end: Rgb,
    /// Starts in the top right corner and runs down to the bottom right corner.
    pub right_start: Rgb,
    pub right_end: Rgb,
    /// Starts in the bottom right corner and runs to the bottom left corner.
    pub bottom_start: Rgb,
    pub bottom_end: Rgb,
    /// Starts in the bottom left corner and runs up to the top left corner.
    pub left_start: Rgb,
    pub left_end: Rgb,
}

/// The fallback gradient used for instruments with no configured colors.
pub open spec fn spec_default_gradient() -> GradientConfig {
    GradientConfig {
        top_start: Rgb { r: 255, g: 0, b: 0 },
        top_end: Rgb { r: 0, g: 0, b: 255 },
        right_start: Rgb { r: 0, g: 0, b: 255 },
        right_end: Rgb { r: 0, g: 255, b: 0 },
        bottom_start: Rgb { r: 0, g: 255, b: 0 },
        bottom_end: Rgb { r: 255, g: 0, b: 255 },
        left_start: Rgb { r: 255, g: 0, b: 255 },
        left_end: Rgb { r: 255, g: 0, b: 0 },
    }
}

impl Default for GradientConfig {
    fn default() -> (c: Self)
        ensures
            c == spec_default_gradient(),
    {
        GradientConfig {
            top_start: Rgb { r: 255, g: 0, b: 0 },
            top_end: Rgb { r: 0, g: 0, b: 255 },
            right_start: Rgb { r: 0, g: 0, b: 255 },
            right_end: Rgb { r: 0, g: 255, b: 0 },
            bottom_start: Rgb { r: 0, g: 255, b: 0 },
            bottom_end: Rgb { r: 255, g: 0, b: 255 },
            left_start: Rgb { r: 255, g: 0, b: 255 },
            left_end: Rgb { r: 255, g: 0, b: 0 },
        }
    }
}

impl GradientConfig {
    /// Builds a configuration from all eight edge colors.
    pub fn new(
        top_start: Rgb,
        top_end: Rgb,
        right_start: Rgb,
        right_end: Rgb,
        bottom_start: Rgb,
        bottom_end: Rgb,
        left_start: Rgb,
        left_end: Rgb,
    ) -> (c: Self)
        ensures
            c == (GradientConfig {
                top_start,
                top_end,
                right_start,
                right_end,
                bottom_start,
                bottom_end,
                left_start,
                left_end,
            }),
    {
        GradientConfig {
            top_start,
            top_end,
            right_start,
            right_end,
            bottom_start,
            bottom_end,
            left_start,
            left_end,
        }
    }

    /// A uniform border: every edge runs from `c` to `c`.
    pub fn new_1(c: Rgb) -> (g: Self)
        ensures
            g == Self::spec_new_1(c),
    {
        GradientConfig {
            top_start: c,
            top_end: c,
            right_start: c,
            right_end: c,
            bottom_start: c,
            bottom_end: c,
            left_start: c,
            left_end: c,
        }
    }

    pub open spec fn spec_new_1(c: Rgb) -> GradientConfig {
        GradientConfig {
            top_start: c,
            top_end: c,
            right_start: c,
            right_end: c,
            bottom_start: c,
            bottom_end: c,
            left_start: c,
            left_end: c,
        }
    }

    /// A two-color border with alternating corners: the top-left and
    /// bottom-right corners take `a`, the other two take `b`, and each edge
    /// fades between its two corners.
    pub fn new_2(a: Rgb, b: Rgb) -> (g: Self)
        ensures
            g == Self::spec_new_4(a, b, a, b),
    {
        Self::new_4(a, b, a, b)
    }

    /// A border given by its four corner colors; each edge fades from one
    /// adjacent corner to the other.
    pub fn new_4(top_l: Rgb, top_r: Rgb, bot_r: Rgb, bot_l: Rgb) -> (g: Self)
        ensures
            g == Self::spec_new_4(top_l, top_r, bot_r, bot_l),
    {
        GradientConfig {
            top_start: top_l,
            top_end: top_r,
            right_start: top_r,
            right_end: bot_r,
            bottom_start: bot_r,
            bottom_end: bot_l,
            left_start: bot_l,
            left_end: top_l,
        }
    }

    pub open spec fn spec_new_4(top_l: Rgb, top_r: Rgb, bot_r: Rgb, bot_l: Rgb) -> GradientConfig {
        GradientConfig {
            top_start: top_l,
            top_end: top_r,
            right_start: top_r,
            right_end: bot_r,
            bottom_start: bot_r,
            bottom_end: bot_l,
            left_start: bot_l,
            left_end: top_l,
        }
    }
}

/// The configured border gradient of a known base symbol, if any.
pub open spec fn known_gradient(sym: Seq<char>) -> Option<GradientConfig> {
    if sym == "SOL"@ {
        Some(GradientConfig::spec_new_4(Rgb { r: 154, g: 69, b: 254 }, Rgb { r: 87, g: 152, b: 203 }, Rgb { r: 21, g: 240, b: 150 }, Rgb { r: 87, g: 152, b: 203 }))
    } else
    if sym == "BTC"@ {
        Some(GradientConfig::spec_new_1(Rgb { r: 247, g: 147, b: 26 }))
    } else
    if sym == "ETH"@ {
        Some(GradientConfig::spec_new_1(Rgb { r: 72, g: 203, b: 217 }))
    } else
    if sym == "ENA"@ {
        Some(GradientConfig::spec_new_4(Rgb { r: 30, g: 30, b: 30 }, Rgb { r: 200, g: 200, b: 200 }, Rgb { r: 30, g: 30, b: 30 }, Rgb { r: 200, g: 200, b: 200 }))
    } else
    if sym == "ADA"@ {
        Some(GradientConfig::spec_new_4(Rgb { r: 0, g: 84, b: 81 }, Rgb { r: 28, g: 191, b: 191 }, Rgb { r: 0, g: 84, b: 81 }, Rgb { r: 28, g: 191, b: 191 }))
    } else
    if sym == "XRP"@ {
        Some(GradientConfig::spec_new_1(Rgb { r: 0, g: 70, b: 143 }))
    } else
    if sym == "LTC"@ {
        Some(GradientConfig::spec_new_1(Rgb { r: 191, g: 191, b: 191 }))
    } else
    if sym == "DOT"@ {
        Some(GradientConfig::spec_new_4(Rgb { r: 29, g: 29, b: 27 }, Rgb { r: 222, g: 0, b: 53 }, Rgb { r: 29, g: 29, b: 27 }, Rgb { r: 222, g: 0, b: 53 }))
    } else
    if sym == "DOGE"@ {
        Some(GradientConfig::spec_new_4(Rgb { r: 194, g: 153, b: 57 }, Rgb { r: 255, g: 197, b: 64 }, Rgb { r: 194, g: 153, b: 57 }, Rgb { r: 255, g: 197, b: 64 }))
    } else
    if sym == "AVAX"@ {
        Some(GradientConfig::spec_new_1(Rgb { r: 255, g: 0, b: 0 }))
    } else
    if sym == "MATIC"@ {
        Some(GradientConfig::spec_new_4(Rgb { r: 149, g: 45, b: 183 }, Rgb { r: 86, g: 48, b: 140 }, Rgb { r: 149, g: 45, b: 183 }, Rgb { r: 86, g: 48, b: 140 }))
    } else
    if sym == "BCH"@ {
        Some(GradientConfig::spec_new_1(Rgb { r: 190, g: 224, b: 103 }))
    } else
    if sym == "LINK"@ {
        Some(GradientConfig::spec_new_1(Rgb { r: 16, g: 126, b: 229 }))
    } else
    if sym == "UNI"@ {
        Some(GradientConfig::spec_new_1(Rgb { r: 102, g: 51, b: 153 }))
    } else
    if sym == "FTT"@ {
        Some(GradientConfig::spec_new_1(Rgb { r: 144, g: 27, b: 169 }))
    } else
    if sym == "FIL"@ {
        Some(GradientConfig::spec_new_4(Rgb { r: 255, g: 85, b: 85 }, Rgb { r: 255, g: 153, b: 153 }, Rgb { r: 255, g: 85, b: 85 }, Rgb { r: 255, g: 153, b: 153 }))
    } else
    if sym == "VET"@ {
        Some(GradientConfig::spec_new_4(Rgb { r: 0, g: 153, b: 204 }, Rgb { r: 0, g: 51, b: 102 }, Rgb { r: 0, g: 153, b: 204 }, Rgb { r: 0, g: 51, b: 102 }))
    } else
    if sym == "EOS"@ {
        Some(GradientConfig::spec_new_4(Rgb { r: 57, g: 57, b: 57 }, Rgb { r: 1, g: 1, b: 1 }, Rgb { r: 57, g: 57, b: 57 }, Rgb { r: 1, g: 1, b: 1 }))
    } else
    if sym == "MKR"@ {
        Some(GradientConfig::spec_new_1(Rgb { r: 26, g: 171, b: 155 }))
    } else
    if sym == "SKY"@ {
        Some(GradientConfig::spec_new_4(Rgb { r: 48, g: 90, b: 224 }, Rgb { r: 102, g: 153, b: 255 }, Rgb { r: 48, g: 90, b: 224 }, Rgb { r: 102, g: 153, b: 255 }))
    } else {
        None
    }
}

/// The border gradient used for a base symbol: its configured colors, or
/// the default gradient for a symbol with none. The table is fixed at
/// startup and never mutated.
pub open spec fn spec_gradient_for(sym: Seq<char>) -> GradientConfig {
    match known_gradient(sym) {
        Some(g) => g,
        None => spec_default_gradient(),
    }
}

/// Looks up the border gradient of a base symbol.
pub fn gradient_for(symbol: &String) -> (g: GradientConfig)
    ensures
        g == spec_gradient_for(symbol@),
{
    if *symbol == String::from_str("SOL") {
        GradientConfig::new_4(Rgb { r: 154, g: 69, b: 254 }, Rgb { r: 87, g: 152, b: 203 }, Rgb { r: 21, g: 240, b: 150 }, Rgb { r: 87, g: 152, b: 203 })
    } else
    if *symbol == String::from_str("BTC") {
        GradientConfig::new_1(Rgb { r: 247, g: 147, b: 26 })
    } else
    if *symbol == String::from_str("ETH") {
        GradientConfig::new_1(Rgb { r: 72, g: 203, b: 217 })
    } else
    if *symbol == String::from_str("ENA") {
        GradientConfig::new_2(Rgb { r: 30, g: 30, b: 30 }, Rgb { r: 200, g: 200, b: 200 })
    } else
    if *symbol == String::from_str("ADA") {
        GradientConfig::new_2(Rgb { r: 0, g: 84, b: 81 }, Rgb { r: 28, g: 191, b: 191 })
    } else
    if *symbol == String::from_str("XRP") {
        GradientConfig::new_1(Rgb { r: 0, g: 70, b: 143 })
    } else
    if *symbol == String::from_str("LTC") {
        GradientConfig::new_1(Rgb { r: 191, g: 191, b: 191 })
    } else
    if *symbol == String::from_str("DOT") {
        GradientConfig::new_2(Rgb { r: 29, g: 29, b: 27 }, Rgb { r: 222, g: 0, b: 53 })
    } else
    if *symbol == String::from_str("DOGE") {
        GradientConfig::new_2(Rgb { r: 194, g: 153, b: 57 }, Rgb { r: 255, g: 197, b: 64 })
    } else
    if *symbol == String::from_str("AVAX") {
        GradientConfig::new_1(Rgb { r: 255, g: 0, b: 0 })
    } else
    if *symbol == String::from_str("MATIC") {
        GradientConfig::new_2(Rgb { r: 149, g: 45, b: 183 }, Rgb { r: 86, g: 48, b: 140 })
    } else
    if *symbol == String::from_str("BCH") {
        GradientConfig::new_1(Rgb { r: 190, g: 224, b: 103 })
    } else
    if *symbol == String::from_str("LINK") {
        GradientConfig::new_1(Rgb { r: 16, g: 126, b: 229 })
    } else
    if *symbol == String::from_str("UNI") {
        GradientConfig::new_1(Rgb { r: 102, g: 51, b: 153 })
    } else
    if *symbol == String::from_str("FTT") {
        GradientConfig::new_1(Rgb { r: 144, g: 27, b: 169 })
    } else
    if *symbol == String::from_str("FIL") {
        GradientConfig::new_2(Rgb { r: 255, g: 85, b: 85 }, Rgb { r: 255, g: 153, b: 153 })
    } else
    if *symbol == String::from_str("VET") {
        GradientConfig::new_2(Rgb { r: 0, g: 153, b: 204 }, Rgb { r: 0, g: 51, b: 102 })
    } else
    if *symbol == String::from_str("EOS") {
        GradientConfig::new_2(Rgb { r: 57, g: 57, b: 57 }, Rgb { r: 1, g: 1, b: 1 })
    } else
    if *symbol == String::from_str("MKR") {
        GradientConfig::new_1(Rgb { r: 26, g: 171, b: 155 })
    } else
    if *symbol == String::from_str("SKY") {
        GradientConfig::new_2(Rgb { r: 48, g: 90, b: 224 }, Rgb { r: 102, g: 153, b: 255 })
    } else {
        GradientConfig::default()
    }
}

} // verus!
