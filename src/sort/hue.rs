//! Hue: the HSL hue angle in degrees, in [0, 360); 0 for grays.
use crate::key::SortKey;
use crate::pixel::{Image, Rgb};
use crate::sort::{image_sorted_from, sort_pixels, SortMode};
use vstd::prelude::*;

verus! {

/// The HSL hue of `p` in degrees as the fraction `num / chroma`, by the
/// piecewise formula on whichever channel is largest (red first, then green).
/// A gray (chroma 0) has hue 0.
pub open spec fn hue_spec(p: Rgb) -> (int, int) {
    let (r, g, b) = (p.r as int, p.g as int, p.b as int);
    let hi = p.max_spec();
    let c = hi - p.min_spec();
    if c == 0 {
        (0, 1)
    } else if hi == r {
        if g >= b {
            (60 * (g - b), c)
        } else {
            (60 * (g - b + 6 * c), c)
        }
    } else if hi == g {
        (60 * (b - r + 2 * c), c)
    } else {
        (60 * (r - g + 4 * c), c)
    }
}

pub fn hue(p: &Rgb) -> (k: SortKey)
    ensures
        k@ == hue_spec(*p),
{
    let (r, g, b) = (p.r as u32, p.g as u32, p.b as u32);
    let hi = p.max_channel() as u32;
    let c = hi - p.min_channel() as u32;
    if c == 0 {
        SortKey { num: 0, den: 1 }
    } else if hi == r {
        if g >= b {
            SortKey { num: 60 * (g - b), den: c }
        } else {
            SortKey { num: 60 * (6 * c - (b - g)), den: c }
        }
    } else if hi == g {
        SortKey { num: 60 * (2 * c + b - r), den: c }
    } else {
        SortKey { num: 60 * (4 * c + r - g), den: c }
    }
}

/// Sorts every row of `img` by hue.
pub fn sort(img: Image) -> (out: Image)
    requires
        img.wf(),
    ensures
        out.wf(),
        image_sorted_from(img, out, SortMode::Hue),
{
    sort_pixels(img, SortMode::Hue)
}

} // verus!
