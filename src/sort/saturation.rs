//! Saturation: the HSL saturation `chroma / (1 - |2L - 1|)`, zero for grays.
use crate::key::SortKey;
use crate::pixel::{Image, Rgb};
use crate::sort::{image_sorted_from, sort_pixels, SortMode};
use vstd::prelude::*;

verus! {

/// The HSL saturation of `p` as a fraction in [0, 1]. With channels in
/// [0, 255], `chroma / (1 - |2L - 1|)` is `(max - min) / (255 - |max + min - 255|)`;
/// a gray (max == min) has saturation 0.
pub open spec fn saturation_spec(p: Rgb) -> (int, int) {
    let c = p.max_spec() - p.min_spec();
    let s = p.max_spec() + p.min_spec();
    if c == 0 {
        (0, 1)
    } else if s <= 255 {
        (c, s)
    } else {
        (c, 510 - s)
    }
}

pub fn saturation(p: &Rgb) -> (k: SortKey)
    ensures
        k@ == saturation_spec(*p),
{
    let hi = p.max_channel() as u32;
    let lo = p.min_channel() as u32;
    let c = hi - lo;
    let s = hi + lo;
    if c == 0 {
        SortKey { num: 0, den: 1 }
    } else if s <= 255 {
        SortKey { num: c, den: s }
    } else {
        SortKey { num: c, den: 510 - s }
    }
}

/// Sorts every row of `img` by saturation.
pub fn sort(img: Image) -> (out: Image)
    requires
        img.wf(),
    ensures
        out.wf(),
        image_sorted_from(img, out, SortMode::Saturation),
{
    sort_pixels(img, SortMode::Saturation)
}

} // verus!
