//! Lightness: the HSL lightness `(max + min) / 2` of the channels scaled to [0, 1].
use crate::key::SortKey;
use crate::pixel::{Image, Rgb};
use crate::sort::{image_sorted_from, sort_pixels, SortMode};
use vstd::prelude::*;

verus! {

/// The HSL lightness of `p` as the fraction `(max + min) / 510`, in [0, 1].
pub open spec fn lightness_spec(p: Rgb) -> (int, int) {
    (p.max_spec() + p.min_spec(), 510)
}

pub fn lightness(p: &Rgb) -> (k: SortKey)
    ensures
        k@ == lightness_spec(*p),
{
    let num: u32 = p.max_channel() as u32 + p.min_channel() as u32;
    SortKey { num, den: 510 }
}

/// Sorts every row of `img` by lightness.
pub fn sort(img: Image) -> (out: Image)
    requires
        img.wf(),
    ensures
        out.wf(),
        image_sorted_from(img, out, SortMode::Lightness),
{
    sort_pixels(img, SortMode::Lightness)
}

} // verus!
