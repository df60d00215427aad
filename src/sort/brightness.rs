//! Brightness: the BT.601 luma `0.299 R + 0.587 G + 0.114 B`.
use crate::key::SortKey;
use crate::pixel::{Image, Rgb};
use crate::sort::{image_sorted_from, sort_pixels, SortMode};
use vstd::prelude::*;

verus! {

/// The luma of `p` as the fraction `(299 R + 587 G + 114 B) / 1000`, in [0, 255].
pub open spec fn brightness_spec(p: Rgb) -> (int, int) {
    (299 * p.r + 587 * p.g + 114 * p.b, 1000)
}

pub fn brightness(p: &Rgb) -> (k: SortKey)
    ensures
        k@ == brightness_spec(*p),
{
    let num: u32 = 299 * (p.r as u32) + 587 * (p.g as u32) + 114 * (p.b as u32);
    SortKey { num, den: 1000 }
}

/// Sorts every row of `img` by brightness.
pub fn sort(img: Image) -> (out: Image)
    requires
        img.wf(),
    ensures
        out.wf(),
        image_sorted_from(img, out, SortMode::Brightness),
{
    sort_pixels(img, SortMode::Brightness)
}

} // verus!
