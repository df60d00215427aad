//! Laws of the sort engine, stated over the contracts of its functions.
use crate::key::{key_le, SortKey};
use crate::pixel::{Image, Rgb};
use crate::sort::{image_sorted_from, key_spec, pixel_le, row_sorted_from, sorted_by, SortMode};
use vstd::prelude::*;
use vstd::seq_lib::group_to_multiset_ensures;

verus! {

/// Sorting keeps the dimensions of the image, and every output row holds
/// exactly the pixels of the same input row, each as often.
pub proof fn lemma_sort_permutes_rows(img: Image, out: Image, mode: SortMode)
    requires
        img.wf(),
        image_sorted_from(img, out, mode),
    ensures
        out.wf(),
        out.width == img.width,
        out.height == img.height,
        forall|y: int|
            0 <= y < img.height ==> (#[trigger] out.row(y)).to_multiset() == img.row(y).to_multiset(),
{
    broadcast use group_to_multiset_ensures;

    assert forall|y: int| 0 <= y < out.rows@.len() implies (#[trigger] out.rows@[y])@.len()
        == out.width by {
        assert(row_sorted_from(img.row(y), out.row(y), mode));
        assert(out.row(y).len() == out.row(y).to_multiset().len());
        assert(img.row(y).len() == img.row(y).to_multiset().len());
    }
}

/// In every output row, each pixel's key is at most the key of its right neighbour.
pub proof fn lemma_sort_orders_neighbours(img: Image, out: Image, mode: SortMode)
    requires
        image_sorted_from(img, out, mode),
    ensures
        forall|y: int, i: int|
            0 <= y < out.rows@.len() && 0 <= i && i + 1 < out.row(y).len() ==> key_le(
                key_spec(#[trigger] out.row(y)[i], mode),
                key_spec(out.row(y)[i + 1], mode),
            ),
{
    assert forall|y: int, i: int|
        0 <= y < out.rows@.len() && 0 <= i && i + 1 < out.row(y).len() implies key_le(
        key_spec(#[trigger] out.row(y)[i], mode),
        key_spec(out.row(y)[i + 1], mode),
    ) by {
        assert(row_sorted_from(img.row(y), out.row(y), mode));
        assert(sorted_by(out.row(y), mode));
        assert(pixel_le(out.row(y)[i], out.row(y)[i + 1], mode));
    }
}

/// Sorting an image that was already sorted by the same mode changes nothing.
pub proof fn lemma_resort_is_identity(img: Image, once: Image, twice: Image, mode: SortMode)
    requires
        image_sorted_from(img, once, mode),
        image_sorted_from(once, twice, mode),
    ensures
        twice.width == once.width,
        twice.height == once.height,
        twice.rows@.len() == once.rows@.len(),
        forall|y: int| 0 <= y < once.rows@.len() ==> #[trigger] twice.row(y) == once.row(y),
{
    assert forall|y: int| 0 <= y < once.rows@.len() implies #[trigger] twice.row(y) == once.row(y) by {
        assert(row_sorted_from(img.row(y), once.row(y), mode));
        assert(row_sorted_from(once.row(y), twice.row(y), mode));
    }
}

/// A metric gives the same key each time it is applied to the same pixel.
pub proof fn lemma_metric_deterministic(p: Rgb, mode: SortMode, k1: SortKey, k2: SortKey)
    requires
        k1@ == key_spec(p, mode),
        k2@ == key_spec(p, mode),
    ensures
        k1 == k2,
{
}

} // verus!
