//! Sort modes, the row sorter and the image sort engine.
use crate::key::{key_le, key_wf, lemma_key_le_total, lemma_key_le_trans, SortKey};
use crate::pixel::{Image, Rgb};
use vstd::prelude::*;
use vstd::seq_lib::{group_to_multiset_ensures, lemma_multiset_commutative, to_multiset_build};

pub mod brightness;
pub mod hue;
pub mod lightness;
pub mod saturation;

use brightness::{brightness, brightness_spec};
use hue::{hue, hue_spec};
use lightness::{lightness, lightness_spec};
use saturation::{saturation, saturation_spec};

verus! {

/// Which metric orders the pixels of a row.
#[derive(Clone, Copy, Debug, PartialEq, Eq, Structural)]
pub enum SortMode {
    Hue,
    Saturation,
    Lightness,
    Brightness,
}

/// The mode that a one-character choice names: `0` hue, `1` saturation,
/// `2` lightness, `3` brightness; any other text names none.
pub open spec fn mode_of_text(s: Seq<char>) -> Option<SortMode> {
    if s == seq!['0'] {
        Some(SortMode::Hue)
    } else if s == seq!['1'] {
        Some(SortMode::Saturation)
    } else if s == seq!['2'] {
        Some(SortMode::Lightness)
    } else if s == seq!['3'] {
        Some(SortMode::Brightness)
    } else {
        None
    }
}

impl SortMode {
    /// Reads a mode choice; `None` when the text names no mode.
    pub fn parse(s: &str) -> (r: Option<SortMode>)
        ensures
            r == mode_of_text(s@),
    {
        if s.unicode_len() != 1 {
            return None;
        }
        let c = s.get_char(0);
        assert(s@ =~= seq![c]);
        if c == '0' {
            Some(SortMode::Hue)
        } else if c == '1' {
            Some(SortMode::Saturation)
        } else if c == '2' {
            Some(SortMode::Lightness)
        } else if c == '3' {
            Some(SortMode::Brightness)
        } else {
            None
        }
    }
}

/// Hue is the mode used when a choice names no mode.
impl Default for SortMode {
    fn default() -> (m: SortMode)
        ensures
            m == SortMode::Hue,
    {
        SortMode::Hue
    }
}

/// The key of `p` under the metric that `mode` selects.
pub open spec fn key_spec(p: Rgb, mode: SortMode) -> (int, int) {
    match mode {
        SortMode::Hue => hue_spec(p),
        SortMode::Saturation => saturation_spec(p),
        SortMode::Lightness => lightness_spec(p),
        SortMode::Brightness => brightness_spec(p),
    }
}

/// Every key is a fraction within the bounds that comparison relies on.
pub proof fn lemma_key_wf(p: Rgb, mode: SortMode)
    ensures
        key_wf(key_spec(p, mode)),
{
}

/// The key of `p` under `mode`.
pub fn metric(p: &Rgb, mode: SortMode) -> (k: SortKey)
    ensures
        k@ == key_spec(*p, mode),
        key_wf(k@),
{
    proof { lemma_key_wf(*p, mode); }
    match mode {
        SortMode::Hue => hue(p),
        SortMode::Saturation => saturation(p),
        SortMode::Lightness => lightness(p),
        SortMode::Brightness => brightness(p),
    }
}

/// `p` may stand before `q` in a row sorted by `mode`.
pub open spec fn pixel_le(p: Rgb, q: Rgb, mode: SortMode) -> bool {
    key_le(key_spec(p, mode), key_spec(q, mode))
}

/// The keys of `s` do not decrease.
pub open spec fn sorted_by(s: Seq<Rgb>, mode: SortMode) -> bool {
    forall|i: int, j: int| 0 <= i < j < s.len() ==> #[trigger] pixel_le(s[i], s[j], mode)
}

/// `after` is `before` sorted by `mode`: the same pixels, each as often,
/// with non-decreasing keys; a row that is already in order stays as it is.
pub open spec fn row_sorted_from(before: Seq<Rgb>, after: Seq<Rgb>, mode: SortMode) -> bool {
    &&& after.to_multiset() == before.to_multiset()
    &&& sorted_by(after, mode)
    &&& sorted_by(before, mode) ==> after == before
}

proof fn lemma_pixel_le_total(p: Rgb, q: Rgb, mode: SortMode)
    ensures
        pixel_le(p, q, mode) || pixel_le(q, p, mode),
{
    lemma_key_le_total(key_spec(p, mode), key_spec(q, mode));
}

proof fn lemma_pixel_le_trans(p: Rgb, q: Rgb, r: Rgb, mode: SortMode)
    requires
        pixel_le(p, q, mode),
        pixel_le(q, r, mode),
    ensures
        pixel_le(p, r, mode),
{
    lemma_key_wf(p, mode);
    lemma_key_wf(q, mode);
    lemma_key_wf(r, mode);
    lemma_key_le_trans(key_spec(p, mode), key_spec(q, mode), key_spec(r, mode));
}

fn pixel_le_exec(p: &Rgb, q: &Rgb, mode: SortMode) -> (r: bool)
    ensures
        r == pixel_le(*p, *q, mode),
{
    let kp = metric(p, mode);
    let kq = metric(q, mode);
    kp.le(&kq)
}

/// Merges two sorted rows into one; where every pixel of `a` may stand
/// before every pixel of `b`, the result is `a` followed by `b`.
fn merge(a: &Vec<Rgb>, b: &Vec<Rgb>, mode: SortMode) -> (out: Vec<Rgb>)
    requires
        sorted_by(a@, mode),
        sorted_by(b@, mode),
    ensures
        out@.to_multiset() == (a@ + b@).to_multiset(),
        sorted_by(out@, mode),
        sorted_by(a@ + b@, mode) ==> out@ == a@ + b@,
{
    broadcast use group_to_multiset_ensures, vstd::multiset::group_multiset_axioms;

    let mut out: Vec<Rgb> = Vec::new();
    let mut i: usize = 0;
    let mut j: usize = 0;
    while i < a.len() || j < b.len()
        invariant
            i <= a.len(),
            j <= b.len(),
            sorted_by(a@, mode),
            sorted_by(b@, mode),
            out@.len() == i + j,
            out@.to_multiset() == a@.subrange(0, i as int).to_multiset().add(
                b@.subrange(0, j as int).to_multiset(),
            ),
            sorted_by(out@, mode),
            forall|k: int|
                0 <= k < out@.len() ==> (i < a.len() ==> pixel_le(#[trigger] out@[k], a@[i as int], mode))
                    && (j < b.len() ==> pixel_le(out@[k], b@[j as int], mode)),
            sorted_by(a@ + b@, mode) ==> (j == 0 || i == a.len()) && out@ == a@.subrange(0, i as int)
                + b@.subrange(0, j as int),
        decreases a.len() + b.len() - i - j,
    {
        let take_a = if j == b.len() {
            true
        } else if i == a.len() {
            false
        } else {
            pixel_le_exec(&a[i], &b[j], mode)
        };
        if take_a {
            let x = a[i];
            proof {
                if sorted_by(a@ + b@, mode) && j < b.len() {
                    assert((a@ + b@)[i as int] == a@[i as int]);
                    assert((a@ + b@)[a.len() as int] == b@[0]);
                }
                assert forall|k: int| 0 <= k < out@.len() + 1 && i + 1 < a.len() implies
                    pixel_le(#[trigger] out@.push(x)[k], a@[i + 1], mode) by {
                    assert(pixel_le(a@[i as int], a@[i + 1], mode));
                    if k < out@.len() {
                        lemma_pixel_le_trans(out@[k], a@[i as int], a@[i + 1], mode);
                    }
                }
                let sa = a@.subrange(0, i as int);
                let sb = b@.subrange(0, j as int);
                assert(a@.subrange(0, i + 1) =~= sa.push(x));
                to_multiset_build(sa, x);
                to_multiset_build(out@, x);
                assert(sa.to_multiset().insert(x).add(sb.to_multiset()) =~= sa.to_multiset().add(
                    sb.to_multiset(),
                ).insert(x));
            }
            out.push(x);
            i = i + 1;
        } else {
            let x = b[j];
            proof {
                if i < a.len() {
                    lemma_pixel_le_total(a@[i as int], x, mode);
                }
                if sorted_by(a@ + b@, mode) && i < a.len() {
                    assert((a@ + b@)[i as int] == a@[i as int]);
                    assert((a@ + b@)[a.len() as int] == b@[0]);
                }
                assert forall|k: int| 0 <= k < out@.len() + 1 && j + 1 < b.len() implies
                    pixel_le(#[trigger] out@.push(x)[k], b@[j + 1], mode) by {
                    assert(pixel_le(b@[j as int], b@[j + 1], mode));
                    if k < out@.len() {
                        lemma_pixel_le_trans(out@[k], b@[j as int], b@[j + 1], mode);
                    }
                }
                let sa = a@.subrange(0, i as int);
                let sb = b@.subrange(0, j as int);
                assert(b@.subrange(0, j + 1) =~= sb.push(x));
                to_multiset_build(sb, x);
                to_multiset_build(out@, x);
                assert(sa.to_multiset().add(sb.to_multiset().insert(x)) =~= sa.to_multiset().add(
                    sb.to_multiset(),
                ).insert(x));
            }
            out.push(x);
            j = j + 1;
        }
    }
    proof {
        assert(a@.subrange(0, i as int) =~= a@);
        assert(b@.subrange(0, j as int) =~= b@);
        lemma_multiset_commutative(a@, b@);
    }
    out
}

/// Sorts the pixels `v[lo..hi]` into a new row.
fn merge_sort(v: &Vec<Rgb>, lo: usize, hi: usize, mode: SortMode) -> (out: Vec<Rgb>)
    requires
        lo <= hi <= v@.len(),
    ensures
        row_sorted_from(v@.subrange(lo as int, hi as int), out@, mode),
    decreases hi - lo,
{
    broadcast use group_to_multiset_ensures;

    if hi - lo <= 1 {
        let mut out: Vec<Rgb> = Vec::new();
        if lo < hi {
            out.push(v[lo]);
        }
        assert(out@ =~= v@.subrange(lo as int, hi as int));
        out
    } else {
        let mid = lo + (hi - lo) / 2;
        let left = merge_sort(v, lo, mid, mode);
        let right = merge_sort(v, mid, hi, mode);
        let out = merge(&left, &right, mode);
        proof {
            let s = v@.subrange(lo as int, hi as int);
            let s1 = v@.subrange(lo as int, mid as int);
            let s2 = v@.subrange(mid as int, hi as int);
            assert(s =~= s1 + s2);
            lemma_multiset_commutative(s1, s2);
            lemma_multiset_commutative(left@, right@);
            if sorted_by(s, mode) {
                assert forall|i: int, j: int| 0 <= i < j < s1.len() implies
                    #[trigger] pixel_le(s1[i], s1[j], mode) by {
                    assert(s1[i] == s[i] && s1[j] == s[j]);
                }
                assert forall|i: int, j: int| 0 <= i < j < s2.len() implies
                    #[trigger] pixel_le(s2[i], s2[j], mode) by {
                    assert(s2[i] == s[i + s1.len()] && s2[j] == s[j + s1.len()]);
                }
            }
        }
        out
    }
}

/// Sorts `row` by `mode`, in place.
pub fn sort_row(row: &mut Vec<Rgb>, mode: SortMode)
    ensures
        row_sorted_from(old(row)@, final(row)@, mode),
{
    let sorted = merge_sort(row, 0, row.len(), mode);
    assert(row@.subrange(0, row@.len() as int) =~= row@);
    *row = sorted;
}

/// `after` is `before` with every row sorted by `mode`: the same dimensions,
/// and each row holds the pixels of the same row of `before`.
pub open spec fn image_sorted_from(before: Image, after: Image, mode: SortMode) -> bool {
    &&& after.width == before.width
    &&& after.height == before.height
    &&& after.rows@.len() == before.rows@.len()
    &&& forall|y: int|
        0 <= y < before.rows@.len() ==> row_sorted_from(before.row(y), #[trigger] after.row(y), mode)
}

/// Sorts row `y` of `rows` by `mode` and leaves every other row as it was.
pub fn sort_row_at(rows: &mut Vec<Vec<Rgb>>, y: usize, mode: SortMode)
    requires
        y < old(rows)@.len(),
    ensures
        final(rows)@.len() == old(rows)@.len(),
        row_sorted_from(old(rows)@[y as int]@, final(rows)@[y as int]@, mode),
        forall|k: int| 0 <= k < old(rows)@.len() && k != y ==> #[trigger] final(rows)@[k] == old(rows)@[k],
{
    let mut row: Vec<Rgb> = Vec::new();
    rows.set_and_swap(y, &mut row);
    sort_row(&mut row, mode);
    rows.set_and_swap(y, &mut row);
}

/// Sorts every row of `img` by the metric of `mode`. Rows keep their place;
/// pixels only move within their row.
pub fn sort_pixels(img: Image, mode: SortMode) -> (out: Image)
    requires
        img.wf(),
    ensures
        out.wf(),
        image_sorted_from(img, out, mode),
{
    broadcast use group_to_multiset_ensures;

    let ghost before = img;
    let width = img.width;
    let height = img.height;
    let mut rows = img.rows;
    let mut y: usize = 0;
    while y < rows.len()
        invariant
            rows@.len() == before.rows@.len(),
            y <= rows@.len(),
            forall|k: int| 0 <= k < y ==> row_sorted_from(before.row(k), #[trigger] rows@[k]@, mode),
            forall|k: int| y <= k < rows@.len() ==> #[trigger] rows@[k] == before.rows@[k],
        decreases rows@.len() - y,
    {
        sort_row_at(&mut rows, y, mode);
        y = y + 1;
    }
    let out = Image { width, height, rows };
    assert forall|k: int| 0 <= k < out.rows@.len() implies (#[trigger] out.rows@[k])@.len() == out.width by {
        assert(out.row(k).to_multiset() == before.row(k).to_multiset());
        assert(out.row(k).len() == out.row(k).to_multiset().len());
        assert(before.row(k).len() == before.row(k).to_multiset().len());
    }
    out
}

} // verus!
