//! Sort keys as exact non-negative fractions, ordered by cross multiplication.
use vstd::prelude::*;

verus! {

/// The largest numerator a metric produces (brightness at white: 1000 * 255).
pub const MAX_NUM: u32 = 255000;

/// The largest denominator a metric produces.
pub const MAX_DEN: u32 = 1000;

/// The value `num / den` of a metric, kept exact so that comparing two keys
/// never rounds.
#[derive(Clone, Copy, Debug, PartialEq, Eq, Structural)]
pub struct SortKey {
    pub num: u32,
    pub den: u32,
}

impl View for SortKey {
    type V = (int, int);

    open spec fn view(&self) -> (int, int) {
        (self.num as int, self.den as int)
    }
}

/// A fraction `k.0 / k.1` that a metric can produce.
pub open spec fn key_wf(k: (int, int)) -> bool {
    0 <= k.0 <= MAX_NUM && 0 < k.1 <= MAX_DEN
}

/// `a.0 / a.1 <= b.0 / b.1`, for positive denominators.
pub open spec fn key_le(a: (int, int), b: (int, int)) -> bool {
    a.0 * b.1 <= b.0 * a.1
}

/// Two fractions of positive denominator are always comparable.
pub proof fn lemma_key_le_total(a: (int, int), b: (int, int))
    ensures
        key_le(a, b) || key_le(b, a),
{
}

/// The order of fractions is transitive.
pub proof fn lemma_key_le_trans(a: (int, int), b: (int, int), c: (int, int))
    requires
        a.1 > 0,
        b.1 > 0,
        c.1 > 0,
        key_le(a, b),
        key_le(b, c),
    ensures
        key_le(a, c),
{
    let (an, ad) = a;
    let (bn, bd) = b;
    let (cn, cd) = c;
    assert(an * bd * cd <= bn * ad * cd) by (nonlinear_arith)
        requires an * bd <= bn * ad, cd > 0;
    assert(bn * cd * ad <= cn * bd * ad) by (nonlinear_arith)
        requires bn * cd <= cn * bd, ad > 0;
    assert(an * cd <= cn * ad) by (nonlinear_arith)
        requires
            an * bd * cd <= bn * ad * cd,
            bn * cd * ad <= cn * bd * ad,
            bd > 0,
    ;
}

impl SortKey {
    /// Whether `self <= other` as fractions.
    pub fn le(&self, other: &SortKey) -> (r: bool)
        requires
            key_wf(self@),
            key_wf(other@),
        ensures
            r == key_le(self@, other@),
    {
        proof {
            assert(self.num as int * other.den as int <= MAX_NUM as int * MAX_DEN as int)
                by (nonlinear_arith)
                requires self.num <= MAX_NUM, other.den <= MAX_DEN;
            assert(other.num as int * self.den as int <= MAX_NUM as int * MAX_DEN as int)
                by (nonlinear_arith)
                requires other.num <= MAX_NUM, self.den <= MAX_DEN;
        }
        let lhs: u64 = (self.num as u64) * (other.den as u64);
        let rhs: u64 = (other.num as u64) * (self.den as u64);
        lhs <= rhs
    }
}

} // verus!
