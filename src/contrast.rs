use vstd::prelude::*;
use crate::color::Color;

verus! {

/// The offset added to both luminances of a contrast ratio (0.05 on the
/// same scale as `luminance`).
pub const LUMINANCE_OFFSET: u64 = 127500;

/// Relative luminance `0.2126 r + 0.7152 g + 0.0722 b` of the channels
/// taken as fractions of 255, scaled by `10000 * 255` to stay integral.
pub open spec fn luminance(c: Color) -> int {
    2126 * c.r + 7152 * c.g + 722 * c.b
}

/// Numerator of the contrast ratio of two colors: the larger luminance plus the offset.
pub open spec fn ratio_num(a: Color, b: Color) -> int {
    if luminance(a) >= luminance(b) {
        luminance(a) + LUMINANCE_OFFSET
    } else {
        luminance(b) + LUMINANCE_OFFSET
    }
}

/// Denominator of the contrast ratio of two colors: the smaller luminance plus the offset.
pub open spec fn ratio_den(a: Color, b: Color) -> int {
    if luminance(a) >= luminance(b) {
        luminance(b) + LUMINANCE_OFFSET
    } else {
        luminance(a) + LUMINANCE_OFFSET
    }
}

/// The contrast of `x` against `bg` is strictly greater than that of `y`.
pub open spec fn more_contrast(bg: Color, x: Color, y: Color) -> bool {
    ratio_num(bg, x) * ratio_den(bg, y) > ratio_num(bg, y) * ratio_den(bg, x)
}

/// `k` is the first of the candidates with the greatest contrast against `bg`.
pub open spec fn is_first_best(bg: Color, cands: Seq<Color>, k: int) -> bool {
    &&& 0 <= k < cands.len()
    &&& forall|j: int| 0 <= j < cands.len() ==> !more_contrast(bg, #[trigger] cands[j], cands[k])
    &&& forall|j: int| 0 <= j < k ==> more_contrast(bg, cands[k], #[trigger] cands[j])
}

/// A contrast ratio is never below one: its numerator is at least its
/// denominator, which is positive.
pub proof fn lemma_ratio_at_least_one(a: Color, b: Color)
    ensures
        ratio_den(a, b) > 0,
        ratio_num(a, b) >= ratio_den(a, b),
        ratio_num(a, b) == ratio_num(b, a),
        ratio_den(a, b) == ratio_den(b, a),
{
}

proof fn lemma_more_than_lesser(bg: Color, x: Color, y: Color, z: Color)
    requires
        !more_contrast(bg, x, y),
        more_contrast(bg, z, y),
    ensures
        more_contrast(bg, z, x),
{
    let (ax, dx) = (ratio_num(bg, x), ratio_den(bg, x));
    let (ay, dy) = (ratio_num(bg, y), ratio_den(bg, y));
    let (az, dz) = (ratio_num(bg, z), ratio_den(bg, z));
    assert(dx > 0 && dy > 0 && dz > 0);
    assert(ax * dz < az * dx) by (nonlinear_arith)
        requires
            ax * dy <= ay * dx,
            ay * dz < az * dy,
            dx > 0,
            dy > 0,
            dz > 0,
    {
        assert(ax * dy * dz <= ay * dx * dz);
        assert(ay * dz * dx < az * dy * dx);
        assert(ax * dz * dy < az * dx * dy);
    }
}

fn luminance_of(c: Color) -> (l: u64)
    ensures
        l == luminance(c),
        l <= 2550000,
{
    2126 * c.r as u64 + 7152 * c.g as u64 + 722 * c.b as u64
}

/// The contrast ratio of `c` against `bg`, as a numerator and a denominator.
fn ratio_of(bg: Color, c: Color) -> (nd: (u64, u64))
    ensures
        nd.0 == ratio_num(bg, c),
        nd.1 == ratio_den(bg, c),
        nd.0 <= 2677500,
        nd.1 <= 2677500,
{
    let lb = luminance_of(bg);
    let lc = luminance_of(c);
    if lb >= lc {
        (lb + LUMINANCE_OFFSET, lc + LUMINANCE_OFFSET)
    } else {
        (lc + LUMINANCE_OFFSET, lb + LUMINANCE_OFFSET)
    }
}

impl Color {
    /// The contrast ratio of `other` against this color, as a numerator and
    /// a denominator; the numerator is never below the denominator.
    pub fn contrast_ratio(&self, other: Color) -> (nd: (u64, u64))
        ensures
            nd.0 == ratio_num(*self, other),
            nd.1 == ratio_den(*self, other),
            nd.0 >= nd.1 > 0,
    {
        ratio_of(*self, other)
    }

    /// The candidate with the greatest contrast ratio against this color;
    /// among equals, the earliest.
    pub fn best_contrast(&self, candidates: &Vec<Color>) -> (r: Color)
        requires
            candidates@.len() > 0,
        ensures
            exists|k: int| is_first_best(*self, candidates@, k) && r == candidates@[k],
    {
        let bg = *self;
        let mut best: usize = 0;
        let mut best_ratio = ratio_of(bg, candidates[0]);
        let mut i: usize = 1;
        while i < candidates.len()
            invariant
                1 <= i <= candidates@.len(),
                best < i,
                best_ratio.0 == ratio_num(bg, candidates@[best as int]),
                best_ratio.1 == ratio_den(bg, candidates@[best as int]),
                best_ratio.0 <= 2677500,
                best_ratio.1 <= 2677500,
                forall|j: int|
                    0 <= j < i ==> !more_contrast(bg, #[trigger] candidates@[j], candidates@[best as int]),
                forall|j: int|
                    0 <= j < best ==> more_contrast(bg, candidates@[best as int], #[trigger] candidates@[j]),
            decreases candidates@.len() - i,
        {
            let cur = ratio_of(bg, candidates[i]);
            assert(cur.0 * best_ratio.1 <= 2677500 * 2677500) by (nonlinear_arith)
                requires
                    cur.0 <= 2677500,
                    best_ratio.1 <= 2677500,
            ;
            assert(best_ratio.0 * cur.1 <= 2677500 * 2677500) by (nonlinear_arith)
                requires
                    best_ratio.0 <= 2677500,
                    cur.1 <= 2677500,
            ;
            if cur.0 * best_ratio.1 > best_ratio.0 * cur.1 {
                let ghost old_best = best as int;
                proof {
                    assert forall|j: int| 0 <= j < i implies more_contrast(
                        bg,
                        candidates@[i as int],
                        #[trigger] candidates@[j],
                    ) by {
                        lemma_more_than_lesser(bg, candidates@[j], candidates@[old_best], candidates@[i as int]);
                    }
                }
                best = i;
                best_ratio = cur;
            }
            i = i + 1;
        }
        candidates[best]
    }
}

} // verus!
