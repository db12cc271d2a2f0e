use vstd::prelude::*;

verus! {

/// A vertex's screen position truncated to whole pixels, as the winding test
/// reads it.
#[derive(Clone, Copy, Debug, PartialEq, Eq, Structural)]
pub struct PixelPoint {
    pub x: i32,
    pub y: i32,
}

/// Twice the signed area of triangle `a, b, c`: the cross product of the
/// edges `a -> b` and `a -> c`.
pub open spec fn double_area(a: PixelPoint, b: PixelPoint, c: PixelPoint) -> int {
    (b.x - a.x) * (c.y - a.y) - (c.x - a.x) * (b.y - a.y)
}

/// A triangle given in the order `v1, v2, v3` is back-facing or degenerate,
/// and so drawn not at all, when `double_area(v1, v3, v2)` is not negative.
pub open spec fn culled(v1: PixelPoint, v2: PixelPoint, v3: PixelPoint) -> bool {
    double_area(v1, v3, v2) >= 0
}

impl PixelPoint {
    pub fn new(x: i32, y: i32) -> (p: PixelPoint)
        ensures
            p.x == x,
            p.y == y,
    {
        PixelPoint { x, y }
    }

    /// Twice the signed area of the triangle `self, v1, v2`.
    pub fn calc_double_area(&self, v1: &PixelPoint, v2: &PixelPoint) -> (r: i128)
        ensures
            r == double_area(*self, *v1, *v2),
    {
        let x1 = v1.x as i128 - self.x as i128;
        let y1 = v1.y as i128 - self.y as i128;
        let x2 = v2.x as i128 - self.x as i128;
        let y2 = v2.y as i128 - self.y as i128;
        assert(-0x1_0000_0000 * 0x1_0000_0000 <= x1 * y2 <= 0x1_0000_0000 * 0x1_0000_0000) by (nonlinear_arith)
            requires
                -0x1_0000_0000 < x1 < 0x1_0000_0000,
                -0x1_0000_0000 < y2 < 0x1_0000_0000,
        ;
        assert(-0x1_0000_0000 * 0x1_0000_0000 <= x2 * y1 <= 0x1_0000_0000 * 0x1_0000_0000)
            by (nonlinear_arith)
            requires
                -0x1_0000_0000 < x2 < 0x1_0000_0000,
                -0x1_0000_0000 < y1 < 0x1_0000_0000,
        ;
        x1 * y2 - x2 * y1
    }
}

/// Whether the triangle `v1, v2, v3`, in the order its vertices were given,
/// is to be skipped: back-facing under the Y-down, clockwise-front
/// convention, or of zero area.
pub fn is_culled(v1: &PixelPoint, v2: &PixelPoint, v3: &PixelPoint) -> (r: bool)
    ensures
        r == culled(*v1, *v2, *v3),
{
    v1.calc_double_area(v3, v2) >= 0
}

/// For vertices already sorted by ascending `y`: whether the long edge from
/// `min` to `max` is the right side of every scanline, the two edges through
/// `mid` then being the left side. With `y` growing downwards this holds when
/// `mid` lies left of the long edge on screen.
pub fn long_edge_on_right(min: &PixelPoint, mid: &PixelPoint, max: &PixelPoint) -> (r: bool)
    ensures
        r == (double_area(*min, *max, *mid) >= 0),
{
    min.calc_double_area(max, mid) >= 0
}

/// Reversing the winding of a triangle, by exchanging any two of its
/// vertices, negates its double area.
pub proof fn lemma_reversed_winding_negates_area(a: PixelPoint, b: PixelPoint, c: PixelPoint)
    ensures
        double_area(a, c, b) == -double_area(a, b, c),
        double_area(b, a, c) == -double_area(a, b, c),
        double_area(c, b, a) == -double_area(a, b, c),
{
    assert(double_area(b, a, c) == -double_area(a, b, c)) by (nonlinear_arith);
    assert(double_area(c, b, a) == -double_area(a, b, c)) by (nonlinear_arith);
}

/// Reversing the winding of a triangle of non-zero area turns a drawn
/// triangle into a culled one and a culled one into a drawn one; a triangle
/// of zero area is culled in either winding.
pub proof fn lemma_reversed_winding_toggles_cull(a: PixelPoint, b: PixelPoint, c: PixelPoint)
    ensures
        double_area(a, b, c) != 0 ==> (culled(a, c, b) != culled(a, b, c)),
        double_area(a, b, c) != 0 ==> (culled(b, a, c) != culled(a, b, c)),
        double_area(a, b, c) != 0 ==> (culled(c, b, a) != culled(a, b, c)),
        double_area(a, b, c) == 0 ==> culled(a, b, c) && culled(a, c, b) && culled(b, a, c)
            && culled(c, b, a),
{
    lemma_reversed_winding_negates_area(a, b, c);
    lemma_reversed_winding_negates_area(a, c, b);
    lemma_reversed_winding_negates_area(b, a, c);
    lemma_reversed_winding_negates_area(c, b, a);
}

/// Three points on one line have zero double area, so the triangle they
/// span is culled and yields no pixel.
pub proof fn lemma_collinear_culled(a: PixelPoint, b: PixelPoint, c: PixelPoint)
    requires
        (b.x - a.x) * (c.y - a.y) == (c.x - a.x) * (b.y - a.y),
    ensures
        double_area(a, b, c) == 0,
        culled(a, b, c),
{
    lemma_reversed_winding_negates_area(a, b, c);
}

/// `r` holds `a`, `b` and `c` in some order.
pub open spec fn is_permutation_of<T>(r: (T, T, T), a: T, b: T, c: T) -> bool {
    ||| r == (a, b, c)
    ||| r == (a, c, b)
    ||| r == (b, a, c)
    ||| r == (b, c, a)
    ||| r == (c, a, b)
    ||| r == (c, b, a)
}

/// `less` answers every pair, the same way each time, and never says both
/// `x < y` and `y < x`; a strict comparison such as `<` on coordinates does.
pub open spec fn is_strict_comparison<T, F: Fn(&T, &T) -> bool>(less: F) -> bool {
    &&& forall|x: &T, y: &T| #[trigger] less.requires((x, y))
    &&& forall|x: &T, y: &T, r1: bool, r2: bool|
        #[trigger] less.ensures((x, y), r1) && #[trigger] less.ensures((x, y), r2) ==> r1 == r2
    &&& forall|x: &T, y: &T|
        #[trigger] less.ensures((x, y), true) ==> !#[trigger] less.ensures((y, x), true)
}

/// Orders three vertices by ascending `y` with three compare-and-swap steps:
/// the last two, then the first two, then the last two again. `less(p, q)`
/// says whether `p` lies above `q`. The result holds the same three values,
/// and neither of its neighbours lies above the one before it.
pub fn sort_by_y<T: Copy, F: Fn(&T, &T) -> bool>(v1: T, v2: T, v3: T, less: F) -> (r: (T, T, T))
    requires
        is_strict_comparison(less),
    ensures
        is_permutation_of(r, v1, v2, v3),
        !less.ensures((&r.1, &r.0), true),
        !less.ensures((&r.2, &r.1), true),
{
    let mut min = v1;
    let mut mid = v2;
    let mut max = v3;
    if less(&max, &mid) {
        let t = mid;
        mid = max;
        max = t;
    }
    if less(&mid, &min) {
        let t = mid;
        mid = min;
        min = t;
    }
    if less(&max, &mid) {
        let t = max;
        max = mid;
        mid = t;
    }
    (min, mid, max)
}

} // verus!
