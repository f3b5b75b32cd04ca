//! Scanline triangle geometry: edge interpolation, the span produced at
//! each scanline, and the matching point-membership test.  Rasterization
//! and hit testing share one edge-selection rule, so what is drawn and
//! what is clickable agree on every pixel.

use vstd::prelude::*;
use crate::ui::Vector2;
use crate::arith::{div_trunc, div_trunc_i128, lemma_i32_diff_mul_fits_i128, lemma_div_trunc_range};
use vstd::arithmetic::div_mod::{
    lemma_div_is_ordered, lemma_div_multiples_vanish, lemma_div_pos_is_pos,
};
use vstd::arithmetic::mul::{
    lemma_mul_inequality, lemma_mul_is_commutative, lemma_mul_nonnegative,
    lemma_mul_unary_negation,
};

verus! {

/// The x coordinate where the line a–b crosses height y, truncated toward
/// zero.  A horizontal line yields its first endpoint's x; it is only ever
/// interpolated at its own height.
pub open spec fn interp_spec(a: Vector2, b: Vector2, y: int) -> int {
    if a.y == b.y {
        a.x as int
    } else {
        a.x + div_trunc((y - a.y) * (b.x - a.x), b.y - a.y)
    }
}

/// At a height between the endpoints, the interpolated x stays between
/// the endpoints' x coordinates.
pub proof fn lemma_interp_bounds(a: Vector2, b: Vector2, y: int)
    requires
        a.y <= y <= b.y,
    ensures
        a.x <= b.x ==> a.x <= interp_spec(a, b, y) <= b.x,
        b.x <= a.x ==> b.x <= interp_spec(a, b, y) <= a.x,
{
    if a.y == b.y {
    } else {
        let d = b.y - a.y;
        let t = y - a.y;
        let dx = b.x - a.x;
        let num = t * dx;
        if dx >= 0 {
            lemma_mul_nonnegative(t, dx);
            assert(div_trunc(num, d) == num / d);
            lemma_div_pos_is_pos(num, d);
            lemma_mul_inequality(t, d, dx);
            lemma_div_is_ordered(num, dx * d, d);
            lemma_mul_is_commutative(d, dx);
            lemma_div_multiples_vanish(dx, d);
            assert(0 <= num / d <= dx);
        } else {
            let m = -dx;
            lemma_mul_unary_negation(t, dx);
            assert(t * m == -num);
            lemma_mul_nonnegative(t, m);
            assert(div_trunc(num, d) == -((t * m) / d));
            lemma_div_pos_is_pos(t * m, d);
            lemma_mul_inequality(t, d, m);
            lemma_div_is_ordered(t * m, m * d, d);
            lemma_mul_is_commutative(d, m);
            lemma_div_multiples_vanish(m, d);
            assert(0 <= (t * m) / d <= m);
            assert(dx <= div_trunc(num, d) <= 0);
        }
    }
}

/// Given two points that form a line, and a y coordinate, interpolate the
/// x coordinate on the line at that height.
pub fn interpolate(a: Vector2, b: Vector2, y: i32) -> (r: i32)
    requires
        i32::MIN <= interp_spec(a, b, y as int) <= i32::MAX,
    ensures
        r == interp_spec(a, b, y as int),
{
    if a.y == b.y {
        return a.x;
    }
    let t: i128 = y as i128 - a.y as i128;
    let dx: i128 = b.x as i128 - a.x as i128;
    let den: i128 = b.y as i128 - a.y as i128;
    proof {
        lemma_i32_diff_mul_fits_i128(t as int, dx as int);
        lemma_div_trunc_range(t as int * dx as int, den as int, 0x2_0000_0000_0000_0000);
    }
    let num: i128 = t * dx;
    let q: i128 = div_trunc_i128(num, den);
    (a.x as i128 + q) as i32
}

/// The three corners sorted by y ascending, ties keeping the argument
/// order (the stable sort of the rasterizer).
pub open spec fn sort3(a: Vector2, b: Vector2, c: Vector2) -> (Vector2, Vector2, Vector2) {
    let p0 = if b.y < a.y {
        b
    } else {
        a
    };
    let p1 = if b.y < a.y {
        a
    } else {
        b
    };
    if c.y < p0.y {
        (c, p0, p1)
    } else if c.y < p1.y {
        (p0, c, p1)
    } else {
        (p0, p1, c)
    }
}

/// The least y of the triangle's corners.
pub open spec fn y_min(a: Vector2, b: Vector2, c: Vector2) -> int {
    sort3(a, b, c).0.y as int
}

/// The greatest y of the triangle's corners.
pub open spec fn y_max(a: Vector2, b: Vector2, c: Vector2) -> int {
    sort3(a, b, c).2.y as int
}

/// The two triangle edges active at scanline y, left edge first, selected
/// as the rasterizer selects them: the edge spanning the full y range
/// is the left edge exactly when the lowest corner is left of the middle
/// corner, and the other active edge is (p0, p1) up to the middle
/// corner's height and (p1, p2) below it.
pub open spec fn edges_at(p0: Vector2, p1: Vector2, p2: Vector2, y: int) -> (
    (Vector2, Vector2),
    (Vector2, Vector2),
) {
    if p0.x <= p1.x && y <= p1.y {
        ((p0, p2), (p0, p1))
    } else if p0.x <= p1.x {
        ((p0, p2), (p1, p2))
    } else if y <= p1.y {
        ((p0, p1), (p0, p2))
    } else {
        ((p1, p2), (p0, p2))
    }
}

/// The horizontal span [x_start, x_end] that the rasterizer paints at
/// scanline y of the triangle a, b, c.  When x_start > x_end the span is
/// empty and paints nothing.
pub open spec fn span_at(a: Vector2, b: Vector2, c: Vector2, y: int) -> (int, int) {
    let s = sort3(a, b, c);
    let e = edges_at(s.0, s.1, s.2, y);
    (interp_spec(e.0.0, e.0.1, y), interp_spec(e.1.0, e.1.1, y))
}

/// One horizontal run of pixels: paint x_start through x_end inclusive at
/// height y; when x_start > x_end nothing is painted.
#[derive(Clone, Copy, Debug, PartialEq, Eq, Structural)]
pub struct Span {
    pub y: i32,
    pub x_start: i32,
    pub x_end: i32,
}

/// Sort the three corners by y ascending, keeping the argument order on
/// ties.
fn sort3_exec(a: Vector2, b: Vector2, c: Vector2) -> (r: (Vector2, Vector2, Vector2))
    ensures
        r == sort3(a, b, c),
        r.0.y <= r.1.y <= r.2.y,
{
    let (p0, p1) = if b.y < a.y {
        (b, a)
    } else {
        (a, b)
    };
    if c.y < p0.y {
        (c, p0, p1)
    } else if c.y < p1.y {
        (p0, c, p1)
    } else {
        (p0, p1, c)
    }
}

/// Given three points, compute the spans that fill the triangle abc with
/// a scanline algorithm: one span for every integer y from the lowest
/// corner to the highest, inclusive.
pub fn fill_triangle(a: Vector2, b: Vector2, c: Vector2) -> (spans: Vec<Span>)
    ensures
        spans@.len() == y_max(a, b, c) - y_min(a, b, c) + 1,
        forall|k: int|
            0 <= k < spans@.len() ==> {
                &&& (#[trigger] spans@[k]).y == y_min(a, b, c) + k
                &&& spans@[k].x_start == span_at(a, b, c, y_min(a, b, c) + k).0
                &&& spans@[k].x_end == span_at(a, b, c, y_min(a, b, c) + k).1
            },
{
    let (p0, p1, p2) = sort3_exec(a, b, c);
    let mut spans: Vec<Span> = Vec::new();
    // iterate through each y-level
    let mut y: i64 = p0.y as i64;
    while y <= p2.y as i64
        invariant
            (p0, p1, p2) == sort3(a, b, c),
            p0.y <= p1.y <= p2.y,
            p0.y as i64 <= y <= p2.y as i64 + 1,
            spans@.len() == y - p0.y,
            forall|k: int|
                0 <= k < spans@.len() ==> {
                    &&& (#[trigger] spans@[k]).y == y_min(a, b, c) + k
                    &&& spans@[k].x_start == span_at(a, b, c, y_min(a, b, c) + k).0
                    &&& spans@[k].x_end == span_at(a, b, c, y_min(a, b, c) + k).1
                },
        decreases p2.y as i64 + 1 - y,
    {
        let yc: i32 = y as i32;
        // compute active edges
        let (le, re) = if p0.x <= p1.x && yc <= p1.y {
            ((p0, p2), (p0, p1))
        } else if p0.x <= p1.x {
            ((p0, p2), (p1, p2))
        } else if yc <= p1.y {
            ((p0, p1), (p0, p2))
        } else {
            ((p1, p2), (p0, p2))
        };
        proof {
            lemma_interp_bounds(le.0, le.1, y as int);
            lemma_interp_bounds(re.0, re.1, y as int);
        }
        // get start and end of the span at this y-level
        let xs: i32 = interpolate(le.0, le.1, yc);
        let xe: i32 = interpolate(re.0, re.1, yc);
        spans.push(Span { y: yc, x_start: xs, x_end: xe });
        y = y + 1;
    }
    spans
}

/// Whether the span that the rasterizer paints at height y covers (x, y).
pub open spec fn hit_spec(a: Vector2, b: Vector2, c: Vector2, x: int, y: int) -> bool {
    &&& y_min(a, b, c) <= y <= y_max(a, b, c)
    &&& span_at(a, b, c, y).0 <= x <= span_at(a, b, c, y).1
}

/// Whether (x, y) lies inside the triangle abc, by the exact edge
/// selection and interpolation that `fill_triangle` uses.
pub fn point_in_triangle(a: Vector2, b: Vector2, c: Vector2, x: i32, y: i32) -> (r: bool)
    ensures
        r == hit_spec(a, b, c, x as int, y as int),
{
    let (p0, p1, p2) = sort3_exec(a, b, c);
    // ensure the y-value is within the least and greatest y of the corners
    if y < p0.y || y > p2.y {
        return false;
    }
    // compute active edges
    let (le, re) = if p0.x <= p1.x && y <= p1.y {
        ((p0, p2), (p0, p1))
    } else if p0.x <= p1.x {
        ((p0, p2), (p1, p2))
    } else if y <= p1.y {
        ((p0, p1), (p0, p2))
    } else {
        ((p1, p2), (p0, p2))
    };
    proof {
        lemma_interp_bounds(le.0, le.1, y as int);
        lemma_interp_bounds(re.0, re.1, y as int);
    }
    // get start and end x-values of the span at the given y-level
    let start: i32 = interpolate(le.0, le.1, y);
    let end: i32 = interpolate(re.0, re.1, y);
    x >= start && x <= end
}

/// Fill/hit agreement: a point is covered by some span of the sequence
/// that `fill_triangle` returns exactly when `point_in_triangle` reports
/// it inside the triangle.
pub proof fn lemma_fill_hit_agree(
    a: Vector2,
    b: Vector2,
    c: Vector2,
    spans: Seq<Span>,
    x: int,
    y: int,
)
    requires
        spans.len() == y_max(a, b, c) - y_min(a, b, c) + 1,
        forall|k: int|
            0 <= k < spans.len() ==> {
                &&& (#[trigger] spans[k]).y == y_min(a, b, c) + k
                &&& spans[k].x_start == span_at(a, b, c, y_min(a, b, c) + k).0
                &&& spans[k].x_end == span_at(a, b, c, y_min(a, b, c) + k).1
            },
    ensures
        hit_spec(a, b, c, x, y) <==> exists|k: int|
            0 <= k < spans.len() && (#[trigger] spans[k]).y == y && spans[k].x_start <= x
                <= spans[k].x_end,
{
    if hit_spec(a, b, c, x, y) {
        let k = y - y_min(a, b, c);
        assert(0 <= k < spans.len());
        assert(spans[k].y == y && spans[k].x_start <= x <= spans[k].x_end);
    }
}

} // verus!
