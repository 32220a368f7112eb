//! Straight line segments and the integer line rasterizer.
//!
//! The rasterizer samples the exact rational position of each step of a
//! digital differential analyzer: with `s = max(|dx|, |dy|)` steps, sample
//! `k` lies at `(x0 + k*dx/s, y0 + k*dy/s)`, each coordinate rounded to the
//! nearest integer (ties away from zero). Working over the exact rationals
//! makes the emitted pixel set independent of the traversal direction.

use vstd::prelude::*;
use vstd::arithmetic::div_mod::{
    lemma_div_is_ordered, lemma_div_nonincreasing, lemma_div_pos_is_pos,
    lemma_fundamental_div_mod_converse,
};
use vstd::math::{abs, max, min};
use crate::canvas::{lemma_painted_trans, painted, Displayable};
use crate::color::Color;
use crate::drawable::Drawable;
use crate::point::Point;

verus! {

/// An ordered pair of endpoints; a line has no identity beyond them.
#[derive(Clone, Copy, Debug, PartialEq, Eq, Structural)]
pub struct Line {
    pub start: Point,
    pub end: Point,
}

impl Line {
    pub fn new(start: &Point, end: &Point) -> (l: Line)
        ensures
            l.start == *start,
            l.end == *end,
    {
        Line { start: *start, end: *end }
    }

    /// A segment between two points drawn uniformly from the grid
    /// `[0, width) x [0, height)`.
    pub fn random(width: i32, height: i32) -> (l: Line)
        requires
            0 < width,
            0 < height,
        ensures
            0 <= l.start.x < width,
            0 <= l.start.y < height,
            0 <= l.end.x < width,
            0 <= l.end.y < height,
    {
        Line::new(&Point::random(width, height), &Point::random(width, height))
    }
}

/// Number of steps the rasterizer takes from `a` to `b`: the Chebyshev
/// distance `max(|dx|, |dy|)`; it emits one pixel more than that.
pub open spec fn steps_of(a: Point, b: Point) -> int {
    max(abs(b.x - a.x) as int, abs(b.y - a.y) as int)
}

/// `n / d` rounded to the nearest integer, ties away from zero (`d > 0`).
pub open spec fn rdiv(n: int, d: int) -> int {
    if n >= 0 {
        (2 * n + d) / (2 * d)
    } else {
        -((2 * (-n) + d) / (2 * d))
    }
}

/// The pixel emitted at step `k` of the walk from `a` to `b`: the exact
/// rational sample position, rounded to the nearest integer coordinates.
pub open spec fn line_point(a: Point, b: Point, k: int) -> (int, int) {
    let s = steps_of(a, b);
    if s == 0 {
        (a.x as int, a.y as int)
    } else {
        (rdiv(a.x * s + k * (b.x - a.x), s), rdiv(a.y * s + k * (b.y - a.y), s))
    }
}

/// The pixels of the first `n` steps of the walk from `a` to `b`.
pub open spec fn line_prefix_set(a: Point, b: Point, n: int) -> Set<(int, int)> {
    Set::new(|p: (int, int)| exists|k: int| 0 <= k < n && (#[trigger] line_point(a, b, k)) == p)
}

/// All pixels of the segment from `a` to `b`, endpoints included.
pub open spec fn line_pixel_set(a: Point, b: Point) -> Set<(int, int)> {
    line_prefix_set(a, b, steps_of(a, b) + 1)
}

/// Rounding a value that is an exact multiple of the denominator is exact.
proof fn lemma_rdiv_exact(m: int, d: int)
    requires
        0 < d,
    ensures
        rdiv(m * d, d) == m,
{
    if m >= 0 {
        assert(m * d >= 0) by (nonlinear_arith)
            requires
                m >= 0,
                d > 0,
        ;
        assert(2 * (m * d) + d == m * (2 * d) + d) by (nonlinear_arith);
        lemma_fundamental_div_mod_converse(2 * (m * d) + d, 2 * d, m, d);
    } else {
        assert(m * d < 0) by (nonlinear_arith)
            requires
                m < 0,
                d > 0,
        ;
        assert(2 * (-(m * d)) + d == (-m) * (2 * d) + d) by (nonlinear_arith);
        lemma_fundamental_div_mod_converse(2 * (-(m * d)) + d, 2 * d, -m, d);
    }
}

/// Rounding is monotone in the numerator.
proof fn lemma_rdiv_ordered(n1: int, n2: int, d: int)
    requires
        0 < d,
        n1 <= n2,
    ensures
        rdiv(n1, d) <= rdiv(n2, d),
{
    if n1 >= 0 {
        lemma_div_is_ordered(2 * n1 + d, 2 * n2 + d, 2 * d);
    } else if n2 < 0 {
        lemma_div_is_ordered(2 * (-n2) + d, 2 * (-n1) + d, 2 * d);
    } else {
        lemma_div_pos_is_pos(2 * (-n1) + d, 2 * d);
        lemma_div_pos_is_pos(2 * n2 + d, 2 * d);
    }
}

/// The sample numerator stays between the endpoint multiples, so each
/// rounded coordinate stays between the endpoint coordinates.
proof fn lemma_line_num_bounds(c0: int, c1: int, s: int, k: int)
    requires
        0 < s <= 0x1_0000_0000,
        0 <= k <= s,
        abs(c1 - c0) <= s,
        -0x8000_0000 <= c0 <= 0x7fff_ffff,
        -0x8000_0000 <= c1 <= 0x7fff_ffff,
    ensures
        -0x1_0000_0000_0000_0000 <= c0 * s <= 0x1_0000_0000_0000_0000,
        -0x1_0000_0000_0000_0000 <= k * (c1 - c0) <= 0x1_0000_0000_0000_0000,
        -0x1_0000_0000_0000_0000 <= c0 * s + k * (c1 - c0) <= 0x1_0000_0000_0000_0000,
        min(c0, c1) <= rdiv(c0 * s + k * (c1 - c0), s) <= max(c0, c1),
{
    let d = c1 - c0;
    let n = c0 * s + k * d;
    assert(c0 * s + s * d == c1 * s) by (nonlinear_arith)
        requires
            d == c1 - c0,
    ;
    assert(-0x1_0000_0000_0000_0000 <= c0 * s <= 0x1_0000_0000_0000_0000) by (nonlinear_arith)
        requires
            0 < s <= 0x1_0000_0000,
            -0x8000_0000 <= c0 <= 0x7fff_ffff,
    ;
    assert(-0x1_0000_0000_0000_0000 <= k * d <= 0x1_0000_0000_0000_0000) by (nonlinear_arith)
        requires
            0 <= k <= s <= 0x1_0000_0000,
            -0x1_0000_0000 <= d <= 0x1_0000_0000,
    ;
    if d >= 0 {
        assert(0 <= k * d <= s * d) by (nonlinear_arith)
            requires
                0 <= k <= s,
                0 <= d,
        ;
        lemma_rdiv_exact(c0, s);
        lemma_rdiv_exact(c1, s);
        lemma_rdiv_ordered(c0 * s, n, s);
        lemma_rdiv_ordered(n, c1 * s, s);
    } else {
        assert(s * d <= k * d <= 0) by (nonlinear_arith)
            requires
                0 <= k <= s,
                d < 0,
        ;
        lemma_rdiv_exact(c0, s);
        lemma_rdiv_exact(c1, s);
        lemma_rdiv_ordered(c1 * s, n, s);
        lemma_rdiv_ordered(n, c0 * s, s);
    }
    assert(-0x1_0000_0000_0000_0000 <= min(c0, c1) * s && max(c0, c1) * s
        <= 0x1_0000_0000_0000_0000) by (nonlinear_arith)
        requires
            0 < s <= 0x1_0000_0000,
            -0x8000_0000 <= min(c0, c1) <= 0x7fff_ffff,
            -0x8000_0000 <= max(c0, c1) <= 0x7fff_ffff,
    ;
}

/// Walking the segment backwards visits exactly the same pixels in
/// reverse order: step `s - k` from `b` to `a` is step `k` from `a` to `b`.
pub proof fn lemma_line_point_swap(a: Point, b: Point, k: int)
    requires
        0 <= k <= steps_of(a, b),
    ensures
        steps_of(b, a) == steps_of(a, b),
        line_point(b, a, steps_of(a, b) - k) == line_point(a, b, k),
{
    let s = steps_of(a, b);
    if s == 0 {
    } else {
        assert(b.x * s + (s - k) * (a.x - b.x) == a.x * s + k * (b.x - a.x)) by (nonlinear_arith);
        assert(b.y * s + (s - k) * (a.y - b.y) == a.y * s + k * (b.y - a.y)) by (nonlinear_arith);
    }
}

/// Rasterizing `a -> b` and `b -> a` yields identical pixel sets.
pub proof fn lemma_line_pixels_symmetric(a: Point, b: Point)
    ensures
        line_pixel_set(a, b) == line_pixel_set(b, a),
{
    let s = steps_of(a, b);
    assert forall|p: (int, int)| line_pixel_set(a, b).contains(p) implies line_pixel_set(
        b,
        a,
    ).contains(p) by {
        let k = choose|k: int| 0 <= k <= s && (#[trigger] line_point(a, b, k)) == p;
        lemma_line_point_swap(a, b, k);
        assert((#[trigger] line_point(b, a, s - k)) == p);
    }
    assert forall|p: (int, int)| line_pixel_set(b, a).contains(p) implies line_pixel_set(
        a,
        b,
    ).contains(p) by {
        let k = choose|k: int| 0 <= k <= steps_of(b, a) && (#[trigger] line_point(b, a, k)) == p;
        lemma_line_point_swap(b, a, k);
        assert((#[trigger] line_point(a, b, steps_of(b, a) - k)) == p);
    }
    assert(line_pixel_set(a, b) =~= line_pixel_set(b, a));
}

/// The walk starts at `a` and ends at `b`.
pub proof fn lemma_line_endpoints(a: Point, b: Point)
    ensures
        line_point(a, b, 0) == (a.x as int, a.y as int),
        line_point(a, b, steps_of(a, b)) == (b.x as int, b.y as int),
{
    let s = steps_of(a, b);
    if s == 0 {
    } else {
        assert(a.x * s + 0 * (b.x - a.x) == a.x * s) by (nonlinear_arith);
        assert(a.y * s + 0 * (b.y - a.y) == a.y * s) by (nonlinear_arith);
        assert(a.x * s + s * (b.x - a.x) == b.x * s) by (nonlinear_arith);
        assert(a.y * s + s * (b.y - a.y) == b.y * s) by (nonlinear_arith);
        lemma_rdiv_exact(a.x as int, s);
        lemma_rdiv_exact(a.y as int, s);
        lemma_rdiv_exact(b.x as int, s);
        lemma_rdiv_exact(b.y as int, s);
    }
}

/// A segment's pixel set contains both of its endpoints.
pub proof fn lemma_line_pixel_set_endpoints(a: Point, b: Point)
    ensures
        line_pixel_set(a, b).contains((a.x as int, a.y as int)),
        line_pixel_set(a, b).contains((b.x as int, b.y as int)),
{
    lemma_line_endpoints(a, b);
    assert((#[trigger] line_point(a, b, 0)) == (a.x as int, a.y as int));
    assert((#[trigger] line_point(a, b, steps_of(a, b))) == (b.x as int, b.y as int));
}

/// Distinct steps emit distinct pixels: along the dominant axis the walk
/// moves by exactly one pixel per step, so no pixel (in particular no
/// endpoint) is ever emitted twice.
pub proof fn lemma_line_points_distinct(a: Point, b: Point, k1: int, k2: int)
    requires
        0 <= k1 < k2 <= steps_of(a, b),
    ensures
        line_point(a, b, k1) != line_point(a, b, k2),
{
    let s = steps_of(a, b);
    if abs(b.x - a.x) == s {
        let d = b.x - a.x;
        assert forall|k: int| 0 <= k <= s implies (#[trigger] line_point(a, b, k)).0 == (if d >= 0 {
            a.x + k
        } else {
            a.x - k
        }) by {
            if d >= 0 {
                assert(a.x * s + k * d == (a.x + k) * s) by (nonlinear_arith)
                    requires
                        d == s,
                ;
                lemma_rdiv_exact(a.x + k, s);
            } else {
                assert(a.x * s + k * d == (a.x - k) * s) by (nonlinear_arith)
                    requires
                        d == -s,
                ;
                lemma_rdiv_exact(a.x - k, s);
            }
        }
    } else {
        let d = b.y - a.y;
        assert(abs(d) == s);
        assert forall|k: int| 0 <= k <= s implies (#[trigger] line_point(a, b, k)).1 == (if d >= 0 {
            a.y + k
        } else {
            a.y - k
        }) by {
            if d >= 0 {
                assert(a.y * s + k * d == (a.y + k) * s) by (nonlinear_arith)
                    requires
                        d == s,
                ;
                lemma_rdiv_exact(a.y + k, s);
            } else {
                assert(a.y * s + k * d == (a.y - k) * s) by (nonlinear_arith)
                    requires
                        d == -s,
                ;
                lemma_rdiv_exact(a.y - k, s);
            }
        }
    }
}

/// `n / d` rounded to nearest, ties away from zero, for positive `d`.
fn round_div(n: i128, d: i128) -> (q: i128)
    requires
        0 < d <= 0x1_0000_0000_0000,
        -0x1_0000_0000_0000_0000_0000 <= n <= 0x1_0000_0000_0000_0000_0000,
    ensures
        q == rdiv(n as int, d as int),
{
    if n >= 0 {
        let un: u128 = (2 * n + d) as u128;
        let ud: u128 = (2 * d) as u128;
        proof {
            lemma_div_pos_is_pos(2 * n + d, 2 * d);
            lemma_div_nonincreasing(2 * n + d, 2 * d);
        }
        (un / ud) as i128
    } else {
        let m: i128 = -n;
        let um: u128 = (2 * m + d) as u128;
        let ud: u128 = (2 * d) as u128;
        proof {
            lemma_div_pos_is_pos(2 * m + d, 2 * d);
            lemma_div_nonincreasing(2 * m + d, 2 * d);
        }
        let q0: u128 = um / ud;
        -(q0 as i128)
    }
}

/// The pixels of the segment from `a` to `b`, in traversal order: sample
/// `k` of the sequence is exactly `line_point(a, b, k)`, the first sample
/// is `a` and the last is `b`.
#[verifier::loop_isolation(false)]
pub fn line_points(a: &Point, b: &Point) -> (r: Vec<Point>)
    ensures
        r@.len() == steps_of(*a, *b) + 1,
        forall|k: int|
            0 <= k < r@.len() ==> ((#[trigger] r@[k]).x as int, r@[k].y as int) == line_point(
                *a,
                *b,
                k,
            ),
        r@[0] == *a,
        r@[r@.len() - 1] == *b,
{
    proof {
        lemma_line_endpoints(*a, *b);
    }
    let x0: i64 = a.x as i64;
    let y0: i64 = a.y as i64;
    let x1: i64 = b.x as i64;
    let y1: i64 = b.y as i64;
    let dx: i64 = x1 - x0;
    let dy: i64 = y1 - y0;
    let adx: i64 = if dx < 0 {
        -dx
    } else {
        dx
    };
    let ady: i64 = if dy < 0 {
        -dy
    } else {
        dy
    };
    let s: i64 = if adx >= ady {
        adx
    } else {
        ady
    };
    assert(s as int == steps_of(*a, *b));
    let mut r: Vec<Point> = Vec::new();
    if s == 0 {
        r.push(Point { x: a.x, y: a.y });
        return r;
    }
    let mut k: i64 = 0;
    while k <= s
        invariant
            0 <= k <= s + 1,
            r@.len() == k,
            forall|j: int|
                0 <= j < k ==> ((#[trigger] r@[j]).x as int, r@[j].y as int) == line_point(
                    *a,
                    *b,
                    j,
                ),
        decreases s + 1 - k,
    {
        proof {
            lemma_line_num_bounds(x0 as int, x1 as int, s as int, k as int);
            lemma_line_num_bounds(y0 as int, y1 as int, s as int, k as int);
        }
        let nx: i128 = (x0 as i128) * (s as i128) + (k as i128) * (dx as i128);
        let ny: i128 = (y0 as i128) * (s as i128) + (k as i128) * (dy as i128);
        let px: i128 = round_div(nx, s as i128);
        let py: i128 = round_div(ny, s as i128);
        r.push(Point { x: px as i32, y: py as i32 });
        k = k + 1;
    }
    r
}

impl Drawable for Line {
    /// A line covers exactly the rasterized pixels of its segment.
    open spec fn pixels(&self) -> Set<(int, int)> {
        line_pixel_set(self.start, self.end)
    }

    open spec fn can_draw(&self) -> bool {
        true
    }

    fn draw<D: Displayable>(&self, image: &mut D) {
        let ghost c0: D = *image;
        let c = self.color();
        draw_line(self, image, c);
        proof {
            assert(painted(c0, *image, self.pixels(), c));
        }
    }
}

/// Extending the walk by one step adds exactly that step's pixel.
proof fn lemma_prefix_set_step(a: Point, b: Point, n: int)
    requires
        0 <= n,
    ensures
        line_prefix_set(a, b, n + 1) == line_prefix_set(a, b, n).union(
            set![line_point(a, b, n)],
        ),
{
    assert forall|p: (int, int)| line_prefix_set(a, b, n + 1).contains(p) implies line_prefix_set(
        a,
        b,
        n,
    ).union(set![line_point(a, b, n)]).contains(p) by {
        let k = choose|k: int| 0 <= k < n + 1 && (#[trigger] line_point(a, b, k)) == p;
        if k < n {
            assert(line_prefix_set(a, b, n).contains(p));
        }
    }
    assert forall|p: (int, int)|
        line_prefix_set(a, b, n).union(set![line_point(a, b, n)]).contains(
            p,
        ) implies line_prefix_set(a, b, n + 1).contains(p) by {
        if line_prefix_set(a, b, n).contains(p) {
            let k = choose|k: int| 0 <= k < n && (#[trigger] line_point(a, b, k)) == p;
            assert(0 <= k < n + 1 && line_point(a, b, k) == p);
        } else {
            assert((#[trigger] line_point(a, b, n)) == p);
        }
    }
    assert(line_prefix_set(a, b, n + 1) =~= line_prefix_set(a, b, n).union(
        set![line_point(a, b, n)],
    ));
}

/// Rasterize the segment onto `image` in `color`: afterwards the image is
/// its old value with exactly the in-bounds pixels of the segment painted.
#[verifier::loop_isolation(false)]
pub fn draw_line<D: Displayable>(line: &Line, image: &mut D, color: Color)
    requires
        old(image).wf(),
    ensures
        painted(*old(image), *final(image), line_pixel_set(line.start, line.end), color),
{
    let pts = line_points(&line.start, &line.end);
    let ghost c0: D = *image;
    assert(painted(c0, *image, line_prefix_set(line.start, line.end, 0), color));
    let mut i: usize = 0;
    while i < pts.len()
        invariant
            0 <= i <= pts@.len(),
            image.wf(),
            painted(c0, *image, line_prefix_set(line.start, line.end, i as int), color),
        decreases pts@.len() - i,
    {
        let ghost mid: D = *image;
        let p = pts[i];
        image.display(p.x, p.y, color);
        proof {
            assert(painted(mid, *image, set![line_point(line.start, line.end, i as int)], color));
            lemma_painted_trans(
                c0,
                mid,
                *image,
                line_prefix_set(line.start, line.end, i as int),
                set![line_point(line.start, line.end, i as int)],
                color,
            );
            lemma_prefix_set_step(line.start, line.end, i as int);
        }
        i = i + 1;
    }
}

} // verus!
