//! Regular pentagons: five vertices spaced 72 degrees apart around a
//! center, joined into a closed five-edge outline.
//!
//! Vertex `k` sits at angle `72 * k` degrees from the positive x axis, at
//! the given radius from the center. The four non-zero angles have fixed
//! cosines and sines; they are evaluated in fixed-point arithmetic with
//! nine fractional decimal digits, and each coordinate takes the floor of
//! the exact product, clamped to the `i32` range.

use vstd::prelude::*;
use vstd::arithmetic::div_mod::{
    lemma_div_nonincreasing, lemma_div_pos_is_pos, lemma_fundamental_div_mod,
    lemma_fundamental_div_mod_converse, lemma_mod_division_less_than_divisor,
};
use vstd::math::min;
use crate::canvas::{painted, Displayable};
use crate::drawable::{draw_edges, lines_pixels, Drawable};
use crate::line::{lemma_line_pixel_set_endpoints, line_pixel_set, Line};
use crate::point::Point;
use crate::rng::random_in_range;

verus! {

/// `cos(72 * k)` degrees, scaled by `10^9`, for `k` in `1..=4`.
pub open spec fn pent_cos_scaled(k: int) -> int {
    if k == 1 {
        309016994
    } else if k == 2 {
        -809016994
    } else if k == 3 {
        -809016994
    } else {
        309016994
    }
}

/// `sin(72 * k)` degrees, scaled by `10^9`, for `k` in `1..=4`.
pub open spec fn pent_sin_scaled(k: int) -> int {
    if k == 1 {
        951056516
    } else if k == 2 {
        587785252
    } else if k == 3 {
        -587785252
    } else {
        -951056516
    }
}

/// Floor of `r` times a fixed-point factor scaled by `10^9`.
pub open spec fn pent_offset(r: int, scaled: int) -> int {
    (r * scaled) / 1_000_000_000
}

/// `v` clamped to the `i32` range.
pub open spec fn sat_i32(v: int) -> int {
    if v < -0x8000_0000 {
        -0x8000_0000
    } else if v > 0x7fff_ffff {
        0x7fff_ffff
    } else {
        v
    }
}

#[derive(Clone, Copy, Debug)]
pub struct Pentagon {
    pub center: Point,
    pub radius: i32,
}

/// Floor division of `n` by `10^9`.
fn floor_div_scale(n: i64) -> (q: i64)
    requires
        -0x4000_0000_0000_0000 <= n <= 0x4000_0000_0000_0000,
    ensures
        q == n as int / 1_000_000_000,
{
    if n >= 0 {
        proof {
            lemma_div_pos_is_pos(n as int, 1_000_000_000);
            lemma_div_nonincreasing(n as int, 1_000_000_000);
        }
        ((n as u64) / 1_000_000_000u64) as i64
    } else {
        let m: u64 = (-n) as u64;
        let q0: u64 = m / 1_000_000_000;
        let rm: u64 = m % 1_000_000_000;
        proof {
            lemma_fundamental_div_mod(m as int, 1_000_000_000);
            lemma_div_pos_is_pos(m as int, 1_000_000_000);
            lemma_div_nonincreasing(m as int, 1_000_000_000);
            assert((-(q0 as int)) * 1_000_000_000 == -((q0 as int) * 1_000_000_000))
                by (nonlinear_arith);
            assert((-(q0 as int) - 1) * 1_000_000_000 == -((q0 as int) * 1_000_000_000)
                - 1_000_000_000) by (nonlinear_arith);
            if rm == 0 {
                lemma_fundamental_div_mod_converse(n as int, 1_000_000_000, -(q0 as int), 0);
            } else {
                lemma_fundamental_div_mod_converse(
                    n as int,
                    1_000_000_000,
                    -(q0 as int) - 1,
                    1_000_000_000 - rm as int,
                );
            }
        }
        if rm == 0 {
            -(q0 as i64)
        } else {
            -(q0 as i64) - 1
        }
    }
}

/// One vertex coordinate: the center coordinate plus the floor of the
/// radius times a fixed-point factor, clamped to the `i32` range.
fn offset_coord(c: i32, r: i32, scaled: i64) -> (v: i32)
    requires
        -1_000_000_000 <= scaled <= 1_000_000_000,
    ensures
        v as int == sat_i32(c + pent_offset(r as int, scaled as int)),
{
    proof {
        assert(-0x4000_0000_0000_0000 <= (r as int) * (scaled as int)
            <= 0x4000_0000_0000_0000) by (nonlinear_arith)
            requires
                -0x8000_0000 <= r as int <= 0x7fff_ffff,
                -1_000_000_000 <= scaled as int <= 1_000_000_000,
        ;
    }
    let n: i64 = (r as i64) * scaled;
    let q: i64 = floor_div_scale(n);
    proof {
        lemma_fundamental_div_mod(n as int, 1_000_000_000);
        lemma_mod_division_less_than_divisor(n as int, 1_000_000_000);
    }
    let v64: i64 = (c as i64) + q;
    if v64 < -0x8000_0000i64 {
        i32::MIN
    } else if v64 > 0x7fff_ffffi64 {
        i32::MAX
    } else {
        v64 as i32
    }
}

impl Pentagon {
    pub fn new(p1: &Point, radius: i32) -> (p: Pentagon)
        ensures
            p.center == *p1,
            p.radius == radius,
    {
        Pentagon { center: *p1, radius }
    }

    /// A pentagon with its center drawn uniformly from the grid and its
    /// radius drawn uniformly from `[0, min(width, height))`.
    pub fn random(width: i32, height: i32) -> (p: Pentagon)
        requires
            0 < width,
            0 < height,
        ensures
            0 <= p.center.x < width,
            0 <= p.center.y < height,
            0 <= p.radius < min(width as int, height as int),
    {
        let bound: i32 = if width < height {
            width
        } else {
            height
        };
        Pentagon::new(&Point::random(width, height), random_in_range(0, bound))
    }

    /// Vertex `k` (for `k` in `0..=4`) of the pentagon: vertex `0` lies at
    /// angle zero, on the positive x axis at distance `radius`.
    pub open spec fn pent_vertex(&self, k: int) -> Point {
        if k == 0 {
            Point { x: (self.center.x + self.radius) as i32, y: self.center.y }
        } else {
            Point {
                x: sat_i32(self.center.x + pent_offset(self.radius as int, pent_cos_scaled(k)))
                    as i32,
                y: sat_i32(self.center.y + pent_offset(self.radius as int, pent_sin_scaled(k)))
                    as i32,
            }
        }
    }

    /// The five edges: consecutive vertices joined in order, the last
    /// vertex joined back to the first, closing the outline.
    pub open spec fn spec_edges(&self) -> Seq<Line> {
        seq![
            Line { start: self.pent_vertex(0), end: self.pent_vertex(1) },
            Line { start: self.pent_vertex(1), end: self.pent_vertex(2) },
            Line { start: self.pent_vertex(2), end: self.pent_vertex(3) },
            Line { start: self.pent_vertex(3), end: self.pent_vertex(4) },
            Line { start: self.pent_vertex(4), end: self.pent_vertex(0) },
        ]
    }

    /// Vertex `k` for `k` in `1..=4`.
    fn vertex(&self, k: u32) -> (p: Point)
        requires
            1 <= k <= 4,
        ensures
            p == self.pent_vertex(k as int),
    {
        let cs: i64 = if k == 1 {
            309_016_994
        } else if k == 2 {
            -809_016_994
        } else if k == 3 {
            -809_016_994
        } else {
            309_016_994
        };
        let sn: i64 = if k == 1 {
            951_056_516
        } else if k == 2 {
            587_785_252
        } else if k == 3 {
            -587_785_252
        } else {
            -951_056_516
        };
        Point {
            x: offset_coord(self.center.x, self.radius, cs),
            y: offset_coord(self.center.y, self.radius, sn),
        }
    }

    pub fn edges(&self) -> (r: Vec<Line>)
        requires
            self.can_draw(),
        ensures
            r@ == self.spec_edges(),
    {
        let v0 = Point::new(self.center.x + self.radius, self.center.y);
        let v1 = self.vertex(1);
        let v2 = self.vertex(2);
        let v3 = self.vertex(3);
        let v4 = self.vertex(4);
        let mut r: Vec<Line> = Vec::new();
        r.push(Line::new(&v0, &v1));
        r.push(Line::new(&v1, &v2));
        r.push(Line::new(&v2, &v3));
        r.push(Line::new(&v3, &v4));
        r.push(Line::new(&v4, &v0));
        proof {
            assert(r@ =~= self.spec_edges());
        }
        r
    }
}

/// A pentagon always produces exactly five edges that chain vertex to
/// vertex and close into a loop: edge `k` runs from vertex `k` to vertex
/// `k + 1`, the final edge returns to vertex `0`, and every vertex lies in
/// the drawn pixel set.
pub proof fn lemma_pentagon_closed(p: Pentagon)
    ensures
        p.spec_edges().len() == 5,
        forall|k: int| 0 <= k < 5 ==> (#[trigger] p.spec_edges()[k]).start == p.pent_vertex(k),
        forall|k: int| 0 <= k < 4 ==> (#[trigger] p.spec_edges()[k]).end == p.pent_vertex(k + 1),
        p.spec_edges()[4].end == p.pent_vertex(0),
        forall|k: int| 0 <= k < 4 ==> (#[trigger] p.spec_edges()[k]).end == p.spec_edges()[
            k + 1
        ].start,
        p.spec_edges()[4].end == p.spec_edges()[0].start,
        forall|k: int|
            0 <= k < 5 ==> p.pixels().contains(
                ((#[trigger] p.pent_vertex(k)).x as int, p.pent_vertex(k).y as int),
            ),
{
    assert forall|k: int| 0 <= k < 5 implies p.pixels().contains(
        ((#[trigger] p.pent_vertex(k)).x as int, p.pent_vertex(k).y as int),
    ) by {
        lemma_line_pixel_set_endpoints(p.spec_edges()[k].start, p.spec_edges()[k].end);
        assert((#[trigger] line_pixel_set(p.spec_edges()[k].start, p.spec_edges()[k].end)).contains(
            (p.pent_vertex(k).x as int, p.pent_vertex(k).y as int),
        ));
    }
}

impl Drawable for Pentagon {
    /// A pentagon covers the pixels of its five edges.
    open spec fn pixels(&self) -> Set<(int, int)> {
        lines_pixels(self.spec_edges())
    }

    /// Vertex `0` is computed exactly, so its coordinate must stay in
    /// range; the other vertices are clamped.
    open spec fn can_draw(&self) -> bool {
        -0x8000_0000 <= self.center.x + self.radius <= 0x7fff_ffff
    }

    fn draw<D: Displayable>(&self, image: &mut D) {
        let ghost c0: D = *image;
        let c = self.color();
        let es = self.edges();
        draw_edges(&es, image, c);
        proof {
            assert(painted(c0, *image, self.pixels(), c));
        }
    }
}

} // verus!
