//! Wireframe cubes: a front square, a back square offset to fake depth,
//! and four connectors, twelve segments in all.

use vstd::prelude::*;
use vstd::math::abs;
use crate::canvas::{painted, Displayable};
use crate::drawable::{draw_edges, lines_pixels, Drawable};
use crate::line::Line;
use crate::point::Point;

verus! {

#[derive(Clone, Copy, Debug)]
pub struct Cube {
    pub point1: Point,
    pub side: i32,
}

impl Cube {
    pub fn new(p1: &Point, side: i32) -> (c: Cube)
        ensures
            c.point1 == *p1,
            c.side == side,
    {
        Cube { point1: *p1, side }
    }

    /// The depth offset between the front and the back face: a third of
    /// the side length.
    pub open spec fn depth(&self) -> int {
        abs(self.side as int) as int / 3
    }

    /// Corner `k` (in `0..=3`) of the front face, counted from `point1`
    /// around the square.
    pub open spec fn front_corner(&self, k: int) -> Point {
        if k == 0 {
            self.point1
        } else if k == 1 {
            Point { x: (self.point1.x + self.side) as i32, y: self.point1.y }
        } else if k == 2 {
            Point {
                x: (self.point1.x + self.side) as i32,
                y: (self.point1.y + self.side) as i32,
            }
        } else {
            Point { x: self.point1.x, y: (self.point1.y + self.side) as i32 }
        }
    }

    /// Corner `k` of the back face: the front corner shifted by the depth
    /// offset along `(+x, -y)`.
    pub open spec fn back_corner(&self, k: int) -> Point {
        Point {
            x: (self.front_corner(k).x + self.depth()) as i32,
            y: (self.front_corner(k).y - self.depth()) as i32,
        }
    }

    /// The twelve segments: the front square, the back square, then one
    /// connector per corner pair.
    pub open spec fn spec_edges(&self) -> Seq<Line> {
        seq![
            Line { start: self.front_corner(0), end: self.front_corner(1) },
            Line { start: self.front_corner(1), end: self.front_corner(2) },
            Line { start: self.front_corner(2), end: self.front_corner(3) },
            Line { start: self.front_corner(3), end: self.front_corner(0) },
            Line { start: self.back_corner(0), end: self.back_corner(1) },
            Line { start: self.back_corner(1), end: self.back_corner(2) },
            Line { start: self.back_corner(2), end: self.back_corner(3) },
            Line { start: self.back_corner(3), end: self.back_corner(0) },
            Line { start: self.front_corner(0), end: self.back_corner(0) },
            Line { start: self.front_corner(1), end: self.back_corner(1) },
            Line { start: self.front_corner(2), end: self.back_corner(2) },
            Line { start: self.front_corner(3), end: self.back_corner(3) },
        ]
    }

    pub fn edges(&self) -> (r: Vec<Line>)
        requires
            self.can_draw(),
        ensures
            r@ == self.spec_edges(),
    {
        let m: u32 = if self.side >= 0 {
            self.side as u32
        } else {
            (-(self.side as i64)) as u32
        };
        let d: i32 = (m / 3) as i32;
        assert(d as int == self.depth());
        let p1 = self.point1;
        let p2 = Point::new(p1.x + self.side, p1.y);
        let p3 = Point::new(p1.x + self.side, p1.y + self.side);
        let p4 = Point::new(p1.x, p1.y + self.side);
        let b1 = Point::new(p1.x + d, p1.y - d);
        let b2 = Point::new(p2.x + d, p2.y - d);
        let b3 = Point::new(p3.x + d, p3.y - d);
        let b4 = Point::new(p4.x + d, p4.y - d);
        let mut r: Vec<Line> = Vec::new();
        r.push(Line::new(&p1, &p2));
        r.push(Line::new(&p2, &p3));
        r.push(Line::new(&p3, &p4));
        r.push(Line::new(&p4, &p1));
        r.push(Line::new(&b1, &b2));
        r.push(Line::new(&b2, &b3));
        r.push(Line::new(&b3, &b4));
        r.push(Line::new(&b4, &b1));
        r.push(Line::new(&p1, &b1));
        r.push(Line::new(&p2, &b2));
        r.push(Line::new(&p3, &b3));
        r.push(Line::new(&p4, &b4));
        proof {
            assert(r@ =~= self.spec_edges());
        }
        r
    }
}

/// A cube wireframe produces exactly twelve edges: four around the front
/// face, four around the back face, and four connectors joining each front
/// corner to its back corner.
pub proof fn lemma_cube_twelve_edges(c: Cube)
    ensures
        c.spec_edges().len() == 12,
        forall|k: int| 0 <= k < 4 ==> (#[trigger] c.spec_edges()[k]).start == c.front_corner(k),
        forall|k: int| 0 <= k < 4 ==> (#[trigger] c.spec_edges()[k]).end == c.front_corner(
            if k == 3 {
                0
            } else {
                k + 1
            },
        ),
        forall|k: int| 0 <= k < 4 ==> (#[trigger] c.spec_edges()[4 + k]).start == c.back_corner(k),
        forall|k: int| 0 <= k < 4 ==> (#[trigger] c.spec_edges()[4 + k]).end == c.back_corner(
            if k == 3 {
                0
            } else {
                k + 1
            },
        ),
        forall|k: int| 0 <= k < 4 ==> (#[trigger] c.spec_edges()[8 + k]).start == c.front_corner(k),
        forall|k: int| 0 <= k < 4 ==> (#[trigger] c.spec_edges()[8 + k]).end == c.back_corner(k),
{
}

impl Drawable for Cube {
    /// A cube covers the pixels of its twelve wireframe edges.
    open spec fn pixels(&self) -> Set<(int, int)> {
        lines_pixels(self.spec_edges())
    }

    /// Every derived corner coordinate must stay in the `i32` range.
    open spec fn can_draw(&self) -> bool {
        &&& -0x8000_0000 <= self.point1.x + self.side <= 0x7fff_ffff
        &&& -0x8000_0000 <= self.point1.y + self.side <= 0x7fff_ffff
        &&& -0x8000_0000 <= self.point1.x + self.depth() <= 0x7fff_ffff
        &&& -0x8000_0000 <= self.point1.x + self.side + self.depth() <= 0x7fff_ffff
        &&& -0x8000_0000 <= self.point1.y - self.depth() <= 0x7fff_ffff
        &&& -0x8000_0000 <= self.point1.y + self.side - self.depth() <= 0x7fff_ffff
    }

    fn draw<D: Displayable>(&self, image: &mut D) {
        let ghost c0: D = *image;
        let c = self.color();
        let es = self.edges();
        draw_edges(&es, image, c);
        proof {
            assert(painted(c0, *image, self.pixels(), c));
        }
    }
}

} // verus!
