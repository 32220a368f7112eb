//! Axis-aligned rectangles given by two opposite corners.

use vstd::prelude::*;
use crate::canvas::{painted, Displayable};
use crate::drawable::{draw_edges, lines_pixels, Drawable};
use crate::line::Line;
use crate::point::Point;

verus! {

#[derive(Clone, Copy, Debug)]
pub struct Rectangle {
    pub point1: Point,
    pub point2: Point,
}

impl Rectangle {
    pub fn new(p1: &Point, p2: &Point) -> (r: Rectangle)
        ensures
            r.point1 == *p1,
            r.point2 == *p2,
    {
        Rectangle { point1: *p1, point2: *p2 }
    }

    /// The derived corner `(point1.x, point2.y)`.
    pub open spec fn corner_a(&self) -> Point {
        Point { x: self.point1.x, y: self.point2.y }
    }

    /// The derived corner `(point2.x, point1.y)`.
    pub open spec fn corner_b(&self) -> Point {
        Point { x: self.point2.x, y: self.point1.y }
    }

    /// The four edges, in one consistent cyclic order around the outline.
    pub open spec fn spec_edges(&self) -> Seq<Line> {
        seq![
            Line { start: self.corner_a(), end: self.point2 },
            Line { start: self.point2, end: self.corner_b() },
            Line { start: self.corner_b(), end: self.point1 },
            Line { start: self.point1, end: self.corner_a() },
        ]
    }

    pub fn edges(&self) -> (r: Vec<Line>)
        ensures
            r@ == self.spec_edges(),
    {
        let ca = Point::new(self.point1.x, self.point2.y);
        let cb = Point::new(self.point2.x, self.point1.y);
        let mut r: Vec<Line> = Vec::new();
        r.push(Line::new(&ca, &self.point2));
        r.push(Line::new(&self.point2, &cb));
        r.push(Line::new(&cb, &self.point1));
        r.push(Line::new(&self.point1, &ca));
        proof {
            assert(r@ =~= self.spec_edges());
        }
        r
    }
}

/// The outline is a closed cycle of four edges, and both derived corners
/// `(point1.x, point2.y)` and `(point2.x, point1.y)` stand among its
/// segment endpoints.
pub proof fn lemma_rectangle_corners(r: Rectangle)
    ensures
        r.spec_edges().len() == 4,
        r.spec_edges()[0].start == r.corner_a(),
        r.spec_edges()[3].end == r.corner_a(),
        r.spec_edges()[1].end == r.corner_b(),
        r.spec_edges()[2].start == r.corner_b(),
        forall|k: int| 0 <= k < 3 ==> (#[trigger] r.spec_edges()[k]).end == r.spec_edges()[
            k + 1
        ].start,
        r.spec_edges()[3].end == r.spec_edges()[0].start,
{
}

impl Drawable for Rectangle {
    /// A rectangle covers the pixels of its four outline edges.
    open spec fn pixels(&self) -> Set<(int, int)> {
        lines_pixels(self.spec_edges())
    }

    open spec fn can_draw(&self) -> bool {
        true
    }

    fn draw<D: Displayable>(&self, image: &mut D) {
        let ghost c0: D = *image;
        let c = self.color();
        let es = self.edges();
        draw_edges(&es, image, c);
        proof {
            assert(painted(c0, *image, self.pixels(), c));
        }
    }
}

} // verus!
