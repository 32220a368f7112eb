//! Triangles: three corner points joined by three segments.

use vstd::prelude::*;
use crate::canvas::{painted, Displayable};
use crate::drawable::{draw_edges, lines_pixels, Drawable};
use crate::line::Line;
use crate::point::Point;

verus! {

#[derive(Clone, Copy, Debug)]
pub struct Triangle {
    pub p1: Point,
    pub p2: Point,
    pub p3: Point,
}

impl Triangle {
    pub fn new(p1: &Point, p2: &Point, p3: &Point) -> (t: Triangle)
        ensures
            t.p1 == *p1,
            t.p2 == *p2,
            t.p3 == *p3,
    {
        Triangle { p1: *p1, p2: *p2, p3: *p3 }
    }

    /// The three segments drawn: `p1 -> p2`, `p2 -> p3`, `p3 -> p1`.
    pub open spec fn spec_edges(&self) -> Seq<Line> {
        seq![
            Line { start: self.p1, end: self.p2 },
            Line { start: self.p2, end: self.p3 },
            Line { start: self.p3, end: self.p1 },
        ]
    }

    pub fn edges(&self) -> (r: Vec<Line>)
        ensures
            r@ == self.spec_edges(),
    {
        let mut r: Vec<Line> = Vec::new();
        r.push(Line::new(&self.p1, &self.p2));
        r.push(Line::new(&self.p2, &self.p3));
        r.push(Line::new(&self.p3, &self.p1));
        proof {
            assert(r@ =~= self.spec_edges());
        }
        r
    }
}

impl Drawable for Triangle {
    /// A triangle covers the pixels of its three segments.
    open spec fn pixels(&self) -> Set<(int, int)> {
        lines_pixels(self.spec_edges())
    }

    open spec fn can_draw(&self) -> bool {
        true
    }

    fn draw<D: Displayable>(&self, image: &mut D) {
        let ghost c0: D = *image;
        let c = self.color();
        let es = self.edges();
        draw_edges(&es, image, c);
        proof {
            assert(painted(c0, *image, self.pixels(), c));
        }
    }
}

} // verus!
