//! Immutable 2D integer coordinates.

use vstd::prelude::*;
use crate::canvas::{painted, Displayable};
use crate::drawable::Drawable;
use crate::rng::random_in_range;

verus! {

/// A 2D integer coordinate; equality is componentwise.
#[derive(Clone, Copy, Debug, PartialEq, Eq, Structural)]
pub struct Point {
    pub x: i32,
    pub y: i32,
}

impl Point {
    pub fn new(x: i32, y: i32) -> (p: Point)
        ensures
            p == (Point { x, y }),
    {
        Point { x, y }
    }

    /// A point with each coordinate drawn uniformly from `[0, bound)`;
    /// both bounds must be positive.
    pub fn random(width: i32, height: i32) -> (p: Point)
        requires
            0 < width,
            0 < height,
        ensures
            0 <= p.x < width,
            0 <= p.y < height,
    {
        Point { x: random_in_range(0, width), y: random_in_range(0, height) }
    }
}

impl Drawable for Point {
    /// A point covers exactly its own pixel.
    open spec fn pixels(&self) -> Set<(int, int)> {
        set![(self.x as int, self.y as int)]
    }

    open spec fn can_draw(&self) -> bool {
        true
    }

    fn draw<D: Displayable>(&self, image: &mut D) {
        let ghost c0: D = *image;
        let c = self.color();
        image.display(self.x, self.y, c);
        proof {
            assert(painted(c0, *image, self.pixels(), c));
        }
    }
}

} // verus!
