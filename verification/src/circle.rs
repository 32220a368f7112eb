//! Circles: a center point and a radius.
//!
//! Tracing a circle samples angles densely around the center, with the
//! angular increment derived from the radius, and maps each angle through
//! trigonometric functions. That sampling is floating-point work and lives
//! outside this library; the circle data itself, its constructors and the
//! bound on a randomly drawn radius are specified here.

use vstd::prelude::*;
use vstd::math::min;
use crate::point::Point;
use crate::rng::random_in_range;

verus! {

#[derive(Clone, Copy, Debug)]
pub struct Circle {
    pub center: Point,
    pub radius: i32,
}

impl Circle {
    pub fn new(p1: &Point, radius: i32) -> (c: Circle)
        ensures
            c.center == *p1,
            c.radius == radius,
    {
        Circle { center: *p1, radius }
    }

    /// A circle with its center drawn uniformly from the grid and its
    /// radius drawn uniformly from `[0, min(width, height))`; the radius
    /// is always strictly below both grid bounds.
    pub fn random(width: i32, height: i32) -> (c: Circle)
        requires
            0 < width,
            0 < height,
        ensures
            0 <= c.center.x < width,
            0 <= c.center.y < height,
            0 <= c.radius < min(width as int, height as int),
    {
        let bound: i32 = if width < height {
            width
        } else {
            height
        };
        Circle::new(&Point::random(width, height), random_in_range(0, bound))
    }
}

} // verus!
