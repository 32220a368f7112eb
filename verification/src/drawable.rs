//! Drawing: decomposing a shape into pixels and writing them in one color.

use vstd::prelude::*;
use crate::canvas::{lemma_painted_trans, painted, Displayable};
use crate::color::Color;
use crate::line::{draw_line, line_pixel_set, Line};
use crate::rng::random_byte;

verus! {

/// Pixels covered by the first `n` segments of `ls`.
pub open spec fn lines_pixels_upto(ls: Seq<Line>, n: int) -> Set<(int, int)> {
    Set::new(
        |p: (int, int)|
            exists|i: int|
                0 <= i < n && (#[trigger] line_pixel_set(ls[i].start, ls[i].end)).contains(p),
    )
}

/// Pixels covered by the segments of `ls`.
pub open spec fn lines_pixels(ls: Seq<Line>) -> Set<(int, int)> {
    lines_pixels_upto(ls, ls.len() as int)
}

/// A shape that can be drawn onto any pixel sink. Drawing resolves one
/// color (at random unless the shape fixes one), decomposes the shape into
/// its pixels, and issues one bounds-checked write per pixel: afterwards
/// the sink is its old value with exactly the in-bounds pixels of the
/// shape overwritten by that single color.
pub trait Drawable {
    /// The exact pixel set the shape covers.
    spec fn pixels(&self) -> Set<(int, int)>;

    /// When drawing is defined: shapes whose derived corners would leave
    /// the coordinate range refuse to draw.
    spec fn can_draw(&self) -> bool;

    fn draw<D: Displayable>(&self, image: &mut D)
        requires
            self.can_draw(),
            old(image).wf(),
        ensures
            exists|c: Color| painted(*old(image), *final(image), self.pixels(), c),
    ;

    /// One color with three uniformly random channels; shapes share it
    /// across all segments of a single draw call.
    fn color(&self) -> Color {
        Color { r: random_byte(), g: random_byte(), b: random_byte() }
    }
}

/// One more segment covers exactly its own pixels in addition.
proof fn lemma_lines_pixels_upto_step(ls: Seq<Line>, n: int)
    requires
        0 <= n < ls.len(),
    ensures
        lines_pixels_upto(ls, n + 1) == lines_pixels_upto(ls, n).union(
            line_pixel_set(ls[n].start, ls[n].end),
        ),
{
    assert forall|p: (int, int)| lines_pixels_upto(ls, n + 1).contains(p) implies lines_pixels_upto(
        ls,
        n,
    ).union(line_pixel_set(ls[n].start, ls[n].end)).contains(p) by {
        let i = choose|i: int|
            0 <= i < n + 1 && (#[trigger] line_pixel_set(ls[i].start, ls[i].end)).contains(p);
        if i < n {
            assert(lines_pixels_upto(ls, n).contains(p));
        }
    }
    assert forall|p: (int, int)|
        lines_pixels_upto(ls, n).union(line_pixel_set(ls[n].start, ls[n].end)).contains(
            p,
        ) implies lines_pixels_upto(ls, n + 1).contains(p) by {
        if lines_pixels_upto(ls, n).contains(p) {
            let i = choose|i: int|
                0 <= i < n && (#[trigger] line_pixel_set(ls[i].start, ls[i].end)).contains(p);
            assert(0 <= i < n + 1 && line_pixel_set(ls[i].start, ls[i].end).contains(p));
        } else {
            assert((#[trigger] line_pixel_set(ls[n].start, ls[n].end)).contains(p));
        }
    }
    assert(lines_pixels_upto(ls, n + 1) =~= lines_pixels_upto(ls, n).union(
        line_pixel_set(ls[n].start, ls[n].end),
    ));
}

/// Rasterize each segment of `edges` in order, all in one color.
#[verifier::loop_isolation(false)]
pub fn draw_edges<D: Displayable>(edges: &Vec<Line>, image: &mut D, color: Color)
    requires
        old(image).wf(),
    ensures
        painted(*old(image), *final(image), lines_pixels(edges@), color),
{
    let ghost c0: D = *image;
    assert(painted(c0, *image, lines_pixels_upto(edges@, 0), color));
    let mut i: usize = 0;
    while i < edges.len()
        invariant
            0 <= i <= edges@.len(),
            image.wf(),
            painted(c0, *image, lines_pixels_upto(edges@, i as int), color),
        decreases edges@.len() - i,
    {
        let ghost mid: D = *image;
        draw_line(&edges[i], image, color);
        proof {
            lemma_painted_trans(
                c0,
                mid,
                *image,
                lines_pixels_upto(edges@, i as int),
                line_pixel_set(edges@[i as int].start, edges@[i as int].end),
                color,
            );
            lemma_lines_pixels_upto_step(edges@, i as int);
        }
        i = i + 1;
    }
}

} // verus!
