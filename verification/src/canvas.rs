//! The pixel canvas and its bounds-checked write capability.

use vstd::prelude::*;
use vstd::arithmetic::div_mod::lemma_fundamental_div_mod_converse;
use vstd::arithmetic::mul::lemma_mul_inequality;
use crate::color::Color;

verus! {

/// A sink of pixel writes. The one operation is bounds-checked: a write
/// inside the grid takes effect, a write outside it is silently dropped,
/// never an error.
pub trait Displayable: Sized {
    /// The sink's internal invariant.
    spec fn wf(&self) -> bool;

    /// Grid width, in pixels.
    spec fn s_width(&self) -> int;

    /// Grid height, in pixels.
    spec fn s_height(&self) -> int;

    /// The color stored at `(x, y)`; meaningful for in-bounds coordinates.
    spec fn pixel(&self, x: int, y: int) -> Color;

    /// Write `color` at `(x, y)` if `(x, y)` lies inside the grid; leave
    /// the grid unchanged otherwise.
    fn display(&mut self, x: i32, y: i32, color: Color)
        requires
            old(self).wf(),
        ensures
            final(self).wf(),
            final(self).s_width() == old(self).s_width(),
            final(self).s_height() == old(self).s_height(),
            forall|xi: int, yi: int|
                0 <= xi < old(self).s_width() && 0 <= yi < old(self).s_height()
                    ==> #[trigger] final(self).pixel(xi, yi) == (if xi == x && yi == y {
                    color
                } else {
                    old(self).pixel(xi, yi)
                }),
    ;
}

/// The grid `post` is `pre` with exactly the in-bounds pixels of `pts`
/// overwritten by `c`, and all other pixels unchanged.
pub open spec fn painted<D: Displayable>(pre: D, post: D, pts: Set<(int, int)>, c: Color) -> bool {
    &&& post.wf()
    &&& post.s_width() == pre.s_width()
    &&& post.s_height() == pre.s_height()
    &&& forall|x: int, y: int|
        0 <= x < pre.s_width() && 0 <= y < pre.s_height() ==> #[trigger] post.pixel(x, y) == (if pts.contains(
            (x, y),
        ) {
            c
        } else {
            pre.pixel(x, y)
        })
}

/// Painting one pixel set and then another, with one color, paints their
/// union.
pub proof fn lemma_painted_trans<D: Displayable>(
    c0: D,
    c1: D,
    c2: D,
    s1: Set<(int, int)>,
    s2: Set<(int, int)>,
    col: Color,
)
    requires
        painted(c0, c1, s1, col),
        painted(c1, c2, s2, col),
    ensures
        painted(c0, c2, s1.union(s2), col),
{
    assert forall|x: int, y: int| 0 <= x < c0.s_width() && 0 <= y < c0.s_height() implies #[trigger] c2.pixel(
        x,
        y,
    ) == (if s1.union(s2).contains((x, y)) {
        col
    } else {
        c0.pixel(x, y)
    }) by {
        assert(c1.pixel(x, y) == (if s1.contains((x, y)) {
            col
        } else {
            c0.pixel(x, y)
        }));
    }
}

/// A fixed-size grid of colors, stored in row-major order.
pub struct Canvas {
    width: i32,
    height: i32,
    data: Vec<Color>,
}

/// Row-major indices are injective over in-bounds coordinates.
proof fn lemma_index_injective(w: int, x1: int, y1: int, x2: int, y2: int)
    requires
        0 <= x1 < w,
        0 <= x2 < w,
        y1 * w + x1 == y2 * w + x2,
    ensures
        x1 == x2,
        y1 == y2,
{
    lemma_fundamental_div_mod_converse(y1 * w + x1, w, y1, x1);
    lemma_fundamental_div_mod_converse(y2 * w + x2, w, y2, x2);
}

/// In-bounds coordinates give a row-major index below `w * h`.
proof fn lemma_index_in_range(w: int, h: int, x: int, y: int)
    requires
        0 <= x < w,
        0 <= y < h,
    ensures
        0 <= y * w + x < w * h,
{
    lemma_mul_inequality(y + 1, h, w);
    lemma_mul_inequality(0, y, w);
    assert((y + 1) * w == y * w + w) by (nonlinear_arith);
    assert(h * w == w * h) by (nonlinear_arith);
}

impl Canvas {
    /// A `width` by `height` canvas with every pixel black.
    pub fn new(width: i32, height: i32) -> (c: Canvas)
        requires
            0 <= width,
            0 <= height,
            width * height <= usize::MAX,
        ensures
            c.wf(),
            c.s_width() == width,
            c.s_height() == height,
            forall|x: int, y: int|
                0 <= x < width && 0 <= y < height ==> #[trigger] c.pixel(x, y) == (Color {
                    r: 0,
                    g: 0,
                    b: 0,
                }),
    {
        let n: usize = (width as usize) * (height as usize);
        let mut data: Vec<Color> = Vec::new();
        #[verifier::loop_isolation(false)]
        while data.len() < n
            invariant
                data@.len() <= n,
                forall|i: int|
                    0 <= i < data@.len() ==> data@[i] == (Color { r: 0, g: 0, b: 0 }),
            decreases n - data@.len(),
        {
            data.push(Color { r: 0, g: 0, b: 0 });
        }
        let c = Canvas { width, height, data };
        proof {
            assert forall|x: int, y: int| 0 <= x < width && 0 <= y < height implies #[trigger] c.pixel(
                x,
                y,
            ) == (Color { r: 0, g: 0, b: 0 }) by {
                lemma_index_in_range(width as int, height as int, x, y);
            }
        }
        c
    }

    pub fn width(&self) -> (w: i32)
        ensures
            w == self.s_width(),
    {
        self.width
    }

    pub fn height(&self) -> (h: i32)
        ensures
            h == self.s_height(),
    {
        self.height
    }

    /// Read the color stored at the in-bounds coordinate `(x, y)`.
    pub fn get(&self, x: i32, y: i32) -> (c: Color)
        requires
            self.wf(),
            0 <= x < self.s_width(),
            0 <= y < self.s_height(),
        ensures
            c == self.pixel(x as int, y as int),
    {
        proof {
            lemma_index_in_range(self.s_width(), self.s_height(), x as int, y as int);
        }
        let idx: usize = (y as usize) * (self.width as usize) + (x as usize);
        self.data[idx]
    }
}

impl Displayable for Canvas {
    closed spec fn wf(&self) -> bool {
        &&& 0 <= self.width
        &&& 0 <= self.height
        &&& self.width * self.height <= usize::MAX
        &&& self.data@.len() == self.width * self.height
    }

    closed spec fn s_width(&self) -> int {
        self.width as int
    }

    closed spec fn s_height(&self) -> int {
        self.height as int
    }

    closed spec fn pixel(&self, x: int, y: int) -> Color {
        self.data@[y * self.width + x]
    }

    fn display(&mut self, x: i32, y: i32, color: Color) {
        if 0 <= x && x < self.width && 0 <= y && y < self.height {
            proof {
                lemma_index_in_range(self.s_width(), self.s_height(), x as int, y as int);
            }
            let idx: usize = (y as usize) * (self.width as usize) + (x as usize);
            self.data.set(idx, color);
            proof {
                assert forall|xi: int, yi: int|
                    0 <= xi < old(self).s_width() && 0 <= yi < old(self).s_height() implies #[trigger] self.pixel(
                    xi,
                    yi,
                ) == (if xi == x && yi == y {
                    color
                } else {
                    old(self).pixel(xi, yi)
                }) by {
                    lemma_index_in_range(old(self).s_width(), old(self).s_height(), xi, yi);
                    if yi * old(self).s_width() + xi == idx {
                        lemma_index_injective(
                            old(self).s_width(),
                            xi,
                            yi,
                            x as int,
                            y as int,
                        );
                    }
                }
            }
        }
    }
}

} // verus!
