//! Rasterization of geometric primitives onto a two-dimensional pixel canvas.
//!
//! Shapes (points, lines, triangles, rectangles, circles, pentagons and
//! wireframe cubes) decompose into straight segments; an exact integer
//! line rasterizer turns each segment into pixels, and every pixel is
//! written through a bounds-checked canvas operation that silently drops
//! out-of-range writes.

pub mod canvas;
pub mod circle;
pub mod color;
pub mod cube;
pub mod drawable;
pub mod line;
pub mod pentagon;
pub mod point;
pub mod rectangle;
pub mod rng;
pub mod triangle;

pub use canvas::Canvas;
pub use canvas::Displayable;
pub use circle::Circle;
pub use color::Color;
pub use cube::Cube;
pub use drawable::Drawable;
pub use line::Line;
pub use pentagon::Pentagon;
pub use point::Point;
pub use rectangle::Rectangle;
pub use triangle::Triangle;
