use geometrical_shapes::line::line_points;
use geometrical_shapes::{Canvas, Color, Displayable, Drawable, Line, Point, Rectangle};

fn black() -> Color {
    Color::rgb(0, 0, 0)
}

fn assert_all_black_except(canvas: &Canvas, width: i32, height: i32, except: &[(i32, i32)]) {
    for y in 0..height {
        for x in 0..width {
            if !except.contains(&(x, y)) {
                assert_eq!(canvas.get(x, y), black(), "pixel ({}, {}) changed", x, y);
            }
        }
    }
}

#[test]
fn new_canvas_is_black() {
    let c = Canvas::new(4, 3);
    assert_eq!(c.width(), 4);
    assert_eq!(c.height(), 3);
    assert_all_black_except(&c, 4, 3, &[]);
}

#[test]
fn out_of_bounds_writes_leave_canvas_unchanged() {
    let mut c = Canvas::new(4, 3);
    let red = Color::rgb(255, 0, 0);
    c.display(-1, 0, red);
    c.display(4, 3, red);
    c.display(0, -1, red);
    c.display(0, 3, red);
    c.display(4, 0, red);
    assert_all_black_except(&c, 4, 3, &[]);
}

#[test]
fn in_bounds_write_sets_exactly_one_pixel() {
    let mut c = Canvas::new(4, 3);
    let teal = Color::rgb(9, 120, 99);
    c.display(1, 2, teal);
    assert_eq!(c.get(1, 2), teal);
    assert_all_black_except(&c, 4, 3, &[(1, 2)]);
}

#[test]
fn draw_line_paints_exactly_its_pixels_in_one_color() {
    let mut c = Canvas::new(4, 4);
    let line = Line::new(&Point::new(0, 0), &Point::new(3, 3));
    line.draw(&mut c);
    let shade = c.get(0, 0);
    for k in 0..4 {
        assert_eq!(c.get(k, k), shade);
    }
    assert_all_black_except(&c, 4, 4, &[(0, 0), (1, 1), (2, 2), (3, 3)]);
}

#[test]
fn draw_clips_silently_at_the_border() {
    let mut c = Canvas::new(3, 3);
    let line = Line::new(&Point::new(-2, -2), &Point::new(1, 1));
    line.draw(&mut c);
    let shade = c.get(0, 0);
    assert_eq!(c.get(1, 1), shade);
    assert_all_black_except(&c, 3, 3, &[(0, 0), (1, 1)]);
}

#[test]
fn point_draw_touches_only_its_pixel() {
    let mut c = Canvas::new(3, 3);
    Point::new(1, 1).draw(&mut c);
    assert_all_black_except(&c, 3, 3, &[(1, 1)]);
}

#[test]
fn rectangle_draw_closed_outline_one_color() {
    let mut c = Canvas::new(5, 5);
    let r = Rectangle::new(&Point::new(0, 0), &Point::new(2, 2));
    r.draw(&mut c);
    let outline = vec![
        (0, 0),
        (0, 1),
        (0, 2),
        (1, 0),
        (1, 2),
        (2, 0),
        (2, 1),
        (2, 2),
    ];
    let shade = c.get(0, 0);
    for (x, y) in &outline {
        assert_eq!(c.get(*x, *y), shade);
    }
    assert_all_black_except(&c, 5, 5, &outline);
}

#[test]
fn shape_pixels_share_one_color_across_segments() {
    let mut c = Canvas::new(10, 10);
    let t = geometrical_shapes::Triangle::new(
        &Point::new(1, 1),
        &Point::new(6, 1),
        &Point::new(1, 6),
    );
    t.draw(&mut c);
    let mut covered: Vec<(i32, i32)> = Vec::new();
    for edge in &t.edges() {
        for p in line_points(&edge.start, &edge.end) {
            covered.push((p.x, p.y));
        }
    }
    covered.sort();
    covered.dedup();
    let shade = c.get(1, 1);
    for (x, y) in &covered {
        assert_eq!(c.get(*x, *y), shade);
    }
    assert_all_black_except(&c, 10, 10, &covered);
}

#[test]
fn redraw_may_repaint_but_never_spills() {
    let mut c = Canvas::new(4, 4);
    let line = Line::new(&Point::new(0, 1), &Point::new(3, 1));
    line.draw(&mut c);
    line.draw(&mut c);
    let shade = c.get(0, 1);
    for x in 0..4 {
        assert_eq!(c.get(x, 1), shade);
    }
    assert_all_black_except(&c, 4, 4, &[(0, 1), (1, 1), (2, 1), (3, 1)]);
}
