use geometrical_shapes::line::line_points;
use geometrical_shapes::{Cube, Pentagon, Point, Rectangle, Triangle};

#[test]
fn triangle_three_edges() {
    let p1 = Point::new(1, 1);
    let p2 = Point::new(6, 1);
    let p3 = Point::new(1, 6);
    let t = Triangle::new(&p1, &p2, &p3);
    let e = t.edges();
    assert_eq!(e.len(), 3);
    assert_eq!((e[0].start, e[0].end), (p1, p2));
    assert_eq!((e[1].start, e[1].end), (p2, p3));
    assert_eq!((e[2].start, e[2].end), (p3, p1));
}

#[test]
fn rectangle_derived_corners_are_endpoints() {
    let r = Rectangle::new(&Point::new(1, 2), &Point::new(5, 9));
    let e = r.edges();
    assert_eq!(e.len(), 4);
    assert_eq!(e[0].start, Point::new(1, 9));
    assert_eq!(e[3].end, Point::new(1, 9));
    assert_eq!(e[1].end, Point::new(5, 2));
    assert_eq!(e[2].start, Point::new(5, 2));
    for k in 0..3 {
        assert_eq!(e[k].end, e[k + 1].start);
    }
    assert_eq!(e[3].end, e[0].start);
}

#[test]
fn rectangle_outline_touches_all_four_corners() {
    let r = Rectangle::new(&Point::new(0, 0), &Point::new(2, 2));
    let e = r.edges();
    assert_eq!(e.len(), 4);
    let mut outline: Vec<(i32, i32)> = Vec::new();
    for edge in &e {
        for p in line_points(&edge.start, &edge.end) {
            outline.push((p.x, p.y));
        }
    }
    outline.sort();
    outline.dedup();
    let expected = vec![
        (0, 0),
        (0, 1),
        (0, 2),
        (1, 0),
        (1, 2),
        (2, 0),
        (2, 1),
        (2, 2),
    ];
    assert_eq!(outline, expected);
}

#[test]
fn pentagon_five_connected_edges_closing_into_loop() {
    let p = Pentagon::new(&Point::new(50, 50), 20);
    let e = p.edges();
    assert_eq!(e.len(), 5);
    for k in 0..4 {
        assert_eq!(e[k].end, e[k + 1].start);
    }
    assert_eq!(e[4].end, e[0].start);
}

#[test]
fn pentagon_vertices_match_fixed_point_trigonometry() {
    let p = Pentagon::new(&Point::new(50, 50), 20);
    let e = p.edges();
    assert_eq!(e[0].start, Point::new(70, 50));
    assert_eq!(e[1].start, Point::new(56, 69));
    assert_eq!(e[2].start, Point::new(33, 61));
    assert_eq!(e[3].start, Point::new(33, 38));
    assert_eq!(e[4].start, Point::new(56, 30));
}

#[test]
fn pentagon_radius_zero_degenerates_to_center() {
    let p = Pentagon::new(&Point::new(5, 5), 0);
    let e = p.edges();
    assert_eq!(e.len(), 5);
    for edge in &e {
        assert_eq!(edge.start, Point::new(5, 5));
        assert_eq!(edge.end, Point::new(5, 5));
        assert_eq!(line_points(&edge.start, &edge.end).len(), 1);
    }
}

#[test]
fn cube_twelve_edges() {
    let c = Cube::new(&Point::new(10, 10), 9);
    let e = c.edges();
    assert_eq!(e.len(), 12);
    let f = [
        Point::new(10, 10),
        Point::new(19, 10),
        Point::new(19, 19),
        Point::new(10, 19),
    ];
    let b = [
        Point::new(13, 7),
        Point::new(22, 7),
        Point::new(22, 16),
        Point::new(13, 16),
    ];
    for k in 0..4 {
        assert_eq!((e[k].start, e[k].end), (f[k], f[(k + 1) % 4]));
        assert_eq!((e[4 + k].start, e[4 + k].end), (b[k], b[(k + 1) % 4]));
        assert_eq!((e[8 + k].start, e[8 + k].end), (f[k], b[k]));
    }
}

#[test]
fn cube_negative_side_depth_from_magnitude() {
    let c = Cube::new(&Point::new(0, 0), -6);
    let e = c.edges();
    assert_eq!(e.len(), 12);
    assert_eq!(e[0].end, Point::new(-6, 0));
    assert_eq!(e[2].start, Point::new(-6, -6));
    assert_eq!(e[8].start, Point::new(0, 0));
    assert_eq!(e[8].end, Point::new(2, -2));
}
