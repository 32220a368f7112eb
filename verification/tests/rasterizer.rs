use geometrical_shapes::line::line_points;
use geometrical_shapes::Point;

fn coords(ps: &[Point]) -> Vec<(i32, i32)> {
    ps.iter().map(|p| (p.x, p.y)).collect()
}

fn sorted_coords(ps: &[Point]) -> Vec<(i32, i32)> {
    let mut v = coords(ps);
    v.sort();
    v
}

#[test]
fn diagonal_line_pixels() {
    let r = line_points(&Point::new(0, 0), &Point::new(3, 3));
    assert_eq!(coords(&r), vec![(0, 0), (1, 1), (2, 2), (3, 3)]);
}

#[test]
fn line_length_is_chebyshev_plus_one() {
    let cases = vec![
        ((0, 0), (3, 3), 4),
        ((0, 0), (4, 1), 5),
        ((2, 7), (2, 3), 5),
        ((-3, -2), (3, 1), 7),
        ((5, 5), (5, 5), 1),
        ((10, 0), (0, 0), 11),
    ];
    for ((x0, y0), (x1, y1), len) in cases {
        let r = line_points(&Point::new(x0, y0), &Point::new(x1, y1));
        assert_eq!(r.len(), len);
    }
}

#[test]
fn line_contains_endpoints_exactly_once() {
    let a = Point::new(-3, 4);
    let b = Point::new(8, -1);
    let r = line_points(&a, &b);
    assert_eq!(r[0], a);
    assert_eq!(r[r.len() - 1], b);
    let starts = r.iter().filter(|p| **p == a).count();
    let ends = r.iter().filter(|p| **p == b).count();
    assert_eq!(starts, 1);
    assert_eq!(ends, 1);
}

#[test]
fn line_pixels_all_distinct() {
    let r = line_points(&Point::new(0, 0), &Point::new(7, 3));
    let mut v = sorted_coords(&r);
    v.dedup();
    assert_eq!(v.len(), r.len());
}

#[test]
fn line_symmetric_pixel_sets() {
    let cases = vec![
        ((0, 0), (4, 1)),
        ((0, 0), (3, 3)),
        ((-5, 2), (7, -9)),
        ((1, 1), (2, 9)),
        ((0, 0), (0, 6)),
    ];
    for ((x0, y0), (x1, y1)) in cases {
        let a = Point::new(x0, y0);
        let b = Point::new(x1, y1);
        let fwd = sorted_coords(&line_points(&a, &b));
        let rev = sorted_coords(&line_points(&b, &a));
        assert_eq!(fwd, rev);
    }
}

#[test]
fn degenerate_line_single_pixel() {
    let r = line_points(&Point::new(-7, 9), &Point::new(-7, 9));
    assert_eq!(coords(&r), vec![(-7, 9)]);
}

#[test]
fn flat_line_rounds_half_away_from_zero() {
    let r = line_points(&Point::new(0, 0), &Point::new(4, 1));
    assert_eq!(coords(&r), vec![(0, 0), (1, 0), (2, 1), (3, 1), (4, 1)]);
}
