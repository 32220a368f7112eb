use geometrical_shapes::{Circle, Line, Pentagon, Point};

#[test]
fn random_point_stays_in_bounds() {
    for _ in 0..200 {
        let p = Point::random(7, 5);
        assert!(0 <= p.x && p.x < 7);
        assert!(0 <= p.y && p.y < 5);
    }
}

#[test]
fn random_point_on_unit_grid_is_origin() {
    let p = Point::random(1, 1);
    assert_eq!(p, Point::new(0, 0));
}

#[test]
fn random_points_vary() {
    let first = Point::random(1000000, 1000000);
    let mut saw_other = false;
    for _ in 0..20 {
        if Point::random(1000000, 1000000) != first {
            saw_other = true;
        }
    }
    assert!(saw_other);
}

#[test]
fn random_line_stays_in_bounds() {
    for _ in 0..100 {
        let l = Line::random(9, 4);
        assert!(0 <= l.start.x && l.start.x < 9);
        assert!(0 <= l.start.y && l.start.y < 4);
        assert!(0 <= l.end.x && l.end.x < 9);
        assert!(0 <= l.end.y && l.end.y < 4);
    }
}

#[test]
fn random_circle_radius_below_min_dimension() {
    for _ in 0..200 {
        let c = Circle::random(7, 5);
        assert!(0 <= c.radius && c.radius < 5);
        assert!(0 <= c.center.x && c.center.x < 7);
        assert!(0 <= c.center.y && c.center.y < 5);
    }
    for _ in 0..200 {
        let c = Circle::random(4, 11);
        assert!(c.radius < 4);
    }
}

#[test]
fn random_circle_on_unit_grid_is_degenerate() {
    let c = Circle::random(1, 1);
    assert_eq!(c.center, Point::new(0, 0));
    assert_eq!(c.radius, 0);
}

#[test]
fn random_pentagon_radius_below_min_dimension() {
    for _ in 0..200 {
        let p = Pentagon::random(5, 9);
        assert!(0 <= p.radius && p.radius < 5);
        assert!(0 <= p.center.x && p.center.x < 5);
        assert!(0 <= p.center.y && p.center.y < 9);
    }
}
