use polygon::utils::{is_point_in_polygon, Convert, Frac};

fn unit_square_scaled(scale: i64) -> Vec<(i64, i64)> {
    vec![(0, 0), (scale, 0), (scale, scale), (0, scale)]
}

#[test]
fn point_inside_convex_quadrilateral() {
    // The convex quadrilateral (0,0),(1,0),(1,1),(0,1), scaled to pixels.
    let square = unit_square_scaled(1000);
    assert!(is_point_in_polygon(&square, (500, 500)));
}

#[test]
fn point_outside_convex_quadrilateral() {
    let square = unit_square_scaled(1000);
    assert!(!is_point_in_polygon(&square, (1500, 500)));
}

#[test]
fn point_on_vertex_is_deterministic() {
    let square = unit_square_scaled(1000);
    let first = is_point_in_polygon(&square, (0, 0));
    for _ in 0..10 {
        assert_eq!(is_point_in_polygon(&square, (0, 0)), first);
    }
}

#[test]
fn empty_and_degenerate_polygons_contain_nothing() {
    let empty: Vec<(i64, i64)> = Vec::new();
    assert!(!is_point_in_polygon(&empty, (10, 10)));
    let one_point = vec![(5, 5)];
    assert!(!is_point_in_polygon(&one_point, (5, 5)));
    let two_points = vec![(0, 0), (10, 0)];
    assert!(!is_point_in_polygon(&two_points, (5, 0)));
}

#[test]
fn concave_polygon_hit_test() {
    // An L-shaped (concave) hexagon.
    let l_shape = vec![(0, 0), (100, 0), (100, 40), (40, 40), (40, 100), (0, 100)];
    // Inside the lower bar.
    assert!(is_point_in_polygon(&l_shape, (80, 20)));
    // Inside the left column.
    assert!(is_point_in_polygon(&l_shape, (20, 80)));
    // In the notch: outside the polygon, inside its bounding box.
    assert!(!is_point_in_polygon(&l_shape, (80, 80)));
}

#[test]
fn from_viewport_scales_by_width() {
    let conv = Convert::new(2000);
    // 0.25 of the screen width on both axes.
    let (x, y) = conv.from_viewport(Frac::new(1, 4), Frac::new(1, 4));
    assert_eq!((x, y), (500, 500));
    // A sloppily defined vertex outside [0, 1] is scaled, not rejected.
    let (x, y) = conv.from_viewport(Frac::new(3, 2), Frac::new(1, 2));
    assert_eq!((x, y), (3000, 1000));
}

#[test]
fn to_viewport_clamps_into_unit_range() {
    let conv = Convert::new(1000);
    let (x, y) = conv.to_viewport(-25, 1800);
    assert_eq!(x, Frac::new(0, 1000));
    assert_eq!(y, Frac::new(1000, 1000));
}

#[test]
fn viewport_round_trip_is_exact_for_width_fractions() {
    // to_viewport(from_viewport(x, y)) == (x, y) for positions in
    // [0, 1] x [0, 1] expressed over the screen width.
    let width = 1920;
    let conv = Convert::new(width);
    for num in [0, 1, 7, 960, 1919, 1920] {
        let v = Frac::new(num, width);
        let (px, py) = conv.from_viewport(v, v);
        let (bx, by) = conv.to_viewport(px, py);
        assert_eq!(bx, v);
        assert_eq!(by, v);
    }
}

#[test]
fn viewport_round_trip_is_within_one_pixel_for_other_fractions() {
    let width = 1000;
    let conv = Convert::new(width);
    // 1/3 cannot be represented exactly over width 1000 ...
    let v = Frac::new(1, 3);
    let (px, _) = conv.from_viewport(v, v);
    assert_eq!(px, 333);
    let (bx, _) = conv.to_viewport(px, px);
    // ... but the round trip lands within one pixel of it:
    // |333/1000 - 1/3| < 1/1000, cross-multiplied.
    assert!((bx.num * v.den - v.num * width).abs() < v.den);
}

#[test]
fn same_value_compares_across_denominators() {
    let half_a = Frac::new(1, 2);
    let half_b = Frac::new(500, 1000);
    let third = Frac::new(1, 3);
    assert!(half_a.same_value(&half_b));
    assert!(!half_a.same_value(&third));
}
