use pixelcannon::winding::{is_culled, long_edge_on_right, sort_by_y, PixelPoint};

#[test]
fn double_area_exact_value() {
    let a = PixelPoint::new(250, 0);
    let b = PixelPoint::new(500, 300);
    let c = PixelPoint::new(0, 200);
    assert_eq!(a.calc_double_area(&b, &c), 250 * 200 - (-250) * 300);
}

#[test]
fn double_area_far_apart_does_not_overflow() {
    let a = PixelPoint::new(i32::MIN, i32::MIN);
    let b = PixelPoint::new(i32::MAX, i32::MIN);
    let c = PixelPoint::new(i32::MIN, i32::MAX);
    let side: i128 = i32::MAX as i128 - i32::MIN as i128;
    assert_eq!(a.calc_double_area(&b, &c), side * side);
}

#[test]
fn reversed_winding_flips_sign_and_cull() {
    let a = PixelPoint::new(10, 10);
    let b = PixelPoint::new(40, 25);
    let c = PixelPoint::new(5, 60);
    assert_eq!(a.calc_double_area(&c, &b), -a.calc_double_area(&b, &c));
    assert_eq!(b.calc_double_area(&a, &c), -a.calc_double_area(&b, &c));
    assert_ne!(is_culled(&a, &b, &c), is_culled(&a, &c, &b));
    assert_ne!(is_culled(&a, &b, &c), is_culled(&b, &a, &c));
}

#[test]
fn collinear_triangle_is_culled_in_both_windings() {
    let a = PixelPoint::new(0, 0);
    let b = PixelPoint::new(5, 5);
    let c = PixelPoint::new(10, 10);
    assert_eq!(a.calc_double_area(&b, &c), 0);
    assert!(is_culled(&a, &b, &c));
    assert!(is_culled(&a, &c, &b));
}

#[test]
fn example_triangle_is_drawn_in_one_winding_only() {
    // The three corners (250, 0), (0, 200), (500, 300) of a 500 x 400 surface.
    let top = PixelPoint::new(250, 0);
    let left = PixelPoint::new(0, 200);
    let right = PixelPoint::new(500, 300);
    // Given top, left, right the test reads double_area(top, right, left) =
    // 125000, which is not negative: culled.
    assert!(is_culled(&top, &left, &right));
    // Exchanging two corners reverses the winding and the triangle is drawn.
    assert!(!is_culled(&top, &right, &left));
    assert!(!is_culled(&left, &top, &right));
}

#[test]
fn handedness_of_sorted_vertices() {
    let min = PixelPoint::new(250, 0);
    let mid = PixelPoint::new(0, 200);
    let max = PixelPoint::new(500, 300);
    // The middle corner lies left of the long edge on screen.
    assert!(long_edge_on_right(&min, &mid, &max));
    let mid_right = PixelPoint::new(480, 100);
    assert!(!long_edge_on_right(&min, &mid_right, &max));
}

#[test]
fn sort_by_y_orders_every_permutation() {
    let ys = [[1, 2, 3], [1, 3, 2], [2, 1, 3], [2, 3, 1], [3, 1, 2], [3, 2, 1]];
    for [a, b, c] in ys {
        let r = sort_by_y(a, b, c, |p: &i32, q: &i32| p < q);
        assert_eq!(r, (1, 2, 3), "input {:?}", (a, b, c));
    }
}

#[test]
fn sort_by_y_keeps_ties_in_input_order() {
    // Points tagged by their input position; equal y must keep that order.
    let less = |p: &(f32, u8), q: &(f32, u8)| p.0 < q.0;
    assert_eq!(sort_by_y((1.0, 0), (0.0, 1), (1.0, 2), less), ((0.0, 1), (1.0, 0), (1.0, 2)));
    assert_eq!(sort_by_y((1.0, 0), (1.0, 1), (0.0, 2), less), ((0.0, 2), (1.0, 0), (1.0, 1)));
    assert_eq!(sort_by_y((5.5, 0), (5.5, 1), (5.5, 2), less), ((5.5, 0), (5.5, 1), (5.5, 2)));
    let r = sort_by_y((300.0, 0), (0.0, 1), (200.0, 2), less);
    assert!(r.0 .0 <= r.1 .0 && r.1 .0 <= r.2 .0);
}
