use fps_control::vec3::{isqrt, normalize_or_zero, Vec3Fx, SCALE};

#[test]
fn isqrt_matches_exact_squares_and_neighbors() {
    assert_eq!(isqrt(0), 0);
    assert_eq!(isqrt(1), 1);
    assert_eq!(isqrt(2), 1);
    assert_eq!(isqrt(3), 1);
    assert_eq!(isqrt(4), 2);
    assert_eq!(isqrt(999_999), 999);
    assert_eq!(isqrt(1_000_000), 1000);
    assert_eq!(isqrt(1_000_000_000_000), 1_000_000);
    assert_eq!(isqrt(2_000_000_000_000), 1_414_213);
    assert_eq!(isqrt(u64::MAX), 4_294_967_295);
}

#[test]
fn normalize_keeps_axis_unit_vectors() {
    let v = Vec3Fx::new(0, 0, -SCALE);
    assert_eq!(normalize_or_zero(&v), v);
    let v = Vec3Fx::new(SCALE, 0, 0);
    assert_eq!(normalize_or_zero(&v), v);
}

#[test]
fn normalize_scales_a_three_four_five_triangle() {
    let v = Vec3Fx::new(300_000, 400_000, 0);
    let n = normalize_or_zero(&v);
    assert_eq!(n, Vec3Fx::new(600_000, 800_000, 0));
}

#[test]
fn normalize_preserves_component_signs() {
    let v = Vec3Fx::new(-300_000, 400_000, 0);
    let n = normalize_or_zero(&v);
    assert_eq!(n, Vec3Fx::new(-600_000, 800_000, 0));
}

#[test]
fn normalize_of_zero_is_zero() {
    let v = Vec3Fx::new(0, 0, 0);
    assert_eq!(normalize_or_zero(&v), v);
}

#[test]
fn vector_sum_and_negation_are_component_wise() {
    let a = Vec3Fx::new(1, -2, 3);
    let b = Vec3Fx::new(10, 20, -30);
    assert_eq!(a.plus(&b), Vec3Fx::new(11, 18, -27));
    assert_eq!(a.negate(), Vec3Fx::new(-1, 2, -3));
}
