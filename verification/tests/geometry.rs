use boids::vector::{Pull, Vec2};

#[test]
fn distance_squared_of_a_3_4_5_triangle() {
    let a = Vec2::new(0, 0);
    let b = Vec2::new(3, 4);
    assert_eq!(a.distance_squared(&b), 25);
    assert_eq!(b.distance_squared(&a), 25);
}

#[test]
fn within_includes_the_rim() {
    let a = Vec2::new(0, 0);
    let b = Vec2::new(3, 4);
    assert!(a.is_within(&b, 5));
    assert!(!a.is_within(&b, 4));
    assert!(a.is_within(&a, 0));
    assert!(!a.is_within(&a, -1));
}

#[test]
fn cross_sign_is_exact_for_wide_pulls() {
    let up = Vec2::new(0, 1);
    assert!(up.cross_is_positive(&Pull::new(-1, 0)));
    assert!(!up.cross_is_positive(&Pull::new(1, 0)));
    assert!(!up.cross_is_positive(&Pull::new(0, 5)));
    let f = Vec2::new(i32::MAX, i32::MIN);
    assert!(f.cross_is_positive(&Pull::new(i128::MAX, i128::MAX)));
    assert!(!f.cross_is_positive(&Pull::new(i128::MIN, i128::MIN)));
    let g = Vec2::new(3, 1);
    assert!(g.cross_is_positive(&Pull::new(3 * (1i128 << 100), (1i128 << 100) + 1)));
    assert!(!g.cross_is_positive(&Pull::new(3 * (1i128 << 100), 1i128 << 100)));
}
