use swarmer::vec2::{div_trunc, isqrt, normalize_scaled, Vec2};
use swarmer::{limit, Range};

#[test]
fn limit_clamps_below_inside_above() {
    let r = Range { min: -5, max: 10 };
    assert_eq!(limit(-20, &r), -5);
    assert_eq!(limit(-5, &r), -5);
    assert_eq!(limit(3, &r), 3);
    assert_eq!(limit(10, &r), 10);
    assert_eq!(limit(11, &r), 10);
}

#[test]
fn isqrt_exact_values() {
    assert_eq!(isqrt(0), 0);
    assert_eq!(isqrt(1), 1);
    assert_eq!(isqrt(2), 1);
    assert_eq!(isqrt(3), 1);
    assert_eq!(isqrt(4), 2);
    assert_eq!(isqrt(24), 4);
    assert_eq!(isqrt(25), 5);
    assert_eq!(isqrt(999_999), 999);
    assert_eq!(isqrt(1_000_000), 1000);
    assert_eq!(isqrt(u64::MAX as u128), 4_294_967_295);
}

#[test]
fn div_trunc_rounds_toward_zero() {
    assert_eq!(div_trunc(7, 2), 3);
    assert_eq!(div_trunc(-7, 2), -3);
    assert_eq!(div_trunc(6, 3), 2);
    assert_eq!(div_trunc(-6, 3), -2);
    assert_eq!(div_trunc(0, 5), 0);
    assert_eq!(div_trunc(1, 2), 0);
    assert_eq!(div_trunc(-1, 2), 0);
}

#[test]
fn normalize_scaled_three_four_five() {
    let u = normalize_scaled(Vec2 { x: 3, y: 4 });
    assert_eq!(u, Vec2 { x: 600, y: 800 });
    let u = normalize_scaled(Vec2 { x: -3000, y: 4000 });
    assert_eq!(u, Vec2 { x: -600, y: 800 });
}

#[test]
fn normalize_scaled_axis_aligned() {
    let u = normalize_scaled(Vec2 { x: 12_345, y: 0 });
    assert_eq!(u, Vec2 { x: 1000, y: 0 });
    let u = normalize_scaled(Vec2 { x: 0, y: -7 });
    assert_eq!(u, Vec2 { x: 0, y: -1000 });
}
