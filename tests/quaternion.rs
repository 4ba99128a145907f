use gmlib::componentwise::map_components;
use gmlib::products::dot;
use gmlib::quaternion::{about_pivot, conjugate, hamilton, sandwich};

fn mul(a: f64, b: f64) -> f64 {
    a * b
}

fn sum(a: f64, b: f64) -> f64 {
    a + b
}

fn diff(a: f64, b: f64) -> f64 {
    a - b
}

fn neg(a: f64) -> f64 {
    -a
}

fn rotate(point: [f64; 3], axis: [f64; 3], angle: f64) -> [f64; 3] {
    let len = (axis[0] * axis[0] + axis[1] * axis[1] + axis[2] * axis[2]).sqrt();
    let s = (0.5 * angle).sin() / len;
    sandwich((0.5 * angle).cos(), [axis[0] * s, axis[1] * s, axis[2] * s], point, 0.0, &mul, &sum, &diff, &neg)
}

fn close(a: [f64; 3], b: [f64; 3]) -> bool {
    (0..3).all(|i| (a[i] - b[i]).abs() < 1e-9)
}

#[test]
fn hamilton_units_multiply_right_handed() {
    let m = |a: i64, b: i64| a * b;
    let p = |a: i64, b: i64| a + b;
    let s = |a: i64, b: i64| a - b;
    let i = [0, 1, 0, 0];
    let j = [0, 0, 1, 0];
    let k = [0, 0, 0, 1];
    assert_eq!(hamilton(i, j, &m, &p, &s), k);
    assert_eq!(hamilton(j, k, &m, &p, &s), i);
    assert_eq!(hamilton(k, i, &m, &p, &s), j);
    assert_eq!(hamilton(j, i, &m, &p, &s), [0, 0, 0, -1]);
    assert_eq!(hamilton(i, i, &m, &p, &s), [-1, 0, 0, 0]);
    assert_eq!(hamilton([1, 2, 3, 4], [5, 6, 7, 8], &m, &p, &s), [-60, 12, 30, 24]);
}

#[test]
fn conjugate_negates_vector_part() {
    assert_eq!(conjugate([1, 2, -3, 4], &|x: i64| -x), [1, -2, 3, -4]);
}

#[test]
fn quarter_turn_about_z_is_counter_clockwise() {
    let r = rotate([1.0, 0.0, 0.0], [0.0, 0.0, 2.0], std::f64::consts::FRAC_PI_2);
    assert!(close(r, [0.0, 1.0, 0.0]));
    let r = rotate([0.0, 1.0, 0.0], [1.0, 0.0, 0.0], std::f64::consts::FRAC_PI_2);
    assert!(close(r, [0.0, 0.0, 1.0]));
}

#[test]
fn rotation_by_zero_keeps_the_point() {
    let p = [1.5, -2.0, 0.25];
    assert_eq!(rotate(p, [1.0, 2.0, 3.0], 0.0), p);
}

#[test]
fn rotation_by_a_full_turn_keeps_the_point() {
    let p = [1.5, -2.0, 0.25];
    assert!(close(rotate(p, [1.0, 2.0, 3.0], 2.0 * std::f64::consts::PI), p));
    assert!(close(rotate(p, [0.0, -1.0, 0.0], 2.0 * std::f64::consts::PI), p));
}

#[test]
fn turning_about_a_pivot_shifts_turns_and_shifts_back() {
    let axis = [0.0, 0.0, 1.0];
    let angle = 1.1;
    let turn = |p: [f64; 3]| rotate(p, axis, angle);
    let p = [3.0, 1.0, -2.0];
    let pivot = [1.0, 1.0, 0.5];
    let r = about_pivot(p, pivot, &turn, &sum, &diff);
    let t = rotate([2.0, 0.0, -2.5], axis, angle);
    assert!(close(r, [t[0] + 1.0, t[1] + 1.0, t[2] + 0.5]));
    assert!(close(about_pivot(pivot, pivot, &turn, &sum, &diff), pivot));
}

#[test]
fn normalized_vectors_have_unit_length() {
    for v in [[3.0f64, 4.0, 0.0], [1.0, -2.0, 2.0], [0.1, 0.2, 0.3]] {
        let len = dot(v, v, &mul, &sum).sqrt();
        let n = map_components(v, |x| x / len);
        assert!((dot(n, n, &mul, &sum).sqrt() - 1.0).abs() < 1e-12);
        let len_n = dot(n, n, &mul, &sum).sqrt();
        assert!(close(map_components(n, |x| x / len_n), n));
    }
}
