use gmlib::cofactor::{
    adjugate_2x2, adjugate_3x3, adjugate_4x4, cofactor_is_negated, determinant_2x2, determinant_3x3,
    determinant_4x4, minor_3x3, minor_4x4, transpose_3x3, transpose_4x4,
};
use gmlib::componentwise::map_entries;
use gmlib::products::matrix_product;

fn det2(m: [[f32; 2]; 2]) -> f32 {
    determinant_2x2(m, &|a: f32, b: f32| a * b, &|a: f32, b: f32| a - b)
}

fn det3(m: [[f32; 3]; 3]) -> f32 {
    determinant_3x3(m, &|a: f32, b: f32| a * b, &|a: f32, b: f32| a + b, &|a: f32, b: f32| a - b)
}

fn det4(m: [[f32; 4]; 4]) -> f32 {
    determinant_4x4(m, &det3, &|a: f32, b: f32| a * b, &|a: f32, b: f32| a + b, &|a: f32, b: f32| a - b)
}

fn inverse3(m: [[f32; 3]; 3]) -> [[f32; 3]; 3] {
    let det = det3(m);
    map_entries(adjugate_3x3(m, &det2, &|x: f32| -x), |x| x / det)
}

fn inverse4(m: [[f32; 4]; 4]) -> [[f32; 4]; 4] {
    let det = det4(m);
    map_entries(adjugate_4x4(m, &det3, &|x: f32| -x), |x| x / det)
}

fn product4(a: [[f32; 4]; 4], b: [[f32; 4]; 4]) -> [[f32; 4]; 4] {
    matrix_product(a, b, &|x: f32, y: f32| x * y, &|x: f32, y: f32| x + y)
}

fn idet2(m: [[i64; 2]; 2]) -> i64 {
    determinant_2x2(m, &|a: i64, b: i64| a * b, &|a: i64, b: i64| a - b)
}

fn idet3(m: [[i64; 3]; 3]) -> i64 {
    determinant_3x3(m, &|a: i64, b: i64| a * b, &|a: i64, b: i64| a + b, &|a: i64, b: i64| a - b)
}

fn idet4(m: [[i64; 4]; 4]) -> i64 {
    determinant_4x4(m, &idet3, &|a: i64, b: i64| a * b, &|a: i64, b: i64| a + b, &|a: i64, b: i64| a - b)
}

fn iproduct<const K: usize>(a: [[i64; K]; K], b: [[i64; K]; K]) -> [[i64; K]; K] {
    matrix_product(a, b, &|x: i64, y: i64| x * y, &|x: i64, y: i64| x + y)
}


#[test]
fn minor_3x3_strikes_row_and_column() {
    let m = [[1, 3, 2], [5, 1, 2], [4, 2, 1]];
    assert_eq!(minor_3x3(m, 0, 0), [[1, 2], [2, 1]]);
    assert_eq!(minor_3x3(m, 1, 2), [[1, 3], [4, 2]]);
    assert_eq!(minor_3x3(m, 2, 1), [[1, 2], [5, 2]]);
}

#[test]
fn minor_4x4_strikes_row_and_column() {
    let m = [[11, 12, 13, 14], [21, 22, 23, 24], [31, 32, 33, 34], [41, 42, 43, 44]];
    assert_eq!(minor_4x4(m, 0, 0), [[22, 23, 24], [32, 33, 34], [42, 43, 44]]);
    assert_eq!(minor_4x4(m, 1, 0), [[12, 13, 14], [32, 33, 34], [42, 43, 44]]);
    assert_eq!(minor_4x4(m, 3, 3), [[11, 12, 13], [21, 22, 23], [31, 32, 33]]);
    assert_eq!(minor_4x4(m, 2, 1), [[11, 13, 14], [21, 23, 24], [41, 43, 44]]);
}

#[test]
fn cofactor_signs_alternate() {
    let expected = [
        [false, true, false, true],
        [true, false, true, false],
        [false, true, false, true],
        [true, false, true, false],
    ];
    for r in 0..4 {
        for c in 0..4 {
            assert_eq!(cofactor_is_negated(r, c), expected[r][c]);
        }
    }
    assert!(!cofactor_is_negated(usize::MAX, 1));
    assert!(cofactor_is_negated(usize::MAX, 2));
}

#[test]
fn transpose_swaps_rows_and_columns() {
    assert_eq!(transpose_3x3([[1, 2, 3], [4, 5, 6], [7, 8, 9]]), [[1, 4, 7], [2, 5, 8], [3, 6, 9]]);
    let m = [[11, 12, 13, 14], [21, 22, 23, 24], [31, 32, 33, 34], [41, 42, 43, 44]];
    assert_eq!(transpose_4x4(m), [[11, 21, 31, 41], [12, 22, 32, 42], [13, 23, 33, 43], [14, 24, 34, 44]]);
    assert_eq!(transpose_4x4(transpose_4x4(m)), m);
}

#[test]
fn laplace_expansion_of_worked_matrices() {
    let m3 = [[1.0f32, 3.0, 2.0], [5.0, 1.0, 2.0], [4.0, 2.0, 1.0]];
    assert!((det3(m3) - 18.0).abs() < 1e-5);
    let m4 = [[3.0f32, 1.0, 2.0, 5.0], [4.0, 4.0, 3.0, 6.0], [1.0, 3.0, 1.0, 7.0], [-2.0, 2.0, 1.0, 2.0]];
    assert!((det4(m4) + 96.0).abs() < 1e-3);
}

#[test]
fn adjugate_inverse_of_worked_3x3() {
    let m = [[1.0f32, 3.0, 2.0], [5.0, 1.0, 2.0], [4.0, 2.0, 1.0]];
    let expected = [
        [-0.16667f32, 0.05556, 0.22222],
        [0.16667, -0.38889, 0.44444],
        [0.33333, 0.55556, -0.77778],
    ];
    let inv = inverse3(m);
    for r in 0..3 {
        for c in 0..3 {
            assert!((inv[r][c] - expected[r][c]).abs() < 1e-4);
        }
    }
}

#[test]
fn adjugate_inverse_of_4x4_gives_identity() {
    let m = [[3.0f32, 1.0, 2.0, 5.0], [4.0, 4.0, 3.0, 6.0], [1.0, 3.0, 1.0, 7.0], [-2.0, 2.0, 1.0, 2.0]];
    let p = product4(m, inverse4(m));
    for r in 0..4 {
        for c in 0..4 {
            let id = if r == c { 1.0 } else { 0.0 };
            assert!((p[r][c] - id).abs() < 1e-4);
        }
    }
}

#[test]
fn determinant_2x2_closed_form() {
    assert_eq!(idet2([[3, 4], [1, 2]]), 2);
    assert_eq!(idet2([[1, 2], [2, 4]]), 0);
}

#[test]
fn determinant_is_multiplicative_on_integer_matrices() {
    let a3 = [[1, 3, 2], [5, 1, 2], [4, 2, 1]];
    let b3 = [[2, 0, 1], [1, -1, 3], [0, 4, 2]];
    assert_eq!(idet3(iproduct(a3, b3)), idet3(a3) * idet3(b3));
    let a4 = [[3, 1, 2, 5], [4, 4, 3, 6], [1, 3, 1, 7], [-2, 2, 1, 2]];
    let b4 = [[1, 0, 2, 0], [0, 1, 0, 3], [2, 0, 1, 0], [0, 1, 1, 1]];
    assert_eq!(idet4(a4), -96);
    assert_eq!(idet4(iproduct(a4, b4)), idet4(a4) * idet4(b4));
    let a2 = [[3, 4], [1, 2]];
    let b2 = [[-1, 5], [2, 7]];
    assert_eq!(idet2(iproduct(a2, b2)), idet2(a2) * idet2(b2));
}

#[test]
fn matrix_times_adjugate_is_determinant_times_identity() {
    let m2 = [[3, 4], [1, 2]];
    assert_eq!(iproduct(m2, adjugate_2x2(m2, &|x: i64| -x)), [[2, 0], [0, 2]]);
    let m3 = [[1, 3, 2], [5, 1, 2], [4, 2, 1]];
    assert_eq!(iproduct(m3, adjugate_3x3(m3, &idet2, &|x: i64| -x)), [[18, 0, 0], [0, 18, 0], [0, 0, 18]]);
    let m4 = [[3, 1, 2, 5], [4, 4, 3, 6], [1, 3, 1, 7], [-2, 2, 1, 2]];
    let p = iproduct(m4, adjugate_4x4(m4, &idet3, &|x: i64| -x));
    for r in 0..4 {
        for c in 0..4 {
            assert_eq!(p[r][c], if r == c { -96 } else { 0 });
        }
    }
}
