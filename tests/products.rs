use gmlib::componentwise::{map_components, map_entries, zip_components, zip_entries};
use gmlib::products::{cross, dot, matrix_product, matrix_vector_product, power, signed_dot};

fn mul(a: i64, b: i64) -> i64 {
    a * b
}

fn sum(a: i64, b: i64) -> i64 {
    a + b
}

fn diff(a: i64, b: i64) -> i64 {
    a - b
}

fn icross(a: [i64; 3], b: [i64; 3]) -> [i64; 3] {
    cross(a, b, &mul, &diff)
}

fn idot<const N: usize>(a: [i64; N], b: [i64; N]) -> i64 {
    dot(a, b, &mul, &sum)
}

fn iproduct<const K: usize>(a: [[i64; K]; K], b: [[i64; K]; K]) -> [[i64; K]; K] {
    matrix_product(a, b, &mul, &sum)
}

#[test]
fn component_wise_operations() {
    assert_eq!(zip_components([1, 2, 3], [10, 20, 30], sum), [11, 22, 33]);
    assert_eq!(zip_components([1, 2], [10, 20], diff), [-9, -18]);
    assert_eq!(map_components([1, -2, 3, 4], |x: i64| -x), [-1, 2, -3, -4]);
    assert_eq!(map_components([2.0f32, 4.0], |x| x / 2.0), [1.0, 2.0]);
    assert_eq!(zip_entries([[1, 2], [3, 4]], [[5, 6], [7, 8]], sum), [[6, 8], [10, 12]]);
    assert_eq!(map_entries([[1, 2, 3], [4, 5, 6], [7, 8, 9]], |x: i64| 2 * x), [[2, 4, 6], [8, 10, 12], [14, 16, 18]]);
}

#[test]
fn division_by_zero_scalar_gives_infinities() {
    let r = map_components([1.0f32, -2.0, 3.0], |x| x / 0.0);
    assert_eq!(r, [f32::INFINITY, f32::NEG_INFINITY, f32::INFINITY]);
}

#[test]
fn dot_product_sums_pairwise_products() {
    assert_eq!(idot([1, 2], [3, 4]), 11);
    assert_eq!(idot([1, 2, 3], [3, 2, 1]), 10);
    assert_eq!(idot([1, 2, 3, 4], [5, 6, 7, 8]), 70);
}

#[test]
fn signed_dot_adds_and_subtracts() {
    assert_eq!(signed_dot([1, 2, 3], [4, 5, 6], [false, true, false], &mul, &sum, &diff), 4 - 10 + 18);
    assert_eq!(signed_dot([7], [3], [true], &mul, &sum, &diff), 21);
}

#[test]
fn cross_product_worked_example() {
    assert_eq!(icross([-3, 2, 3], [1, 1, 1]), [-1, 6, -5]);
    assert_eq!(icross([1, 1, 1], [-3, 2, 3]), [1, -6, 5]);
    assert_eq!(cross([-3.0f32, 2.0, 3.0], [1.0, 1.0, 1.0], &|a: f32, b: f32| a * b, &|a: f32, b: f32| a - b), [-1.0, 6.0, -5.0]);
    assert_eq!(icross([1, 0, 0], [0, 1, 0]), [0, 0, 1]);
}

#[test]
fn cross_product_is_orthogonal_to_both_factors() {
    let cases = [([-3, 2, 3], [1, 1, 1]), ([2, -7, 5], [4, 0, -1]), ([1, 2, 3], [2, 4, 6])];
    for (u, v) in cases {
        let w = icross(u, v);
        assert_eq!(idot(u, w), 0);
        assert_eq!(idot(v, w), 0);
    }
}

#[test]
fn identity_is_neutral_for_the_product() {
    let id3 = [[1, 0, 0], [0, 1, 0], [0, 0, 1]];
    let m3 = [[1, 3, 2], [5, 1, 2], [4, 2, 1]];
    assert_eq!(iproduct(id3, m3), m3);
    assert_eq!(iproduct(m3, id3), m3);
    let id4 = [[1, 0, 0, 0], [0, 1, 0, 0], [0, 0, 1, 0], [0, 0, 0, 1]];
    let m4 = [[3, 1, 2, 5], [4, 4, 3, 6], [1, 3, 1, 7], [-2, 2, 1, 2]];
    assert_eq!(iproduct(id4, m4), m4);
    assert_eq!(iproduct(m4, id4), m4);
    let m2f = [[3.0f32, 4.0], [1.5, -2.0]];
    let id2f = [[1.0f32, 0.0], [0.0, 1.0]];
    let f = |a: f32, b: f32| a * b;
    let g = |a: f32, b: f32| a + b;
    assert_eq!(matrix_product(id2f, m2f, &f, &g), m2f);
    assert_eq!(matrix_product(m2f, id2f, &f, &g), m2f);
}

#[test]
fn matrix_product_is_rows_against_columns() {
    assert_eq!(iproduct([[1, 2], [3, 4]], [[5, 6], [7, 8]]), [[19, 22], [43, 50]]);
    assert_ne!(iproduct([[1, 2], [3, 4]], [[5, 6], [7, 8]]), iproduct([[5, 6], [7, 8]], [[1, 2], [3, 4]]));
}

#[test]
fn matrix_vector_product_is_rows_against_vector() {
    assert_eq!(matrix_vector_product([[1, 2], [3, 4]], [5, 6], &mul, &sum), [17, 39]);
    assert_eq!(matrix_vector_product([[1, 3, 2], [5, 1, 2], [4, 2, 1]], [1, 2, 3], &mul, &sum), [13, 13, 11]);
}

#[test]
fn pow_worked_example() {
    let id = [[1, 0, 0], [0, 1, 0], [0, 0, 1]];
    let m = [[1, 3, 2], [5, 1, 2], [4, 2, 1]];
    let times = |a: [[i64; 3]; 3], b: [[i64; 3]; 3]| iproduct(a, b);
    assert_eq!(power(m, id, 0, &times), id);
    assert_eq!(power(m, id, 1, &times), m);
    assert_eq!(power(m, id, 2, &times), iproduct(m, m));
    assert_eq!(power(m, id, 3, &times), iproduct(iproduct(m, m), m));
    assert_eq!(power(2i64, 1, 10, &mul), 1024);
}
