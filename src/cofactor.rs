//! Cofactor expansion: which rows and columns a minor keeps, the alternating
//! cofactor signs, the transpose that turns a cofactor matrix into the
//! adjugate, and the determinants built from them. Component arithmetic is
//! the caller's, passed in as functions.
use vstd::prelude::*;
use crate::products::{column, difference_of_products, is_difference_of_products, is_signed_dot, signed_dot};

verus! {

/// The i-th index kept when index `deleted` is struck out of 0, 1, 2, ...
pub open spec fn kept(i: int, deleted: int) -> int {
    if i < deleted {
        i
    } else {
        i + 1
    }
}

/// `n` is the minor of the 3×3 grid `m` with row `row` and column `col`
/// deleted, the remaining rows and columns kept in order.
pub open spec fn is_minor_3x3<T>(m: [[T; 3]; 3], row: int, col: int, n: [[T; 2]; 2]) -> bool {
    forall|i: int, j: int|
        0 <= i < 2 && 0 <= j < 2 ==> #[trigger] n@[i]@[j] == m@[kept(i, row)]@[kept(j, col)]
}

/// `n` is the minor of the 4×4 grid `m` with row `row` and column `col`
/// deleted, the remaining rows and columns kept in order.
pub open spec fn is_minor_4x4<T>(m: [[T; 4]; 4], row: int, col: int, n: [[T; 3]; 3]) -> bool {
    forall|i: int, j: int|
        0 <= i < 3 && 0 <= j < 3 ==> #[trigger] n@[i]@[j] == m@[kept(i, row)]@[kept(j, col)]
}

/// Where index `x`, not the deleted one, lands once index `deleted` is struck
/// out: the inverse of `kept`.
pub open spec fn position_after_deletion(x: int, deleted: int) -> int {
    if x < deleted {
        x
    } else {
        x - 1
    }
}

/// Every entry of a 3×3 grid outside the deleted row and column stands in the
/// minor, at the position that deleting them moves it to; with the minor's
/// definition this means that no entry is skipped or taken twice.
pub proof fn lemma_minor_3x3_keeps_the_rest<T>(m: [[T; 3]; 3], row: int, col: int, n: [[T; 2]; 2])
    requires
        0 <= row < 3,
        0 <= col < 3,
        is_minor_3x3(m, row, col, n),
    ensures
        forall|r: int, c: int|
            0 <= r < 3 && 0 <= c < 3 && r != row && c != col ==> #[trigger] m@[r]@[c]
                == n@[position_after_deletion(r, row)]@[position_after_deletion(c, col)],
{
    assert forall|r: int, c: int| 0 <= r < 3 && 0 <= c < 3 && r != row && c != col implies #[trigger] m@[r]@[c]
        == n@[position_after_deletion(r, row)]@[position_after_deletion(c, col)] by {
        let i = position_after_deletion(r, row);
        let j = position_after_deletion(c, col);
        assert(kept(i, row) == r && kept(j, col) == c);
        assert(n@[i]@[j] == m@[kept(i, row)]@[kept(j, col)]);
    }
}

/// Every entry of a 4×4 grid outside the deleted row and column stands in the
/// minor, at the position that deleting them moves it to; with the minor's
/// definition this means that no entry is skipped or taken twice.
pub proof fn lemma_minor_4x4_keeps_the_rest<T>(m: [[T; 4]; 4], row: int, col: int, n: [[T; 3]; 3])
    requires
        0 <= row < 4,
        0 <= col < 4,
        is_minor_4x4(m, row, col, n),
    ensures
        forall|r: int, c: int|
            0 <= r < 4 && 0 <= c < 4 && r != row && c != col ==> #[trigger] m@[r]@[c]
                == n@[position_after_deletion(r, row)]@[position_after_deletion(c, col)],
{
    assert forall|r: int, c: int| 0 <= r < 4 && 0 <= c < 4 && r != row && c != col implies #[trigger] m@[r]@[c]
        == n@[position_after_deletion(r, row)]@[position_after_deletion(c, col)] by {
        let i = position_after_deletion(r, row);
        let j = position_after_deletion(c, col);
        assert(kept(i, row) == r && kept(j, col) == c);
        assert(n@[i]@[j] == m@[kept(i, row)]@[kept(j, col)]);
    }
}

fn kept_index(i: usize, deleted: usize) -> (k: usize)
    requires
        i < 3,
    ensures
        k == kept(i as int, deleted as int),
{
    if i < deleted {
        i
    } else {
        i + 1
    }
}

/// The 2×2 minor of a 3×3 grid: row `row` and column `col` struck out.
pub fn minor_3x3<T: Copy>(m: [[T; 3]; 3], row: usize, col: usize) -> (n: [[T; 2]; 2])
    requires
        row < 3,
        col < 3,
    ensures
        is_minor_3x3(m, row as int, col as int, n),
{
    let r0 = kept_index(0, row);
    let r1 = kept_index(1, row);
    let c0 = kept_index(0, col);
    let c1 = kept_index(1, col);
    [[m[r0][c0], m[r0][c1]], [m[r1][c0], m[r1][c1]]]
}

/// The 3×3 minor of a 4×4 grid: row `row` and column `col` struck out.
pub fn minor_4x4<T: Copy>(m: [[T; 4]; 4], row: usize, col: usize) -> (n: [[T; 3]; 3])
    requires
        row < 4,
        col < 4,
    ensures
        is_minor_4x4(m, row as int, col as int, n),
{
    let r0 = kept_index(0, row);
    let r1 = kept_index(1, row);
    let r2 = kept_index(2, row);
    let c0 = kept_index(0, col);
    let c1 = kept_index(1, col);
    let c2 = kept_index(2, col);
    [
        [m[r0][c0], m[r0][c1], m[r0][c2]],
        [m[r1][c0], m[r1][c1], m[r1][c2]],
        [m[r2][c0], m[r2][c1], m[r2][c2]],
    ]
}

/// Whether the cofactor at (`row`, `col`) is the negated minor determinant:
/// the signs alternate `+ - + -` along every row and every column.
pub fn cofactor_is_negated(row: usize, col: usize) -> (negated: bool)
    ensures
        negated == ((row + col) % 2 == 1),
{
    row % 2 != col % 2
}

/// `t` is the transpose of the 3×3 grid `m`.
pub open spec fn is_transpose_3x3<T>(m: [[T; 3]; 3], t: [[T; 3]; 3]) -> bool {
    forall|i: int, j: int| 0 <= i < 3 && 0 <= j < 3 ==> #[trigger] t@[i]@[j] == m@[j]@[i]
}

/// `t` is the transpose of the 4×4 grid `m`.
pub open spec fn is_transpose_4x4<T>(m: [[T; 4]; 4], t: [[T; 4]; 4]) -> bool {
    forall|i: int, j: int| 0 <= i < 4 && 0 <= j < 4 ==> #[trigger] t@[i]@[j] == m@[j]@[i]
}

/// Rows become columns: entry (i, j) of the result is entry (j, i) of `m`.
pub fn transpose_3x3<T: Copy>(m: [[T; 3]; 3]) -> (t: [[T; 3]; 3])
    ensures
        is_transpose_3x3(m, t),
{
    [[m[0][0], m[1][0], m[2][0]], [m[0][1], m[1][1], m[2][1]], [m[0][2], m[1][2], m[2][2]]]
}

/// Rows become columns: entry (i, j) of the result is entry (j, i) of `m`.
pub fn transpose_4x4<T: Copy>(m: [[T; 4]; 4]) -> (t: [[T; 4]; 4])
    ensures
        is_transpose_4x4(m, t),
{
    [
        [m[0][0], m[1][0], m[2][0], m[3][0]],
        [m[0][1], m[1][1], m[2][1], m[3][1]],
        [m[0][2], m[1][2], m[2][2], m[3][2]],
        [m[0][3], m[1][3], m[2][3], m[3][3]],
    ]
}

/// The 2×2 determinant `m00·m11 - m01·m10`.
pub fn determinant_2x2<T: Copy, M: Fn(T, T) -> T, S: Fn(T, T) -> T>(m: [[T; 2]; 2], times: &M, minus: &S) -> (d: T)
    requires
        forall|x: T, y: T| times.requires((x, y)),
        forall|x: T, y: T| minus.requires((x, y)),
    ensures
        is_difference_of_products(m[0][0], m[1][1], m[0][1], m[1][0], *times, *minus, d),
{
    difference_of_products(m[0][0], m[1][1], m[0][1], m[1][0], times, minus)
}

/// `d` is the 3×3 determinant by the diagonal rule: the three forward
/// diagonal products `(m00·m11)·m22`, `(m01·m12)·m20`, `(m02·m10)·m21`,
/// minus the three backward ones `(m00·m12)·m21`, `(m01·m10)·m22`,
/// `(m02·m11)·m20`, summed in that order.
pub open spec fn is_diagonal_rule<T, M: Fn(T, T) -> T, A: Fn(T, T) -> T, S: Fn(T, T) -> T>(
    m: [[T; 3]; 3],
    times: M,
    plus: A,
    minus: S,
    d: T,
) -> bool {
    exists|heads: Seq<T>|
        heads.len() == 6 && times.ensures((m[0][0], m[1][1]), heads[0]) && times.ensures((m[0][1], m[1][2]), heads[1])
            && times.ensures((m[0][2], m[1][0]), heads[2]) && times.ensures((m[0][0], m[1][2]), heads[3])
            && times.ensures((m[0][1], m[1][0]), heads[4]) && times.ensures((m[0][2], m[1][1]), heads[5])
            && is_signed_dot(
            heads,
            seq![m[2][2], m[2][0], m[2][1], m[2][1], m[2][2], m[2][0]],
            seq![false, false, false, true, true, true],
            6,
            times,
            plus,
            minus,
            d,
        )
}

/// The 3×3 determinant by the diagonal rule.
pub fn determinant_3x3<T: Copy, M: Fn(T, T) -> T, A: Fn(T, T) -> T, S: Fn(T, T) -> T>(
    m: [[T; 3]; 3],
    times: &M,
    plus: &A,
    minus: &S,
) -> (d: T)
    requires
        forall|x: T, y: T| times.requires((x, y)),
        forall|x: T, y: T| plus.requires((x, y)),
        forall|x: T, y: T| minus.requires((x, y)),
    ensures
        is_diagonal_rule(m, *times, *plus, *minus, d),
{
    let heads = [
        times(m[0][0], m[1][1]),
        times(m[0][1], m[1][2]),
        times(m[0][2], m[1][0]),
        times(m[0][0], m[1][2]),
        times(m[0][1], m[1][0]),
        times(m[0][2], m[1][1]),
    ];
    let tails = [m[2][2], m[2][0], m[2][1], m[2][1], m[2][2], m[2][0]];
    let negated = [false, false, false, true, true, true];
    assert(tails@ =~= seq![m[2][2], m[2][0], m[2][1], m[2][1], m[2][2], m[2][0]]);
    assert(negated@ =~= seq![false, false, false, true, true, true]);
    let d = signed_dot(heads, tails, negated, times, plus, minus);
    // The six products themselves witness the diagonal rule.
    assert(heads@.len() == 6 && heads@[0] == heads[0]);
    d
}

/// `x` is the cofactor at (`row`, `col`) of the 4×4 grid `m`: the
/// determinant of that minor, negated where `row + col` is odd.
pub open spec fn is_cofactor_4x4<T, D: Fn([[T; 3]; 3]) -> T, N: Fn(T) -> T>(
    m: [[T; 4]; 4],
    row: int,
    col: int,
    det: D,
    negate: N,
    x: T,
) -> bool {
    exists|n: [[T; 3]; 3], d: T|
        is_minor_4x4(m, row, col, n) && det.ensures((n,), d) && if (row + col) % 2 == 1 {
            negate.ensures((d,), x)
        } else {
            x == d
        }
}

/// `x` is the cofactor at (`row`, `col`) of the 3×3 grid `m`: the
/// determinant of that minor, negated where `row + col` is odd.
pub open spec fn is_cofactor_3x3<T, D: Fn([[T; 2]; 2]) -> T, N: Fn(T) -> T>(
    m: [[T; 3]; 3],
    row: int,
    col: int,
    det: D,
    negate: N,
    x: T,
) -> bool {
    exists|n: [[T; 2]; 2], d: T|
        is_minor_3x3(m, row, col, n) && det.ensures((n,), d) && if (row + col) % 2 == 1 {
            negate.ensures((d,), x)
        } else {
            x == d
        }
}

/// `d` is the Laplace expansion of the 4×4 grid `m` along its first column:
/// `m00·M0 - m10·M1 + m20·M2 - m30·M3`, where `Mr` is the determinant of the
/// minor without row r and the first column.
pub open spec fn is_laplace_first_column<T, D: Fn([[T; 3]; 3]) -> T, M: Fn(T, T) -> T, A: Fn(T, T) -> T, S: Fn(
    T,
    T,
) -> T>(m: [[T; 4]; 4], det: D, times: M, plus: A, minus: S, d: T) -> bool {
    exists|minors: Seq<T>|
        minors.len() == 4 && (forall|r: int|
            0 <= r < 4 ==> exists|n: [[T; 3]; 3]| is_minor_4x4(m, r, 0, n) && det.ensures((n,), #[trigger] minors[r]))
            && is_signed_dot(column(m, 0), minors, seq![false, true, false, true], 4, times, plus, minus, d)
}

/// The 4×4 determinant by Laplace expansion along the first column, the
/// 3×3 minors measured by `det`.
pub fn determinant_4x4<
    T: Copy,
    D: Fn([[T; 3]; 3]) -> T,
    M: Fn(T, T) -> T,
    A: Fn(T, T) -> T,
    S: Fn(T, T) -> T,
>(m: [[T; 4]; 4], det: &D, times: &M, plus: &A, minus: &S) -> (d: T)
    requires
        forall|n: [[T; 3]; 3]| det.requires((n,)),
        forall|x: T, y: T| times.requires((x, y)),
        forall|x: T, y: T| plus.requires((x, y)),
        forall|x: T, y: T| minus.requires((x, y)),
    ensures
        is_laplace_first_column(m, *det, *times, *plus, *minus, d),
{
    let n0 = minor_4x4(m, 0, 0);
    let n1 = minor_4x4(m, 1, 0);
    let n2 = minor_4x4(m, 2, 0);
    let n3 = minor_4x4(m, 3, 0);
    let minors = [det(n0), det(n1), det(n2), det(n3)];
    let first = [m[0][0], m[1][0], m[2][0], m[3][0]];
    let negated = [false, true, false, true];
    assert(first@ =~= column(m, 0));
    assert(negated@ =~= seq![false, true, false, true]);
    let d = signed_dot(first, minors, negated, times, plus, minus);
    assert(is_minor_4x4(m, 0, 0, n0) && det.ensures((n0,), minors@[0]));
    assert(is_minor_4x4(m, 1, 0, n1) && det.ensures((n1,), minors@[1]));
    assert(is_minor_4x4(m, 2, 0, n2) && det.ensures((n2,), minors@[2]));
    assert(is_minor_4x4(m, 3, 0, n3) && det.ensures((n3,), minors@[3]));
    assert(forall|r: int|
        0 <= r < 4 ==> exists|n: [[T; 3]; 3]| is_minor_4x4(m, r, 0, n) && det.ensures((n,), #[trigger] minors@[r]));
    assert(is_signed_dot(column(m, 0), minors@, seq![false, true, false, true], 4, *times, *plus, *minus, d));
    assert(minors@.len() == 4);
    d
}

/// The adjugate of a 2×2 grid: the diagonal swapped, the other two entries
/// negated.
pub fn adjugate_2x2<T: Copy, N: Fn(T) -> T>(m: [[T; 2]; 2], negate: &N) -> (a: [[T; 2]; 2])
    requires
        forall|x: T| negate.requires((x,)),
    ensures
        a[0][0] == m[1][1],
        a[1][1] == m[0][0],
        negate.ensures((m[0][1],), a[0][1]),
        negate.ensures((m[1][0],), a[1][0]),
{
    [[m[1][1], negate(m[0][1])], [negate(m[1][0]), m[0][0]]]
}

/// The adjugate of a 3×3 grid: the cofactor matrix, its minors measured by
/// `det`, transposed.
pub fn adjugate_3x3<T: Copy, D: Fn([[T; 2]; 2]) -> T, N: Fn(T) -> T>(m: [[T; 3]; 3], det: &D, negate: &N) -> (a: [[T; 3]; 3])
    requires
        forall|n: [[T; 2]; 2]| det.requires((n,)),
        forall|x: T| negate.requires((x,)),
    ensures
        forall|r: int, c: int|
            0 <= r < 3 && 0 <= c < 3 ==> is_cofactor_3x3(m, c, r, *det, *negate, #[trigger] a[r][c]),
{
    let mut cof = m;
    let mut r: usize = 0;
    while r < 3
        invariant
            0 <= r <= 3,
            forall|n: [[T; 2]; 2]| det.requires((n,)),
            forall|x: T| negate.requires((x,)),
            forall|i: int, j: int|
                0 <= i < r && 0 <= j < 3 ==> is_cofactor_3x3(m, i, j, *det, *negate, #[trigger] cof[i][j]),
        decreases 3 - r,
    {
        let mut row = cof[r];
        let mut c: usize = 0;
        while c < 3
            invariant
                0 <= r < 3,
                0 <= c <= 3,
                forall|n: [[T; 2]; 2]| det.requires((n,)),
                forall|x: T| negate.requires((x,)),
                forall|j: int| 0 <= j < c ==> is_cofactor_3x3(m, r as int, j, *det, *negate, #[trigger] row[j]),
            decreases 3 - c,
        {
            let n = minor_3x3(m, r, c);
            let d = det(n);
            let x = if cofactor_is_negated(r, c) {
                negate(d)
            } else {
                d
            };
            assert(is_minor_3x3(m, r as int, c as int, n) && det.ensures((n,), d));
            row.set(c, x);
            c += 1;
        }
        cof.set(r, row);
        r += 1;
    }
    transpose_3x3(cof)
}

/// The adjugate of a 4×4 grid: the cofactor matrix, its minors measured by
/// `det`, transposed.
pub fn adjugate_4x4<T: Copy, D: Fn([[T; 3]; 3]) -> T, N: Fn(T) -> T>(m: [[T; 4]; 4], det: &D, negate: &N) -> (a: [[T; 4]; 4])
    requires
        forall|n: [[T; 3]; 3]| det.requires((n,)),
        forall|x: T| negate.requires((x,)),
    ensures
        forall|r: int, c: int|
            0 <= r < 4 && 0 <= c < 4 ==> is_cofactor_4x4(m, c, r, *det, *negate, #[trigger] a[r][c]),
{
    let mut cof = m;
    let mut r: usize = 0;
    while r < 4
        invariant
            0 <= r <= 4,
            forall|n: [[T; 3]; 3]| det.requires((n,)),
            forall|x: T| negate.requires((x,)),
            forall|i: int, j: int|
                0 <= i < r && 0 <= j < 4 ==> is_cofactor_4x4(m, i, j, *det, *negate, #[trigger] cof[i][j]),
        decreases 4 - r,
    {
        let mut row = cof[r];
        let mut c: usize = 0;
        while c < 4
            invariant
                0 <= r < 4,
                0 <= c <= 4,
                forall|n: [[T; 3]; 3]| det.requires((n,)),
                forall|x: T| negate.requires((x,)),
                forall|j: int| 0 <= j < c ==> is_cofactor_4x4(m, r as int, j, *det, *negate, #[trigger] row[j]),
            decreases 4 - c,
        {
            let n = minor_4x4(m, r, c);
            let d = det(n);
            let x = if cofactor_is_negated(r, c) {
                negate(d)
            } else {
                d
            };
            assert(is_minor_4x4(m, r as int, c as int, n) && det.ensures((n,), d));
            row.set(c, x);
            c += 1;
        }
        cof.set(r, row);
        r += 1;
    }
    transpose_4x4(cof)
}

} // verus!
