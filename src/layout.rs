//! Row-major layout of square matrices: the flat, ordered component list
//! used by constructors and by packed buffers, against the grid of rows.
use vstd::prelude::*;

verus! {

/// The flat list `values` lists the 2×2 grid `m` row by row: row r, column c
/// is component `r * 2 + c`.
pub open spec fn lists_rows_2x2<T>(values: [T; 4], m: [[T; 2]; 2]) -> bool {
    forall|r: int, c: int| 0 <= r < 2 && 0 <= c < 2 ==> m@[r]@[c] == #[trigger] values@[r * 2 + c]
}

/// The flat list `values` lists the 3×3 grid `m` row by row: row r, column c
/// is component `r * 3 + c`.
pub open spec fn lists_rows_3x3<T>(values: [T; 9], m: [[T; 3]; 3]) -> bool {
    forall|r: int, c: int| 0 <= r < 3 && 0 <= c < 3 ==> m@[r]@[c] == #[trigger] values@[r * 3 + c]
}

/// The flat list `values` lists the 4×4 grid `m` row by row: row r, column c
/// is component `r * 4 + c`.
pub open spec fn lists_rows_4x4<T>(values: [T; 16], m: [[T; 4]; 4]) -> bool {
    forall|r: int, c: int| 0 <= r < 4 && 0 <= c < 4 ==> m@[r]@[c] == #[trigger] values@[r * 4 + c]
}

/// Fills a 2×2 grid row by row from four components.
pub fn rows_from_2x2<T: Copy>(values: [T; 4]) -> (m: [[T; 2]; 2])
    ensures
        lists_rows_2x2(values, m),
{
    [[values[0], values[1]], [values[2], values[3]]]
}

/// Fills a 3×3 grid row by row from nine components.
pub fn rows_from_3x3<T: Copy>(values: [T; 9]) -> (m: [[T; 3]; 3])
    ensures
        lists_rows_3x3(values, m),
{
    [
        [values[0], values[1], values[2]],
        [values[3], values[4], values[5]],
        [values[6], values[7], values[8]],
    ]
}

/// Fills a 4×4 grid row by row from sixteen components.
pub fn rows_from_4x4<T: Copy>(values: [T; 16]) -> (m: [[T; 4]; 4])
    ensures
        lists_rows_4x4(values, m),
{
    [
        [values[0], values[1], values[2], values[3]],
        [values[4], values[5], values[6], values[7]],
        [values[8], values[9], values[10], values[11]],
        [values[12], values[13], values[14], values[15]],
    ]
}

/// Lists the components of a 2×2 grid row by row.
pub fn flatten_2x2<T: Copy>(m: [[T; 2]; 2]) -> (values: [T; 4])
    ensures
        lists_rows_2x2(values, m),
{
    [m[0][0], m[0][1], m[1][0], m[1][1]]
}

/// Lists the components of a 3×3 grid row by row.
pub fn flatten_3x3<T: Copy>(m: [[T; 3]; 3]) -> (values: [T; 9])
    ensures
        lists_rows_3x3(values, m),
{
    [m[0][0], m[0][1], m[0][2], m[1][0], m[1][1], m[1][2], m[2][0], m[2][1], m[2][2]]
}

/// Lists the components of a 4×4 grid row by row.
pub fn flatten_4x4<T: Copy>(m: [[T; 4]; 4]) -> (values: [T; 16])
    ensures
        lists_rows_4x4(values, m),
{
    [
        m[0][0], m[0][1], m[0][2], m[0][3],
        m[1][0], m[1][1], m[1][2], m[1][3],
        m[2][0], m[2][1], m[2][2], m[2][3],
        m[3][0], m[3][1], m[3][2], m[3][3],
    ]
}

/// Flattening a grid that was filled from a list gives back that list.
pub proof fn lemma_flatten_after_fill_2x2<T>(values: [T; 4], m: [[T; 2]; 2], back: [T; 4])
    requires
        lists_rows_2x2(values, m),
        lists_rows_2x2(back, m),
    ensures
        back == values,
{
    assert forall|i: int| 0 <= i < 4 implies back[i] == values[i] by {
        let r = i / 2;
        let c = i % 2;
        assert(i == r * 2 + c);
        assert(back@[r * 2 + c] == m@[r]@[c]);
    }
    assert(back =~= values);
}

/// Filling a grid from the row-by-row list of another grid gives back that
/// grid.
pub proof fn lemma_fill_after_flatten_2x2<T>(m: [[T; 2]; 2], values: [T; 4], back: [[T; 2]; 2])
    requires
        lists_rows_2x2(values, m),
        lists_rows_2x2(values, back),
    ensures
        back == m,
{
    assert forall|r: int| 0 <= r < 2 implies back[r] == m[r] by {
        assert forall|c: int| 0 <= c < 2 implies back[r][c] == m[r][c] by {
            assert(values@[r * 2 + c] == m@[r]@[c]);
        }
        assert(back[r] =~= m[r]);
    }
    assert(back =~= m);
}

/// Flattening a grid that was filled from a list gives back that list.
pub proof fn lemma_flatten_after_fill_3x3<T>(values: [T; 9], m: [[T; 3]; 3], back: [T; 9])
    requires
        lists_rows_3x3(values, m),
        lists_rows_3x3(back, m),
    ensures
        back == values,
{
    assert forall|i: int| 0 <= i < 9 implies back[i] == values[i] by {
        let r = i / 3;
        let c = i % 3;
        assert(i == r * 3 + c);
        assert(back@[r * 3 + c] == m@[r]@[c]);
    }
    assert(back =~= values);
}

/// Filling a grid from the row-by-row list of another grid gives back that
/// grid.
pub proof fn lemma_fill_after_flatten_3x3<T>(m: [[T; 3]; 3], values: [T; 9], back: [[T; 3]; 3])
    requires
        lists_rows_3x3(values, m),
        lists_rows_3x3(values, back),
    ensures
        back == m,
{
    assert forall|r: int| 0 <= r < 3 implies back[r] == m[r] by {
        assert forall|c: int| 0 <= c < 3 implies back[r][c] == m[r][c] by {
            assert(values@[r * 3 + c] == m@[r]@[c]);
        }
        assert(back[r] =~= m[r]);
    }
    assert(back =~= m);
}

/// Flattening a grid that was filled from a list gives back that list.
pub proof fn lemma_flatten_after_fill_4x4<T>(values: [T; 16], m: [[T; 4]; 4], back: [T; 16])
    requires
        lists_rows_4x4(values, m),
        lists_rows_4x4(back, m),
    ensures
        back == values,
{
    assert forall|i: int| 0 <= i < 16 implies back[i] == values[i] by {
        let r = i / 4;
        let c = i % 4;
        assert(i == r * 4 + c);
        assert(back@[r * 4 + c] == m@[r]@[c]);
    }
    assert(back =~= values);
}

/// Filling a grid from the row-by-row list of another grid gives back that
/// grid.
pub proof fn lemma_fill_after_flatten_4x4<T>(m: [[T; 4]; 4], values: [T; 16], back: [[T; 4]; 4])
    requires
        lists_rows_4x4(values, m),
        lists_rows_4x4(values, back),
    ensures
        back == m,
{
    assert forall|r: int| 0 <= r < 4 implies back[r] == m[r] by {
        assert forall|c: int| 0 <= c < 4 implies back[r][c] == m[r][c] by {
            assert(values@[r * 4 + c] == m@[r]@[c]);
        }
        assert(back[r] =~= m[r]);
    }
    assert(back =~= m);
}

} // verus!
