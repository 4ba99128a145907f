//! Component-wise operations: one operation applied to every component of a
//! vector or every entry of a square matrix (negation, scaling by a scalar,
//! sum and difference of two operands). The operation on one component is
//! the caller's, passed in as a function.
use vstd::prelude::*;

verus! {

/// `r[i]` is a result of `f` on `a[i]`, for every component.
pub fn map_components<T: Copy, F: Fn(T) -> T, const N: usize>(a: [T; N], f: F) -> (r: [T; N])
    requires
        forall|x: T| f.requires((x,)),
    ensures
        forall|i: int| 0 <= i < N ==> f.ensures((a[i],), #[trigger] r[i]),
{
    let mut r = a;
    let mut i: usize = 0;
    while i < N
        invariant
            0 <= i <= N,
            forall|x: T| f.requires((x,)),
            forall|j: int| 0 <= j < i ==> f.ensures((a[j],), #[trigger] r[j]),
        decreases N - i,
    {
        let v = f(a[i]);
        r.set(i, v);
        i += 1;
    }
    r
}

/// `r[i]` is a result of `f` on `a[i]` and `b[i]`, for every component.
pub fn zip_components<T: Copy, F: Fn(T, T) -> T, const N: usize>(a: [T; N], b: [T; N], f: F) -> (r: [T; N])
    requires
        forall|x: T, y: T| f.requires((x, y)),
    ensures
        forall|i: int| 0 <= i < N ==> f.ensures((a[i], b[i]), #[trigger] r[i]),
{
    let mut r = a;
    let mut i: usize = 0;
    while i < N
        invariant
            0 <= i <= N,
            forall|x: T, y: T| f.requires((x, y)),
            forall|j: int| 0 <= j < i ==> f.ensures((a[j], b[j]), #[trigger] r[j]),
        decreases N - i,
    {
        let v = f(a[i], b[i]);
        r.set(i, v);
        i += 1;
    }
    r
}

/// `r[i][j]` is a result of `f` on `a[i][j]`, for every entry.
pub fn map_entries<T: Copy, F: Fn(T) -> T, const K: usize>(a: [[T; K]; K], f: F) -> (r: [[T; K]; K])
    requires
        forall|x: T| f.requires((x,)),
    ensures
        forall|i: int, j: int| 0 <= i < K && 0 <= j < K ==> f.ensures((a[i][j],), #[trigger] r[i][j]),
{
    let mut r = a;
    let mut i: usize = 0;
    while i < K
        invariant
            0 <= i <= K,
            forall|x: T| f.requires((x,)),
            forall|k: int, j: int| 0 <= k < i && 0 <= j < K ==> f.ensures((a[k][j],), #[trigger] r[k][j]),
        decreases K - i,
    {
        let row = map_components(a[i], &f);
        r.set(i, row);
        i += 1;
    }
    r
}

/// `r[i][j]` is a result of `f` on `a[i][j]` and `b[i][j]`, for every entry.
pub fn zip_entries<T: Copy, F: Fn(T, T) -> T, const K: usize>(a: [[T; K]; K], b: [[T; K]; K], f: F) -> (r: [[T; K]; K])
    requires
        forall|x: T, y: T| f.requires((x, y)),
    ensures
        forall|i: int, j: int|
            0 <= i < K && 0 <= j < K ==> f.ensures((a[i][j], b[i][j]), #[trigger] r[i][j]),
{
    let mut r = a;
    let mut i: usize = 0;
    while i < K
        invariant
            0 <= i <= K,
            forall|x: T, y: T| f.requires((x, y)),
            forall|k: int, j: int|
                0 <= k < i && 0 <= j < K ==> f.ensures((a[k][j], b[k][j]), #[trigger] r[k][j]),
        decreases K - i,
    {
        let row = zip_components(a[i], b[i], &f);
        r.set(i, row);
        i += 1;
    }
    r
}

} // verus!
