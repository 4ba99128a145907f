//! Sums of products and repeated products: the dot product of two vectors,
//! the matrix-matrix and matrix-vector products, and integer powers. The
//! multiplication and addition of components are the caller's, passed in as
//! functions; these functions fix which components meet and in what order.
use vstd::prelude::*;

verus! {

/// `r` results from the first `n` pairwise products of `a` and `b`, summed
/// left to right: `((a0·b0 + a1·b1) + a2·b2) + ...`.
pub open spec fn is_dot<T, M: Fn(T, T) -> T, A: Fn(T, T) -> T>(
    a: Seq<T>,
    b: Seq<T>,
    n: nat,
    times: M,
    plus: A,
    r: T,
) -> bool
    decreases n,
{
    if n == 0 {
        false
    } else if n == 1 {
        times.ensures((a[0], b[0]), r)
    } else {
        exists|acc: T, p: T|
            is_dot(a, b, (n - 1) as nat, times, plus, acc) && times.ensures((a[n - 1], b[n - 1]), p)
                && plus.ensures((acc, p), r)
    }
}

/// Column `c` of the square grid `m`, top to bottom.
pub open spec fn column<T, const K: usize>(m: [[T; K]; K], c: int) -> Seq<T> {
    Seq::new(K as nat, |i: int| m[i][c])
}

/// The sum of the pairwise products of two vectors.
pub fn dot<T: Copy, M: Fn(T, T) -> T, A: Fn(T, T) -> T, const N: usize>(
    a: [T; N],
    b: [T; N],
    times: &M,
    plus: &A,
) -> (r: T)
    requires
        N >= 1,
        forall|x: T, y: T| times.requires((x, y)),
        forall|x: T, y: T| plus.requires((x, y)),
    ensures
        is_dot(a@, b@, N as nat, *times, *plus, r),
{
    let mut acc = times(a[0], b[0]);
    let mut i: usize = 1;
    while i < N
        invariant
            1 <= i <= N,
            forall|x: T, y: T| times.requires((x, y)),
            forall|x: T, y: T| plus.requires((x, y)),
            is_dot(a@, b@, i as nat, *times, *plus, acc),
        decreases N - i,
    {
        let p = times(a[i], b[i]);
        let next = plus(acc, p);
        assert(is_dot(a@, b@, (i + 1) as nat, *times, *plus, next)) by {
            assert(is_dot(a@, b@, ((i + 1) - 1) as nat, *times, *plus, acc));
            assert(times.ensures((a@[(i + 1) - 1], b@[(i + 1) - 1]), p));
        }
        acc = next;
        i += 1;
    }
    acc
}

fn column_of<T: Copy, const K: usize>(m: [[T; K]; K], c: usize) -> (col: [T; K])
    requires
        K >= 1,
        c < K,
    ensures
        col@ == column(m, c as int),
{
    let mut col = m[0];
    let mut i: usize = 0;
    while i < K
        invariant
            0 <= i <= K,
            c < K,
            forall|j: int| 0 <= j < i ==> #[trigger] col[j] == m[j][c as int],
        decreases K - i,
    {
        col.set(i, m[i][c]);
        i += 1;
    }
    assert(col@ =~= column(m, c as int));
    col
}

/// The matrix product: entry (r, c) is the dot product of row r of `a` and
/// column c of `b`.
pub fn matrix_product<T: Copy, M: Fn(T, T) -> T, A: Fn(T, T) -> T, const K: usize>(
    a: [[T; K]; K],
    b: [[T; K]; K],
    times: &M,
    plus: &A,
) -> (p: [[T; K]; K])
    requires
        K >= 1,
        forall|x: T, y: T| times.requires((x, y)),
        forall|x: T, y: T| plus.requires((x, y)),
    ensures
        forall|r: int, c: int|
            0 <= r < K && 0 <= c < K ==> is_dot(a[r]@, column(b, c), K as nat, *times, *plus, #[trigger] p[r][c]),
{
    let mut p = a;
    let mut r: usize = 0;
    while r < K
        invariant
            0 <= r <= K,
            forall|x: T, y: T| times.requires((x, y)),
            forall|x: T, y: T| plus.requires((x, y)),
            forall|i: int, c: int|
                0 <= i < r && 0 <= c < K ==> is_dot(a[i]@, column(b, c), K as nat, *times, *plus, #[trigger] p[i][c]),
        decreases K - r,
    {
        let mut row = a[r];
        let mut c: usize = 0;
        while c < K
            invariant
                0 <= r < K,
                0 <= c <= K,
                forall|x: T, y: T| times.requires((x, y)),
                forall|x: T, y: T| plus.requires((x, y)),
                forall|j: int| 0 <= j < c ==> is_dot(a[r as int]@, column(b, j), K as nat, *times, *plus, #[trigger] row[j]),
            decreases K - c,
        {
            let col = column_of(b, c);
            let v = dot(a[r], col, times, plus);
            row.set(c, v);
            c += 1;
        }
        p.set(r, row);
        r += 1;
    }
    p
}

/// The matrix-vector product: component r is the dot product of row r of
/// `a` and `v`.
pub fn matrix_vector_product<T: Copy, M: Fn(T, T) -> T, A: Fn(T, T) -> T, const K: usize>(
    a: [[T; K]; K],
    v: [T; K],
    times: &M,
    plus: &A,
) -> (w: [T; K])
    requires
        K >= 1,
        forall|x: T, y: T| times.requires((x, y)),
        forall|x: T, y: T| plus.requires((x, y)),
    ensures
        forall|r: int| 0 <= r < K ==> is_dot(a[r]@, v@, K as nat, *times, *plus, #[trigger] w[r]),
{
    let mut w = v;
    let mut r: usize = 0;
    while r < K
        invariant
            0 <= r <= K,
            forall|x: T, y: T| times.requires((x, y)),
            forall|x: T, y: T| plus.requires((x, y)),
            forall|i: int| 0 <= i < r ==> is_dot(a[i]@, v@, K as nat, *times, *plus, #[trigger] w[i]),
        decreases K - r,
    {
        let d = dot(a[r], v, times, plus);
        w.set(r, d);
        r += 1;
    }
    w
}

/// `r` is `base` to the power `e`: `one` for 0, `base` for 1, and otherwise
/// the power `e - 1` multiplied by `base`.
pub open spec fn is_power<T, M: Fn(T, T) -> T>(base: T, one: T, e: nat, times: M, r: T) -> bool
    decreases e,
{
    if e == 0 {
        r == one
    } else if e == 1 {
        r == base
    } else {
        exists|prev: T| is_power(base, one, (e - 1) as nat, times, prev) && times.ensures((prev, base), r)
    }
}

/// The power 2 is the product of `base` with itself.
proof fn lemma_square<T, M: Fn(T, T) -> T>(base: T, one: T, times: M, r: T)
    requires
        is_power(base, one, 2, times, r),
    ensures
        times.ensures((base, base), r),
{
    reveal_with_fuel(is_power, 2);
    let prev = choose|prev: T| is_power(base, one, 1, times, prev) && times.ensures((prev, base), r);
}

/// `base` to the power `exponent`: `one` for exponent 0, otherwise `base`
/// multiplied onto itself `exponent - 1` times.
pub fn power<T: Copy, M: Fn(T, T) -> T>(base: T, one: T, exponent: u32, times: &M) -> (r: T)
    requires
        forall|x: T, y: T| times.requires((x, y)),
    ensures
        is_power(base, one, exponent as nat, *times, r),
        exponent == 0 ==> r == one,
        exponent == 1 ==> r == base,
        exponent == 2 ==> times.ensures((base, base), r),
{
    if exponent == 0 {
        return one;
    }
    let mut acc = base;
    let mut i: u32 = 1;
    while i < exponent
        invariant
            1 <= i <= exponent,
            forall|x: T, y: T| times.requires((x, y)),
            is_power(base, one, i as nat, *times, acc),
        decreases exponent - i,
    {
        let next = times(acc, base);
        assert(is_power(base, one, (i + 1) as nat, *times, next)) by {
            assert(is_power(base, one, ((i + 1) - 1) as nat, *times, acc));
        }
        acc = next;
        i += 1;
    }
    proof {
        if exponent == 2 {
            lemma_square(base, one, *times, acc);
        }
    }
    acc
}

/// `r` results from the first `n` pairwise products of `a` and `b`, each
/// added, or subtracted where `negated` says so, left to right; the first is
/// taken as it is: `((a0·b0 ± a1·b1) ± a2·b2) ± ...`.
pub open spec fn is_signed_dot<T, M: Fn(T, T) -> T, A: Fn(T, T) -> T, S: Fn(T, T) -> T>(
    a: Seq<T>,
    b: Seq<T>,
    negated: Seq<bool>,
    n: nat,
    times: M,
    plus: A,
    minus: S,
    r: T,
) -> bool
    decreases n,
{
    if n == 0 {
        false
    } else if n == 1 {
        times.ensures((a[0], b[0]), r)
    } else {
        exists|acc: T, p: T|
            is_signed_dot(a, b, negated, (n - 1) as nat, times, plus, minus, acc) && times.ensures(
                (a[n - 1], b[n - 1]),
                p,
            ) && if negated[n - 1] {
                minus.ensures((acc, p), r)
            } else {
                plus.ensures((acc, p), r)
            }
    }
}

/// The pairwise products of two vectors, added or subtracted as `negated`
/// says, the first taken as it is.
pub fn signed_dot<T: Copy, M: Fn(T, T) -> T, A: Fn(T, T) -> T, S: Fn(T, T) -> T, const N: usize>(
    a: [T; N],
    b: [T; N],
    negated: [bool; N],
    times: &M,
    plus: &A,
    minus: &S,
) -> (r: T)
    requires
        N >= 1,
        forall|x: T, y: T| times.requires((x, y)),
        forall|x: T, y: T| plus.requires((x, y)),
        forall|x: T, y: T| minus.requires((x, y)),
    ensures
        is_signed_dot(a@, b@, negated@, N as nat, *times, *plus, *minus, r),
{
    let mut acc = times(a[0], b[0]);
    let mut i: usize = 1;
    while i < N
        invariant
            1 <= i <= N,
            forall|x: T, y: T| times.requires((x, y)),
            forall|x: T, y: T| plus.requires((x, y)),
            forall|x: T, y: T| minus.requires((x, y)),
            is_signed_dot(a@, b@, negated@, i as nat, *times, *plus, *minus, acc),
        decreases N - i,
    {
        let p = times(a[i], b[i]);
        let next = if negated[i] {
            minus(acc, p)
        } else {
            plus(acc, p)
        };
        assert(is_signed_dot(a@, b@, negated@, (i + 1) as nat, *times, *plus, *minus, next)) by {
            assert(is_signed_dot(a@, b@, negated@, ((i + 1) - 1) as nat, *times, *plus, *minus, acc));
            assert(times.ensures((a@[(i + 1) - 1], b@[(i + 1) - 1]), p));
        }
        acc = next;
        i += 1;
    }
    acc
}

/// `r` results from `x·y - z·w`.
pub open spec fn is_difference_of_products<T, M: Fn(T, T) -> T, S: Fn(T, T) -> T>(
    x: T,
    y: T,
    z: T,
    w: T,
    times: M,
    minus: S,
    r: T,
) -> bool {
    exists|p: T, q: T| times.ensures((x, y), p) && times.ensures((z, w), q) && minus.ensures((p, q), r)
}

pub(crate) fn difference_of_products<T: Copy, M: Fn(T, T) -> T, S: Fn(T, T) -> T>(
    x: T,
    y: T,
    z: T,
    w: T,
    times: &M,
    minus: &S,
) -> (r: T)
    requires
        forall|a: T, b: T| times.requires((a, b)),
        forall|a: T, b: T| minus.requires((a, b)),
    ensures
        is_difference_of_products(x, y, z, w, *times, *minus, r),
{
    let p = times(x, y);
    let q = times(z, w);
    minus(p, q)
}

/// The right-handed cross product:
/// `(a1·b2 - a2·b1, a2·b0 - a0·b2, a0·b1 - a1·b0)`. So
/// `(-3, 2, 3) × (1, 1, 1) = (-1, 6, -5)`; `(1, -6, 5)`, which is also quoted
/// for these two vectors, is the product in the other order.
pub fn cross<T: Copy, M: Fn(T, T) -> T, S: Fn(T, T) -> T>(a: [T; 3], b: [T; 3], times: &M, minus: &S) -> (r: [T; 3])
    requires
        forall|x: T, y: T| times.requires((x, y)),
        forall|x: T, y: T| minus.requires((x, y)),
    ensures
        is_difference_of_products(a[1], b[2], a[2], b[1], *times, *minus, r[0]),
        is_difference_of_products(a[2], b[0], a[0], b[2], *times, *minus, r[1]),
        is_difference_of_products(a[0], b[1], a[1], b[0], *times, *minus, r[2]),
{
    [
        difference_of_products(a[1], b[2], a[2], b[1], times, minus),
        difference_of_products(a[2], b[0], a[0], b[2], times, minus),
        difference_of_products(a[0], b[1], a[1], b[0], times, minus),
    ]
}

/// `z` drops out of every sum: adding it on either side leaves the other
/// operand as it was.
pub open spec fn vanishes_in_sums<T, A: Fn(T, T) -> T>(z: T, plus: A) -> bool {
    forall|y: T, s: T| (plus.ensures((y, z), s) || plus.ensures((z, y), s)) ==> s == y
}

/// `one` is a unit of `times` on both sides, and a product with `zero` on
/// either side drops out of sums: true of integers, and of floating point
/// on finite values.
pub open spec fn is_unit_and_zero<T, M: Fn(T, T) -> T, A: Fn(T, T) -> T>(one: T, zero: T, times: M, plus: A) -> bool {
    &&& forall|x: T, r: T| times.ensures((one, x), r) ==> r == x
    &&& forall|x: T, r: T| times.ensures((x, one), r) ==> r == x
    &&& forall|x: T, z: T| times.ensures((zero, x), z) ==> vanishes_in_sums(z, plus)
    &&& forall|x: T, z: T| times.ensures((x, zero), z) ==> vanishes_in_sums(z, plus)
}

/// `id` is the identity grid: `one` on the diagonal, `zero` elsewhere.
pub open spec fn is_identity<T, const K: usize>(id: [[T; K]; K], one: T, zero: T) -> bool {
    forall|r: int, c: int| 0 <= r < K && 0 <= c < K ==> #[trigger] id[r][c] == if r == c { one } else { zero }
}

proof fn lemma_dot_unit_left<T, M: Fn(T, T) -> T, A: Fn(T, T) -> T>(
    a: Seq<T>,
    b: Seq<T>,
    n: nat,
    k: int,
    one: T,
    zero: T,
    times: M,
    plus: A,
    x: T,
)
    requires
        n >= 1,
        a.len() >= n,
        b.len() >= n,
        forall|i: int| 0 <= i < n ==> #[trigger] a[i] == if i == k { one } else { zero },
        is_unit_and_zero(one, zero, times, plus),
        is_dot(a, b, n, times, plus, x),
    ensures
        0 <= k < n ==> x == b[k],
        !(0 <= k < n) ==> vanishes_in_sums(x, plus),
    decreases n,
{
    if n == 1 {
        assert(a[0] == if 0 == k { one } else { zero });
    } else {
        let (acc, p) = choose|acc: T, p: T|
            is_dot(a, b, (n - 1) as nat, times, plus, acc) && times.ensures((a[n - 1], b[n - 1]), p)
                && plus.ensures((acc, p), x);
        lemma_dot_unit_left(a, b, (n - 1) as nat, k, one, zero, times, plus, acc);
        assert(a[n - 1] == if n - 1 == k { one } else { zero });
    }
}

proof fn lemma_dot_unit_right<T, M: Fn(T, T) -> T, A: Fn(T, T) -> T>(
    a: Seq<T>,
    b: Seq<T>,
    n: nat,
    k: int,
    one: T,
    zero: T,
    times: M,
    plus: A,
    x: T,
)
    requires
        n >= 1,
        a.len() >= n,
        b.len() >= n,
        forall|i: int| 0 <= i < n ==> #[trigger] b[i] == if i == k { one } else { zero },
        is_unit_and_zero(one, zero, times, plus),
        is_dot(a, b, n, times, plus, x),
    ensures
        0 <= k < n ==> x == a[k],
        !(0 <= k < n) ==> vanishes_in_sums(x, plus),
    decreases n,
{
    if n == 1 {
        assert(b[0] == if 0 == k { one } else { zero });
    } else {
        let (acc, p) = choose|acc: T, p: T|
            is_dot(a, b, (n - 1) as nat, times, plus, acc) && times.ensures((a[n - 1], b[n - 1]), p)
                && plus.ensures((acc, p), x);
        lemma_dot_unit_right(a, b, (n - 1) as nat, k, one, zero, times, plus, acc);
        assert(b[n - 1] == if n - 1 == k { one } else { zero });
    }
}

/// The identity is neutral for the matrix product on both sides:
/// `id · m == m` and `m · id == m`, wherever `one` is a unit of the
/// component multiplication and products with `zero` drop out of sums.
pub proof fn lemma_identity_is_neutral<T, M: Fn(T, T) -> T, A: Fn(T, T) -> T, const K: usize>(
    id: [[T; K]; K],
    m: [[T; K]; K],
    left: [[T; K]; K],
    right: [[T; K]; K],
    one: T,
    zero: T,
    times: M,
    plus: A,
)
    requires
        K >= 1,
        is_identity(id, one, zero),
        is_unit_and_zero(one, zero, times, plus),
        forall|r: int, c: int|
            0 <= r < K && 0 <= c < K ==> is_dot(id[r]@, column(m, c), K as nat, times, plus, #[trigger] left[r][c]),
        forall|r: int, c: int|
            0 <= r < K && 0 <= c < K ==> is_dot(m[r]@, column(id, c), K as nat, times, plus, #[trigger] right[r][c]),
    ensures
        left == m,
        right == m,
{
    assert forall|r: int| 0 <= r < K implies left[r] == m[r] && right[r] == m[r] by {
        assert forall|c: int| 0 <= c < K implies left[r][c] == m[r][c] && right[r][c] == m[r][c] by {
            assert(is_dot(id[r]@, column(m, c), K as nat, times, plus, left[r][c]));
            assert forall|i: int| 0 <= i < K implies #[trigger] id[r]@[i] == if i == r { one } else { zero } by {
                assert(id[r][i] == if r == i { one } else { zero });
            }
            lemma_dot_unit_left(id[r]@, column(m, c), K as nat, r, one, zero, times, plus, left[r][c]);
            assert(is_dot(m[r]@, column(id, c), K as nat, times, plus, right[r][c]));
            assert forall|i: int| 0 <= i < K implies #[trigger] column(id, c)[i] == if i == c { one } else { zero } by {
                assert(id[i][c] == if i == c { one } else { zero });
            }
            lemma_dot_unit_right(m[r]@, column(id, c), K as nat, c, one, zero, times, plus, right[r][c]);
        }
        assert(left[r] =~= m[r]);
        assert(right[r] =~= m[r]);
    }
    assert(left =~= m);
    assert(right =~= m);
}

} // verus!
