//! Quaternions as `[r, i, j, k]`: the Hamilton product (`i·j = k`), the
//! conjugate, and rotation of a point by the sandwich `q · p · conj(q)`.
//! Component arithmetic is the caller's, passed in as functions.
use vstd::prelude::*;
use crate::componentwise::zip_components;
use crate::products::{is_signed_dot, signed_dot};

verus! {

/// `r` is the Hamilton product `a · b`, each component summed left to right:
/// - `r0 = a0·b0 - a1·b1 - a2·b2 - a3·b3`
/// - `r1 = a0·b1 + a1·b0 + a2·b3 - a3·b2`
/// - `r2 = a0·b2 - a1·b3 + a2·b0 + a3·b1`
/// - `r3 = a0·b3 + a1·b2 - a2·b1 + a3·b0`
pub open spec fn is_hamilton<T, M: Fn(T, T) -> T, A: Fn(T, T) -> T, S: Fn(T, T) -> T>(
    a: [T; 4],
    b: [T; 4],
    times: M,
    plus: A,
    minus: S,
    r: [T; 4],
) -> bool {
    &&& is_signed_dot(a@, seq![b[0], b[1], b[2], b[3]], seq![false, true, true, true], 4, times, plus, minus, r[0])
    &&& is_signed_dot(a@, seq![b[1], b[0], b[3], b[2]], seq![false, false, false, true], 4, times, plus, minus, r[1])
    &&& is_signed_dot(a@, seq![b[2], b[3], b[0], b[1]], seq![false, true, false, false], 4, times, plus, minus, r[2])
    &&& is_signed_dot(a@, seq![b[3], b[2], b[1], b[0]], seq![false, false, true, false], 4, times, plus, minus, r[3])
}

/// `r` is the conjugate of `q`: the scalar part kept, the three others
/// negated.
pub open spec fn is_conjugate<T, N: Fn(T) -> T>(q: [T; 4], negate: N, r: [T; 4]) -> bool {
    &&& r[0] == q[0]
    &&& negate.ensures((q[1],), r[1])
    &&& negate.ensures((q[2],), r[2])
    &&& negate.ensures((q[3],), r[3])
}

/// The Hamilton product `a · b`.
pub fn hamilton<T: Copy, M: Fn(T, T) -> T, A: Fn(T, T) -> T, S: Fn(T, T) -> T>(
    a: [T; 4],
    b: [T; 4],
    times: &M,
    plus: &A,
    minus: &S,
) -> (r: [T; 4])
    requires
        forall|x: T, y: T| times.requires((x, y)),
        forall|x: T, y: T| plus.requires((x, y)),
        forall|x: T, y: T| minus.requires((x, y)),
    ensures
        is_hamilton(a, b, *times, *plus, *minus, r),
{
    let b0 = [b[0], b[1], b[2], b[3]];
    let b1 = [b[1], b[0], b[3], b[2]];
    let b2 = [b[2], b[3], b[0], b[1]];
    let b3 = [b[3], b[2], b[1], b[0]];
    let n0 = [false, true, true, true];
    let n1 = [false, false, false, true];
    let n2 = [false, true, false, false];
    let n3 = [false, false, true, false];
    assert(b0@ =~= seq![b[0], b[1], b[2], b[3]] && n0@ =~= seq![false, true, true, true]);
    assert(b1@ =~= seq![b[1], b[0], b[3], b[2]] && n1@ =~= seq![false, false, false, true]);
    assert(b2@ =~= seq![b[2], b[3], b[0], b[1]] && n2@ =~= seq![false, true, false, false]);
    assert(b3@ =~= seq![b[3], b[2], b[1], b[0]] && n3@ =~= seq![false, false, true, false]);
    [
        signed_dot(a, b0, n0, times, plus, minus),
        signed_dot(a, b1, n1, times, plus, minus),
        signed_dot(a, b2, n2, times, plus, minus),
        signed_dot(a, b3, n3, times, plus, minus),
    ]
}

/// The conjugate: the scalar part kept, the three others negated.
pub fn conjugate<T: Copy, N: Fn(T) -> T>(q: [T; 4], negate: &N) -> (r: [T; 4])
    requires
        forall|x: T| negate.requires((x,)),
    ensures
        is_conjugate(q, *negate, r),
{
    [q[0], negate(q[1]), negate(q[2]), negate(q[3])]
}

/// `r` is the vector part of `q · (zero, point) · conj(q)` for the rotation
/// quaternion `q = (scalar, axis)`, the axis and the point filling `i, j, k`
/// in the same order.
pub open spec fn is_sandwich<T, M: Fn(T, T) -> T, A: Fn(T, T) -> T, S: Fn(T, T) -> T, N: Fn(T) -> T>(
    scalar: T,
    axis: [T; 3],
    point: [T; 3],
    zero: T,
    times: M,
    plus: A,
    minus: S,
    negate: N,
    r: [T; 3],
) -> bool {
    exists|qp: [T; 4], qc: [T; 4], full: [T; 4]|
        is_hamilton([scalar, axis[0], axis[1], axis[2]], [zero, point[0], point[1], point[2]], times, plus, minus, qp)
            && is_conjugate([scalar, axis[0], axis[1], axis[2]], negate, qc)
            && is_hamilton(qp, qc, times, plus, minus, full)
            && r == [full[1], full[2], full[3]]
}

/// Rotates `point` by the quaternion `(scalar, axis)`: the vector part of
/// `q · (zero, point) · conj(q)`. For a rotation by an angle θ about a unit
/// axis `u`, the caller passes `scalar = cos(θ/2)` and `axis = sin(θ/2)·u`.
pub fn sandwich<T: Copy, M: Fn(T, T) -> T, A: Fn(T, T) -> T, S: Fn(T, T) -> T, N: Fn(T) -> T>(
    scalar: T,
    axis: [T; 3],
    point: [T; 3],
    zero: T,
    times: &M,
    plus: &A,
    minus: &S,
    negate: &N,
) -> (r: [T; 3])
    requires
        forall|x: T, y: T| times.requires((x, y)),
        forall|x: T, y: T| plus.requires((x, y)),
        forall|x: T, y: T| minus.requires((x, y)),
        forall|x: T| negate.requires((x,)),
    ensures
        is_sandwich(scalar, axis, point, zero, *times, *plus, *minus, *negate, r),
{
    let q = [scalar, axis[0], axis[1], axis[2]];
    let p = [zero, point[0], point[1], point[2]];
    let qp = hamilton(q, p, times, plus, minus);
    let qc = conjugate(q, negate);
    let full = hamilton(qp, qc, times, plus, minus);
    let r = [full[1], full[2], full[3]];
    assert(is_hamilton(q, p, *times, *plus, *minus, qp) && is_conjugate(q, *negate, qc)
        && is_hamilton(qp, qc, *times, *plus, *minus, full) && r == [full[1], full[2], full[3]]);
    r
}

/// `r` is `point` turned about `pivot`: `turn(point - pivot) + pivot`,
/// component-wise.
pub open spec fn is_about_pivot<T, R: Fn([T; 3]) -> [T; 3], A: Fn(T, T) -> T, S: Fn(T, T) -> T>(
    point: [T; 3],
    pivot: [T; 3],
    turn: R,
    plus: A,
    minus: S,
    r: [T; 3],
) -> bool {
    exists|shifted: [T; 3], turned: [T; 3]|
        (forall|i: int| 0 <= i < 3 ==> minus.ensures((point[i], pivot[i]), #[trigger] shifted[i]))
            && turn.ensures((shifted,), turned)
            && (forall|i: int| 0 <= i < 3 ==> plus.ensures((turned[i], pivot[i]), #[trigger] r[i]))
}

/// Applies `turn`, a turn about the origin, about `pivot` instead: the point
/// is moved by `-pivot`, turned, and moved back by `+pivot`.
pub fn about_pivot<T: Copy, R: Fn([T; 3]) -> [T; 3], A: Fn(T, T) -> T, S: Fn(T, T) -> T>(
    point: [T; 3],
    pivot: [T; 3],
    turn: &R,
    plus: &A,
    minus: &S,
) -> (r: [T; 3])
    requires
        forall|p: [T; 3]| turn.requires((p,)),
        forall|x: T, y: T| plus.requires((x, y)),
        forall|x: T, y: T| minus.requires((x, y)),
    ensures
        is_about_pivot(point, pivot, *turn, *plus, *minus, r),
{
    let shifted = zip_components(point, pivot, minus);
    let turned = turn(shifted);
    let r = zip_components(turned, pivot, plus);
    assert(forall|i: int| 0 <= i < 3 ==> minus.ensures((point[i], pivot[i]), #[trigger] shifted[i]));
    assert(forall|i: int| 0 <= i < 3 ==> plus.ensures((turned[i], pivot[i]), #[trigger] r[i]));
    r
}

/// `z` drops out of sums and differences: `y + z`, `z + y` and `y - z` are
/// all `y`.
pub open spec fn is_negligible<T, A: Fn(T, T) -> T, S: Fn(T, T) -> T>(z: T, plus: A, minus: S) -> bool {
    forall|y: T, s: T| (plus.ensures((y, z), s) || plus.ensures((z, y), s) || minus.ensures((y, z), s)) ==> s == y
}

/// The facts of component arithmetic that a turn by the angle 0 rests on:
/// `one` is a unit of `times` on both sides, `zero` is negligible, and a
/// product with a negligible factor, or the negation of a negligible value,
/// is negligible. True of integers, and of floating point on finite values.
pub open spec fn is_unit_with_negligible_zero<T, M: Fn(T, T) -> T, A: Fn(T, T) -> T, S: Fn(T, T) -> T, N: Fn(T) -> T>(
    one: T,
    zero: T,
    times: M,
    plus: A,
    minus: S,
    negate: N,
) -> bool {
    &&& forall|x: T, r: T| times.ensures((one, x), r) ==> r == x
    &&& forall|x: T, r: T| times.ensures((x, one), r) ==> r == x
    &&& is_negligible(zero, plus, minus)
    &&& forall|x: T, z: T, r: T|
        is_negligible(z, plus, minus) && (times.ensures((x, z), r) || times.ensures((z, x), r)) ==> is_negligible(
            r,
            plus,
            minus,
        )
    &&& forall|z: T, r: T| is_negligible(z, plus, minus) && negate.ensures((z,), r) ==> is_negligible(r, plus, minus)
}

/// A signed sum of products in which the product at position `k` is `y`,
/// taken as it is, and every other product is negligible, comes to `y`.
proof fn lemma_single_term<T, M: Fn(T, T) -> T, A: Fn(T, T) -> T, S: Fn(T, T) -> T>(
    a: Seq<T>,
    b: Seq<T>,
    negated: Seq<bool>,
    n: nat,
    k: int,
    y: T,
    times: M,
    plus: A,
    minus: S,
    x: T,
)
    requires
        n >= 1,
        a.len() >= n,
        b.len() >= n,
        negated.len() >= n,
        0 <= k,
        k == 0 || !negated[k],
        forall|i: int, p: T|
            0 <= i < n && #[trigger] times.ensures((a[i], b[i]), p) ==> if i == k {
                p == y
            } else {
                is_negligible(p, plus, minus)
            },
        is_signed_dot(a, b, negated, n, times, plus, minus, x),
    ensures
        k < n ==> x == y,
        k >= n ==> is_negligible(x, plus, minus),
    decreases n,
{
    if n > 1 {
        let (acc, p) = choose|acc: T, p: T|
            is_signed_dot(a, b, negated, (n - 1) as nat, times, plus, minus, acc) && times.ensures(
                (a[n - 1], b[n - 1]),
                p,
            ) && if negated[n - 1] {
                minus.ensures((acc, p), x)
            } else {
                plus.ensures((acc, p), x)
            };
        lemma_single_term(a, b, negated, (n - 1) as nat, k, y, times, plus, minus, acc);
    }
}

/// A turn by the angle 0, the quaternion `(one, zero, zero, zero)`, leaves
/// every point where it is.
pub proof fn lemma_turn_by_zero_keeps_the_point<T, M: Fn(T, T) -> T, A: Fn(T, T) -> T, S: Fn(T, T) -> T, N: Fn(T) -> T>(
    point: [T; 3],
    one: T,
    zero: T,
    times: M,
    plus: A,
    minus: S,
    negate: N,
    r: [T; 3],
)
    requires
        is_unit_with_negligible_zero(one, zero, times, plus, minus, negate),
        is_sandwich(one, [zero, zero, zero], point, zero, times, plus, minus, negate, r),
    ensures
        r == point,
{
    let q = [one, zero, zero, zero];
    let pt = [zero, point[0], point[1], point[2]];
    let (qp, qc, full) = choose|qp: [T; 4], qc: [T; 4], full: [T; 4]|
        is_hamilton(q, pt, times, plus, minus, qp) && is_conjugate(q, negate, qc) && is_hamilton(
            qp,
            qc,
            times,
            plus,
            minus,
            full,
        ) && r == [full[1], full[2], full[3]];
    assert(q@ =~= seq![one, zero, zero, zero]);
    // q · p = (zero, point): only the first product, `one` times a component, counts.
    lemma_single_term(q@, seq![pt[0], pt[1], pt[2], pt[3]], seq![false, true, true, true], 4, 0, zero, times, plus, minus, qp[0]);
    lemma_single_term(q@, seq![pt[1], pt[0], pt[3], pt[2]], seq![false, false, false, true], 4, 0, point[0], times, plus, minus, qp[1]);
    lemma_single_term(q@, seq![pt[2], pt[3], pt[0], pt[1]], seq![false, true, false, false], 4, 0, point[1], times, plus, minus, qp[2]);
    lemma_single_term(q@, seq![pt[3], pt[2], pt[1], pt[0]], seq![false, false, true, false], 4, 0, point[2], times, plus, minus, qp[3]);
    assert(is_negligible(qc[1], plus, minus) && is_negligible(qc[2], plus, minus) && is_negligible(qc[3], plus, minus));
    // (q · p) · conj(q): only the product of a point component with `one` counts.
    lemma_single_term(qp@, seq![qc[1], qc[0], qc[3], qc[2]], seq![false, false, false, true], 4, 1, point[0], times, plus, minus, full[1]);
    lemma_single_term(qp@, seq![qc[2], qc[3], qc[0], qc[1]], seq![false, true, false, false], 4, 2, point[1], times, plus, minus, full[2]);
    lemma_single_term(qp@, seq![qc[3], qc[2], qc[1], qc[0]], seq![false, false, true, false], 4, 3, point[2], times, plus, minus, full[3]);
    assert(r =~= point);
}

} // verus!
