//! The camera's view orientation and the order in which the camera reaches
//! the GPU. Trigonometry and the arithmetic on components are the caller's.
use vstd::prelude::*;

verus! {

/// The view orientation for a horizontal angle h and a vertical angle v,
/// given their sines and cosines, row by row:
/// `(cos h, sin h·sin v, -(sin h·cos v))`, `(0, cos v, sin v)`,
/// `(sin h, -(cos h·sin v), cos h·cos v)`.
pub fn orientation_rows<T: Copy, M: Fn(T, T) -> T, N: Fn(T) -> T>(
    sin_h: T,
    cos_h: T,
    sin_v: T,
    cos_v: T,
    zero: T,
    times: &M,
    negate: &N,
) -> (m: [[T; 3]; 3])
    requires
        forall|x: T, y: T| times.requires((x, y)),
        forall|x: T| negate.requires((x,)),
    ensures
        m[0][0] == cos_h,
        times.ensures((sin_h, sin_v), m[0][1]),
        exists|p: T| times.ensures((sin_h, cos_v), p) && negate.ensures((p,), m[0][2]),
        m[1] == [zero, cos_v, sin_v],
        m[2][0] == sin_h,
        exists|p: T| times.ensures((cos_h, sin_v), p) && negate.ensures((p,), m[2][1]),
        times.ensures((cos_h, cos_v), m[2][2]),
{
    let p02 = times(sin_h, cos_v);
    let p21 = times(cos_h, sin_v);
    [
        [cos_h, times(sin_h, sin_v), negate(p02)],
        [zero, cos_v, sin_v],
        [sin_h, negate(p21), times(cos_h, cos_v)],
    ]
}

/// The rows that a camera uniform holds, in order: the eye position, then
/// the three rows of the orientation.
pub fn uniform_rows<T: Copy>(position: [T; 3], orientation: [[T; 3]; 3]) -> (rows: [[T; 3]; 4])
    ensures
        rows[0] == position,
        rows[1] == orientation[0],
        rows[2] == orientation[1],
        rows[3] == orientation[2],
{
    [position, orientation[0], orientation[1], orientation[2]]
}

} // verus!
