//! Meshes as lists of triangles, and moving every vertex of a mesh.
use vstd::prelude::*;
use crate::componentwise::map_components;

verus! {

/// Three vertices and a face normal.
#[derive(Clone, Copy, Debug)]
pub struct Triangle<V, N> {
    pub vertices: [V; 3],
    pub normal: N,
}

/// Replaces every vertex of every triangle by a result of `f` on it; the
/// number and order of the triangles and their normals stay as they were.
pub fn move_vertices<V: Copy, N: Copy, F: Fn(V) -> V>(triangles: &mut Vec<Triangle<V, N>>, f: F)
    requires
        forall|v: V| f.requires((v,)),
    ensures
        final(triangles).len() == old(triangles).len(),
        forall|t: int|
            0 <= t < old(triangles).len() ==> (#[trigger] final(triangles)[t]).normal == old(triangles)[t].normal,
        forall|t: int, k: int|
            0 <= t < old(triangles).len() && 0 <= k < 3 ==> f.ensures(
                (old(triangles)[t].vertices[k],),
                #[trigger] final(triangles)[t].vertices[k],
            ),
{
    let ghost before = triangles@;
    let mut i: usize = 0;
    while i < triangles.len()
        invariant
            0 <= i <= triangles.len(),
            triangles.len() == before.len(),
            forall|v: V| f.requires((v,)),
            forall|t: int| i <= t < before.len() ==> #[trigger] triangles@[t] == before[t],
            forall|t: int| 0 <= t < i ==> (#[trigger] triangles@[t]).normal == before[t].normal,
            forall|t: int, k: int|
                0 <= t < i && 0 <= k < 3 ==> f.ensures((before[t].vertices[k],), #[trigger] triangles@[t].vertices[k]),
        decreases before.len() - i,
    {
        let t = triangles[i];
        let moved = Triangle { vertices: map_components(t.vertices, &f), normal: t.normal };
        triangles.set(i, moved);
        i += 1;
    }
}

} // verus!
