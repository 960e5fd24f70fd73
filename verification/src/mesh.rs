//! Triangle meshes as lists of corner indices into a list of vertices.

use vstd::prelude::*;

verus! {

/// Why a list of indices is not a mesh over the given vertices.
#[derive(Clone, Copy, Debug, PartialEq, Eq, Structural)]
pub enum MeshError {
    /// A corner names a vertex that is not there.
    IndexOutOfRange,
}

/// The corners of triangle `t`: the three indices from `3 * t` on.
pub open spec fn corners_at(indices: Seq<u32>, t: int) -> (usize, usize, usize) {
    (indices[3 * t] as usize, indices[3 * t + 1] as usize, indices[3 * t + 2] as usize)
}

/// The number of whole triangles in a list of indices.
pub open spec fn triangle_count(indices: Seq<u32>) -> int {
    indices.len() as int / 3
}

/// Whether every corner of every whole triangle names one of the
/// `vertex_count` vertices.
pub open spec fn corners_in_range(indices: Seq<u32>, vertex_count: usize) -> bool {
    forall|k: int| 0 <= k < 3 * triangle_count(indices) ==> (#[trigger] indices[k]) < vertex_count
}

/// Groups a list of vertex indices into triangles, three indices to a
/// triangle in the order given. Indices left over after the last whole
/// triangle are ignored. A corner that names a vertex beyond the
/// `vertex_count` there are is an error.
pub fn triangle_corners(indices: &[u32], vertex_count: usize) -> (made: Result<
    Vec<(usize, usize, usize)>,
    MeshError,
>)
    ensures
        match made {
            Ok(triangles) => {
                &&& corners_in_range(indices@, vertex_count)
                &&& triangles@.len() == triangle_count(indices@)
                &&& forall|t: int|
                    0 <= t < triangles@.len() ==> {
                        &&& #[trigger] triangles@[t] == corners_at(indices@, t)
                        &&& triangles@[t].0 < vertex_count
                        &&& triangles@[t].1 < vertex_count
                        &&& triangles@[t].2 < vertex_count
                    }
            },
            Err(e) => e == MeshError::IndexOutOfRange && !corners_in_range(indices@, vertex_count),
        },
{
    let count: usize = indices.len() / 3;
    let mut triangles: Vec<(usize, usize, usize)> = Vec::new();
    let mut t: usize = 0;
    while t < count
        invariant
            count == triangle_count(indices@),
            3 * count <= indices@.len() <= usize::MAX,
            t <= count,
            triangles@.len() == t,
            forall|k: int| 0 <= k < 3 * t ==> (#[trigger] indices@[k]) < vertex_count,
            forall|u: int|
                0 <= u < t ==> {
                    &&& #[trigger] triangles@[u] == corners_at(indices@, u)
                    &&& triangles@[u].0 < vertex_count
                    &&& triangles@[u].1 < vertex_count
                    &&& triangles@[u].2 < vertex_count
                },
        decreases count - t,
    {
        let at: usize = 3 * t;
        let a: usize = indices[at] as usize;
        let b: usize = indices[at + 1] as usize;
        let c: usize = indices[at + 2] as usize;
        if a >= vertex_count || b >= vertex_count || c >= vertex_count {
            proof {
                let k: int = if a >= vertex_count {
                    at as int
                } else if b >= vertex_count {
                    at + 1
                } else {
                    at + 2
                };
                assert(!(indices@[k] < vertex_count));
            }
            return Err(MeshError::IndexOutOfRange);
        }
        triangles.push((a, b, c));
        t += 1;
    }
    Ok(triangles)
}

} // verus!
