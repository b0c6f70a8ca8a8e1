//! Index arithmetic of the model-file loader: resolving a face's vertex
//! references and fanning a polygon into triangles. Reading the file and
//! parsing coordinates happen outside the store; these helpers pin down the
//! only part of the loader that is pure index logic.

use vstd::prelude::*;

verus! {

/// Resolve one vertex reference of a face line against the number of
/// vertices read so far: a positive reference counts from one, a negative
/// reference counts back from the end.
pub fn resolve_face_index(reference: i64, vertex_count: u32) -> (idx: u32)
    requires
        reference >= 1 || (reference < 0 && vertex_count + reference >= 0),
        reference <= u32::MAX,
    ensures
        reference >= 1 ==> idx == reference - 1,
        reference < 0 ==> idx == vertex_count + reference,
{
    if reference < 0 {
        ((vertex_count as i64) + reference) as u32
    } else {
        (reference - 1) as u32
    }
}

/// Fan-triangulate a polygon: a face of n vertices becomes n - 2 triangles,
/// each anchored at the first vertex and walking the rim. Faces with fewer
/// than three vertices yield no triangles.
pub fn triangulate_fan(face: &Vec<u32>) -> (tris: Vec<u32>)
    ensures
        tris@.len() == (if face@.len() >= 3 {
            3 * (face@.len() - 2)
        } else {
            0
        }),
        forall|t: int| 0 <= t < face@.len() - 2 ==> #[trigger] tris@[3 * t] == face@[0],
        forall|t: int| 0 <= t < face@.len() - 2 ==> #[trigger] tris@[3 * t + 1] == face@[t + 1],
        forall|t: int| 0 <= t < face@.len() - 2 ==> #[trigger] tris@[3 * t + 2] == face@[t + 2],
{
    let mut tris: Vec<u32> = Vec::new();
    if face.len() < 3 {
        return tris;
    }
    let n = face.len();
    let mut i: usize = 1;
    while i < n - 1
        invariant
            3 <= n == face@.len(),
            1 <= i <= n - 1,
            tris@.len() == 3 * (i - 1),
            forall|t: int| 0 <= t < i - 1 ==> #[trigger] tris@[3 * t] == face@[0],
            forall|t: int| 0 <= t < i - 1 ==> #[trigger] tris@[3 * t + 1] == face@[t + 1],
            forall|t: int| 0 <= t < i - 1 ==> #[trigger] tris@[3 * t + 2] == face@[t + 2],
        decreases n - i,
    {
        let ghost prev = tris@;
        tris.push(face[0]);
        tris.push(face[i]);
        tris.push(face[i + 1]);
        i = i + 1;
        proof {
            assert forall|t: int| 0 <= t < i - 1 implies #[trigger] tris@[3 * t] == face@[0]
                && tris@[3 * t + 1] == face@[t + 1] && tris@[3 * t + 2] == face@[t + 2] by {
                if t < i - 2 {
                    assert(tris@[3 * t] == prev[3 * t]);
                    assert(tris@[3 * t + 1] == prev[3 * t + 1]);
                    assert(tris@[3 * t + 2] == prev[3 * t + 2]);
                } else {
                    assert(3 * t == prev.len());
                    assert(tris@[3 * t] == face@[0]);
                    assert(tris@[3 * t + 1] == face@[t + 1]);
                    assert(tris@[3 * t + 2] == face@[t + 2]);
                }
            }
        }
    }
    proof {
        assert forall|t: int| 0 <= t < face@.len() - 2 implies #[trigger] tris@[3 * t] == face@[0]
            && tris@[3 * t + 1] == face@[t + 1] && tris@[3 * t + 2] == face@[t + 2] by {
            assert(t < i - 1);
        }
    }
    tris
}

} // verus!
