//! Meshes: from the faces of a polygon mesh to the corners of triangles.

use vstd::prelude::*;

verus! {

/// Where the indices of face `face` start: after those of all faces before it.
pub open spec fn face_start(face_arities: Seq<u32>, face: nat) -> nat
    decreases face,
{
    if face == 0 || face > face_arities.len() {
        0
    } else {
        face_start(face_arities, (face - 1) as nat) + face_arities[face - 1] as nat
    }
}

/// Face `face` can give a triangle: it has at least three corners, its indices
/// exist, and its first three name vertices that exist.
pub open spec fn face_fits(
    indices: Seq<u32>,
    face_arities: Seq<u32>,
    vertex_count: nat,
    face: nat,
) -> bool {
    let start = face_start(face_arities, face);
    &&& face < face_arities.len()
    &&& face_arities[face as int] >= 3
    &&& start + face_arities[face as int] <= indices.len()
    &&& forall|corner: int| 0 <= corner < 3 ==> (#[trigger] indices[start + corner]) < vertex_count
}

/// The faces that are turned into triangles: all but the last.
pub open spec fn faces_used(face_arities: Seq<u32>) -> nat {
    (face_arities.len() - 1) as nat
}

/// The mesh can be turned into triangles: it has a face, and every face that is
/// used fits.
pub open spec fn mesh_fits(indices: Seq<u32>, face_arities: Seq<u32>, vertex_count: nat) -> bool {
    &&& face_arities.len() >= 1
    &&& forall|face: nat|
        face < faces_used(face_arities) ==> #[trigger] face_fits(
            indices,
            face_arities,
            vertex_count,
            face,
        )
}

/// The corners of the triangles that a mesh gives: for every face but the
/// last, the first three of its vertex indices. `indices` lists the vertex
/// indices of all faces one face after the other, `face_arities` holds the
/// number of corners of each face, and the mesh has `vertex_count` vertices.
/// A mesh that does not fit gives nothing.
pub fn face_corners(indices: &Vec<u32>, face_arities: &Vec<u32>, vertex_count: usize) -> (corners:
    Option<Vec<[u32; 3]>>)
    ensures
        corners is Some <==> mesh_fits(indices@, face_arities@, vertex_count as nat),
        corners matches Some(list) ==> list@.len() == faces_used(face_arities@) && forall|
            face: int,
            corner: int,
        |
            0 <= face < list@.len() && 0 <= corner < 3 ==> (#[trigger] list@[face][corner])
                == indices@[face_start(face_arities@, face as nat) + corner],
{
    if face_arities.len() == 0 {
        return None;
    }
    let used = face_arities.len() - 1;
    let mut list: Vec<[u32; 3]> = Vec::new();
    let mut next_face: usize = 0;
    let mut face: usize = 0;
    while face < used
        invariant
            face <= used,
            used == face_arities.len() - 1,
            next_face == face_start(face_arities@, face as nat),
            next_face <= indices.len(),
            list@.len() == face,
            forall|f: nat| f < face ==> #[trigger] face_fits(
                indices@,
                face_arities@,
                vertex_count as nat,
                f,
            ),
            forall|f: int, corner: int|
                0 <= f < face && 0 <= corner < 3 ==> (#[trigger] list@[f][corner])
                    == indices@[face_start(face_arities@, f as nat) + corner],
        decreases used - face,
    {
        let arity = face_arities[face] as usize;
        if arity < 3 || arity > indices.len() - next_face {
            proof {
                assert(!face_fits(indices@, face_arities@, vertex_count as nat, face as nat));
            }
            return None;
        }
        let a = indices[next_face];
        let b = indices[next_face + 1];
        let c = indices[next_face + 2];
        proof {
            assert(indices@[next_face + 0] == a);
            assert(indices@[next_face + 1] == b);
            assert(indices@[next_face + 2] == c);
        }
        if a as usize >= vertex_count || b as usize >= vertex_count || c as usize >= vertex_count {
            proof {
                assert(!face_fits(indices@, face_arities@, vertex_count as nat, face as nat));
            }
            return None;
        }
        list.push([a, b, c]);
        proof {
            assert(face_start(face_arities@, (face + 1) as nat) == next_face + arity);
            assert(face_fits(indices@, face_arities@, vertex_count as nat, face as nat));
        }
        next_face = next_face + arity;
        face += 1;
    }
    Some(list)
}

} // verus!
