//! Triangles from the arrays of a mesh.

use vstd::prelude::*;
use crate::scalar::Scalar;
use crate::structures::vec3::Vec3;
use crate::objects::triangle::Triangle;

verus! {

/// What is wrong with a mesh.
#[derive(Clone, Copy, Debug, PartialEq, Eq)]
pub enum MeshError {
    /// The coordinates do not come in threes.
    Ragged,
    /// Face `face` claims more indices than are left.
    FaceBeyondIndices { face: usize },
    /// Face `face` has fewer than three corners.
    FaceTooShort { face: usize },
    /// One of the first three corners of face `face` names a vertex that
    /// the mesh does not have.
    VertexBeyondPositions { face: usize },
}

/// Where the indices of face `f` begin: after those of all faces before it.
pub open spec fn offset(arities: Seq<u32>, f: int) -> int
    decreases f,
{
    if f <= 0 {
        0
    } else {
        offset(arities, f - 1) + arities[f - 1]
    }
}

/// The vertex with index `v`.
pub open spec fn vertex(positions: Seq<Scalar>, v: int) -> Vec3 {
    Vec3 { x: positions[3 * v], y: positions[3 * v + 1], z: positions[3 * v + 2] }
}

/// What is wrong with face `f`, if anything, in the order in which it is
/// looked at.
pub open spec fn fault(positions: Seq<Scalar>, indices: Seq<u32>, arities: Seq<u32>, f: int) -> Option<
    MeshError,
> {
    let start = offset(arities, f);
    if start + arities[f] > indices.len() {
        Some(MeshError::FaceBeyondIndices { face: f as usize })
    } else if arities[f] < 3 {
        Some(MeshError::FaceTooShort { face: f as usize })
    } else if indices[start] >= positions.len() / 3 || indices[start + 1] >= positions.len() / 3
        || indices[start + 2] >= positions.len() / 3 {
        Some(MeshError::VertexBeyondPositions { face: f as usize })
    } else {
        None
    }
}

/// The triangle of face `f`: its first three corners.
pub open spec fn face_triangle(
    positions: Seq<Scalar>,
    indices: Seq<u32>,
    arities: Seq<u32>,
    f: int,
    material: usize,
) -> Triangle {
    let start = offset(arities, f);
    Triangle {
        vertex0: vertex(positions, indices[start] as int),
        vertex1: vertex(positions, indices[start + 1] as int),
        vertex2: vertex(positions, indices[start + 2] as int),
        material,
    }
}

fn read_vertex(positions: &[Scalar], v: u32) -> (p: Vec3)
    requires
        v < positions@.len() / 3,
    ensures
        p == vertex(positions@, v as int),
{
    let n: usize = positions.len();
    let at: usize = 3 * (v as usize);
    Vec3 { x: positions[at], y: positions[at + 1], z: positions[at + 2] }
}

/// One triangle for each face of a mesh, all of one material.
///
/// `positions` holds the coordinates of the vertices, three for each;
/// `num_face_indices` holds the number of corners of each face, and
/// `indices` the vertices of those corners, face after face. Of a face with
/// more than three corners the first three make the triangle.
pub fn triangles(positions: &[Scalar], indices: &[u32], num_face_indices: &[u32], material: usize) -> (out:
    Result<Vec<Triangle>, MeshError>)
    ensures
        match out {
            Ok(list) => {
                &&& positions@.len() % 3 == 0
                &&& list@.len() == num_face_indices@.len()
                &&& forall|f: int|
                    0 <= f < num_face_indices@.len() ==> fault(positions@, indices@, num_face_indices@, f)
                        is None
                &&& forall|f: int|
                    0 <= f < num_face_indices@.len() ==> #[trigger] list@[f] == face_triangle(
                        positions@,
                        indices@,
                        num_face_indices@,
                        f,
                        material,
                    )
            },
            Err(MeshError::Ragged) => positions@.len() % 3 != 0,
            Err(e) => {
                &&& positions@.len() % 3 == 0
                &&& exists|f: int|
                    0 <= f < num_face_indices@.len() && fault(positions@, indices@, num_face_indices@, f)
                        == Some(e) && forall|g: int|
                        0 <= g < f ==> fault(positions@, indices@, num_face_indices@, g) is None
            },
        },
{
    if positions.len() % 3 != 0 {
        return Err(MeshError::Ragged);
    }
    let mut list: Vec<Triangle> = Vec::new();
    let mut next_face: usize = 0;
    let mut f: usize = 0;
    while f < num_face_indices.len()
        invariant
            0 <= f <= num_face_indices@.len(),
            positions@.len() % 3 == 0,
            next_face == offset(num_face_indices@, f as int),
            next_face <= indices@.len(),
            list@.len() == f,
            forall|g: int| 0 <= g < f ==> fault(positions@, indices@, num_face_indices@, g) is None,
            forall|g: int|
                0 <= g < f ==> #[trigger] list@[g] == face_triangle(
                    positions@,
                    indices@,
                    num_face_indices@,
                    g,
                    material,
                ),
        decreases num_face_indices@.len() - f,
    {
        let arity: u32 = num_face_indices[f];
        if arity as usize > indices.len() - next_face {
            assert(fault(positions@, indices@, num_face_indices@, f as int) == Some(
                MeshError::FaceBeyondIndices { face: f },
            ));
            return Err(MeshError::FaceBeyondIndices { face: f });
        }
        if arity < 3 {
            assert(fault(positions@, indices@, num_face_indices@, f as int) == Some(
                MeshError::FaceTooShort { face: f },
            ));
            return Err(MeshError::FaceTooShort { face: f });
        }
        let v1: u32 = indices[next_face];
        let v2: u32 = indices[next_face + 1];
        let v3: u32 = indices[next_face + 2];
        let vertices: usize = positions.len() / 3;
        if v1 as usize >= vertices || v2 as usize >= vertices || v3 as usize >= vertices {
            assert(fault(positions@, indices@, num_face_indices@, f as int) == Some(
                MeshError::VertexBeyondPositions { face: f },
            ));
            return Err(MeshError::VertexBeyondPositions { face: f });
        }
        let first = read_vertex(positions, v1);
        let second = read_vertex(positions, v2);
        let third = read_vertex(positions, v3);
        list.push(Triangle::new(first, second, third, material));
        next_face = next_face + arity as usize;
        f = f + 1;
    }
    Ok(list)
}

} // verus!
