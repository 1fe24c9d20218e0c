//! The template mesh: the shared geometry of a unit cube that every block
//! type starts from.
//!
//! A cube has 6 faces of 4 vertices each; no vertex is shared between faces,
//! so that each face can carry texture coordinates of its own. Every vertex
//! has 3 position components and 3 texture-coordinate components (u, v and
//! the layer of the array texture).
//!
//! Position components, u and v are carried as the bit patterns of
//! single-precision numbers and never interpreted here. The layer of a vertex
//! is a whole number.

use vstd::prelude::*;

verus! {

/// Vertices of one face.
pub const VERTICES_PER_FACE: usize = 4;

/// Components of one vertex attribute.
pub const COMPONENTS: usize = 3;

/// Components of one face in an attribute buffer.
pub const FACE_STRIDE: usize = 12;

/// Vertices of the cube.
pub const VERTEX_COUNT: usize = 24;

/// Length of an attribute buffer of the cube.
pub const ATTRIBUTE_LEN: usize = 72;

/// Length of the index buffer: two triangles for each face.
pub const INDEX_LEN: usize = 36;

/// Whether three buffers have the shape of a cube mesh: both attribute
/// buffers hold 3 components for each of the 24 vertices, and the index
/// buffer holds 36 indices of vertices.
pub open spec fn cube_shaped(positions: Seq<u32>, coords: Seq<u32>, indices: Seq<u32>) -> bool {
    &&& positions.len() == ATTRIBUTE_LEN
    &&& coords.len() == ATTRIBUTE_LEN
    &&& indices.len() == INDEX_LEN
    &&& forall|i: int| 0 <= i < indices.len() ==> indices[i] < VERTEX_COUNT
}

/// The geometry that block types are made from.
#[derive(Debug)]
pub struct TemplateMesh {
    vertex_positions: Vec<u32>,
    tex_coords: Vec<u32>,
    indices: Vec<u32>,
}

impl TemplateMesh {
    /// The position buffer.
    pub closed spec fn positions(&self) -> Seq<u32> {
        self.vertex_positions@
    }

    /// The texture-coordinate buffer.
    pub closed spec fn coords(&self) -> Seq<u32> {
        self.tex_coords@
    }

    /// The index buffer.
    pub closed spec fn triangles(&self) -> Seq<u32> {
        self.indices@
    }

    /// The buffers have the shape of a cube mesh.
    pub open spec fn wf(&self) -> bool {
        cube_shaped(self.positions(), self.coords(), self.triangles())
    }

    /// A template of the given buffers, if they have the shape of a cube
    /// mesh.
    pub fn new(vertex_positions: Vec<u32>, tex_coords: Vec<u32>, indices: Vec<u32>) -> (r: Option<Self>)
        ensures
            r.is_some() == cube_shaped(vertex_positions@, tex_coords@, indices@),
            match r {
                Some(mesh) => {
                    &&& mesh.wf()
                    &&& mesh.positions() == vertex_positions@
                    &&& mesh.coords() == tex_coords@
                    &&& mesh.triangles() == indices@
                },
                None => true,
            },
    {
        if vertex_positions.len() != ATTRIBUTE_LEN || tex_coords.len() != ATTRIBUTE_LEN
            || indices.len() != INDEX_LEN {
            return None;
        }
        let mut i: usize = 0;
        while i < indices.len()
            invariant
                i <= indices.len(),
                forall|j: int| 0 <= j < i ==> indices@[j] < VERTEX_COUNT,
            decreases indices.len() - i,
        {
            if indices[i] >= VERTEX_COUNT as u32 {
                return None;
            }
            i += 1;
        }
        Some(TemplateMesh { vertex_positions, tex_coords, indices })
    }

    pub fn vertex_positions(&self) -> (r: &Vec<u32>)
        ensures
            r@ == self.positions(),
    {
        &self.vertex_positions
    }

    pub fn tex_coords(&self) -> (r: &Vec<u32>)
        ensures
            r@ == self.coords(),
    {
        &self.tex_coords
    }

    pub fn indices(&self) -> (r: &Vec<u32>)
        ensures
            r@ == self.triangles(),
    {
        &self.indices
    }
}

} // verus!
