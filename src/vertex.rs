//! Vertex layouts a geometry can be uploaded in.
use vstd::prelude::*;

verus! {

/// Vertex layout of a geometry's vertex buffer.
#[derive(PartialEq, Eq, Structural, Clone, Copy, Debug)]
pub enum VertexType {
    /// Position only.
    VertexPos,
    /// Position and normal.
    VertexNorm,
}

impl VertexType {
    /// Number of `f32` components of one vertex in this layout.
    pub fn components(self) -> (r: usize)
        ensures
            r == (match self {
                VertexType::VertexPos => 3usize,
                VertexType::VertexNorm => 6usize,
            }),
    {
        match self {
            VertexType::VertexPos => 3,
            VertexType::VertexNorm => 6,
        }
    }
}

} // verus!
