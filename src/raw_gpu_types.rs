//! Plain structs whose layout the GPU reads for indirect drawing.
use vstd::prelude::*;

verus! {

/// Parameters of one indexed indirect draw.
#[derive(Clone, Copy, Debug, PartialEq, Eq, Structural)]
pub struct DrawIndexedIndirect {
    /// Number of indices to draw.
    pub index_count: u32,
    /// Number of instances to draw.
    pub instance_count: u32,
    /// The base index within the index buffer.
    pub first_index: u32,
    /// The value added to the vertex index before indexing into the vertex buffer.
    pub base_vertex: u32,
    /// The instance id of the first instance to draw.
    pub first_instance: u32,
}

/// Number of draws that a `multi_draw_indexed_indirect_count` call issues.
#[derive(Clone, Copy, Debug, PartialEq, Eq, Structural)]
pub struct DrawIndirectCount {
    /// The number of draw commands to execute.
    pub count: u32,
}

/// Parameters of one non-indexed indirect draw.
#[derive(Clone, Copy, Debug, PartialEq, Eq, Structural)]
pub struct DrawIndirect {
    /// Number of vertices to draw.
    pub vertex_count: u32,
    /// Number of instances to draw.
    pub instance_count: u32,
    /// The index of the first vertex to draw.
    pub first_vertex: u32,
    /// The instance id of the first instance to draw.
    pub first_instance: u32,
}

impl DrawIndirectCount {
    /// The draw count that the count buffer is reset to every frame.
    pub fn cleared() -> (c: DrawIndirectCount)
        ensures
            c.count == 0,
    {
        DrawIndirectCount { count: 0 }
    }
}

} // verus!
