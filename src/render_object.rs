//! Per-object render data, mirrored one to one in a GPU storage buffer.
use crate::handle::Handle;
use crate::mesh::Mesh;
use vstd::prelude::*;

verus! {

/// Declares macaw's `Mat4` (glam) so that render objects can carry their
/// model matrix; the proofs never look inside it.
#[verifier::external_type_specification]
#[verifier::external_body]
pub struct ExMat4(macaw::Mat4);

/// Data for an object in the scene.
#[derive(Clone, Copy)]
pub struct RenderObject {
    pub mesh: Handle<Mesh>,
    /// Model matrix of the object.
    pub transform: macaw::Mat4,
    /// Index of the draw command that draws this object, assigned when batches are built.
    pub draw_command_index: u32,
}

/// Describes a render object to add to the scene.
#[derive(Clone, Copy)]
pub struct RenderObjectDescriptor {
    /// The mesh, by its position in the mesh registry.
    pub mesh_handle: Handle<Mesh>,
    /// The initial transform of the object.
    pub transform: macaw::Mat4,
    /// Whether the object is drawn in the forward mesh pass.
    pub draw_forward_pass: bool,
}

/// Per-instance vertex data: the render object that an instance draws.
#[derive(Clone, Copy)]
pub struct RenderInstance {
    pub render_object_id: Handle<RenderObject>,
}

} // verus!
