//! CPU side of a GPU-driven indirect renderer: typed-handle arenas, the mesh
//! registry, the render object store, mesh-pass batching and the draw commands
//! that are built from the batches.
pub mod handle;
pub mod mesh;
pub mod raw_gpu_types;
pub mod mesh_pass;
pub mod render_object;
pub mod render_scene;
pub mod events;
pub mod time;
