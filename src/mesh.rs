//! The mesh registry: every mesh's vertices and indices in one flat buffer,
//! and the range of each mesh inside it.
use crate::raw_gpu_types::DrawIndexedIndirect;
use vstd::prelude::*;

verus! {

/// Declares macaw's `Vec3` (glam) so that vertices can carry positions and
/// normals; the proofs never look inside it.
#[verifier::external_type_specification]
#[verifier::external_body]
pub struct ExVec3(macaw::Vec3);

/// Declares macaw's `Vec2` (glam) so that vertices can carry texture
/// coordinates; the proofs never look inside it.
#[verifier::external_type_specification]
#[verifier::external_body]
pub struct ExVec2(macaw::Vec2);

/// One vertex of a mesh.
#[derive(Clone, Copy)]
pub struct MeshVertex {
    pub position: macaw::Vec3,
    pub normal: macaw::Vec3,
    pub tex_coords: macaw::Vec2,
}

/// Ranges in a vertex array buffer's vertices and indices that make up one mesh.
#[derive(Clone, Copy, Debug, PartialEq, Eq, Structural)]
pub struct Mesh {
    pub first_vertex: u32,
    pub vertex_count: u32,
    pub first_index: u32,
    pub index_count: u32,
}

impl Mesh {
    /// Creates a draw command that draws this mesh.
    pub fn create_draw_command(&self, first_instance: u32, instance_count: u32) -> (cmd:
        DrawIndexedIndirect)
        ensures
            cmd == (DrawIndexedIndirect {
                index_count: self.index_count,
                instance_count,
                first_index: self.first_index,
                base_vertex: self.first_vertex,
                first_instance,
            }),
    {
        DrawIndexedIndirect {
            index_count: self.index_count,
            instance_count,
            first_index: self.first_index,
            base_vertex: self.first_vertex,
            first_instance,
        }
    }
}

/// Mesh data loaded into memory: triangulated, single-indexed geometry.
pub struct MeshAsset {
    pub vertices: Vec<MeshVertex>,
    pub indices: Vec<u32>,
}

/// All meshes' vertices followed by all meshes' indices, in asset order.
pub struct VertexArrayBuffer {
    pub vertices: Vec<MeshVertex>,
    pub indices: Vec<u32>,
}

/// Number of vertices of the first `n` assets.
pub open spec fn vertex_offset(assets: Seq<MeshAsset>, n: int) -> int
    decreases n,
{
    if n <= 0 {
        0
    } else {
        vertex_offset(assets, n - 1) + assets[n - 1].vertices@.len()
    }
}

/// Number of indices of the first `n` assets.
pub open spec fn index_offset(assets: Seq<MeshAsset>, n: int) -> int
    decreases n,
{
    if n <= 0 {
        0
    } else {
        index_offset(assets, n - 1) + assets[n - 1].indices@.len()
    }
}

/// The vertices of the first `n` assets, one asset after another.
pub open spec fn flat_vertices(assets: Seq<MeshAsset>, n: int) -> Seq<MeshVertex>
    decreases n,
{
    if n <= 0 {
        Seq::empty()
    } else {
        flat_vertices(assets, n - 1) + assets[n - 1].vertices@
    }
}

/// The indices of the first `n` assets, one asset after another.
pub open spec fn flat_indices(assets: Seq<MeshAsset>, n: int) -> Seq<u32>
    decreases n,
{
    if n <= 0 {
        Seq::empty()
    } else {
        flat_indices(assets, n - 1) + assets[n - 1].indices@
    }
}

/// The range that asset `i` takes in the flat buffer.
pub open spec fn mesh_of_asset(assets: Seq<MeshAsset>, i: int) -> Mesh {
    Mesh {
        first_vertex: vertex_offset(assets, i) as u32,
        vertex_count: assets[i].vertices@.len() as u32,
        first_index: index_offset(assets, i) as u32,
        index_count: assets[i].indices@.len() as u32,
    }
}

/// Whether every count and offset of the flat buffer fits in a `u32`.
pub open spec fn fits_u32_ranges(assets: Seq<MeshAsset>) -> bool {
    &&& vertex_offset(assets, assets.len() as int) <= u32::MAX
    &&& index_offset(assets, assets.len() as int) <= u32::MAX
}

proof fn lemma_offsets_monotonic(assets: Seq<MeshAsset>, i: int, j: int)
    requires
        0 <= i <= j <= assets.len(),
    ensures
        vertex_offset(assets, i) + (if i < j { assets[i].vertices@.len() as int } else { 0 })
            <= vertex_offset(assets, j),
        index_offset(assets, i) + (if i < j { assets[i].indices@.len() as int } else { 0 })
            <= index_offset(assets, j),
        flat_vertices(assets, i).len() == vertex_offset(assets, i),
        flat_indices(assets, i).len() == index_offset(assets, i),
    decreases j - i,
{
    if i < j {
        lemma_offsets_monotonic(assets, i + 1, j);
    } else {
        lemma_flat_lengths(assets, i);
    }
}

proof fn lemma_flat_lengths(assets: Seq<MeshAsset>, n: int)
    requires
        0 <= n <= assets.len(),
    ensures
        flat_vertices(assets, n).len() == vertex_offset(assets, n),
        flat_indices(assets, n).len() == index_offset(assets, n),
    decreases n,
{
    if n > 0 {
        lemma_flat_lengths(assets, n - 1);
    }
}

impl VertexArrayBuffer {
    /// Puts the vertices and indices of every asset into one vertex array, in
    /// asset order, and returns it with the range of each asset.
    ///
    /// The mesh at position `i` of the result describes asset `i`: scene code
    /// refers to meshes by that position. `None` when the total number of
    /// vertices or of indices does not fit in a `u32`.
    pub fn build_from_mesh_assets(assets: &Vec<MeshAsset>) -> (r: Option<(VertexArrayBuffer, Vec<Mesh>)>)
        ensures
            r.is_some() <==> fits_u32_ranges(assets@),
            r matches Some((buffer, meshes)) ==> {
                &&& buffer.vertices@ == flat_vertices(assets@, assets@.len() as int)
                &&& buffer.indices@ == flat_indices(assets@, assets@.len() as int)
                &&& meshes@.len() == assets@.len()
                &&& forall|i: int| 0 <= i < assets@.len() ==> #[trigger] meshes@[i] == mesh_of_asset(assets@, i)
            },
    {
        let mut vertices: Vec<MeshVertex> = Vec::new();
        let mut indices: Vec<u32> = Vec::new();
        let mut meshes: Vec<Mesh> = Vec::with_capacity(assets.len());
        let mut a: usize = 0;
        while a < assets.len()
            invariant
                a <= assets@.len(),
                vertices@ == flat_vertices(assets@, a as int),
                indices@ == flat_indices(assets@, a as int),
                vertices@.len() <= u32::MAX,
                indices@.len() <= u32::MAX,
                meshes@.len() == a,
                forall|i: int| 0 <= i < a ==> #[trigger] meshes@[i] == mesh_of_asset(assets@, i),
            decreases assets@.len() - a,
        {
            proof {
                lemma_flat_lengths(assets@, a as int);
                lemma_flat_lengths(assets@, a + 1);
            }
            let asset = &assets[a];
            if asset.vertices.len() > (u32::MAX as usize) - vertices.len() || asset.indices.len()
                > (u32::MAX as usize) - indices.len() {
                proof {
                    lemma_offsets_monotonic(assets@, a + 1, assets@.len() as int);
                }
                return None;
            }
            let mesh = Mesh {
                first_vertex: vertices.len() as u32,
                vertex_count: asset.vertices.len() as u32,
                first_index: indices.len() as u32,
                index_count: asset.indices.len() as u32,
            };
            let mut v: usize = 0;
            while v < asset.vertices.len()
                invariant
                    a < assets@.len(),
                    asset == assets@[a as int],
                    v <= asset.vertices@.len(),
                    vertices@ == flat_vertices(assets@, a as int) + asset.vertices@.subrange(0, v as int),
                decreases asset.vertices@.len() - v,
            {
                vertices.push(asset.vertices[v]);
                v = v + 1;
                assert(asset.vertices@.subrange(0, v as int) =~= asset.vertices@.subrange(0, v - 1).push(asset.vertices@[v - 1]));
            }
            let mut x: usize = 0;
            while x < asset.indices.len()
                invariant
                    a < assets@.len(),
                    asset == assets@[a as int],
                    x <= asset.indices@.len(),
                    indices@ == flat_indices(assets@, a as int) + asset.indices@.subrange(0, x as int),
                decreases asset.indices@.len() - x,
            {
                indices.push(asset.indices[x]);
                x = x + 1;
                assert(asset.indices@.subrange(0, x as int) =~= asset.indices@.subrange(0, x - 1).push(asset.indices@[x - 1]));
            }
            assert(asset.vertices@.subrange(0, v as int) =~= asset.vertices@);
            assert(asset.indices@.subrange(0, x as int) =~= asset.indices@);
            meshes.push(mesh);
            a = a + 1;
        }
        proof {
            lemma_flat_lengths(assets@, a as int);
        }
        Some((VertexArrayBuffer { vertices, indices }, meshes))
    }
}

} // verus!
