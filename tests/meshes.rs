use penguin::mesh::{Mesh, MeshAsset, MeshVertex, VertexArrayBuffer};

fn vertex(x: f32) -> MeshVertex {
    MeshVertex {
        position: macaw::Vec3::new(x, 0.0, 0.0),
        normal: macaw::Vec3::Y,
        tex_coords: macaw::Vec2::ZERO,
    }
}

fn asset(first: f32, vertices: usize, indices: Vec<u32>) -> MeshAsset {
    MeshAsset {
        vertices: (0..vertices).map(|i| vertex(first + i as f32)).collect(),
        indices,
    }
}

#[test]
fn mesh_offsets_are_prefix_sums() {
    let assets = vec![
        asset(0.0, 3, vec![0, 1, 2]),
        asset(10.0, 4, vec![0, 1, 2, 2, 3, 0]),
        asset(20.0, 5, vec![0, 1, 2]),
    ];
    let (buffer, meshes) = VertexArrayBuffer::build_from_mesh_assets(&assets).unwrap();
    assert_eq!(
        meshes,
        vec![
            Mesh { first_vertex: 0, vertex_count: 3, first_index: 0, index_count: 3 },
            Mesh { first_vertex: 3, vertex_count: 4, first_index: 3, index_count: 6 },
            Mesh { first_vertex: 7, vertex_count: 5, first_index: 9, index_count: 3 },
        ]
    );
    assert_eq!(buffer.vertices.len(), 12);
    assert_eq!(buffer.indices, vec![0, 1, 2, 0, 1, 2, 2, 3, 0, 0, 1, 2]);
    assert_eq!(buffer.vertices[3].position.x, 10.0);
    assert_eq!(buffer.vertices[7].position.x, 20.0);
    assert_eq!(buffer.vertices[11].position.x, 24.0);
}

#[test]
fn no_assets_give_empty_buffer() {
    let (buffer, meshes) = VertexArrayBuffer::build_from_mesh_assets(&Vec::new()).unwrap();
    assert!(meshes.is_empty());
    assert!(buffer.vertices.is_empty());
    assert!(buffer.indices.is_empty());
}

#[test]
fn draw_command_of_mesh() {
    let mesh = Mesh { first_vertex: 7, vertex_count: 5, first_index: 9, index_count: 3 };
    let cmd = mesh.create_draw_command(4, 2);
    assert_eq!(cmd.index_count, 3);
    assert_eq!(cmd.instance_count, 2);
    assert_eq!(cmd.first_index, 9);
    assert_eq!(cmd.base_vertex, 7);
    assert_eq!(cmd.first_instance, 4);
}
