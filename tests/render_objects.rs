use penguin::handle::Handle;
use penguin::mesh::Mesh;
use penguin::raw_gpu_types::DrawIndirectCount;
use penguin::render_object::{RenderObject, RenderObjectDescriptor};
use penguin::render_scene::{
    build_batches, reupload_updated_objects, BuildBatchesError, DrawOutputInfo, MaxDrawCount,
    Meshes, RenderObjects, MAX_DRAW_COMMANDS, RENDER_OBJECT_GPU_SIZE,
};
use std::collections::HashMap;

fn descriptor(mesh: u32, forward: bool) -> RenderObjectDescriptor {
    RenderObjectDescriptor {
        mesh_handle: Handle::new(mesh),
        transform: macaw::Mat4::IDENTITY,
        draw_forward_pass: forward,
    }
}

fn two_meshes() -> Meshes {
    Meshes(vec![
        Mesh { first_vertex: 0, vertex_count: 24, first_index: 0, index_count: 36 },
        Mesh { first_vertex: 24, vertex_count: 10, first_index: 36, index_count: 12 },
    ])
}

#[test]
fn end_to_end_batches_and_clear_commands() {
    let mut objs = RenderObjects::default();
    for m in [0u32, 0, 1] {
        objs.register_object(&descriptor(m, true));
    }
    let meshes = two_meshes();
    let mut max = MaxDrawCount(0);
    let commands = build_batches(&mut objs, &meshes, &mut max).unwrap().unwrap();

    let batches = &objs.forward_pass.indirect_batches;
    assert_eq!(batches.len(), 2);
    assert_eq!((batches[0].mesh_h.id, batches[0].count), (0, 2));
    assert_eq!((batches[1].mesh_h.id, batches[1].count), (1, 1));

    assert_eq!(commands.len(), 2);
    assert_eq!(commands[0].instance_count, 0);
    assert_eq!(commands[1].instance_count, 0);
    assert_eq!(commands[0].first_instance, 0);
    assert_eq!(commands[1].first_instance, 2);
    assert_eq!((commands[0].index_count, commands[0].first_index, commands[0].base_vertex), (36, 0, 0));
    assert_eq!((commands[1].index_count, commands[1].first_index, commands[1].base_vertex), (12, 36, 24));
    assert_eq!(max.0, 2);

    let indices: Vec<u32> =
        objs.render_objects.inner.iter().map(|o| o.draw_command_index).collect();
    assert_eq!(indices, vec![0, 0, 1]);
    // registration queued three uploads, the new draw commands three more
    let queued: Vec<u32> = objs.render_objects_to_reupload.iter().map(|h| h.id).collect();
    assert_eq!(queued, vec![0, 1, 2, 0, 1, 2]);

    // nothing new: no rebuild, nothing to upload
    assert!(build_batches(&mut objs, &meshes, &mut max).unwrap().is_none());
    assert_eq!(max.0, 2);
}

#[test]
fn model_matrix_update_reaches_gpu_buffer() {
    let mut objs = RenderObjects::new();
    let a = objs.register_object(&descriptor(0, true));
    let b = objs.register_object(&descriptor(1, true));
    let first = reupload_updated_objects(&mut objs);
    assert_eq!(first.len(), 2);
    assert!(objs.render_objects_to_reupload.is_empty());

    let m = macaw::Mat4::from_translation(macaw::Vec3::new(1.0, 2.0, 3.0));
    objs.enqueue_model_matrix_update(b, m);
    objs.enqueue_model_matrix_update(b, m);
    let writes = reupload_updated_objects(&mut objs);
    assert_eq!(writes.len(), 2);

    let mut gpu: HashMap<u64, RenderObject> = HashMap::new();
    for w in first.iter().chain(writes.iter()) {
        gpu.insert(w.offset, w.object);
    }
    let at_b = gpu[&(RENDER_OBJECT_GPU_SIZE * b.id as u64)];
    assert_eq!(at_b.transform, m);
    assert_eq!(at_b.mesh.id, 1);
    let at_a = gpu[&(RENDER_OBJECT_GPU_SIZE * a.id as u64)];
    assert_eq!(at_a.transform, macaw::Mat4::IDENTITY);
    assert_eq!(writes[0].offset, 96);
}

#[test]
fn reupload_drains_last_entry_first() {
    let mut objs = RenderObjects::new();
    for m in [0u32, 1, 2] {
        objs.register_object(&descriptor(m, false));
    }
    let writes = reupload_updated_objects(&mut objs);
    let offsets: Vec<u64> = writes.iter().map(|w| w.offset).collect();
    assert_eq!(offsets, vec![192, 96, 0]);
    assert!(reupload_updated_objects(&mut objs).is_empty());
}

#[test]
fn objects_outside_forward_pass_are_not_batched() {
    let mut objs = RenderObjects::new();
    let h = objs.register_object(&descriptor(1, false));
    assert_eq!(h.id, 0);
    assert!(objs.forward_pass.unbatched_objects.is_empty());
    let mut max = MaxDrawCount(5);
    assert!(build_batches(&mut objs, &two_meshes(), &mut max).unwrap().is_none());
    assert_eq!(max.0, 5);
    let g = objs.register_object(&descriptor(0, true));
    assert_eq!(g.id, 1);
    assert_eq!(objs.forward_pass.unbatched_objects.len(), 1);
}

#[test]
fn too_many_draw_commands_is_an_error() {
    let mut objs = RenderObjects::new();
    let count = MAX_DRAW_COMMANDS + 1;
    let meshes = Meshes(
        (0..count as u32)
            .map(|i| Mesh { first_vertex: i, vertex_count: 1, first_index: i, index_count: 1 })
            .collect(),
    );
    for m in 0..count as u32 {
        objs.register_object(&descriptor(m, true));
    }
    let mut max = MaxDrawCount(0);
    assert_eq!(
        build_batches(&mut objs, &meshes, &mut max).unwrap_err(),
        BuildBatchesError::TooManyDrawCommands
    );
    assert_eq!(max.0, 0);
}

#[test]
fn exactly_max_draw_commands_fit() {
    let mut objs = RenderObjects::new();
    let meshes = Meshes(
        (0..MAX_DRAW_COMMANDS as u32)
            .map(|i| Mesh { first_vertex: i, vertex_count: 1, first_index: i, index_count: 1 })
            .collect(),
    );
    for m in (0..MAX_DRAW_COMMANDS as u32).rev() {
        objs.register_object(&descriptor(m, true));
    }
    let mut max = MaxDrawCount(0);
    let commands = build_batches(&mut objs, &meshes, &mut max).unwrap().unwrap();
    assert_eq!(commands.len(), MAX_DRAW_COMMANDS);
    assert_eq!(max.0 as usize, MAX_DRAW_COMMANDS);
    assert_eq!(commands[5].first_index, 5);
    assert_eq!(commands[5].first_instance, 5);
    // object 0 has mesh 99, the last batch
    assert_eq!(objs.render_objects.inner[0].draw_command_index, 99);
}

#[test]
fn cleared_compute_state() {
    let d = DrawOutputInfo::default();
    assert_eq!(d.has_output_slot, 0);
    assert_eq!(d.output_slot, u32::MAX);
    let slots = DrawOutputInfo::cleared_slots(4);
    assert_eq!(slots, vec![d; 4]);
    assert_eq!(DrawIndirectCount::cleared().count, 0);
}
