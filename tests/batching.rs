use penguin::handle::{Handle, HandleMap};
use penguin::mesh_pass::MeshPass;
use penguin::render_object::RenderObject;

fn objects_with_meshes(mesh_ids: &[u32]) -> (HandleMap<RenderObject>, MeshPass) {
    let mut render_objects = HandleMap::new();
    let mut pass = MeshPass::new();
    for &m in mesh_ids {
        let h = render_objects.push(RenderObject {
            mesh: Handle::new(m),
            transform: macaw::Mat4::IDENTITY,
            draw_command_index: 0,
        });
        pass.unbatched_objects.push(h);
    }
    (render_objects, pass)
}

fn batch_summary(pass: &MeshPass) -> Vec<(u32, u32, u32)> {
    pass.indirect_batches.iter().map(|b| (b.mesh_h.id, b.first, b.count)).collect()
}

#[test]
fn groups_by_mesh_in_ascending_order() {
    let (render_objects, mut pass) = objects_with_meshes(&[2, 1, 2, 1, 3]);
    assert!(pass.update_batches(&render_objects));
    assert_eq!(batch_summary(&pass), vec![(1, 0, 2), (2, 2, 2), (3, 4, 1)]);
    let ids: Vec<u32> = pass.objects.inner.iter().map(|o| o.draw_command_id).collect();
    assert_eq!(ids, vec![1, 0, 1, 0, 2]);
    // equal keys keep the order in which the objects were added
    let order: Vec<u32> = pass.sorted_render_batches.iter().map(|b| b.pass_object_h.id).collect();
    assert_eq!(order, vec![1, 3, 0, 2, 4]);
    let keys: Vec<u64> = pass.sorted_render_batches.iter().map(|b| b.sort_key).collect();
    assert_eq!(keys, vec![1, 1, 2, 2, 3]);
}

#[test]
fn every_pass_object_has_a_valid_draw_command() {
    let (render_objects, mut pass) = objects_with_meshes(&[4, 0, 4, 9, 0, 0, 7]);
    assert!(pass.update_batches(&render_objects));
    assert_eq!(pass.sorted_render_batches.len(), pass.objects.len());
    for o in pass.objects.inner.iter() {
        let b = &pass.indirect_batches[o.draw_command_id as usize];
        assert_eq!(b.mesh_h.id, o.mesh_h.id);
    }
    assert_eq!(pass.indirect_batches.len(), 4);
}

#[test]
fn second_update_without_new_objects_is_a_no_op() {
    let (render_objects, mut pass) = objects_with_meshes(&[0, 1, 0]);
    assert!(pass.update_batches(&render_objects));
    let before = batch_summary(&pass);
    assert!(!pass.update_batches(&render_objects));
    assert_eq!(batch_summary(&pass), before);
}

#[test]
fn empty_pass_has_no_batches() {
    let (render_objects, mut pass) = objects_with_meshes(&[]);
    assert!(!pass.update_batches(&render_objects));
    assert!(pass.indirect_batches.is_empty());
    assert!(pass.sorted_render_batches.is_empty());
}

#[test]
fn later_objects_merge_into_existing_runs() {
    let (mut render_objects, mut pass) = objects_with_meshes(&[1, 0]);
    assert!(pass.update_batches(&render_objects));
    assert_eq!(batch_summary(&pass), vec![(0, 0, 1), (1, 1, 1)]);
    for m in [1u32, 0, 2] {
        let h = render_objects.push(RenderObject {
            mesh: Handle::new(m),
            transform: macaw::Mat4::IDENTITY,
            draw_command_index: 0,
        });
        pass.unbatched_objects.push(h);
    }
    assert!(pass.update_batches(&render_objects));
    assert_eq!(batch_summary(&pass), vec![(0, 0, 2), (1, 2, 2), (2, 4, 1)]);
    let order: Vec<u32> = pass.sorted_render_batches.iter().map(|b| b.pass_object_h.id).collect();
    assert_eq!(order, vec![1, 3, 0, 2, 4]);
    assert!(pass.unbatched_objects.is_empty());
}
