//! The render object store and the draw commands built from its forward pass.
//!
//! The store keeps the CPU copy of every render object. Each change is
//! mirrored to the GPU through an explicit reupload queue. The functions here
//! compute what the GPU buffers must receive; the caller performs the writes.
use crate::handle::{Handle, HandleMap};
use crate::mesh::Mesh;
use crate::mesh_pass::{batch_draws, new_pass_object, same_source, IndirectBatch, MeshPass, PassObject};
use crate::raw_gpu_types::DrawIndexedIndirect;
use crate::render_object::{RenderObject, RenderObjectDescriptor};
use vstd::prelude::*;

verus! {

/// Capacity of the draw command buffers, in draw commands.
pub const MAX_DRAW_COMMANDS: usize = 100;

/// Size in bytes of one render object in the GPU storage buffer: a `u32` mesh
/// handle padded to 16 bytes, a 4x4 `f32` matrix, and a `u32` draw command
/// index padded to 16 bytes.
pub const RENDER_OBJECT_GPU_SIZE: u64 = 96;

/// The meshes of the mesh registry; a `Handle<Mesh>` is a position in it.
pub struct Meshes(pub Vec<Mesh>);

/// The number of draw commands in the draw commands buffer, the most that the
/// indirect multi-draw may issue.
pub struct MaxDrawCount(pub u32);

/// One GPU buffer write of a render object.
#[derive(Clone, Copy)]
pub struct RenderObjectUpload {
    /// Byte offset in the render objects buffer.
    pub offset: u64,
    /// The data to write there.
    pub object: RenderObject,
}

/// CPU-side render objects, their reupload queue, and the forward mesh pass.
pub struct RenderObjects {
    pub render_objects: HandleMap<RenderObject>,
    /// Render objects whose GPU copy is out of date.
    pub render_objects_to_reupload: Vec<Handle<RenderObject>>,
    /// Mesh pass for forward rendering.
    pub forward_pass: MeshPass,
}

/// Byte offset of render object `id` in the render objects buffer.
pub open spec fn render_object_offset(id: u32) -> u64 {
    (RENDER_OBJECT_GPU_SIZE * id) as u64
}

/// The write that brings the GPU copy of render object `h` up to date with `ros`.
pub open spec fn upload_of(ros: Seq<RenderObject>, h: Handle<RenderObject>) -> RenderObjectUpload {
    RenderObjectUpload { offset: render_object_offset(h.id), object: ros[h.id as int] }
}

/// What the GPU buffer holds at `offset` after `writes`, applied in order,
/// as far as they decide it: the object of the last write there.
pub open spec fn last_write_at(writes: Seq<RenderObjectUpload>, offset: u64) -> Option<RenderObject>
    decreases writes.len(),
{
    if writes.len() == 0 {
        None
    } else if writes.last().offset == offset {
        Some(writes.last().object)
    } else {
        last_write_at(writes.drop_last(), offset)
    }
}

impl RenderObjects {
    /// The `i`-th render object given to the forward pass: the pass objects'
    /// render objects, then those waiting to be batched.
    pub open spec fn pass_source(&self, i: int) -> Handle<RenderObject> {
        let n = self.forward_pass.objects@.len();
        if i < n {
            self.forward_pass.objects@[i].original_render_object
        } else {
            self.forward_pass.unbatched_objects@[i - n]
        }
    }

    /// Number of render objects given to the forward pass.
    pub open spec fn pass_source_count(&self) -> int {
        self.forward_pass.objects@.len() + self.forward_pass.unbatched_objects@.len() as int
    }

    /// The store's invariant: handles are valid, each render object is given
    /// to the forward pass at most once, and each pass object has its render
    /// object's mesh.
    pub open spec fn wf(&self) -> bool {
        &&& self.forward_pass.wf()
        &&& self.render_objects@.len() <= u32::MAX
        &&& self.pass_source_count() <= self.render_objects@.len()
        &&& forall|i: int|
            0 <= i < self.render_objects_to_reupload@.len() ==> self.render_objects.contains(
                #[trigger] self.render_objects_to_reupload@[i],
            )
        &&& forall|i: int|
            0 <= i < self.pass_source_count() ==> self.render_objects.contains(
                #[trigger] self.pass_source(i),
            )
        &&& forall|i: int, j: int|
            0 <= i < j < self.pass_source_count() ==> (#[trigger] self.pass_source(i)).id
                != (#[trigger] self.pass_source(j)).id
        &&& forall|k: int|
            0 <= k < self.forward_pass.objects@.len() ==> (#[trigger] self.forward_pass.objects@[k]).mesh_h.id
                == self.render_objects@[self.forward_pass.objects@[k].original_render_object.id as int].mesh.id
    }

    /// What `enqueue_model_matrix_update(h, m)` does.
    pub open spec fn model_matrix_updated(
        old: RenderObjects,
        h: Handle<RenderObject>,
        m: macaw::Mat4,
        new: RenderObjects,
    ) -> bool {
        &&& new.render_objects@ == old.render_objects@.update(
            h.id as int,
            RenderObject { transform: m, ..old.render_objects@[h.id as int] },
        )
        &&& new.render_objects_to_reupload@ == old.render_objects_to_reupload@.push(h)
        &&& new.forward_pass == old.forward_pass
    }

    /// What `reupload_updated_objects` does: the queue is drained, last
    /// entry first, with one write of each entry's current data.
    pub open spec fn objects_reuploaded(
        old: RenderObjects,
        new: RenderObjects,
        writes: Seq<RenderObjectUpload>,
    ) -> bool {
        let q = old.render_objects_to_reupload@;
        &&& new.render_objects@ == old.render_objects@
        &&& new.forward_pass == old.forward_pass
        &&& new.render_objects_to_reupload@.len() == 0
        &&& writes.len() == q.len()
        &&& forall|t: int|
            0 <= t < q.len() ==> #[trigger] writes[t] == upload_of(
                old.render_objects@,
                q[q.len() - 1 - t],
            )
    }

    /// An empty store.
    pub fn new() -> (r: RenderObjects)
        ensures
            r.wf(),
            r.render_objects@.len() == 0,
            r.render_objects_to_reupload@.len() == 0,
            r.forward_pass.objects@.len() == 0,
            r.forward_pass.unbatched_objects@.len() == 0,
            r.forward_pass.indirect_batches@.len() == 0,
    {
        RenderObjects {
            render_objects: HandleMap::new(),
            render_objects_to_reupload: Vec::new(),
            forward_pass: MeshPass::new(),
        }
    }

    /// Adds a render object and returns its handle. The object is queued for
    /// upload, and for batching in the forward pass if the descriptor asks for it.
    pub fn register_object(&mut self, desc: &RenderObjectDescriptor) -> (h: Handle<RenderObject>)
        requires
            old(self).wf(),
            old(self).render_objects@.len() < u32::MAX,
        ensures
            final(self).wf(),
            h.id == old(self).render_objects@.len(),
            final(self).render_objects@ == old(self).render_objects@.push(
                RenderObject {
                    mesh: desc.mesh_handle,
                    transform: desc.transform,
                    draw_command_index: 0,
                },
            ),
            final(self).render_objects_to_reupload@ == old(self).render_objects_to_reupload@.push(h),
            final(self).forward_pass.unbatched_objects@ == (if desc.draw_forward_pass {
                old(self).forward_pass.unbatched_objects@.push(h)
            } else {
                old(self).forward_pass.unbatched_objects@
            }),
            final(self).forward_pass.objects == old(self).forward_pass.objects,
            final(self).forward_pass.sorted_render_batches == old(
                self,
            ).forward_pass.sorted_render_batches,
            final(self).forward_pass.indirect_batches == old(self).forward_pass.indirect_batches,
    {
        let ghost old_self = *self;
        let h = self.render_objects.push(
            RenderObject { mesh: desc.mesh_handle, transform: desc.transform, draw_command_index: 0 },
        );
        if desc.draw_forward_pass {
            self.forward_pass.unbatched_objects.push(h);
        }
        self.render_objects_to_reupload.push(h);
        proof {
            assert forall|i: int| 0 <= i < old_self.pass_source_count() implies #[trigger] self.pass_source(i)
                == old_self.pass_source(i) by {
            }
            assert forall|i: int, j: int|
                0 <= i < j < self.pass_source_count() implies (#[trigger] self.pass_source(i)).id
                != (#[trigger] self.pass_source(j)).id by {
                if j < old_self.pass_source_count() {
                    assert(old_self.pass_source(i).id != old_self.pass_source(j).id);
                } else {
                    assert(old_self.render_objects.contains(old_self.pass_source(i)));
                }
            }
            assert forall|i: int| 0 <= i < self.pass_source_count() implies self.render_objects.contains(
                #[trigger] self.pass_source(i),
            ) by {
                if i < old_self.pass_source_count() {
                    assert(old_self.render_objects.contains(old_self.pass_source(i)));
                }
            }
            assert forall|k: int| 0 <= k < self.forward_pass.objects@.len() implies (
            #[trigger] self.forward_pass.objects@[k]).mesh_h.id == self.render_objects@[self.forward_pass.objects@[k].original_render_object.id as int].mesh.id by {
                assert(old_self.pass_source(k) == old_self.forward_pass.objects@[k].original_render_object);
                assert(old_self.render_objects.contains(old_self.pass_source(k)));
                assert(old_self.forward_pass.objects@[k].mesh_h.id == old_self.render_objects@[old_self.forward_pass.objects@[k].original_render_object.id as int].mesh.id);
            }
            assert forall|i: int| 0 <= i < self.render_objects_to_reupload@.len() implies self.render_objects.contains(
                #[trigger] self.render_objects_to_reupload@[i],
            ) by {
                if i < old_self.render_objects_to_reupload@.len() {
                    assert(old_self.render_objects.contains(old_self.render_objects_to_reupload@[i]));
                }
            }
        }
        h
    }

    /// Replaces the transform of render object `h` and queues it for upload.
    /// The object is queued even if the transform did not change.
    pub fn enqueue_model_matrix_update(&mut self, h: Handle<RenderObject>, model_matrix: macaw::Mat4)
        requires
            old(self).wf(),
            old(self).render_objects.contains(h),
        ensures
            final(self).wf(),
            RenderObjects::model_matrix_updated(*old(self), h, model_matrix, *final(self)),
    {
        let ghost old_self = *self;
        let mut object = *self.render_objects.get(h);
        object.transform = model_matrix;
        self.render_objects.set(h, object);
        self.render_objects_to_reupload.push(h);
        proof {
            assert forall|i: int| 0 <= i < old_self.pass_source_count() implies #[trigger] self.pass_source(i)
                == old_self.pass_source(i) by {
            }
            assert forall|i: int| 0 <= i < self.pass_source_count() implies self.render_objects.contains(
                #[trigger] self.pass_source(i),
            ) by {
                assert(old_self.render_objects.contains(old_self.pass_source(i)));
            }
            assert forall|i: int, j: int|
                0 <= i < j < self.pass_source_count() implies (#[trigger] self.pass_source(i)).id
                != (#[trigger] self.pass_source(j)).id by {
                assert(old_self.pass_source(i).id != old_self.pass_source(j).id);
            }
            assert forall|k: int| 0 <= k < self.forward_pass.objects@.len() implies (
            #[trigger] self.forward_pass.objects@[k]).mesh_h.id == self.render_objects@[self.forward_pass.objects@[k].original_render_object.id as int].mesh.id by {
                assert(old_self.pass_source(k) == old_self.forward_pass.objects@[k].original_render_object);
                assert(old_self.render_objects.contains(old_self.pass_source(k)));
                assert(old_self.forward_pass.objects@[k].mesh_h.id == old_self.render_objects@[old_self.forward_pass.objects@[k].original_render_object.id as int].mesh.id);
            }
            assert forall|i: int| 0 <= i < self.render_objects_to_reupload@.len() implies self.render_objects.contains(
                #[trigger] self.render_objects_to_reupload@[i],
            ) by {
                if i < old_self.render_objects_to_reupload@.len() {
                    assert(old_self.render_objects.contains(old_self.render_objects_to_reupload@[i]));
                }
            }
        }
    }
}

/// Drains the reupload queue, last entry first, and returns one GPU buffer
/// write per entry, with the object's current data at offset
/// `RENDER_OBJECT_GPU_SIZE * h.id`. Several entries of one handle give
/// writes of the same data, so their order does not matter.
pub fn reupload_updated_objects(render_objects: &mut RenderObjects) -> (writes: Vec<
    RenderObjectUpload,
>)
    requires
        old(render_objects).wf(),
    ensures
        final(render_objects).wf(),
        RenderObjects::objects_reuploaded(*old(render_objects), *final(render_objects), writes@),
{
    let ghost q = render_objects.render_objects_to_reupload@;
    let mut writes: Vec<RenderObjectUpload> = Vec::new();
    while render_objects.render_objects_to_reupload.len() > 0
        invariant
            old(render_objects).wf(),
            forall|i: int|
                0 <= i < render_objects.render_objects_to_reupload@.len() ==> render_objects.render_objects.contains(
                    #[trigger] render_objects.render_objects_to_reupload@[i],
                ),
            render_objects.render_objects@ == old(render_objects).render_objects@,
            render_objects.forward_pass == old(render_objects).forward_pass,
            q == old(render_objects).render_objects_to_reupload@,
            render_objects.render_objects_to_reupload@ == q.subrange(0, q.len() - writes@.len()),
            writes@.len() <= q.len(),
            forall|t: int|
                0 <= t < writes@.len() ==> #[trigger] writes@[t] == upload_of(
                    old(render_objects).render_objects@,
                    q[q.len() - 1 - t],
                ),
        decreases render_objects.render_objects_to_reupload@.len(),
    {
        let h = render_objects.render_objects_to_reupload.pop().unwrap();
        let offset = RENDER_OBJECT_GPU_SIZE * (h.id as u64);
        let object = *render_objects.render_objects.get(h);
        writes.push(RenderObjectUpload { offset, object });
        assert forall|i: int| 0 <= i < render_objects.render_objects_to_reupload@.len() implies render_objects.render_objects.contains(
            #[trigger] render_objects.render_objects_to_reupload@[i],
        ) by {
            assert(render_objects.render_objects_to_reupload@[i] == q[i]);
            assert(old(render_objects).render_objects.contains(old(render_objects).render_objects_to_reupload@[i]));
        }
    }
    proof {
        let o = *old(render_objects);
        let r = *render_objects;
        assert forall|i: int| 0 <= i < r.pass_source_count() implies #[trigger] r.pass_source(i) == o.pass_source(i) by {
        }
        assert forall|i: int| 0 <= i < r.pass_source_count() implies r.render_objects.contains(
            #[trigger] r.pass_source(i),
        ) by {
            assert(o.render_objects.contains(o.pass_source(i)));
        }
        assert forall|i: int, j: int|
            0 <= i < j < r.pass_source_count() implies (#[trigger] r.pass_source(i)).id
            != (#[trigger] r.pass_source(j)).id by {
            assert(o.pass_source(i).id != o.pass_source(j).id);
        }
    }
    writes
}

/// If every write at `offset` carries `x` and there is at least one, the
/// buffer holds `x` there afterwards.
proof fn lemma_last_write(writes: Seq<RenderObjectUpload>, offset: u64, x: RenderObject, t: int)
    requires
        0 <= t < writes.len(),
        writes[t].offset == offset,
        forall|u: int| 0 <= u < writes.len() && (#[trigger] writes[u]).offset == offset ==> writes[u].object == x,
    ensures
        last_write_at(writes, offset) == Some(x),
    decreases writes.len(),
{
    if writes.last().offset != offset {
        let w = writes.drop_last();
        assert forall|u: int| 0 <= u < w.len() && (#[trigger] w[u]).offset == offset implies w[u].object == x by {
            assert(w[u] == writes[u]);
        }
        assert(w[t] == writes[t]);
        lemma_last_write(w, offset, x, t);
    }
}

/// After `reupload_updated_objects`, the GPU copy of every render object that
/// was queued equals its CPU copy.
pub proof fn lemma_reupload_mirrors_objects(
    old: RenderObjects,
    new: RenderObjects,
    writes: Seq<RenderObjectUpload>,
    i: int,
)
    requires
        old.wf(),
        RenderObjects::objects_reuploaded(old, new, writes),
        0 <= i < old.render_objects_to_reupload@.len(),
    ensures
        ({
            let h = old.render_objects_to_reupload@[i];
            last_write_at(writes, render_object_offset(h.id)) == Some(new.render_objects@[h.id as int])
        }),
{
    let q = old.render_objects_to_reupload@;
    let h = q[i];
    let off = render_object_offset(h.id);
    let t = q.len() - 1 - i;
    assert(writes[t] == upload_of(old.render_objects@, q[i]));
    assert forall|u: int| 0 <= u < writes.len() && (#[trigger] writes[u]).offset == off implies writes[u].object
        == new.render_objects@[h.id as int] by {
        let g = q[q.len() - 1 - u];
        assert(writes[u] == upload_of(old.render_objects@, g));
        assert(old.render_objects.contains(g));
        assert(RENDER_OBJECT_GPU_SIZE * g.id == RENDER_OBJECT_GPU_SIZE * h.id ==> g.id == h.id);
    }
    lemma_last_write(writes, off, new.render_objects@[h.id as int], t);
}

/// A new model matrix reaches the GPU: after `enqueue_model_matrix_update(h, m)`
/// and then `reupload_updated_objects`, the render objects buffer holds at
/// offset `RENDER_OBJECT_GPU_SIZE * h.id` the object `h` with transform `m`.
pub proof fn lemma_model_matrix_reaches_gpu(
    s0: RenderObjects,
    h: Handle<RenderObject>,
    m: macaw::Mat4,
    s1: RenderObjects,
    s2: RenderObjects,
    writes: Seq<RenderObjectUpload>,
)
    requires
        s0.wf(),
        s0.render_objects.contains(h),
        s1.wf(),
        RenderObjects::model_matrix_updated(s0, h, m, s1),
        RenderObjects::objects_reuploaded(s1, s2, writes),
    ensures
        last_write_at(writes, render_object_offset(h.id)) == Some(s1.render_objects@[h.id as int]),
        s1.render_objects@[h.id as int].transform == m,
{
    let i = s1.render_objects_to_reupload@.len() - 1;
    lemma_reupload_mirrors_objects(s1, s2, writes, i);
}

} // verus!

verus! {

/// Why `build_batches` could not produce the draw commands.
#[derive(Clone, Copy, Debug, PartialEq, Eq, Structural)]
pub enum BuildBatchesError {
    /// The batches need more draw commands than `MAX_DRAW_COMMANDS`.
    TooManyDrawCommands,
}

/// The draw command of indirect batch `ib`, as the clear buffer holds it: the
/// ranges of its mesh, no instances yet (the compute pass counts them), and
/// the run's first render batch as first instance.
pub open spec fn clear_draw_command(meshes: Seq<Mesh>, ib: IndirectBatch) -> DrawIndexedIndirect {
    let mesh = meshes[ib.mesh_h.id as int];
    DrawIndexedIndirect {
        index_count: mesh.index_count,
        instance_count: 0,
        first_index: mesh.first_index,
        base_vertex: mesh.first_vertex,
        first_instance: ib.first,
    }
}

/// `ros` after the draw command of each of the first `n` pass objects is
/// copied into the pass object's render object, in order.
pub open spec fn assign_draw_commands(ros: Seq<RenderObject>, objects: Seq<PassObject>, n: int) -> Seq<
    RenderObject,
>
    decreases n,
{
    if n <= 0 {
        ros
    } else {
        let prev = assign_draw_commands(ros, objects, n - 1);
        let o = objects[n - 1];
        let r = o.original_render_object.id as int;
        prev.update(r, RenderObject { draw_command_index: o.draw_command_id, ..prev[r] })
    }
}

/// Copying draw commands into render objects changes nothing but their
/// draw command index, and each pass object's render object ends up with
/// that pass object's draw command when no two pass objects share one.
pub proof fn lemma_draw_commands_assigned(ros: Seq<RenderObject>, objects: Seq<PassObject>, n: int)
    requires
        0 <= n <= objects.len(),
        forall|k: int| 0 <= k < n ==> (#[trigger] objects[k]).original_render_object.id < ros.len(),
        forall|k1: int, k2: int|
            0 <= k1 < k2 < n ==> (#[trigger] objects[k1]).original_render_object.id != (
            #[trigger] objects[k2]).original_render_object.id,
    ensures
        assign_draw_commands(ros, objects, n).len() == ros.len(),
        forall|r: int|
            0 <= r < ros.len() ==> (#[trigger] assign_draw_commands(ros, objects, n)[r]).mesh == ros[r].mesh
                && assign_draw_commands(ros, objects, n)[r].transform == ros[r].transform,
        forall|k: int|
            0 <= k < n ==> assign_draw_commands(ros, objects, n)[(#[trigger] objects[k]).original_render_object.id as int].draw_command_index
                == objects[k].draw_command_id,
    decreases n,
{
    if n > 0 {
        lemma_draw_commands_assigned(ros, objects, n - 1);
        let prev = assign_draw_commands(ros, objects, n - 1);
        assert forall|k: int| 0 <= k < n implies assign_draw_commands(ros, objects, n)[(
        #[trigger] objects[k]).original_render_object.id as int].draw_command_index
            == objects[k].draw_command_id by {
            if k < n - 1 {
                assert(objects[k].original_render_object.id != objects[n - 1].original_render_object.id);
            }
        }
    }
}

impl RenderObjects {
    /// What `build_batches` does. When objects were waiting, the forward pass
    /// is rebuilt; if its indirect batches fit in the draw commands buffer,
    /// the result holds one clear draw command per batch, the max draw count
    /// becomes their number, and every pass object's draw command is copied
    /// into its render object, which is queued for upload.
    pub open spec fn batches_built(
        old: RenderObjects,
        meshes: Seq<Mesh>,
        old_max_draw_count: u32,
        new: RenderObjects,
        new_max_draw_count: u32,
        r: Result<Option<Vec<DrawIndexedIndirect>>, BuildBatchesError>,
    ) -> bool {
        let rebuilt = old.forward_pass.unbatched_objects@.len() > 0;
        let batches = new.forward_pass.indirect_batches@;
        let objects = new.forward_pass.objects@;
        let fits = batches.len() <= MAX_DRAW_COMMANDS;
        &&& MeshPass::batches_updated(old.forward_pass, old.render_objects@, new.forward_pass, rebuilt)
        &&& new.render_objects@.len() == old.render_objects@.len()
        &&& !(rebuilt && fits) ==> {
            &&& r == (if rebuilt {
                Err::<Option<Vec<DrawIndexedIndirect>>, BuildBatchesError>(
                    BuildBatchesError::TooManyDrawCommands,
                )
            } else {
                Ok(None)
            })
            &&& new_max_draw_count == old_max_draw_count
            &&& new.render_objects@ == old.render_objects@
            &&& new.render_objects_to_reupload@ == old.render_objects_to_reupload@
        }
        &&& rebuilt && fits ==> {
            &&& r matches Ok(Some(commands))
            &&& commands@.len() == batches.len()
            &&& forall|b: int|
                0 <= b < batches.len() ==> #[trigger] commands@[b] == clear_draw_command(
                    meshes,
                    batches[b],
                )
            &&& new_max_draw_count == batches.len()
            &&& new.render_objects@ == assign_draw_commands(
                old.render_objects@,
                objects,
                objects.len() as int,
            )
            &&& new.render_objects_to_reupload@ == old.render_objects_to_reupload@ + Seq::new(
                objects.len(),
                |k: int| objects[k].original_render_object,
            )
        }
    }
}

/// After `build_batches` returns draw commands, every render object of the
/// forward pass holds its pass object's draw command, an index into those
/// commands, whose mesh is the render object's mesh.
pub proof fn lemma_render_objects_point_at_commands(
    old: RenderObjects,
    meshes: Seq<Mesh>,
    old_max_draw_count: u32,
    new: RenderObjects,
    new_max_draw_count: u32,
    r: Result<Option<Vec<DrawIndexedIndirect>>, BuildBatchesError>,
)
    requires
        new.wf(),
        RenderObjects::batches_built(old, meshes, old_max_draw_count, new, new_max_draw_count, r),
        r matches Ok(Some(_)),
    ensures
        r matches Ok(Some(commands)) && forall|k: int|
            0 <= k < new.forward_pass.objects@.len() ==> {
                let o = #[trigger] new.forward_pass.objects@[k];
                let ro = new.render_objects@[o.original_render_object.id as int];
                &&& ro.draw_command_index == o.draw_command_id
                &&& ro.draw_command_index < commands@.len()
                &&& new.forward_pass.indirect_batches@[ro.draw_command_index as int].mesh_h.id
                    == ro.mesh.id
            },
{
    let objects = new.forward_pass.objects@;
    assert forall|k: int| 0 <= k < objects.len() implies (#[trigger] objects[k]).original_render_object.id
        < old.render_objects@.len() by {
        assert(new.pass_source(k) == objects[k].original_render_object);
        assert(new.render_objects.contains(new.pass_source(k)));
    }
    assert forall|k1: int, k2: int|
        0 <= k1 < k2 < objects.len() implies (#[trigger] objects[k1]).original_render_object.id != (
        #[trigger] objects[k2]).original_render_object.id by {
        assert(new.pass_source(k1) == objects[k1].original_render_object);
        assert(new.pass_source(k2) == objects[k2].original_render_object);
    }
    lemma_draw_commands_assigned(old.render_objects@, objects, objects.len() as int);
    crate::mesh_pass::lemma_draw_commands_valid(new.forward_pass);
}

/// Rebuilds the forward pass's batches if render objects are waiting, and
/// returns the draw commands that the clear draw commands buffer must receive.
/// `Ok(None)` when nothing was waiting: the buffer stays as it is.
pub fn build_batches(
    render_objs: &mut RenderObjects,
    meshes: &Meshes,
    max_draw_count: &mut MaxDrawCount,
) -> (r: Result<Option<Vec<DrawIndexedIndirect>>, BuildBatchesError>)
    requires
        old(render_objs).wf(),
        forall|i: int|
            0 <= i < old(render_objs).render_objects@.len() ==> (#[trigger] old(
                render_objs,
            ).render_objects@[i]).mesh.id < meshes.0@.len(),
    ensures
        final(render_objs).wf(),
        RenderObjects::batches_built(
            *old(render_objs),
            meshes.0@,
            old(max_draw_count).0,
            *final(render_objs),
            final(max_draw_count).0,
            r,
        ),
{
    let ghost o = *render_objs;
    proof {
        assert forall|u: int|
            0 <= u < o.forward_pass.unbatched_objects@.len() implies o.render_objects.contains(
            #[trigger] o.forward_pass.unbatched_objects@[u],
        ) by {
            assert(o.pass_source(o.forward_pass.objects@.len() + u) == o.forward_pass.unbatched_objects@[u]);
        }
    }
    let rebuilt = render_objs.forward_pass.update_batches(&render_objs.render_objects);
    if !rebuilt {
        return Ok(None);
    }
    let ghost p = render_objs.forward_pass;
    let ghost n0 = o.forward_pass.objects@.len();
    let ghost q = o.forward_pass.unbatched_objects@;
    proof {
        // the render objects given to the pass are the same as before
        let r = *render_objs;
        assert forall|i: int| 0 <= i < r.pass_source_count() implies (#[trigger] r.pass_source(i)).id
            == o.pass_source(i).id by {
            if i < n0 {
                assert(same_source(p.objects@[i], o.forward_pass.objects@[i]));
            } else {
                let u = i - n0;
                assert(same_source(p.objects@[n0 + u], new_pass_object(o.render_objects@[q[u].id as int], q[u])));
            }
        }
        assert forall|i: int| 0 <= i < r.pass_source_count() implies r.render_objects.contains(
            #[trigger] r.pass_source(i),
        ) by {
            assert(o.render_objects.contains(o.pass_source(i)));
        }
        assert forall|i: int, j: int|
            0 <= i < j < r.pass_source_count() implies (#[trigger] r.pass_source(i)).id
            != (#[trigger] r.pass_source(j)).id by {
            assert(o.pass_source(i).id != o.pass_source(j).id);
        }
        assert forall|k: int| 0 <= k < p.objects@.len() implies (#[trigger] p.objects@[k]).mesh_h.id
            == o.render_objects@[p.objects@[k].original_render_object.id as int].mesh.id by {
            if k < n0 {
                assert(same_source(p.objects@[k], o.forward_pass.objects@[k]));
                assert(o.pass_source(k) == o.forward_pass.objects@[k].original_render_object);
                assert(o.render_objects.contains(o.pass_source(k)));
            } else {
                let u = k - n0;
                assert(same_source(p.objects@[n0 + u], new_pass_object(o.render_objects@[q[u].id as int], q[u])));
            }
        }
        assert(r.wf());
        assert forall|k: int| 0 <= k < p.objects@.len() implies (#[trigger] p.objects@[k]).original_render_object.id
            < o.render_objects@.len() by {
            assert(r.pass_source(k) == p.objects@[k].original_render_object);
            assert(r.render_objects.contains(r.pass_source(k)));
        }
        assert forall|k1: int, k2: int|
            0 <= k1 < k2 < p.objects@.len() implies (#[trigger] p.objects@[k1]).original_render_object.id != (
            #[trigger] p.objects@[k2]).original_render_object.id by {
            assert(r.pass_source(k1) == p.objects@[k1].original_render_object);
            assert(r.pass_source(k2) == p.objects@[k2].original_render_object);
        }
    }
    let nb = render_objs.forward_pass.indirect_batches.len();
    if nb > MAX_DRAW_COMMANDS {
        return Err(BuildBatchesError::TooManyDrawCommands);
    }
    // one draw command per indirect batch, with no instances yet
    let mut commands: Vec<DrawIndexedIndirect> = Vec::new();
    let mut b: usize = 0;
    while b < nb
        invariant
            render_objs.forward_pass == p,
            render_objs.render_objects@ == o.render_objects@,
            p.wf(),
            nb == p.indirect_batches@.len(),
            b <= nb,
            commands@.len() == b,
            forall|i: int| 0 <= i < o.render_objects@.len() ==> (#[trigger] o.render_objects@[i]).mesh.id < meshes.0@.len(),
            forall|k: int| 0 <= k < p.objects@.len() ==> (#[trigger] p.objects@[k]).mesh_h.id
                == o.render_objects@[p.objects@[k].original_render_object.id as int].mesh.id,
            forall|k: int| 0 <= k < p.objects@.len() ==> (#[trigger] p.objects@[k]).original_render_object.id < o.render_objects@.len(),
            forall|c: int| 0 <= c < b ==> #[trigger] commands@[c] == clear_draw_command(meshes.0@, p.indirect_batches@[c]),
        decreases nb - b,
    {
        let batch = render_objs.forward_pass.indirect_batches[b];
        proof {
            let s = p.sorted_render_batches@;
            let i = batch.first as int;
            assert(batch_draws(p.indirect_batches@[b as int], p.objects@[s[i].pass_object_h.id as int]));
            let k = s[i].pass_object_h.id as int;
            assert(o.render_objects@[p.objects@[k].original_render_object.id as int].mesh.id < meshes.0@.len());
        }
        let mesh = meshes.0[batch.mesh_h.id as usize];
        commands.push(mesh.create_draw_command(batch.first, 0));
        b = b + 1;
    }
    // every render object learns the draw command that draws it
    let n = render_objs.forward_pass.objects.len();
    let ghost reupload0 = render_objs.render_objects_to_reupload@;
    let mut k: usize = 0;
    while k < n
        invariant
            render_objs.forward_pass == p,
            n == p.objects@.len(),
            n <= u32::MAX,
            k <= n,
            render_objs.render_objects@ == assign_draw_commands(o.render_objects@, p.objects@, k as int),
            render_objs.render_objects_to_reupload@ == reupload0 + Seq::new(
                k as nat,
                |j: int| p.objects@[j].original_render_object,
            ),
            forall|j: int| 0 <= j < n ==> (#[trigger] p.objects@[j]).original_render_object.id < o.render_objects@.len(),
            forall|k1: int, k2: int|
                0 <= k1 < k2 < n ==> (#[trigger] p.objects@[k1]).original_render_object.id != (
                #[trigger] p.objects@[k2]).original_render_object.id,
        decreases n - k,
    {
        proof {
            lemma_draw_commands_assigned(o.render_objects@, p.objects@, k as int);
        }
        let po = *render_objs.forward_pass.objects.get(Handle::new(k as u32));
        let h = po.original_render_object;
        let mut object = *render_objs.render_objects.get(h);
        object.draw_command_index = po.draw_command_id;
        render_objs.render_objects.set(h, object);
        render_objs.render_objects_to_reupload.push(h);
        k = k + 1;
        proof {
            assert(render_objs.render_objects_to_reupload@ =~= reupload0 + Seq::new(
                k as nat,
                |j: int| p.objects@[j].original_render_object,
            ));
        }
    }
    max_draw_count.0 = nb as u32;
    proof {
        lemma_draw_commands_assigned(o.render_objects@, p.objects@, n as int);
        let r = *render_objs;
        assert forall|i: int| 0 <= i < r.pass_source_count() implies #[trigger] r.pass_source(i) == p.objects@[i].original_render_object by {
        }
        assert forall|k: int| 0 <= k < p.objects@.len() implies (#[trigger] p.objects@[k]).mesh_h.id
            == r.render_objects@[p.objects@[k].original_render_object.id as int].mesh.id by {
        }
        assert forall|i: int| 0 <= i < r.render_objects_to_reupload@.len() implies r.render_objects.contains(
            #[trigger] r.render_objects_to_reupload@[i],
        ) by {
            if i < reupload0.len() {
                assert(o.render_objects.contains(o.render_objects_to_reupload@[i]));
            } else {
                assert(r.render_objects_to_reupload@[i] == p.objects@[i - reupload0.len()].original_render_object);
            }
        }
        assert forall|i: int| 0 <= i < r.pass_source_count() implies r.render_objects.contains(
            #[trigger] r.pass_source(i),
        ) by {
        }
    }
    Ok(Some(commands))
}

} // verus!

verus! {

/// Compute-pass state of one draw command slot: whether the slot has claimed
/// an output draw command, and which. It does not reset itself: the caller
/// copies the cleared state over it at the start of every frame.
#[derive(Clone, Copy, Debug, PartialEq, Eq, Structural)]
pub struct DrawOutputInfo {
    /// Non-zero once the slot has an output draw command.
    pub has_output_slot: u32,
    /// The claimed output draw command; `u32::MAX` while unset.
    pub output_slot: u32,
}

impl Default for DrawOutputInfo {
    fn default() -> (d: DrawOutputInfo)
        ensures
            d.has_output_slot == 0,
            d.output_slot == u32::MAX,
    {
        DrawOutputInfo { has_output_slot: 0, output_slot: u32::MAX }
    }
}

impl DrawOutputInfo {
    /// The cleared state of `count` slots, the contents of the buffer that
    /// resets the compute pass's state each frame.
    pub fn cleared_slots(count: usize) -> (slots: Vec<DrawOutputInfo>)
        ensures
            slots@.len() == count,
            forall|i: int| 0 <= i < count ==> #[trigger] slots@[i] == (DrawOutputInfo {
                has_output_slot: 0,
                output_slot: u32::MAX,
            }),
    {
        let mut slots: Vec<DrawOutputInfo> = Vec::with_capacity(count);
        let mut i: usize = 0;
        while i < count
            invariant
                i <= count,
                slots@.len() == i,
                forall|j: int| 0 <= j < i ==> #[trigger] slots@[j] == (DrawOutputInfo {
                    has_output_slot: 0,
                    output_slot: u32::MAX,
                }),
            decreases count - i,
        {
            slots.push(DrawOutputInfo::default());
            i = i + 1;
        }
        slots
    }
}

impl Default for RenderObjects {
    fn default() -> (r: RenderObjects)
        ensures
            r.wf(),
            r.render_objects@.len() == 0,
            r.render_objects_to_reupload@.len() == 0,
            r.forward_pass.objects@.len() == 0,
            r.forward_pass.unbatched_objects@.len() == 0,
            r.forward_pass.indirect_batches@.len() == 0,
    {
        RenderObjects::new()
    }
}

} // verus!
