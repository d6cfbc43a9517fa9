//! A mesh pass: groups the render objects drawn in one pass into instanced
//! indirect draws, one per (mesh, material) pair.
use crate::handle::{Handle, HandleMap};
use crate::mesh::Mesh;
use crate::render_object::RenderObject;
use vstd::prelude::*;

verus! {

/// Material placeholder: materials are not implemented, every object uses material 0.
pub type Material = usize;

/// The material an object is drawn with in a pass.
#[derive(Clone, Copy)]
pub struct PassMaterial {
    pub material_h: Handle<Material>,
}

impl Default for PassMaterial {
    fn default() -> (m: PassMaterial)
        ensures
            m.material_h.id == 0,
    {
        PassMaterial { material_h: Handle::new(0) }
    }
}

/// Individual, non-instanced draw of one object of the pass.
#[derive(Clone, Copy)]
pub struct RenderBatch {
    pub pass_object_h: Handle<PassObject>,
    /// Sort key of the object's mesh and material, see `sort_key_of`.
    pub sort_key: u64,
}

/// A run of render batches with the same mesh and material: one instanced draw command.
#[derive(Clone, Copy)]
pub struct IndirectBatch {
    pub mesh_h: Handle<Mesh>,
    pub pass_material: PassMaterial,
    /// Position of the run's first entry in the sorted render batches.
    pub first: u32,
    /// Number of entries in the run.
    pub count: u32,
}

/// The pass's view of a render object.
#[derive(Clone, Copy)]
pub struct PassObject {
    pub pass_material: PassMaterial,
    pub mesh_h: Handle<Mesh>,
    /// The render object this pass object was created from.
    pub original_render_object: Handle<RenderObject>,
    /// Index of the draw command (indirect batch) that draws this object.
    pub draw_command_id: u32,
}

/// Objects of one rendering pass, batched into indirect draws.
pub struct MeshPass {
    /// One entry per run of equal mesh and material in `sorted_render_batches`.
    pub indirect_batches: Vec<IndirectBatch>,
    /// One entry per pass object, sorted by sort key.
    pub sorted_render_batches: Vec<RenderBatch>,
    /// The objects of this pass.
    pub objects: HandleMap<PassObject>,
    /// Render objects waiting to be added to the pass.
    pub unbatched_objects: Vec<Handle<RenderObject>>,
}

/// The sort key of a mesh and material: mesh id in the low 32 bits, material id in the high 32.
pub open spec fn sort_key_of(mesh_id: u32, material_id: u32) -> u64 {
    (mesh_id as u64) | ((material_id as u64) << 32u64)
}

/// The sort key of a pass object.
pub open spec fn object_sort_key(o: PassObject) -> u64 {
    sort_key_of(o.mesh_h.id, o.pass_material.material_h.id)
}

/// Order of render batches: by sort key, then by pass object.
pub open spec fn batch_before(a: RenderBatch, b: RenderBatch) -> bool {
    a.sort_key < b.sort_key || (a.sort_key == b.sort_key && a.pass_object_h.id < b.pass_object_h.id)
}

/// Whether `ib` draws objects with the mesh and material of `o`.
pub open spec fn batch_draws(ib: IndirectBatch, o: PassObject) -> bool {
    ib.mesh_h.id == o.mesh_h.id && ib.pass_material.material_h.id == o.pass_material.material_h.id
}

/// Whether two indirect batches have the same mesh and material.
pub open spec fn same_group(a: IndirectBatch, b: IndirectBatch) -> bool {
    a.mesh_h.id == b.mesh_h.id && a.pass_material.material_h.id == b.pass_material.material_h.id
}

/// Whether two pass objects are equal but for their draw command.
pub open spec fn same_source(a: PassObject, b: PassObject) -> bool {
    &&& a.mesh_h.id == b.mesh_h.id
    &&& a.pass_material.material_h.id == b.pass_material.material_h.id
    &&& a.original_render_object.id == b.original_render_object.id
}

/// The pass object made for render object `h`, whose data is `ro`.
pub open spec fn new_pass_object(ro: RenderObject, h: Handle<RenderObject>) -> PassObject {
    PassObject {
        pass_material: PassMaterial { material_h: Handle { id: 0, marker: std::marker::PhantomData } },
        mesh_h: ro.mesh,
        original_render_object: h,
        draw_command_id: 0,
    }
}

/// `s` is sorted by `batch_before`.
pub open spec fn sorted_batches(s: Seq<RenderBatch>) -> bool {
    forall|i: int, j: int| 0 <= i < j < s.len() ==> batch_before(#[trigger] s[i], #[trigger] s[j])
}

/// `s` holds one render batch for each of `objects`, with that object's sort key.
pub open spec fn batches_index_objects(s: Seq<RenderBatch>, objects: Seq<PassObject>) -> bool {
    &&& s.len() == objects.len()
    &&& forall|i: int|
        0 <= i < s.len() ==> {
            &&& (#[trigger] s[i]).pass_object_h.id < objects.len()
            &&& s[i].sort_key == object_sort_key(objects[s[i].pass_object_h.id as int])
        }
    &&& forall|k: int| 0 <= k < objects.len() ==> #[trigger] has_batch_for(s, k)
}

/// Some entry of `s` refers to pass object `k`.
pub open spec fn has_batch_for(s: Seq<RenderBatch>, k: int) -> bool {
    exists|i: int| 0 <= i < s.len() && (#[trigger] s[i]).pass_object_h.id == k
}

/// `batches` are the runs of equal mesh and material among the first `n`
/// entries of `s`, in order, and each of those entries' pass object refers to
/// the run that holds it.
pub open spec fn runs_of(
    batches: Seq<IndirectBatch>,
    s: Seq<RenderBatch>,
    objects: Seq<PassObject>,
    n: int,
) -> bool {
    &&& (batches.len() == 0 <==> n == 0)
    &&& forall|b: int|
        0 <= b < batches.len() ==> (#[trigger] batches[b]).count >= 1 && batches[b].first
            + batches[b].count <= n
    &&& batches.len() > 0 ==> batches[0].first == 0 && batches.last().first
        + batches.last().count == n
    &&& forall|b: int|
        0 <= b < batches.len() - 1 ==> (#[trigger] batches[b + 1]).first == batches[b].first
            + batches[b].count
    &&& forall|b1: int, b2: int|
        0 <= b1 < b2 < batches.len() ==> (#[trigger] batches[b1]).first + batches[b1].count
            <= (#[trigger] batches[b2]).first
    &&& forall|b: int| 0 <= b < batches.len() - 1 ==> !same_group(#[trigger] batches[b], batches[b + 1])
    &&& forall|b: int, i: int|
        #![trigger batches[b], s[i]]
        0 <= b < batches.len() && batches[b].first <= i < batches[b].first + batches[b].count
            ==> batch_draws(batches[b], objects[s[i].pass_object_h.id as int])
    &&& forall|i: int|
        0 <= i < n ==> {
            let b = objects[(#[trigger] s[i]).pass_object_h.id as int].draw_command_id as int;
            &&& 0 <= b < batches.len()
            &&& batches[b].first <= i < batches[b].first + batches[b].count
        }
}

impl MeshPass {
    /// The pass's invariant: the render batches are the pass objects in sorted
    /// order, and the indirect batches are their runs.
    pub open spec fn wf(&self) -> bool {
        &&& self.objects@.len() <= u32::MAX
        &&& sorted_batches(self.sorted_render_batches@)
        &&& batches_index_objects(self.sorted_render_batches@, self.objects@)
        &&& runs_of(
            self.indirect_batches@,
            self.sorted_render_batches@,
            self.objects@,
            self.sorted_render_batches@.len() as int,
        )
    }

    /// What `update_batches` does: `rebuilt` tells whether objects were
    /// waiting; if none were, nothing changes; otherwise each waiting render
    /// object gets a pass object, in queue order, and the batches are rebuilt.
    pub open spec fn batches_updated(
        old: MeshPass,
        render_objects: Seq<RenderObject>,
        new: MeshPass,
        rebuilt: bool,
    ) -> bool {
        let n = old.objects@.len();
        let q = old.unbatched_objects@;
        &&& rebuilt == (q.len() > 0)
        &&& !rebuilt ==> new == old
        &&& rebuilt ==> {
            &&& new.wf()
            &&& new.unbatched_objects@.len() == 0
            &&& new.objects@.len() == n + q.len()
            &&& forall|k: int| 0 <= k < n ==> same_source(#[trigger] new.objects@[k], old.objects@[k])
            &&& forall|u: int|
                0 <= u < q.len() ==> same_source(
                    #[trigger] new.objects@[n + u],
                    new_pass_object(render_objects[q[u].id as int], q[u]),
                )
        }
    }

    /// Inserts `rb` where it keeps `batches` sorted. Its pass object is newer
    /// than all others, so among equal sort keys it goes last.
    fn insert_sorted(batches: &mut Vec<RenderBatch>, rb: RenderBatch) -> (p: usize)
        requires
            sorted_batches(old(batches)@),
            forall|i: int| 0 <= i < old(batches)@.len() ==> (#[trigger] old(batches)@[i]).pass_object_h.id < rb.pass_object_h.id,
        ensures
            p <= old(batches)@.len(),
            final(batches)@ == old(batches)@.insert(p as int, rb),
            sorted_batches(final(batches)@),
    {
        let mut p: usize = 0;
        while p < batches.len() && batches[p].sort_key <= rb.sort_key
            invariant
                p <= batches@.len(),
                forall|i: int| 0 <= i < p ==> (#[trigger] batches@[i]).sort_key <= rb.sort_key,
            decreases batches@.len() - p,
        {
            p = p + 1;
        }
        let ghost s = batches@;
        assert forall|q: int| p <= q < s.len() implies (#[trigger] s[q]).sort_key > rb.sort_key by {
            if q > p {
                assert(batch_before(s[p as int], s[q]));
            }
        }
        batches.insert(p, rb);
        let ghost t = batches@;
        assert forall|i: int, j: int| 0 <= i < j < t.len() implies batch_before(#[trigger] t[i], #[trigger] t[j]) by {
            if j < p {
                assert(t[i] == s[i] && t[j] == s[j]);
            } else if j == p {
                assert(t[i] == s[i]);
            } else if i < p {
                assert(t[i] == s[i] && t[j] == s[j - 1]);
            } else if i == p {
                assert(t[j] == s[j - 1]);
            } else {
                assert(t[i] == s[i - 1] && t[j] == s[j - 1]);
            }
        }
        p
    }

    /// Makes a pass object for each waiting render object, in queue order, and
    /// puts its render batch in sorted position.
    fn add_unbatched_objects(&mut self, render_objects: &HandleMap<RenderObject>)
        requires
            sorted_batches(old(self).sorted_render_batches@),
            batches_index_objects(old(self).sorted_render_batches@, old(self).objects@),
            old(self).objects@.len() + old(self).unbatched_objects@.len() <= u32::MAX,
            forall|u: int|
                0 <= u < old(self).unbatched_objects@.len() ==> render_objects.contains(
                    #[trigger] old(self).unbatched_objects@[u],
                ),
        ensures
            sorted_batches(final(self).sorted_render_batches@),
            batches_index_objects(final(self).sorted_render_batches@, final(self).objects@),
            final(self).objects@.len() == old(self).objects@.len()
                + old(self).unbatched_objects@.len(),
            forall|k: int|
                0 <= k < old(self).objects@.len() ==> #[trigger] final(self).objects@[k]
                    == old(self).objects@[k],
            forall|u: int|
                0 <= u < old(self).unbatched_objects@.len() ==> #[trigger] final(self).objects@[old(
                    self,
                ).objects@.len() + u] == new_pass_object(
                    render_objects@[old(self).unbatched_objects@[u].id as int],
                    old(self).unbatched_objects@[u],
                ),
            final(self).unbatched_objects@.len() == 0,
            final(self).indirect_batches@ == old(self).indirect_batches@,
    {
        let ghost objs0 = self.objects@;
        let ghost q = self.unbatched_objects@;
        let n0 = self.objects.len();
        let mut t: usize = 0;
        while t < self.unbatched_objects.len()
            invariant
                q == self.unbatched_objects@,
                n0 == objs0.len(),
                n0 + q.len() <= u32::MAX,
                forall|u: int| 0 <= u < q.len() ==> render_objects.contains(#[trigger] q[u]),
                t <= q.len(),
                self.objects@.len() == n0 + t,
                forall|k: int| 0 <= k < n0 ==> #[trigger] self.objects@[k] == objs0[k],
                forall|u: int|
                    0 <= u < t ==> #[trigger] self.objects@[n0 + u] == new_pass_object(
                        render_objects@[q[u].id as int],
                        q[u],
                    ),
                sorted_batches(self.sorted_render_batches@),
                batches_index_objects(self.sorted_render_batches@, self.objects@),
                self.indirect_batches@ == old(self).indirect_batches@,
            decreases q.len() - t,
        {
            let h = self.unbatched_objects[t];
            let ro = render_objects.get(h);
            let po = PassObject {
                pass_material: PassMaterial::default(),
                mesh_h: ro.mesh,
                original_render_object: h,
                draw_command_id: 0,
            };
            let ghost objs1 = self.objects@;
            let ghost s1 = self.sorted_render_batches@;
            let poh = self.objects.push(po);
            let sort_key = (po.mesh_h.id as u64) | ((po.pass_material.material_h.id as u64) << 32u64);
            let rb = RenderBatch { pass_object_h: poh, sort_key };
            assert forall|i: int| 0 <= i < s1.len() implies (#[trigger] s1[i]).pass_object_h.id < rb.pass_object_h.id by {
            }
            let p = Self::insert_sorted(&mut self.sorted_render_batches, rb);
            proof {
                let s2 = self.sorted_render_batches@;
                let objs2 = self.objects@;
                assert(po == new_pass_object(render_objects@[q[t as int].id as int], q[t as int]));
                assert forall|i: int| 0 <= i < s2.len() implies {
                    &&& (#[trigger] s2[i]).pass_object_h.id < objs2.len()
                    &&& s2[i].sort_key == object_sort_key(objs2[s2[i].pass_object_h.id as int])
                } by {
                    if i < p {
                        assert(s2[i] == s1[i]);
                    } else if i > p {
                        assert(s2[i] == s1[i - 1]);
                    }
                }
                assert forall|k: int| 0 <= k < objs2.len() implies #[trigger] has_batch_for(s2, k) by {
                    if k == objs1.len() {
                        assert(s2[p as int].pass_object_h.id == k);
                    } else {
                        assert(has_batch_for(s1, k));
                        let i = choose|i: int| 0 <= i < s1.len() && (#[trigger] s1[i]).pass_object_h.id == k;
                        if i < p {
                            assert(s2[i] == s1[i]);
                        } else {
                            assert(s2[i + 1] == s1[i]);
                        }
                    }
                }
            }
            t = t + 1;
        }
        self.unbatched_objects.clear();
    }

    /// Folds the sorted render batches into runs of equal mesh and material,
    /// one indirect batch per run, and records each pass object's run.
    #[verifier::spinoff_prover]
    #[verifier::rlimit(40)]
    fn rebuild_indirect_batches(&mut self)
        requires
            old(self).objects@.len() <= u32::MAX,
            sorted_batches(old(self).sorted_render_batches@),
            batches_index_objects(old(self).sorted_render_batches@, old(self).objects@),
        ensures
            final(self).wf(),
            final(self).sorted_render_batches@ == old(self).sorted_render_batches@,
            final(self).unbatched_objects@ == old(self).unbatched_objects@,
            final(self).objects@.len() == old(self).objects@.len(),
            forall|k: int|
                0 <= k < old(self).objects@.len() ==> same_source(
                    #[trigger] final(self).objects@[k],
                    old(self).objects@[k],
                ),
    {
        let ghost objs0 = self.objects@;
        let ghost s = self.sorted_render_batches@;
        let mut batches: Vec<IndirectBatch> = Vec::new();
        let mut i: usize = 0;
        while i < self.sorted_render_batches.len()
            invariant
                s == self.sorted_render_batches@,
                self.unbatched_objects@ == old(self).unbatched_objects@,
                objs0.len() <= u32::MAX,
                sorted_batches(s),
                batches_index_objects(s, objs0),
                self.objects@.len() == objs0.len(),
                forall|k: int|
                    0 <= k < objs0.len() ==> same_source(#[trigger] self.objects@[k], objs0[k]),
                i <= s.len(),
                batches@.len() <= i,
                runs_of(batches@, s, self.objects@, i as int),
            decreases s.len() - i,
        {
            let rb = self.sorted_render_batches[i];
            let po = *self.objects.get(rb.pass_object_h);
            let ghost b0 = batches@;
            let ghost objs1 = self.objects@;
            let nb = batches.len();
            if nb > 0 && batches[nb - 1].mesh_h.id == po.mesh_h.id
                && batches[nb - 1].pass_material.material_h.id == po.pass_material.material_h.id {
                let mut last = batches[nb - 1];
                last.count = last.count + 1;
                batches.set(nb - 1, last);
            } else {
                batches.push(
                    IndirectBatch {
                        mesh_h: po.mesh_h,
                        pass_material: po.pass_material,
                        first: i as u32,
                        count: 1,
                    },
                );
            }
            let mut updated = po;
            updated.draw_command_id = (batches.len() - 1) as u32;
            self.objects.set(rb.pass_object_h, updated);
            proof {
                let b1 = batches@;
                let objs2 = self.objects@;
                let id = rb.pass_object_h.id as int;
                assert forall|j: int| 0 <= j < i implies (#[trigger] s[j]).pass_object_h.id != id by {
                    assert(batch_before(s[j], s[i as int]));
                }
                assert forall|j: int| 0 <= j <= i implies #[trigger] objs2[s[j].pass_object_h.id as int]
                    == (if j == i { updated } else { objs1[s[j].pass_object_h.id as int] }) by {
                }
                assert forall|b: int, j: int|
                    #![trigger b1[b], s[j]]
                    0 <= b < b1.len() && b1[b].first <= j < b1[b].first + b1[b].count implies batch_draws(
                        b1[b],
                        objs2[s[j].pass_object_h.id as int],
                    ) by {
                    if j < i && b < b0.len() {
                        assert(b1[b] == b0[b] || (b == nb - 1 && same_group(b1[b], b0[b])));
                        assert(b0[b].first <= j < b0[b].first + b0[b].count);
                    }
                }
                assert forall|j: int| 0 <= j < i + 1 implies {
                    let b = objs2[(#[trigger] s[j]).pass_object_h.id as int].draw_command_id as int;
                    &&& 0 <= b < b1.len()
                    &&& b1[b].first <= j < b1[b].first + b1[b].count
                } by {
                    if j < i {
                        let b = objs1[s[j].pass_object_h.id as int].draw_command_id as int;
                        assert(0 <= b < b0.len());
                    }
                }
                assert forall|b1i: int, b2i: int|
                    0 <= b1i < b2i < b1.len() implies (#[trigger] b1[b1i]).first + b1[b1i].count
                        <= (#[trigger] b1[b2i]).first by {
                    if b2i == b1.len() - 1 && b1.len() > b0.len() && b1i < b0.len() - 1 {
                        assert(b0[b1i].first + b0[b1i].count <= b0[b0.len() - 1].first);
                    }
                }
            }
            i = i + 1;
        }
        self.indirect_batches = batches;
        proof {
            assert forall|i: int| 0 <= i < s.len() implies {
                &&& (#[trigger] s[i]).pass_object_h.id < self.objects@.len()
                &&& s[i].sort_key == object_sort_key(self.objects@[s[i].pass_object_h.id as int])
            } by {
                assert(same_source(self.objects@[s[i].pass_object_h.id as int], objs0[s[i].pass_object_h.id as int]));
            }
        }
    }

    /// Adds the render objects waiting in `unbatched_objects` to the pass and
    /// rebuilds the batches: the render batches are sorted by sort key (among
    /// equal keys, in the order the objects were added, as a stable sort of the
    /// whole array leaves them), and each run of equal mesh and material
    /// becomes one indirect batch. Returns false, and changes nothing, when no
    /// object is waiting; the draw commands then need no upload.
    pub fn update_batches(&mut self, render_objects: &HandleMap<RenderObject>) -> (rebuilt: bool)
        requires
            old(self).wf(),
            old(self).objects@.len() + old(self).unbatched_objects@.len() <= u32::MAX,
            forall|u: int|
                0 <= u < old(self).unbatched_objects@.len() ==> render_objects.contains(
                    #[trigger] old(self).unbatched_objects@[u],
                ),
        ensures
            MeshPass::batches_updated(*old(self), render_objects@, *final(self), rebuilt),
    {
        if self.unbatched_objects.is_empty() {
            return false;
        }
        self.add_unbatched_objects(render_objects);
        self.rebuild_indirect_batches();
        true
    }

    /// An empty pass.
    pub fn new() -> (pass: MeshPass)
        ensures
            pass.wf(),
            pass.indirect_batches@.len() == 0,
            pass.sorted_render_batches@.len() == 0,
            pass.objects@.len() == 0,
            pass.unbatched_objects@.len() == 0,
    {
        MeshPass {
            indirect_batches: Vec::new(),
            sorted_render_batches: Vec::new(),
            objects: HandleMap::new(),
            unbatched_objects: Vec::new(),
        }
    }
}

} // verus!

verus! {

/// The sort key of the objects an indirect batch draws.
pub open spec fn batch_sort_key(ib: IndirectBatch) -> u64 {
    sort_key_of(ib.mesh_h.id, ib.pass_material.material_h.id)
}

/// Distinct mesh and material pairs have distinct sort keys.
pub proof fn lemma_sort_key_injective(m1: u32, t1: u32, m2: u32, t2: u32)
    ensures
        sort_key_of(m1, t1) == sort_key_of(m2, t2) ==> m1 == m2 && t1 == t2,
{
    let a = m1 as u64;
    let b = t1 as u64;
    let c = m2 as u64;
    let d = t2 as u64;
    assert((a | (b << 32u64)) == (c | (d << 32u64)) && a <= 0xffff_ffffu64 && b <= 0xffff_ffffu64
        && c <= 0xffff_ffffu64 && d <= 0xffff_ffffu64 ==> a == c && b == d) by (bit_vector);
}

/// After a rebuild, the pass has one render batch per pass object and every
/// pass object's draw command is an index into the indirect batches.
pub proof fn lemma_rebuild_complete(
    old: MeshPass,
    render_objects: Seq<RenderObject>,
    new: MeshPass,
)
    requires
        MeshPass::batches_updated(old, render_objects, new, true),
    ensures
        new.sorted_render_batches@.len() == new.objects@.len(),
        forall|k: int|
            0 <= k < new.objects@.len() ==> (#[trigger] new.objects@[k]).draw_command_id
                < new.indirect_batches@.len(),
{
    lemma_draw_commands_valid(new);
}

/// In a well-formed pass every pass object's draw command is an index into
/// the indirect batches, and that batch draws the object's mesh and material.
pub proof fn lemma_draw_commands_valid(pass: MeshPass)
    requires
        pass.wf(),
    ensures
        forall|k: int|
            0 <= k < pass.objects@.len() ==> {
                let b = (#[trigger] pass.objects@[k]).draw_command_id as int;
                &&& b < pass.indirect_batches@.len()
                &&& batch_draws(pass.indirect_batches@[b], pass.objects@[k])
            },
{
    let s = pass.sorted_render_batches@;
    assert forall|k: int| 0 <= k < pass.objects@.len() implies {
        let b = (#[trigger] pass.objects@[k]).draw_command_id as int;
        &&& b < pass.indirect_batches@.len()
        &&& batch_draws(pass.indirect_batches@[b], pass.objects@[k])
    } by {
        assert(has_batch_for(s, k));
        let i = choose|i: int| 0 <= i < s.len() && (#[trigger] s[i]).pass_object_h.id == k;
        let b = pass.objects@[k].draw_command_id as int;
        assert(pass.objects@[s[i].pass_object_h.id as int] == pass.objects@[k]);
        assert(pass.indirect_batches@[b].first <= i < pass.indirect_batches@[b].first
            + pass.indirect_batches@[b].count);
    }
}

/// Rebuilding is idempotent: right after `update_batches`, a second call
/// finds no waiting object, returns false and leaves the indirect batches as
/// they were.
pub proof fn lemma_update_twice(
    p0: MeshPass,
    ros0: Seq<RenderObject>,
    p1: MeshPass,
    r1: bool,
    ros1: Seq<RenderObject>,
    p2: MeshPass,
    r2: bool,
)
    requires
        MeshPass::batches_updated(p0, ros0, p1, r1),
        MeshPass::batches_updated(p1, ros1, p2, r2),
    ensures
        !r2,
        p2.indirect_batches@ == p1.indirect_batches@,
{
}

/// The indirect batches of a well-formed pass ascend strictly by sort key, so
/// no two of them draw the same mesh and material; and two pass objects share a
/// draw command exactly when they have the same mesh and material.
pub proof fn lemma_batches_group_objects(pass: MeshPass)
    requires
        pass.wf(),
    ensures
        forall|b1: int, b2: int|
            0 <= b1 < b2 < pass.indirect_batches@.len() ==> batch_sort_key(
                #[trigger] pass.indirect_batches@[b1],
            ) < batch_sort_key(#[trigger] pass.indirect_batches@[b2]),
        forall|k1: int, k2: int|
            0 <= k1 < pass.objects@.len() && 0 <= k2 < pass.objects@.len() ==> ((
            #[trigger] pass.objects@[k1]).draw_command_id == (#[trigger] pass.objects@[k2]).draw_command_id
                <==> (pass.objects@[k1].mesh_h.id == pass.objects@[k2].mesh_h.id
                && pass.objects@[k1].pass_material.material_h.id
                == pass.objects@[k2].pass_material.material_h.id)),
{
    let s = pass.sorted_render_batches@;
    let bs = pass.indirect_batches@;
    let objs = pass.objects@;
    // every entry of a run has its batch's sort key
    assert forall|b: int, i: int|
        #![trigger bs[b], s[i]]
        0 <= b < bs.len() && bs[b].first <= i < bs[b].first + bs[b].count implies s[i].sort_key
        == batch_sort_key(bs[b]) by {
        assert(batch_draws(bs[b], objs[s[i].pass_object_h.id as int]));
    }
    // sort keys along the runs never decrease
    assert forall|b1: int, b2: int|
        0 <= b1 <= b2 < bs.len() implies batch_sort_key(#[trigger] bs[b1]) <= batch_sort_key(
        #[trigger] bs[b2]) by {
        if b1 < b2 {
            let i = bs[b1].first as int;
            let j = bs[b2].first as int;
            assert(bs[b1].first + bs[b1].count <= bs[b2].first);
            assert(s[i].sort_key == batch_sort_key(bs[b1]));
            assert(s[j].sort_key == batch_sort_key(bs[b2]));
            assert(batch_before(s[i], s[j]));
        }
    }
    assert forall|b1: int, b2: int|
        0 <= b1 < b2 < bs.len() implies batch_sort_key(#[trigger] bs[b1]) < batch_sort_key(
        #[trigger] bs[b2]) by {
        let b = b2 - 1;
        assert(batch_sort_key(bs[b1]) <= batch_sort_key(bs[b]));
        assert(batch_sort_key(bs[b]) <= batch_sort_key(bs[b2]));
        assert(!same_group(bs[b], bs[b + 1]));
        lemma_sort_key_injective(
            bs[b].mesh_h.id,
            bs[b].pass_material.material_h.id,
            bs[b2].mesh_h.id,
            bs[b2].pass_material.material_h.id,
        );
    }
    lemma_draw_commands_valid(pass);
    assert forall|k1: int, k2: int|
        0 <= k1 < objs.len() && 0 <= k2 < objs.len() implies ((#[trigger] objs[k1]).draw_command_id
        == (#[trigger] objs[k2]).draw_command_id <==> (objs[k1].mesh_h.id == objs[k2].mesh_h.id
        && objs[k1].pass_material.material_h.id == objs[k2].pass_material.material_h.id)) by {
        let b1 = objs[k1].draw_command_id as int;
        let b2 = objs[k2].draw_command_id as int;
        assert(batch_draws(bs[b1], objs[k1]));
        assert(batch_draws(bs[b2], objs[k2]));
        if b1 < b2 {
            assert(batch_sort_key(bs[b1]) < batch_sort_key(bs[b2]));
        } else if b2 < b1 {
            assert(batch_sort_key(bs[b2]) < batch_sort_key(bs[b1]));
        }
    }
}

} // verus!
