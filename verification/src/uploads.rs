//! The meshes that wait for the GPU, and how many of them go there in a frame.
use crate::game_3d_pipeline;
use crate::game_3d_pipeline::ChunkKey;
use crate::game_3d_pipeline::ChunkMesh;
use crate::game_3d_pipeline::Eviction;
use crate::game_3d_pipeline::Game3DPipeline;
use crate::game_3d_pipeline::PipelineModel;
use std::collections::VecDeque;
use vstd::prelude::*;

verus! {

/// Most meshes that go to the GPU in one frame.
pub const MAX_GPU_UPLOADS_PER_FRAME: usize = 32;

/// What a mesh shows.
#[derive(Debug, Clone, Copy, PartialEq, Eq, Structural)]
pub enum MeshKind {
    Opaque,
    Water,
    Glass,
}

/// A mesh in the form in which it goes to the GPU.
#[derive(Debug)]
pub struct PackedMesh {
    pub key: (i32, i32, i32),
    pub vertex_data: Vec<u8>,
    pub index_data: Vec<u8>,
    pub index_count: u32,
    pub aabb_min: [u32; 3],
    pub aabb_max: [u32; 3],
    pub kind: MeshKind,
}

impl PackedMesh {
    /// The memory of the mesh.
    pub open spec fn bytes(self) -> int {
        self.vertex_data@.len() as int + self.index_data@.len() as int
    }

    /// What the books say of the mesh.
    pub open spec fn mesh(self) -> ChunkMesh {
        ChunkMesh {
            index_count: self.index_count,
            vram_bytes: self.bytes() as u64,
            aabb_min: self.aabb_min,
            aabb_max: self.aabb_max,
        }
    }
}

/// A mesh that goes to the GPU, and the chunks whose meshes leave for it.
#[derive(Debug)]
pub struct UploadStep {
    pub mesh: PackedMesh,
    pub evicted: Vec<(i32, i32, i32)>,
}

/// What went to the GPU in a frame.
#[derive(Debug)]
pub struct UploadReport {
    pub steps: Vec<UploadStep>,
    pub bytes: u64,
}

/// The memory of some meshes.
pub open spec fn packed_bytes(s: Seq<PackedMesh>) -> int
    decreases s.len(),
{
    if s.len() == 0 {
        0
    } else {
        packed_bytes(s.drop_last()) + s.last().bytes()
    }
}

impl PipelineModel {
    /// The books after a mesh went to the GPU.
    pub open spec fn packed(self, p: PackedMesh) -> PipelineModel {
        match p.kind {
            MeshKind::Opaque => self.inserted(p.key, p.mesh()),
            MeshKind::Water => PipelineModel {
                water: self.water.insert(p.key, p.mesh()),
                usage: (if self.water.dom().contains(p.key) {
                    game_3d_pipeline::less_bytes(
                        self.usage,
                        self.water[p.key].vram_bytes as int,
                    )
                } else {
                    self.usage
                }) + p.mesh().vram_bytes,
                ..self
            },
            MeshKind::Glass => PipelineModel {
                transparent: self.transparent.insert(p.key, p.mesh()),
                usage: (if self.transparent.dom().contains(p.key) {
                    game_3d_pipeline::less_bytes(
                        self.usage,
                        self.transparent[p.key].vram_bytes as int,
                    )
                } else {
                    self.usage
                }) + p.mesh().vram_bytes,
                ..self
            },
        }
    }

    /// The chunks whose meshes leave for a mesh.
    pub open spec fn evicted_for(self, p: PackedMesh) -> Seq<ChunkKey> {
        if p.kind == MeshKind::Opaque {
            self.with_chunk(p.key, p.mesh()).eviction(p.key).evicted
        } else {
            Seq::empty()
        }
    }

    /// The books after some meshes went to the GPU.
    pub open spec fn packed_all(self, s: Seq<PackedMesh>) -> PipelineModel
        decreases s.len(),
    {
        if s.len() == 0 {
            self
        } else {
            self.packed_all(s.drop_last()).packed(s.last())
        }
    }
}

proof fn lemma_evict_usage(e: Eviction, key: ChunkKey, center: ChunkKey)
    requires
        e.usage >= 0,
    ensures
        game_3d_pipeline::evict(e, key, center).usage <= e.usage,
    decreases e.lru.len(),
{
    let i = game_3d_pipeline::farthest(e.lru, key, center);
    if e.usage > game_3d_pipeline::CHUNK_MESH_VRAM_BUDGET && 0 <= i < e.lru.len() {
        let far = e.lru[i];
        let rest = e.lru.remove(i);
        if e.chunks.dom().contains(far) {
            lemma_evict_usage(
                Eviction {
                    usage: game_3d_pipeline::less_bytes(e.usage, e.chunks[far].vram_bytes as int),
                    chunks: e.chunks.remove(far),
                    lru: rest,
                    evicted: e.evicted.push(far),
                },
                key,
                center,
            );
        } else {
            lemma_evict_usage(Eviction { lru: rest, ..e }, key, center);
        }
    }
}

proof fn lemma_packed_usage(m: PipelineModel, p: PackedMesh)
    requires
        m.usage >= 0,
        p.bytes() <= u64::MAX,
    ensures
        m.packed(p).usage <= m.usage + p.bytes(),
{
    if p.kind == MeshKind::Opaque {
        let a = m.with_chunk(p.key, p.mesh());
        lemma_evict_usage(
            Eviction { usage: a.usage, chunks: a.chunks, lru: a.lru, evicted: Seq::empty() },
            p.key,
            a.center,
        );
    }
}

proof fn lemma_packed_bytes_prefix(s: Seq<PackedMesh>, i: int)
    requires
        0 <= i < s.len(),
    ensures
        0 <= packed_bytes(s.take(i)),
        packed_bytes(s.take(i + 1)) == packed_bytes(s.take(i)) + s[i].bytes(),
        packed_bytes(s.take(i + 1)) <= packed_bytes(s),
    decreases s.len(), i,
{
    assert(s.take(i + 1).drop_last() =~= s.take(i));
    if i + 1 == s.len() {
        assert(s.take(i + 1) =~= s);
    } else {
        lemma_packed_bytes_prefix(s.drop_last(), i);
        assert(s.drop_last().take(i + 1) =~= s.take(i + 1));
        assert(s.drop_last().take(i) =~= s.take(i));
    }
    if i > 0 {
        lemma_packed_bytes_prefix(s, i - 1);
    }
}

/// The number of meshes that go to the GPU of `n` that wait.
pub open spec fn upload_budget(n: nat) -> int {
    if n <= MAX_GPU_UPLOADS_PER_FRAME {
        n as int
    } else {
        MAX_GPU_UPLOADS_PER_FRAME as int
    }
}

/// The meshes of some steps.
pub open spec fn step_meshes(s: Seq<UploadStep>) -> Seq<PackedMesh> {
    s.map_values(|u: UploadStep| u.mesh)
}

/// The meshes that wait, the oldest first.
pub struct UploadQueue {
    queue: VecDeque<PackedMesh>,
}

impl View for UploadQueue {
    type V = Seq<PackedMesh>;

    closed spec fn view(&self) -> Seq<PackedMesh> {
        self.queue@
    }
}

fn record(pipeline: &mut Game3DPipeline, p: &PackedMesh, bytes: u64) -> (r: Vec<(i32, i32, i32)>)
    requires
        old(pipeline).wf(),
        bytes == p.bytes(),
        old(pipeline)@.usage + p.bytes() <= u64::MAX,
    ensures
        final(pipeline).wf(),
        final(pipeline).other_bytes() == old(pipeline).other_bytes(),
        final(pipeline)@ == old(pipeline)@.packed(*p),
        r@ == old(pipeline)@.evicted_for(*p),
{
    match p.kind {
        MeshKind::Water => {
            pipeline.insert_water_mesh(p.key, p.index_count, bytes, p.aabb_min, p.aabb_max);
            Vec::new()
        },
        MeshKind::Glass => {
            pipeline.insert_transparent_mesh(p.key, p.index_count, bytes, p.aabb_min, p.aabb_max);
            Vec::new()
        },
        MeshKind::Opaque => pipeline.insert_chunk_mesh(
            p.key,
            p.index_count,
            bytes,
            p.aabb_min,
            p.aabb_max,
        ),
    }
}

impl UploadQueue {
    /// No meshes.
    pub fn new() -> (r: UploadQueue)
        ensures
            r@ == Seq::<PackedMesh>::empty(),
    {
        UploadQueue { queue: VecDeque::new() }
    }

    /// How many meshes wait.
    pub fn len(&self) -> (r: usize)
        ensures
            r == self@.len(),
    {
        self.queue.len()
    }

    /// Puts a mesh behind those that wait.
    pub fn push(&mut self, mesh: PackedMesh)
        ensures
            final(self)@ == old(self)@.push(mesh),
    {
        self.queue.push_back(mesh);
    }

    /// Takes the oldest mesh out and keeps the books on it. Returns what went to
    /// the GPU, and its memory.
    fn step(&mut self, pipeline: &mut Game3DPipeline) -> (r: (UploadStep, u64))
        requires
            old(pipeline).wf(),
            old(self)@.len() > 0,
            old(pipeline)@.usage + old(self)@[0].bytes() <= u64::MAX,
        ensures
            final(pipeline).wf(),
            final(pipeline).other_bytes() == old(pipeline).other_bytes(),
            final(self)@ == old(self)@.skip(1),
            r.0.mesh == old(self)@[0],
            r.0.evicted@ == old(pipeline)@.evicted_for(old(self)@[0]),
            r.1 == old(self)@[0].bytes(),
            final(pipeline)@ == old(pipeline)@.packed(old(self)@[0]),
            final(pipeline)@.usage <= old(pipeline)@.usage + old(self)@[0].bytes(),
    {
        let mesh: PackedMesh = self.queue.pop_front().unwrap();
        assert(self@ =~= old(self)@.skip(1));
        proof {
            pipeline.lemma_usage();
            lemma_packed_usage(pipeline@, mesh);
        }
        let bytes: u64 = mesh.vertex_data.len() as u64 + mesh.index_data.len() as u64;
        let evicted: Vec<(i32, i32, i32)> = record(pipeline, &mesh, bytes);
        (UploadStep { mesh, evicted }, bytes)
    }

    /// Takes the oldest meshes out, as many as a frame may have, and keeps the
    /// books on them.
    pub fn upload(&mut self, pipeline: &mut Game3DPipeline) -> (r: UploadReport)
        requires
            old(pipeline).wf(),
            old(pipeline)@.usage + packed_bytes(old(self)@) <= u64::MAX,
        ensures
            final(pipeline).wf(),
            final(pipeline).other_bytes() == old(pipeline).other_bytes(),
            ({
                let n = upload_budget(old(self)@.len());
                let batch = old(self)@.take(n);
                &&& final(self)@ == old(self)@.skip(n)
                &&& step_meshes(r.steps@) == batch
                &&& r.bytes == packed_bytes(batch)
                &&& final(pipeline)@ == old(pipeline)@.packed_all(batch)
                &&& forall|i: int|
                    #![trigger r.steps@[i]]
                    0 <= i < n ==> r.steps@[i].evicted@ == old(pipeline)@.packed_all(
                        batch.take(i),
                    ).evicted_for(batch[i])
            }),
    {
        let ghost all = self@;
        let ghost m = old(pipeline)@;
        proof {
            pipeline.lemma_usage();
        }
        let waiting: usize = self.queue.len();
        let budget: usize = if waiting <= MAX_GPU_UPLOADS_PER_FRAME {
            waiting
        } else {
            MAX_GPU_UPLOADS_PER_FRAME
        };
        let mut steps: Vec<UploadStep> = Vec::new();
        let mut bytes: u64 = 0;
        let mut i: usize = 0;
        assert(all.take(0) =~= Seq::<PackedMesh>::empty());
        assert(all.skip(0) =~= all);
        assert(step_meshes(steps@) =~= all.take(0));
        while i < budget
            invariant
                i <= budget,
                budget <= all.len(),
                pipeline.wf(),
                pipeline.other_bytes() == old(pipeline).other_bytes(),
                m == old(pipeline)@,
                m.usage >= 0,
                m.usage + packed_bytes(all) <= u64::MAX,
                pipeline@.usage <= m.usage + packed_bytes(all.take(i as int)),
                self@ == all.skip(i as int),
                step_meshes(steps@) == all.take(i as int),
                steps@.len() == i,
                bytes == packed_bytes(all.take(i as int)),
                pipeline@ == m.packed_all(all.take(i as int)),
                forall|k: int|
                    #![trigger steps@[k]]
                    0 <= k < i ==> steps@[k].evicted@ == m.packed_all(all.take(k)).evicted_for(
                        all[k],
                    ),
            decreases budget - i,
        {
            let ghost p = all[i as int];
            proof {
                lemma_packed_bytes_prefix(all, i as int);
                assert(all.take(i as int + 1) =~= all.take(i as int).push(p));
                assert(all.take(i as int + 1).drop_last() =~= all.take(i as int));
                assert(all.skip(i as int).skip(1) =~= all.skip(i as int + 1));
            }
            let ghost before = steps@;
            let next: (UploadStep, u64) = self.step(pipeline);
            bytes = bytes + next.1;
            steps.push(next.0);
            assert(step_meshes(steps@) =~= step_meshes(before).push(p));
            i += 1;
        }
        proof {
            let batch = all.take(budget as int);
            assert forall|k: int| #![trigger steps@[k]] 0 <= k < budget implies steps@[k].evicted@
                == m.packed_all(batch.take(k)).evicted_for(batch[k]) by {
                assert(batch.take(k) =~= all.take(k));
            }
        }
        UploadReport { steps, bytes }
    }
}

/// Meshes reach the GPU in the order in which they came, none is lost, and the
/// queue gets shorter by the number of those that went.
pub proof fn law_queue_keeps_order(queue: Seq<PackedMesh>)
    ensures
        queue.take(upload_budget(queue.len())) + queue.skip(upload_budget(queue.len())) == queue,
        queue.skip(upload_budget(queue.len())).len() == queue.len() - upload_budget(queue.len()),
        queue.len() > 0 ==> upload_budget(queue.len()) > 0,
{
    let n = upload_budget(queue.len());
    assert(queue.take(n) + queue.skip(n) =~= queue);
}

/// A frame takes all meshes that wait, up to 32, and 32 where more wait.
pub proof fn law_upload_budget(n: nat)
    ensures
        n <= 32 ==> upload_budget(n) == n,
        n > 32 ==> upload_budget(n) == 32,
{
}

/// A packed mesh weighs the bytes of its vertices and its indices, and is
/// drawn with its own number of indices within its own bounds. Meshes one behind the
/// other add up.
pub proof fn law_packed_weight(p: PackedMesh, a: Seq<PackedMesh>, b: Seq<PackedMesh>)
    ensures
        p.bytes() == p.vertex_data@.len() + p.index_data@.len(),
        p.bytes() <= u64::MAX ==> p.mesh().vram_bytes == p.bytes(),
        p.mesh().index_count == p.index_count,
        p.mesh().aabb_min == p.aabb_min,
        p.mesh().aabb_max == p.aabb_max,
        packed_bytes(Seq::empty()) == 0,
        packed_bytes(seq![p]) == p.bytes(),
        packed_bytes(a + b) == packed_bytes(a) + packed_bytes(b),
    decreases b.len(),
{
    reveal_with_fuel(packed_bytes, 2);
    assert(seq![p].drop_last() =~= Seq::empty());
    if b.len() == 0 {
        assert(a + b =~= a);
    } else {
        law_packed_weight(p, a, b.drop_last());
        assert((a + b).drop_last() =~= a + b.drop_last());
    }
}

/// A packed mesh becomes the chunk's mesh of its own kind. Water and glass
/// push nothing out, touch no mesh of another kind and no other chunk, and cost
/// their own bytes less those of the mesh they take the place of.
pub proof fn law_packed_by_kind(m: PipelineModel, p: PackedMesh, k: ChunkKey)
    ensures
        p.kind == MeshKind::Opaque ==> m.packed(p) == m.inserted(p.key, p.mesh()) && m.evicted_for(p)
            == m.with_chunk(p.key, p.mesh()).eviction(p.key).evicted,
        p.kind != MeshKind::Opaque ==> m.evicted_for(p).len() == 0,
        p.kind == MeshKind::Water ==> {
            let r = m.packed(p);
            &&& r == (PipelineModel { water: r.water, usage: r.usage, ..m })
            &&& r.water.dom().contains(p.key) && r.water[p.key] == p.mesh()
            &&& k != p.key ==> (r.water.dom().contains(k) <==> m.water.dom().contains(k))
                && r.water[k] == m.water[k]
            &&& !m.water.dom().contains(p.key) ==> r.usage == m.usage + p.mesh().vram_bytes
            &&& m.water.dom().contains(p.key) && m.usage >= m.water[p.key].vram_bytes ==> r.usage
                == m.usage - m.water[p.key].vram_bytes + p.mesh().vram_bytes
        },
        p.kind == MeshKind::Glass ==> {
            let r = m.packed(p);
            &&& r == (PipelineModel { transparent: r.transparent, usage: r.usage, ..m })
            &&& r.transparent.dom().contains(p.key) && r.transparent[p.key] == p.mesh()
            &&& k != p.key ==> (r.transparent.dom().contains(k) <==> m.transparent.dom().contains(k))
                && r.transparent[k] == m.transparent[k]
            &&& !m.transparent.dom().contains(p.key) ==> r.usage == m.usage + p.mesh().vram_bytes
            &&& m.transparent.dom().contains(p.key) && m.usage >= m.transparent[p.key].vram_bytes
                ==> r.usage == m.usage - m.transparent[p.key].vram_bytes + p.mesh().vram_bytes
        },
{
}

/// Packed meshes are taken in turn, and the steps of a report are those of its
/// meshes.
pub proof fn law_packed_in_turn(
    m: PipelineModel,
    p: PackedMesh,
    a: Seq<PackedMesh>,
    b: Seq<PackedMesh>,
    s: Seq<UploadStep>,
    i: int,
)
    ensures
        m.packed_all(Seq::empty()) == m,
        m.packed_all(seq![p]) == m.packed(p),
        m.packed_all(a + b) == m.packed_all(a).packed_all(b),
        step_meshes(s).len() == s.len(),
        0 <= i < s.len() ==> step_meshes(s)[i] == s[i].mesh,
    decreases b.len(),
{
    reveal_with_fuel(PipelineModel::packed_all, 2);
    assert(seq![p].drop_last() =~= Seq::empty());
    if b.len() == 0 {
        assert(a + b =~= a);
    } else {
        law_packed_in_turn(m, p, a, b.drop_last(), s, i);
        assert((a + b).drop_last() =~= a + b.drop_last());
    }
}

} // verus!
