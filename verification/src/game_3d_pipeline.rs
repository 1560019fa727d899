//! Bookkeeping of the 3D pass: which chunk meshes are on the GPU, how much
//! video memory is in use, which meshes leave when the budget is exceeded, and
//! when GPU objects have to be made anew.
use crate::table::Table;
use crate::table::TableKey;
use vstd::prelude::*;
use vstd::string::*;

verus! {

/// Video memory for chunk meshes, in bytes. When it is exceeded, the meshes of
/// the chunks that are farthest from the camera leave the GPU.
pub const CHUNK_MESH_VRAM_BUDGET: u64 = 256 * 1024 * 1024;

/// Size of the uniform buffer, in bytes.
pub const UNIFORM_SIZE: u64 = 272;

/// Size of the outline's uniform buffer, in bytes.
pub const OUTLINE_UNIFORM_SIZE: u64 = 176;

/// Size of a mesh vertex, in bytes.
pub const VERTEX_SIZE: u64 = 52;

/// Size of a vertex index, in bytes.
pub const INDEX_SIZE: u64 = 4;

/// Size of a position of three single-precision numbers, in bytes.
pub const POSITION_SIZE: u64 = 12;

/// Size of a vertex of a debug line, in bytes.
pub const DEBUG_VERTEX_SIZE: u64 = 28;

/// Number of vertices of the outline of a block.
pub const OUTLINE_VERTICES: u32 = 24;

/// Position of a chunk, in chunks.
pub type ChunkKey = (i32, i32, i32);

/// What is known of a mesh on the GPU. The corners of its bounding box are
/// held as the bits of single-precision numbers.
#[derive(Debug, Clone, Copy)]
pub struct ChunkMesh {
    pub index_count: u32,
    pub vram_bytes: u64,
    pub aabb_min: [u32; 3],
    pub aabb_max: [u32; 3],
}

/// A mesh that is to be uploaded: how many vertices and indices it has.
#[derive(Debug, Clone, Copy)]
pub struct MeshUpload {
    pub key: (i32, i32, i32),
    pub vertices: u64,
    pub indices: u32,
    pub aabb_min: [u32; 3],
    pub aabb_max: [u32; 3],
}

/// The video memory of all meshes of a list.
pub open spec fn bytes_of(s: Seq<(ChunkKey, ChunkMesh)>) -> int
    decreases s.len(),
{
    if s.len() == 0 {
        0
    } else {
        bytes_of(s.drop_last()) + s.last().1.vram_bytes
    }
}

/// The meshes of a list take no negative amount of memory.
pub proof fn lemma_bytes_nonnegative(s: Seq<(ChunkKey, ChunkMesh)>)
    ensures
        bytes_of(s) >= 0,
    decreases s.len(),
{
    if s.len() > 0 {
        lemma_bytes_nonnegative(s.drop_last());
    }
}

/// Taking a mesh out of a list frees its memory.
pub proof fn lemma_bytes_remove(s: Seq<(ChunkKey, ChunkMesh)>, i: int)
    requires
        0 <= i < s.len(),
    ensures
        bytes_of(s.remove(i)) == bytes_of(s) - s[i].1.vram_bytes,
        bytes_of(s.remove(i)) >= 0,
    decreases s.len(),
{
    if i == s.len() - 1 {
        assert(s.remove(i) =~= s.drop_last());
    } else {
        lemma_bytes_remove(s.drop_last(), i);
        assert(s.remove(i).drop_last() =~= s.drop_last().remove(i));
        assert(s.remove(i).last() == s.last());
    }
    lemma_bytes_nonnegative(s.remove(i));
}

fn take_mesh(t: &mut Table<(i32, i32, i32), ChunkMesh>, key: (i32, i32, i32)) -> (r: Option<ChunkMesh>)
    requires
        old(t).wf(),
    ensures
        final(t).wf(),
        final(t)@ == old(t)@.remove(key),
        r == (if old(t)@.dom().contains(key) {
            Some(old(t)@[key])
        } else {
            None
        }),
        r is None ==> *final(t) == *old(t),
        r is Some ==> final(t).entries().len() == old(t).entries().len() - 1,
        bytes_of(final(t).entries()) == bytes_of(old(t).entries()) - mesh_bytes(r),
        bytes_of(final(t).entries()) >= 0,
{
    proof {
        lemma_bytes_nonnegative(t.entries());
    }
    match t.find(&key) {
        Some(i) => {
            proof {
                lemma_bytes_remove(t.entries(), i as int);
            }
            let e: ((i32, i32, i32), ChunkMesh) = t.remove_at(i);
            Some(e.1)
        },
        None => {
            assert(t@.remove(key) =~= t@);
            None
        },
    }
}

fn put_mesh(t: &mut Table<(i32, i32, i32), ChunkMesh>, key: (i32, i32, i32), mesh: ChunkMesh)
    requires
        old(t).wf(),
        !old(t)@.dom().contains(key),
    ensures
        final(t).wf(),
        final(t)@ == old(t)@.insert(key, mesh),
        final(t).entries().len() == old(t).entries().len() + 1,
        bytes_of(final(t).entries()) == bytes_of(old(t).entries()) + mesh.vram_bytes,
{
    t.insert_new(key, mesh);
    assert(t.entries().drop_last() =~= old(t).entries());
}

/// The memory of what may be a mesh.
pub open spec fn mesh_bytes(m: Option<ChunkMesh>) -> int {
    match m {
        Some(m) => m.vram_bytes as int,
        None => 0,
    }
}

/// The difference of two amounts of memory, or zero.
pub open spec fn less_bytes(a: int, b: int) -> int {
    if a >= b {
        a - b
    } else {
        0
    }
}

/// What the 3D pass keeps books on.
pub struct Game3DPipeline {
    chunk_meshes: Table<(i32, i32, i32), ChunkMesh>,
    water_meshes: Table<(i32, i32, i32), ChunkMesh>,
    transparent_meshes: Table<(i32, i32, i32), ChunkMesh>,
    vram_usage: u64,
    lru_order: Vec<(i32, i32, i32)>,
    center: (i32, i32, i32),
    depth_ready: bool,
    depth_size: (u32, u32),
    outline_ready: bool,
    outline_models: Table<String, u32>,
    water_ready: bool,
    transparent_ready: bool,
    debug_lines_ready: bool,
    debug_lines_cap: usize,
    wireframe_supported: bool,
    bind_group_ready: bool,
    water_bind_group_ready: bool,
    cached_atlas: usize,
    cached_normal_atlas: usize,
    water_atlas: usize,
    culled_last_frame: u32,
    last_draw_calls: u32,
    last_visible_triangles: u32,
    last_visible_vram_bytes: u64,
}

/// The books as a mathematical value.
#[verifier::ext_equal]
pub struct PipelineModel {
    pub chunks: Map<ChunkKey, ChunkMesh>,
    pub water: Map<ChunkKey, ChunkMesh>,
    pub transparent: Map<ChunkKey, ChunkMesh>,
    pub usage: int,
    /// The chunks that have a mesh, in the order in which they were inserted.
    pub lru: Seq<ChunkKey>,
    /// The chunk of the camera.
    pub center: ChunkKey,
    pub depth_ready: bool,
    pub depth_size: (u32, u32),
    pub outline_ready: bool,
    pub outline_models: Map<Seq<char>, u32>,
    pub water_ready: bool,
    pub transparent_ready: bool,
    pub debug_lines_ready: bool,
    pub debug_lines_cap: int,
    pub wireframe_supported: bool,
    pub bind_group_ready: bool,
    pub water_bind_group_ready: bool,
    pub cached_atlas: usize,
    pub cached_normal_atlas: usize,
    /// The atlas for which the bind group of the water pass was made.
    pub water_atlas: usize,
    pub culled: int,
    pub draw_calls: int,
    pub triangles: int,
    pub visible_bytes: int,
}

impl View for Game3DPipeline {
    type V = PipelineModel;

    closed spec fn view(&self) -> PipelineModel {
        PipelineModel {
            chunks: self.chunk_meshes@,
            water: self.water_meshes@,
            transparent: self.transparent_meshes@,
            usage: self.vram_usage as int,
            lru: self.lru_order@,
            center: self.center,
            depth_ready: self.depth_ready,
            depth_size: self.depth_size,
            outline_ready: self.outline_ready,
            outline_models: self.outline_models@,
            water_ready: self.water_ready,
            transparent_ready: self.transparent_ready,
            debug_lines_ready: self.debug_lines_ready,
            debug_lines_cap: self.debug_lines_cap as int,
            wireframe_supported: self.wireframe_supported,
            bind_group_ready: self.bind_group_ready,
            water_bind_group_ready: self.water_bind_group_ready,
            cached_atlas: self.cached_atlas,
            cached_normal_atlas: self.cached_normal_atlas,
            water_atlas: self.water_atlas,
            culled: self.culled_last_frame as int,
            draw_calls: self.last_draw_calls as int,
            triangles: self.last_visible_triangles as int,
            visible_bytes: self.last_visible_vram_bytes as int,
        }
    }
}

/// The sequence without the first occurrence of `k`.
pub open spec fn without_first(s: Seq<ChunkKey>, k: ChunkKey) -> Seq<ChunkKey>
    decreases s.len(),
{
    if s.len() == 0 {
        s
    } else if s[0] == k {
        s.drop_first()
    } else {
        seq![s[0]] + without_first(s.drop_first(), k)
    }
}

proof fn lemma_without_first(s: Seq<ChunkKey>, k: ChunkKey, i: int)
    requires
        0 <= i <= s.len(),
        forall|j: int| #![trigger s[j]] 0 <= j < i ==> s[j] != k,
        i < s.len() ==> s[i] == k,
    ensures
        without_first(s, k) == (if i < s.len() {
            s.remove(i)
        } else {
            s
        }),
    decreases s.len(),
{
    if s.len() > 0 {
        if i == 0 {
            assert(s.remove(0) =~= s.drop_first());
        } else {
            assert(s[0] != k);
            let t = s.drop_first();
            assert forall|j: int| #![trigger t[j]] 0 <= j < i - 1 implies t[j] != k by {
                assert(s[j + 1] != k);
            }
            lemma_without_first(t, k, i - 1);
            if i < s.len() {
                assert(seq![s[0]] + t.remove(i - 1) =~= s.remove(i));
            } else {
                assert(seq![s[0]] + t =~= s);
            }
        }
    }
}

fn forget_key(v: &mut Vec<(i32, i32, i32)>, key: (i32, i32, i32))
    ensures
        final(v)@ == without_first(old(v)@, key),
{
    let mut i: usize = 0;
    while i < v.len() && !v[i].same_key(&key)
        invariant
            i <= v@.len(),
            v@ == old(v)@,
            forall|j: int| #![trigger v@[j]] 0 <= j < i ==> v@[j] != key,
        decreases v@.len() - i,
    {
        i += 1;
    }
    proof {
        lemma_without_first(v@, key, i as int);
    }
    if i < v.len() {
        v.remove(i);
    }
}

/// The state of the eviction loop: memory in use, meshes, order, keys that left.
#[verifier::ext_equal]
pub struct Eviction {
    pub usage: int,
    pub chunks: Map<ChunkKey, ChunkMesh>,
    pub lru: Seq<ChunkKey>,
    pub evicted: Seq<ChunkKey>,
}

/// The distance of two chunks, squared.
pub open spec fn apart(a: ChunkKey, b: ChunkKey) -> int {
    (a.0 - b.0) * (a.0 - b.0) + (a.1 - b.1) * (a.1 - b.1) + (a.2 - b.2) * (a.2 - b.2)
}

/// Place of the chunk other than `key` that is farthest from `center`, the
/// first one where several are; -1 where there is none.
pub open spec fn farthest(s: Seq<ChunkKey>, key: ChunkKey, center: ChunkKey) -> int
    decreases s.len(),
{
    if s.len() == 0 {
        -1
    } else {
        let b = farthest(s.drop_last(), key, center);
        if s.last() != key && (b < 0 || apart(s[b], center) < apart(s.last(), center)) {
            s.len() - 1
        } else {
            b
        }
    }
}

/// What [`farthest`] says: a place where no other chunk than `key` stands, or
/// the first of those that are farthest away.
pub proof fn law_farthest(s: Seq<ChunkKey>, key: ChunkKey, center: ChunkKey)
    ensures
        -1 <= farthest(s, key, center) < s.len(),
        farthest(s, key, center) < 0 <==> forall|j: int|
            #![trigger s[j]]
            0 <= j < s.len() ==> s[j] == key,
        farthest(s, key, center) >= 0 ==> {
            let i = farthest(s, key, center);
            &&& s[i] != key
            &&& forall|j: int|
                #![trigger s[j]]
                0 <= j < s.len() && s[j] != key ==> apart(s[j], center) <= apart(s[i], center)
            &&& forall|j: int|
                #![trigger s[j]]
                0 <= j < i && s[j] != key ==> apart(s[j], center) < apart(s[i], center)
        },
    decreases s.len(),
{
    if s.len() > 0 {
        let t = s.drop_last();
        law_farthest(t, key, center);
        assert(forall|j: int| #![trigger s[j]] 0 <= j < t.len() ==> s[j] == t[j]);
        assert(s[s.len() - 1] == s.last());
        if forall|j: int| #![trigger s[j]] 0 <= j < s.len() ==> s[j] == key {
            assert(forall|j: int| #![trigger t[j]] 0 <= j < t.len() ==> t[j] == s[j]);
        }
    }
}

fn squared(a: i32, b: i32) -> (r: i128)
    ensures
        r == (a - b) * (a - b),
        0 <= r <= 0x1_0000_0000_0000_0000,
{
    let d: i128 = a as i128 - b as i128;
    assert(0 <= d * d <= 0x1_0000_0000_0000_0000) by (nonlinear_arith)
        requires
            -0x1_0000_0000 <= d <= 0x1_0000_0000,
    ;
    d * d
}

fn distance(a: (i32, i32, i32), b: (i32, i32, i32)) -> (r: i128)
    ensures
        r == apart(a, b),
{
    squared(a.0, b.0) + squared(a.1, b.1) + squared(a.2, b.2)
}

fn farthest_place(
    s: &Vec<(i32, i32, i32)>,
    key: (i32, i32, i32),
    center: (i32, i32, i32),
) -> (r: Option<usize>)
    ensures
        match r {
            Some(i) => i == farthest(s@, key, center) && i < s@.len(),
            None => farthest(s@, key, center) == -1,
        },
{
    let mut best: Option<usize> = None;
    let mut i: usize = 0;
    assert(s@.take(0) =~= Seq::<ChunkKey>::empty());
    while i < s.len()
        invariant
            i <= s@.len(),
            match best {
                Some(b) => b == farthest(s@.take(i as int), key, center) && b < i,
                None => farthest(s@.take(i as int), key, center) == -1,
            },
        decreases s@.len() - i,
    {
        proof {
            let next = s@.take(i as int + 1);
            assert(next.drop_last() =~= s@.take(i as int));
            assert(next.last() == s@[i as int]);
        }
        let farther: bool = match best {
            Some(b) => distance(s[b], center) < distance(s[i], center),
            None => true,
        };
        if farther && !s[i].same_key(&key) {
            best = Some(i);
        }
        i += 1;
    }
    assert(s@.take(s@.len() as int) =~= s@);
    best
}

/// What is left once meshes have been evicted, each time the one of the chunk
/// that is farthest from `center`, until the budget is kept or no other chunk
/// than `key` is in the order. The mesh of `key` stays.
pub open spec fn evict(e: Eviction, key: ChunkKey, center: ChunkKey) -> Eviction
    decreases e.lru.len(),
{
    let i = farthest(e.lru, key, center);
    if e.usage <= CHUNK_MESH_VRAM_BUDGET || !(0 <= i < e.lru.len()) {
        e
    } else {
        let far = e.lru[i];
        let rest = e.lru.remove(i);
        if e.chunks.dom().contains(far) {
            evict(
                Eviction {
                    usage: less_bytes(e.usage, e.chunks[far].vram_bytes as int),
                    chunks: e.chunks.remove(far),
                    lru: rest,
                    evicted: e.evicted.push(far),
                },
                key,
                center,
            )
        } else {
            evict(Eviction { lru: rest, ..e }, key, center)
        }
    }
}

impl PipelineModel {
    /// The memory of the depth texture.
    pub open spec fn depth_bytes(self) -> int {
        if self.depth_ready {
            self.depth_size.0 * self.depth_size.1 * 4
        } else {
            0
        }
    }

    /// The books after the mesh of a chunk was put in, before anything left.
    pub open spec fn with_chunk(self, key: ChunkKey, mesh: ChunkMesh) -> PipelineModel {
        let known = self.chunks.dom().contains(key);
        PipelineModel {
            chunks: self.chunks.insert(key, mesh),
            usage: (if known {
                less_bytes(self.usage, self.chunks[key].vram_bytes as int)
            } else {
                self.usage
            }) + mesh.vram_bytes,
            lru: (if known {
                without_first(self.lru, key)
            } else {
                self.lru
            }).push(key),
            ..self
        }
    }

    /// The eviction that starts from these books.
    pub open spec fn eviction(self, key: ChunkKey) -> Eviction {
        evict(
            Eviction {
                usage: self.usage,
                chunks: self.chunks,
                lru: self.lru,
                evicted: Seq::empty(),
            },
            key,
            self.center,
        )
    }

    /// The books after the mesh of a chunk was put in and far meshes left.
    pub open spec fn inserted(self, key: ChunkKey, mesh: ChunkMesh) -> PipelineModel {
        let a = self.with_chunk(key, mesh);
        let e = a.eviction(key);
        PipelineModel { usage: e.usage, chunks: e.chunks, lru: e.lru, ..a }
    }
}

impl Game3DPipeline {
    /// The memory of all meshes.
    pub closed spec fn mesh_total(&self) -> int {
        bytes_of(self.chunk_meshes.entries()) + bytes_of(self.water_meshes.entries()) + bytes_of(
            self.transparent_meshes.entries(),
        )
    }

    /// The memory in use beside meshes and the depth texture.
    pub open spec fn other_bytes(&self) -> int {
        self@.usage - self.mesh_total() - self@.depth_bytes()
    }

    /// The tables are in order, and at least the memory of the meshes, the
    /// depth texture and the uniform buffer is counted as in use.
    spec fn books_wf(&self) -> bool {
        &&& self.chunk_meshes.wf()
        &&& self.water_meshes.wf()
        &&& self.transparent_meshes.wf()
        &&& self.outline_models.wf()
        &&& self.other_bytes() >= UNIFORM_SIZE
    }

    /// The tables are in order, at least the memory of the meshes, the depth
    /// texture and the uniform buffer is counted as in use, and every chunk
    /// mesh is in the order of insertion.
    pub closed spec fn wf(&self) -> bool {
        &&& self.books_wf()
        &&& tracked_order(self@)
    }

    /// Every chunk mesh is in the order of insertion, once.
    pub proof fn law_tracked_order(&self)
        requires
            self.wf(),
        ensures
            tracked_order(self@),
    {
    }

    /// The memory in use is no negative amount.
    pub proof fn lemma_usage(&self)
        ensures
            self@.usage >= 0,
    {
    }

    /// Books with no meshes.
    pub fn new(wireframe_supported: bool) -> (r: Game3DPipeline)
        ensures
            r.wf(),
            r.mesh_total() == 0,
            r.other_bytes() == UNIFORM_SIZE,
            r@.usage == 272,
            r@ == (PipelineModel {
                chunks: Map::empty(),
                water: Map::empty(),
                transparent: Map::empty(),
                usage: UNIFORM_SIZE as int,
                lru: Seq::empty(),
                center: (0, 0, 0),
                depth_ready: false,
                depth_size: (0, 0),
                outline_ready: false,
                outline_models: Map::empty(),
                water_ready: false,
                transparent_ready: false,
                debug_lines_ready: false,
                debug_lines_cap: 0,
                wireframe_supported: wireframe_supported,
                bind_group_ready: false,
                water_bind_group_ready: false,
                cached_atlas: 0,
                cached_normal_atlas: 0,
                water_atlas: 0,
                culled: 0,
                draw_calls: 0,
                triangles: 0,
                visible_bytes: 0,
            }),
    {
        Game3DPipeline {
            chunk_meshes: Table::new(),
            water_meshes: Table::new(),
            transparent_meshes: Table::new(),
            vram_usage: UNIFORM_SIZE,
            lru_order: Vec::new(),
            center: (0, 0, 0),
            depth_ready: false,
            depth_size: (0, 0),
            outline_ready: false,
            outline_models: Table::new(),
            water_ready: false,
            transparent_ready: false,
            debug_lines_ready: false,
            debug_lines_cap: 0,
            wireframe_supported,
            bind_group_ready: false,
            water_bind_group_ready: false,
            cached_atlas: 0,
            cached_normal_atlas: 0,
            water_atlas: 0,
            culled_last_frame: 0,
            last_draw_calls: 0,
            last_visible_triangles: 0,
            last_visible_vram_bytes: 0,
        }
    }

    proof fn lemma_parts(&self)
        ensures
            bytes_of(self.chunk_meshes.entries()) >= 0,
            bytes_of(self.water_meshes.entries()) >= 0,
            bytes_of(self.transparent_meshes.entries()) >= 0,
            self@.depth_bytes() >= 0,
            self.books_wf() ==> self.vram_usage >= UNIFORM_SIZE + bytes_of(self.chunk_meshes.entries())
                + bytes_of(self.water_meshes.entries()) + bytes_of(
                self.transparent_meshes.entries(),
            ) + self@.depth_bytes(),
    {
        lemma_bytes_nonnegative(self.chunk_meshes.entries());
        lemma_bytes_nonnegative(self.water_meshes.entries());
        lemma_bytes_nonnegative(self.transparent_meshes.entries());
        lemma_depth_bytes(self@.depth_size.0, self@.depth_size.1);
    }

    fn drop_chunk(&mut self, key: (i32, i32, i32)) -> (r: Option<ChunkMesh>)
        requires
            old(self).books_wf(),
        ensures
            final(self).books_wf(),
            final(self).other_bytes() == old(self).other_bytes(),
            r == (if old(self)@.chunks.dom().contains(key) {
                Some(old(self)@.chunks[key])
            } else {
                None
            }),
            final(self)@ == (PipelineModel {
                chunks: old(self)@.chunks.remove(key),
                usage: less_bytes(old(self)@.usage, mesh_bytes(r)),
                ..old(self)@
            }),
            mesh_bytes(r) <= old(self)@.usage,
    {
        proof {
            self.lemma_parts();
        }
        let r: Option<ChunkMesh> = take_mesh(&mut self.chunk_meshes, key);
        match r {
            Some(m) => {
                self.vram_usage = self.vram_usage.saturating_sub(m.vram_bytes);
            },
            None => {},
        }
        r
    }

    fn drop_water(&mut self, key: (i32, i32, i32)) -> (r: Option<ChunkMesh>)
        requires
            old(self).books_wf(),
        ensures
            final(self).books_wf(),
            final(self).other_bytes() == old(self).other_bytes(),
            r == (if old(self)@.water.dom().contains(key) {
                Some(old(self)@.water[key])
            } else {
                None
            }),
            final(self)@ == (PipelineModel {
                water: old(self)@.water.remove(key),
                usage: less_bytes(old(self)@.usage, mesh_bytes(r)),
                ..old(self)@
            }),
            mesh_bytes(r) <= old(self)@.usage,
    {
        proof {
            self.lemma_parts();
        }
        let r: Option<ChunkMesh> = take_mesh(&mut self.water_meshes, key);
        match r {
            Some(m) => {
                self.vram_usage = self.vram_usage.saturating_sub(m.vram_bytes);
            },
            None => {},
        }
        r
    }

    fn drop_transparent(&mut self, key: (i32, i32, i32)) -> (r: Option<ChunkMesh>)
        requires
            old(self).books_wf(),
        ensures
            final(self).books_wf(),
            final(self).other_bytes() == old(self).other_bytes(),
            r == (if old(self)@.transparent.dom().contains(key) {
                Some(old(self)@.transparent[key])
            } else {
                None
            }),
            final(self)@ == (PipelineModel {
                transparent: old(self)@.transparent.remove(key),
                usage: less_bytes(old(self)@.usage, mesh_bytes(r)),
                ..old(self)@
            }),
            mesh_bytes(r) <= old(self)@.usage,
    {
        proof {
            self.lemma_parts();
        }
        let r: Option<ChunkMesh> = take_mesh(&mut self.transparent_meshes, key);
        match r {
            Some(m) => {
                self.vram_usage = self.vram_usage.saturating_sub(m.vram_bytes);
            },
            None => {},
        }
        r
    }

    fn evict_over_budget(&mut self, key: (i32, i32, i32)) -> (r: Vec<(i32, i32, i32)>)
        requires
            old(self).books_wf(),
        ensures
            final(self).books_wf(),
            final(self).other_bytes() == old(self).other_bytes(),
            final(self)@ == (PipelineModel {
                usage: old(self)@.eviction(key).usage,
                chunks: old(self)@.eviction(key).chunks,
                lru: old(self)@.eviction(key).lru,
                ..old(self)@
            }),
            r@ == old(self)@.eviction(key).evicted,
    {
        let ghost a = self@;
        let mut evicted: Vec<(i32, i32, i32)> = Vec::new();
        let ghost goal = a.eviction(key);
        let mut done: bool = false;
        while !done
            invariant
                self.books_wf(),
                self.other_bytes() == old(self).other_bytes(),
                self@ == (PipelineModel {
                    usage: self@.usage,
                    chunks: self@.chunks,
                    lru: self@.lru,
                    ..a
                }),
                goal == (if done {
                    Eviction {
                        usage: self@.usage,
                        chunks: self@.chunks,
                        lru: self@.lru,
                        evicted: evicted@,
                    }
                } else {
                    evict(
                        Eviction {
                            usage: self@.usage,
                            chunks: self@.chunks,
                            lru: self@.lru,
                            evicted: evicted@,
                        },
                        key,
                        a.center,
                    )
                }),
            decreases
                    self.lru_order@.len() + (if done {
                        0int
                    } else {
                        1int
                    }),
        {
            let next: Option<usize> = if self.vram_usage <= CHUNK_MESH_VRAM_BUDGET {
                None
            } else {
                farthest_place(&self.lru_order, key, self.center)
            };
            match next {
                Some(i) => {
                    let ghost before = self@;
                    let far: (i32, i32, i32) = self.lru_order.remove(i);
                    assert(self.books_wf());
                    match self.drop_chunk(far) {
                        Some(m) => {
                            evicted.push(far);
                        },
                        None => {
                            assert(self@.chunks =~= before.chunks);
                        },
                    }
                },
                None => {
                    done = true;
                },
            }
        }
        evicted
    }

    /// Puts the mesh of a chunk in, in place of the one it had, as the newest one.
    fn put_chunk(&mut self, key: (i32, i32, i32), mesh: ChunkMesh)
        requires
            old(self).books_wf(),
            old(self)@.usage + mesh.vram_bytes <= u64::MAX,
        ensures
            final(self).books_wf(),
            final(self).other_bytes() == old(self).other_bytes(),
            final(self)@ == old(self)@.with_chunk(key, mesh),
    {
        match self.drop_chunk(key) {
            Some(m) => {
                forget_key(&mut self.lru_order, key);
            },
            None => {},
        }
        self.vram_usage = self.vram_usage + mesh.vram_bytes;
        put_mesh(&mut self.chunk_meshes, key, mesh);
        self.lru_order.push(key);
        assert(self@.chunks =~= old(self)@.chunks.insert(key, mesh));
    }

    /// Takes down in which chunk the camera is.
    pub fn look_from(&mut self, center: (i32, i32, i32))
        requires
            old(self).wf(),
        ensures
            final(self).wf(),
            final(self).other_bytes() == old(self).other_bytes(),
            final(self)@ == (PipelineModel { center, ..old(self)@ }),
    {
        self.center = center;
    }

    /// Puts the mesh of a chunk in, in place of the one it had. Where the
    /// budget is exceeded then, meshes of other chunks leave, the one farthest
    /// from the camera first, until it is kept or no other chunk has a mesh;
    /// returns the chunks whose meshes left.
    pub fn insert_chunk_mesh(
        &mut self,
        key: (i32, i32, i32),
        index_count: u32,
        vram_bytes: u64,
        aabb_min: [u32; 3],
        aabb_max: [u32; 3],
    ) -> (r: Vec<(i32, i32, i32)>)
        requires
            old(self).wf(),
            old(self)@.usage + vram_bytes <= u64::MAX,
        ensures
            final(self).wf(),
            final(self).other_bytes() == old(self).other_bytes(),
            final(self)@ == old(self)@.inserted(
                key,
                (ChunkMesh { index_count, vram_bytes, aabb_min, aabb_max }),
            ),
            r@ == old(self)@.with_chunk(
                key,
                (ChunkMesh { index_count, vram_bytes, aabb_min, aabb_max }),
            ).eviction(key).evicted,
            final(self)@.usage <= CHUNK_MESH_VRAM_BUDGET || final(self)@.chunks.dom() == set![key],
            forall|i: int, k: ChunkKey|
                #![trigger r@[i], final(self)@.chunks.dom().contains(k)]
                0 <= i < r@.len() && k != key && final(self)@.chunks.dom().contains(k) ==> apart(
                    r@[i],
                    old(self)@.center,
                ) >= apart(k, old(self)@.center),
            forall|i: int, j: int|
                #![trigger r@[i], r@[j]]
                0 <= i < j < r@.len() ==> apart(r@[i], old(self)@.center) >= apart(
                    r@[j],
                    old(self)@.center,
                ),
    {
        let mesh: ChunkMesh = ChunkMesh { index_count, vram_bytes, aabb_min, aabb_max };
        proof {
            law_insert_keeps_budget(self@, key, mesh);
        }
        self.put_chunk(key, mesh);
        self.evict_over_budget(key)
    }
}

/// A texture takes no negative amount of memory.
pub proof fn lemma_depth_bytes(w: u32, h: u32)
    ensures
        w * h * 4 >= 0,
{
    assert(w * h >= 0) by (nonlinear_arith);
}

impl MeshUpload {
    /// Whether there is anything to draw.
    pub open spec fn drawable(self) -> bool {
        self.vertices > 0 && self.indices > 0
    }

    /// The memory that the mesh takes.
    pub open spec fn bytes(self) -> int {
        if self.drawable() {
            VERTEX_SIZE * self.vertices + INDEX_SIZE * self.indices
        } else {
            0
        }
    }

    /// The mesh as it is kept.
    pub open spec fn mesh(self) -> ChunkMesh {
        ChunkMesh {
            index_count: self.indices,
            vram_bytes: self.bytes() as u64,
            aabb_min: self.aabb_min,
            aabb_max: self.aabb_max,
        }
    }

    /// Whether there is anything to draw.
    pub fn has_geometry(&self) -> (r: bool)
        ensures
            r == self.drawable(),
    {
        self.vertices > 0 && self.indices > 0
    }
}

/// The memory that a list of meshes takes.
pub open spec fn upload_bytes(ups: Seq<MeshUpload>) -> int
    decreases ups.len(),
{
    if ups.len() == 0 {
        0
    } else {
        upload_bytes(ups.drop_last()) + ups.last().bytes()
    }
}

/// The first meshes of a list take no more memory than the whole list.
pub proof fn lemma_upload_bytes_prefix(ups: Seq<MeshUpload>, i: int)
    requires
        0 <= i <= ups.len(),
    ensures
        0 <= upload_bytes(ups.take(i)) <= upload_bytes(ups),
    decreases ups.len(),
{
    if i == ups.len() {
        assert(ups.take(i) =~= ups);
        if ups.len() > 0 {
            lemma_upload_bytes_prefix(ups.drop_last(), i - 1);
            assert(ups.drop_last().take(i - 1) =~= ups.drop_last());
        }
    } else {
        lemma_upload_bytes_prefix(ups.drop_last(), i);
        assert(ups.drop_last().take(i) =~= ups.take(i));
    }
}

impl PipelineModel {
    /// The books after a mesh took the place of the one that its chunk had, as
    /// the newest one; one without geometry only takes the old one away. The
    /// memory of the new one is not counted yet.
    pub open spec fn replaced(self, up: MeshUpload) -> PipelineModel {
        let known = self.chunks.dom().contains(up.key);
        let usage = if known {
            less_bytes(self.usage, self.chunks[up.key].vram_bytes as int)
        } else {
            self.usage
        };
        let kept = if known {
            without_first(self.lru, up.key)
        } else {
            self.lru
        };
        if up.drawable() {
            PipelineModel {
                chunks: self.chunks.insert(up.key, up.mesh()),
                lru: kept.push(up.key),
                usage,
                ..self
            }
        } else {
            PipelineModel { chunks: self.chunks.remove(up.key), lru: kept, usage, ..self }
        }
    }

    /// The books after a list of meshes took the place of those that their
    /// chunks had. The memory of the new ones is not counted yet.
    pub open spec fn uploaded(self, ups: Seq<MeshUpload>) -> PipelineModel
        decreases ups.len(),
    {
        if ups.len() == 0 {
            self
        } else {
            self.uploaded(ups.drop_last()).replaced(ups.last())
        }
    }

    /// The books after all meshes of a chunk were taken out.
    pub open spec fn dropped(self, key: ChunkKey) -> PipelineModel {
        let c = if self.chunks.dom().contains(key) {
            self.chunks[key].vram_bytes as int
        } else {
            0
        };
        let w = if self.water.dom().contains(key) {
            self.water[key].vram_bytes as int
        } else {
            0
        };
        let t = if self.transparent.dom().contains(key) {
            self.transparent[key].vram_bytes as int
        } else {
            0
        };
        PipelineModel {
            chunks: self.chunks.remove(key),
            water: self.water.remove(key),
            transparent: self.transparent.remove(key),
            lru: if self.chunks.dom().contains(key) {
                without_first(self.lru, key)
            } else {
                self.lru
            },
            usage: less_bytes(self.usage, c + w + t),
            ..self
        }
    }

    /// The books after all meshes of some chunks were taken out.
    pub open spec fn dropped_all(self, keys: Seq<ChunkKey>) -> PipelineModel
        decreases keys.len(),
    {
        if keys.len() == 0 {
            self
        } else {
            self.dropped_all(keys.drop_last()).dropped(keys.last())
        }
    }

    /// The books after the glass meshes of some chunks were taken out.
    pub open spec fn glass_dropped(self, keys: Seq<ChunkKey>) -> PipelineModel
        decreases keys.len(),
    {
        if keys.len() == 0 {
            self
        } else {
            let m = self.glass_dropped(keys.drop_last());
            let key = keys.last();
            PipelineModel {
                transparent: m.transparent.remove(key),
                usage: if m.transparent.dom().contains(key) {
                    less_bytes(m.usage, m.transparent[key].vram_bytes as int)
                } else {
                    m.usage
                },
                ..m
            }
        }
    }
}

impl Game3DPipeline {
    /// The memory in use beside chunk meshes, where `extra` bytes of them are not
    /// counted yet.
    spec fn beside_chunks(&self, extra: int) -> int {
        self.vram_usage + extra - bytes_of(self.chunk_meshes.entries())
    }

    /// Replaces the mesh of a chunk, and returns the memory of the new one, which
    /// is not counted yet.
    fn replace_mesh(&mut self, up: &MeshUpload) -> (r: u64)
        requires
            old(self).chunk_meshes.wf(),
            up.bytes() <= u64::MAX,
        ensures
            final(self).chunk_meshes.wf(),
            final(self).water_meshes == old(self).water_meshes,
            final(self).transparent_meshes == old(self).transparent_meshes,
            final(self).outline_models == old(self).outline_models,
            r == up.bytes(),
            final(self).beside_chunks(r as int) >= old(self).beside_chunks(0),
            final(self)@.usage <= old(self)@.usage,
            final(self)@ == old(self)@.replaced(*up),
    {
        self.take_chunk(up.key);
        if !up.has_geometry() {
            return 0;
        }
        let bytes: u64 = VERTEX_SIZE * up.vertices + INDEX_SIZE * up.indices as u64;
        let mesh: ChunkMesh = ChunkMesh {
            index_count: up.indices,
            vram_bytes: bytes,
            aabb_min: up.aabb_min,
            aabb_max: up.aabb_max,
        };
        put_mesh(&mut self.chunk_meshes, up.key, mesh);
        self.lru_order.push(up.key);
        assert(self@.chunks =~= old(self)@.chunks.insert(up.key, mesh));
        bytes
    }

    /// Takes the mesh of a chunk out, if it has one.
    fn take_chunk(&mut self, key: (i32, i32, i32))
        requires
            old(self).chunk_meshes.wf(),
        ensures
            final(self).chunk_meshes.wf(),
            final(self).water_meshes == old(self).water_meshes,
            final(self).transparent_meshes == old(self).transparent_meshes,
            final(self).outline_models == old(self).outline_models,
            final(self).beside_chunks(0) >= old(self).beside_chunks(0),
            final(self)@ == (PipelineModel {
                chunks: old(self)@.chunks.remove(key),
                usage: if old(self)@.chunks.dom().contains(key) {
                    less_bytes(old(self)@.usage, old(self)@.chunks[key].vram_bytes as int)
                } else {
                    old(self)@.usage
                },
                lru: if old(self)@.chunks.dom().contains(key) {
                    without_first(old(self)@.lru, key)
                } else {
                    old(self)@.lru
                },
                ..old(self)@
            }),
    {
        match take_mesh(&mut self.chunk_meshes, key) {
            Some(m) => {
                self.vram_usage = self.vram_usage.saturating_sub(m.vram_bytes);
                forget_key(&mut self.lru_order, key);
            },
            None => {},
        }
    }

    /// Replaces the meshes of chunks; a mesh without geometry only takes the
    /// old one away. Nothing leaves yet where the budget is exceeded: the next
    /// insertion sees to that.
    pub fn update_chunk_meshes(&mut self, meshes: &Vec<MeshUpload>)
        requires
            old(self).wf(),
            old(self)@.usage + upload_bytes(meshes@) <= u64::MAX,
        ensures
            final(self).wf(),
            final(self)@ == (PipelineModel {
                usage: old(self)@.uploaded(meshes@).usage + upload_bytes(meshes@),
                ..old(self)@.uploaded(meshes@)
            }),
    {
        let mut new_vram: u64 = 0;
        let mut i: usize = 0;
        assert(meshes@.take(0) =~= Seq::<MeshUpload>::empty());
        while i < meshes.len()
            invariant
                i <= meshes@.len(),
                self.chunk_meshes.wf(),
                self.water_meshes == old(self).water_meshes,
                self.transparent_meshes == old(self).transparent_meshes,
                self.outline_models == old(self).outline_models,
                self.beside_chunks(new_vram as int) >= old(self).beside_chunks(0),
                new_vram == upload_bytes(meshes@.take(i as int)),
                old(self)@.usage + upload_bytes(meshes@) <= u64::MAX,
                self@.usage <= old(self)@.usage,
                self@ == old(self)@.uploaded(meshes@.take(i as int)),
            decreases meshes@.len() - i,
        {
            proof {
                let next = meshes@.take(i as int + 1);
                assert(next.drop_last() =~= meshes@.take(i as int));
                assert(next.last() == meshes@[i as int]);
                lemma_upload_bytes_prefix(meshes@, i as int);
                lemma_upload_bytes_prefix(meshes@, i as int + 1);
            }
            let bytes: u64 = self.replace_mesh(&meshes[i]);
            new_vram = new_vram + bytes;
            i += 1;
        }
        assert(meshes@.take(meshes@.len() as int) =~= meshes@);
        self.vram_usage = self.vram_usage + new_vram;
        proof {
            law_upload_keeps_order(old(self)@, meshes@);
            lemma_uploaded_keeps_depth(old(self)@, meshes@);
        }
    }

    /// Takes all meshes of some chunks out.
    pub fn remove_chunk_meshes(&mut self, keys: &Vec<(i32, i32, i32)>)
        requires
            old(self).wf(),
        ensures
            final(self).wf(),
            final(self).other_bytes() == old(self).other_bytes(),
            final(self)@ == old(self)@.dropped_all(keys@),
    {
        let mut i: usize = 0;
        assert(keys@.take(0) =~= Seq::<ChunkKey>::empty());
        while i < keys.len()
            invariant
                i <= keys@.len(),
                self.wf(),
                self.other_bytes() == old(self).other_bytes(),
                self@ == old(self)@.dropped_all(keys@.take(i as int)),
            decreases keys@.len() - i,
        {
            let key: (i32, i32, i32) = keys[i];
            proof {
                let next = keys@.take(i as int + 1);
                assert(next.drop_last() =~= keys@.take(i as int));
                assert(next.last() == key);
            }
            self.drop_all(key);
            i += 1;
        }
        assert(keys@.take(keys@.len() as int) =~= keys@);
    }

    fn drop_all(&mut self, key: (i32, i32, i32))
        requires
            old(self).wf(),
        ensures
            final(self).wf(),
            final(self).other_bytes() == old(self).other_bytes(),
            final(self)@ == old(self)@.dropped(key),
    {
        proof {
            law_drop_leaves_nothing(self@, key);
        }
        match self.drop_chunk(key) {
            Some(m) => {
                forget_key(&mut self.lru_order, key);
            },
            None => {},
        }
        self.drop_water(key);
        self.drop_transparent(key);
    }

    /// Takes the glass meshes of some chunks out.
    pub fn evict_transparent_for_keys(&mut self, keys: &Vec<(i32, i32, i32)>)
        requires
            old(self).wf(),
        ensures
            final(self).wf(),
            final(self).other_bytes() == old(self).other_bytes(),
            final(self)@ == old(self)@.glass_dropped(keys@),
    {
        let mut i: usize = 0;
        assert(keys@.take(0) =~= Seq::<ChunkKey>::empty());
        while i < keys.len()
            invariant
                i <= keys@.len(),
                self.wf(),
                self.other_bytes() == old(self).other_bytes(),
                self@ == old(self)@.glass_dropped(keys@.take(i as int)),
            decreases keys@.len() - i,
        {
            let key: (i32, i32, i32) = keys[i];
            proof {
                let next = keys@.take(i as int + 1);
                assert(next.drop_last() =~= keys@.take(i as int));
                assert(next.last() == key);
            }
            self.drop_transparent(key);
            i += 1;
        }
        assert(keys@.take(keys@.len() as int) =~= keys@);
    }

    /// Puts the water mesh of a chunk in, in place of the one it had.
    pub fn insert_water_mesh(
        &mut self,
        key: (i32, i32, i32),
        index_count: u32,
        vram_bytes: u64,
        aabb_min: [u32; 3],
        aabb_max: [u32; 3],
    )
        requires
            old(self).wf(),
            old(self)@.usage + vram_bytes <= u64::MAX,
        ensures
            final(self).wf(),
            final(self).other_bytes() == old(self).other_bytes(),
            final(self)@ == (PipelineModel {
                water: old(self)@.water.insert(
                    key,
                    (ChunkMesh { index_count, vram_bytes, aabb_min, aabb_max }),
                ),
                usage: (if old(self)@.water.dom().contains(key) {
                    less_bytes(old(self)@.usage, old(self)@.water[key].vram_bytes as int)
                } else {
                    old(self)@.usage
                }) + vram_bytes,
                ..old(self)@
            }),
    {
        self.drop_water(key);
        self.vram_usage = self.vram_usage + vram_bytes;
        put_mesh(
            &mut self.water_meshes,
            key,
            ChunkMesh { index_count, vram_bytes, aabb_min, aabb_max },
        );
        assert(self@.water =~= old(self)@.water.insert(
            key,
            ChunkMesh { index_count, vram_bytes, aabb_min, aabb_max },
        ));
    }

    /// Puts the glass mesh of a chunk in, in place of the one it had.
    pub fn insert_transparent_mesh(
        &mut self,
        key: (i32, i32, i32),
        index_count: u32,
        vram_bytes: u64,
        aabb_min: [u32; 3],
        aabb_max: [u32; 3],
    )
        requires
            old(self).wf(),
            old(self)@.usage + vram_bytes <= u64::MAX,
        ensures
            final(self).wf(),
            final(self).other_bytes() == old(self).other_bytes(),
            final(self)@ == (PipelineModel {
                transparent: old(self)@.transparent.insert(
                    key,
                    (ChunkMesh { index_count, vram_bytes, aabb_min, aabb_max }),
                ),
                usage: (if old(self)@.transparent.dom().contains(key) {
                    less_bytes(old(self)@.usage, old(self)@.transparent[key].vram_bytes as int)
                } else {
                    old(self)@.usage
                }) + vram_bytes,
                ..old(self)@
            }),
    {
        self.drop_transparent(key);
        self.vram_usage = self.vram_usage + vram_bytes;
        put_mesh(
            &mut self.transparent_meshes,
            key,
            ChunkMesh { index_count, vram_bytes, aabb_min, aabb_max },
        );
        assert(self@.transparent =~= old(self)@.transparent.insert(
            key,
            ChunkMesh { index_count, vram_bytes, aabb_min, aabb_max },
        ));
    }

    /// Whether the depth texture has to be made anew for a picture of this
    /// size; counts its memory if so.
    pub fn ensure_depth(&mut self, width: u32, height: u32) -> (r: bool)
        requires
            old(self).wf(),
            old(self)@.usage + width * height * 4 <= u64::MAX,
        ensures
            final(self).wf(),
            final(self).mesh_total() == old(self).mesh_total(),
            final(self).other_bytes() == old(self).other_bytes(),
            r == (old(self)@.depth_size != (width, height)),
            final(self)@ == old(self)@.depth_ensured(width, height),
    {
        if self.depth_size.0 == width && self.depth_size.1 == height {
            return false;
        }
        proof {
            self.lemma_parts();
            lemma_depth_bytes(width, height);
            assert(0 <= width * height <= width * height * 4) by (nonlinear_arith);
            let ow = self.depth_size.0;
            let oh = self.depth_size.1;
            assert(0 <= ow * oh <= ow * oh * 4) by (nonlinear_arith);
            assert(ow * oh * 4 <= 4 * 0xffff_ffff * 0xffff_ffff) by (nonlinear_arith);
        }
        if self.depth_ready {
            let before: u64 = self.depth_size.0 as u64 * self.depth_size.1 as u64 * 4;
            self.vram_usage = self.vram_usage.saturating_sub(before);
        }
        self.vram_usage = self.vram_usage + width as u64 * height as u64 * 4;
        self.depth_ready = true;
        self.depth_size = (width, height);
        true
    }

    /// The memory in use, in bytes.
    pub fn vram_usage(&self) -> (r: u64)
        ensures
            r as int == self@.usage,
    {
        self.vram_usage
    }

    /// The number of chunk meshes that were drawn in the last frame.
    pub fn visible_chunks(&self) -> (r: u32)
        requires
            self.wf(),
            self@.culled <= self.chunk_list().len() <= u32::MAX,
        ensures
            r == self.chunk_list().len() - self@.culled,
    {
        self.gpu_chunk_count() as u32 - self.culled_last_frame
    }

    /// The number of chunk meshes on the GPU.
    pub fn gpu_chunk_count(&self) -> (r: usize)
        requires
            self.wf(),
        ensures
            r as int == self.chunk_list().len(),
    {
        self.chunk_meshes.len()
    }

    /// The chunk meshes in the order in which they are drawn.
    pub closed spec fn chunk_list(&self) -> Seq<(ChunkKey, ChunkMesh)> {
        self.chunk_meshes.entries()
    }

    /// The list holds each chunk mesh once.
    pub proof fn law_chunk_list(&self)
        requires
            self.wf(),
        ensures
            crate::table::distinct(self.chunk_list()),
            crate::table::map_of(self.chunk_list()) == self@.chunks,
    {
        self.chunk_meshes.lemma_wf();
    }

    /// The chunk whose mesh is at place `i` of the drawing order.
    pub fn chunk_key(&self, i: usize) -> (r: Option<(i32, i32, i32)>)
        ensures
            r == (if i < self.chunk_list().len() {
                Some(self.chunk_list()[i as int].0)
            } else {
                None
            }),
    {
        if i < self.chunk_meshes.len() {
            Some(*self.chunk_meshes.key_at(i))
        } else {
            None
        }
    }

    /// The bounding boxes of the chunk meshes.
    pub fn chunk_aabbs(&self) -> (r: Vec<([u32; 3], [u32; 3])>)
        requires
            self.wf(),
        ensures
            r@ == self.chunk_list().map_values(
                |e: (ChunkKey, ChunkMesh)| (e.1.aabb_min, e.1.aabb_max),
            ),
    {
        let mut r: Vec<([u32; 3], [u32; 3])> = Vec::new();
        let mut i: usize = 0;
        let n: usize = self.chunk_meshes.len();
        while i < n
            invariant
                i <= n,
                n == self.chunk_meshes.entries().len(),
                r@ == self.chunk_list().take(i as int).map_values(
                    |e: (ChunkKey, ChunkMesh)| (e.1.aabb_min, e.1.aabb_max),
                ),
            decreases n - i,
        {
            let m: ChunkMesh = *self.chunk_meshes.value_at(i);
            r.push((m.aabb_min, m.aabb_max));
            proof {
                let f = |e: (ChunkKey, ChunkMesh)| (e.1.aabb_min, e.1.aabb_max);
                let l = self.chunk_list();
                assert(l.take(i as int + 1) =~= l.take(i as int).push(l[i as int]));
                assert(l.take(i as int + 1).map_values(f) =~= l.take(i as int).map_values(f).push(
                    f(l[i as int]),
                ));
            }
            i += 1;
        }
        assert(self.chunk_list().take(n as int) =~= self.chunk_list());
        r
    }
}

impl PipelineModel {
    /// The books after the depth texture was made for a picture of this size,
    /// where it had another one.
    pub open spec fn depth_ensured(self, width: u32, height: u32) -> PipelineModel {
        if self.depth_size == (width, height) {
            self
        } else {
            PipelineModel {
                usage: less_bytes(self.usage, self.depth_bytes()) + width * height * 4,
                depth_ready: true,
                depth_size: (width, height),
                ..self
            }
        }
    }
}

/// The order names each chunk of the map, once, and no other.
pub open spec fn names_all(lru: Seq<ChunkKey>, chunks: Map<ChunkKey, ChunkMesh>) -> bool {
    &&& lru.no_duplicates()
    &&& forall|k: ChunkKey|
        #![trigger lru.contains(k)]
        #![trigger chunks.dom().contains(k)]
        lru.contains(k) <==> chunks.dom().contains(k)
}

/// The order of insertion names each chunk that has a mesh, once, and no other.
pub open spec fn tracked_order(m: PipelineModel) -> bool {
    names_all(m.lru, m.chunks)
}

proof fn lemma_remove_tracked(s: Seq<ChunkKey>, i: int)
    requires
        s.no_duplicates(),
        0 <= i < s.len(),
    ensures
        s.remove(i).no_duplicates(),
        forall|j: ChunkKey|
            #![trigger s.remove(i).contains(j)]
            s.remove(i).contains(j) <==> s.contains(j) && j != s[i],
{
    let t = s.remove(i);
    assert forall|a: int, b: int| 0 <= a < t.len() && 0 <= b < t.len() && a != b implies t[a]
        != t[b] by {
        let a2 = if a < i { a } else { a + 1 };
        let b2 = if b < i { b } else { b + 1 };
        assert(t[a] == s[a2] && t[b] == s[b2]);
    }
    assert forall|j: ChunkKey| #![trigger t.contains(j)] t.contains(j) <==> s.contains(j) && j
        != s[i] by {
        if t.contains(j) {
            let a = choose|a: int| 0 <= a < t.len() && t[a] == j;
            assert(s[if a < i { a } else { a + 1 }] == j);
        }
        if s.contains(j) && j != s[i] {
            let a = choose|a: int| 0 <= a < s.len() && s[a] == j;
            assert(t[if a < i { a } else { a - 1 }] == j);
        }
    }
}

proof fn lemma_without_first_tracked(s: Seq<ChunkKey>, k: ChunkKey)
    requires
        s.no_duplicates(),
    ensures
        without_first(s, k).no_duplicates(),
        forall|j: ChunkKey|
            #![trigger without_first(s, k).contains(j)]
            without_first(s, k).contains(j) <==> s.contains(j) && j != k,
{
    if s.contains(k) {
        let i = choose|i: int| 0 <= i < s.len() && s[i] == k;
        lemma_without_first(s, k, i);
        lemma_remove_tracked(s, i);
    } else {
        lemma_without_first(s, k, s.len() as int);
    }
}

proof fn lemma_push_tracked(s: Seq<ChunkKey>, k: ChunkKey)
    requires
        s.no_duplicates(),
        !s.contains(k),
    ensures
        s.push(k).no_duplicates(),
        forall|j: ChunkKey|
            #![trigger s.push(k).contains(j)]
            s.push(k).contains(j) <==> s.contains(j) || j == k,
{
    let t = s.push(k);
    assert forall|a: int, b: int| 0 <= a < t.len() && 0 <= b < t.len() && a != b implies t[a]
        != t[b] by {
        if a == s.len() {
            assert(s.contains(s[b]));
        } else if b == s.len() {
            assert(s.contains(s[a]));
        }
    }
    assert forall|j: ChunkKey| #![trigger t.contains(j)] t.contains(j) <==> s.contains(j) || j
        == k by {
        if t.contains(j) {
            let a = choose|a: int| 0 <= a < t.len() && t[a] == j;
            if a < s.len() {
                assert(s[a] == j);
            }
        }
        if s.contains(j) {
            let a = choose|a: int| 0 <= a < s.len() && s[a] == j;
            assert(t[a] == j);
        }
        assert(t[s.len() as int] == k);
    }
}

proof fn lemma_with_chunk_tracked(m: PipelineModel, key: ChunkKey, mesh: ChunkMesh)
    requires
        tracked_order(m),
    ensures
        tracked_order(m.with_chunk(key, mesh)),
{
    lemma_without_first_tracked(m.lru, key);
    let kept = if m.chunks.dom().contains(key) {
        without_first(m.lru, key)
    } else {
        m.lru
    };
    assert(!kept.contains(key));
    lemma_push_tracked(kept, key);
}

/// `gone` left the chunks of `e`, from far to near, and `r` is what stayed.
spec fn left_far_first(
    e: Eviction,
    r: Eviction,
    gone: Seq<ChunkKey>,
    key: ChunkKey,
    center: ChunkKey,
) -> bool {
    &&& forall|i: int|
        #![trigger gone[i]]
        0 <= i < gone.len() ==> gone[i] != key && e.chunks.dom().contains(gone[i])
    &&& forall|i: int, k: ChunkKey|
        #![trigger gone[i], r.chunks.dom().contains(k)]
        0 <= i < gone.len() && k != key && r.chunks.dom().contains(k) ==> apart(gone[i], center)
            >= apart(k, center)
    &&& forall|i: int, j: int|
        #![trigger gone[i], gone[j]]
        0 <= i < j < gone.len() ==> apart(gone[i], center) >= apart(gone[j], center)
    &&& forall|k: ChunkKey|
        #![trigger r.chunks.dom().contains(k)]
        r.chunks.dom().contains(k) <==> e.chunks.dom().contains(k) && !gone.contains(k)
    &&& forall|k: ChunkKey|
        #![trigger r.chunks[k]]
        r.chunks.dom().contains(k) ==> r.chunks[k] == e.chunks[k]
}

/// One step of the eviction keeps the order complete.
proof fn lemma_evict_step(e: Eviction, i: int)
    requires
        names_all(e.lru, e.chunks),
        0 <= i < e.lru.len(),
    ensures
        e.chunks.dom().contains(e.lru[i]),
        names_all(e.lru.remove(i), e.chunks.remove(e.lru[i])),
{
    lemma_remove_tracked(e.lru, i);
    assert(e.lru.contains(e.lru[i]));
    let rest = e.lru.remove(i);
    let left = e.chunks.remove(e.lru[i]);
    assert forall|k: ChunkKey|
        #![trigger rest.contains(k)]
        #![trigger left.dom().contains(k)]
        rest.contains(k) <==> left.dom().contains(k) by {
        assert(e.lru.contains(k) <==> e.chunks.dom().contains(k));
    }
}

/// What left after `far` did, `far` before it.
proof fn lemma_far_first(
    e: Eviction,
    f: Eviction,
    r: Eviction,
    gone: Seq<ChunkKey>,
    key: ChunkKey,
    center: ChunkKey,
    far: ChunkKey,
)
    requires
        far != key,
        e.chunks.dom().contains(far),
        f.chunks == e.chunks.remove(far),
        left_far_first(f, r, gone, key, center),
        forall|k: ChunkKey|
            #![trigger e.chunks.dom().contains(k)]
            k != key && e.chunks.dom().contains(k) ==> apart(far, center) >= apart(k, center),
    ensures
        left_far_first(e, r, seq![far] + gone, key, center),
{
    let all = seq![far] + gone;
    assert(forall|i: int| #![trigger all[i]] 0 < i < all.len() ==> all[i] == gone[i - 1]);
    assert forall|i: int| #![trigger all[i]] 0 <= i < all.len() implies all[i] != key
        && e.chunks.dom().contains(all[i]) by {
        if i > 0 {
            assert(f.chunks.dom().contains(gone[i - 1]));
        }
    }
    assert forall|i: int, k: ChunkKey|
        #![trigger all[i], r.chunks.dom().contains(k)]
        0 <= i < all.len() && k != key && r.chunks.dom().contains(k) implies apart(all[i], center)
        >= apart(k, center) by {
        if i == 0 {
            assert(e.chunks.dom().contains(k));
        } else {
            assert(all[i] == gone[i - 1]);
        }
    }
    assert forall|i: int, j: int| #![trigger all[i], all[j]] 0 <= i < j < all.len() implies apart(
        all[i],
        center,
    ) >= apart(all[j], center) by {
        assert(all[j] == gone[j - 1]);
        if i == 0 {
            assert(f.chunks.dom().contains(gone[j - 1]));
            assert(e.chunks.dom().contains(gone[j - 1]));
        } else {
            assert(all[i] == gone[i - 1]);
        }
    }
    assert forall|k: ChunkKey| #![trigger r.chunks.dom().contains(k)] r.chunks.dom().contains(k)
        <==> e.chunks.dom().contains(k) && !all.contains(k) by {
        assert(all[0] == far);
        if gone.contains(k) {
            let i = choose|i: int| 0 <= i < gone.len() && gone[i] == k;
            assert(all[i + 1] == k);
        }
        if all.contains(k) && k != far {
            let i = choose|i: int| 0 <= i < all.len() && all[i] == k;
            assert(gone[i - 1] == k);
        }
    }
}

proof fn lemma_evict(e: Eviction, key: ChunkKey, center: ChunkKey) -> (gone: Seq<ChunkKey>)
    requires
        names_all(e.lru, e.chunks),
        e.chunks.dom().contains(key),
    ensures
        names_all(evict(e, key, center).lru, evict(e, key, center).chunks),
        evict(e, key, center).usage <= CHUNK_MESH_VRAM_BUDGET || evict(
            e,
            key,
            center,
        ).chunks.dom() == set![key],
        evict(e, key, center).evicted == e.evicted + gone,
        left_far_first(e, evict(e, key, center), gone, key, center),
    decreases e.lru.len(),
{
    let i = farthest(e.lru, key, center);
    law_farthest(e.lru, key, center);
    if e.usage <= CHUNK_MESH_VRAM_BUDGET || i < 0 {
        assert(e.evicted + Seq::<ChunkKey>::empty() =~= e.evicted);
        if i < 0 {
            assert forall|k: ChunkKey| e.chunks.dom().contains(k) <==> set![key].contains(k) by {
                if e.chunks.dom().contains(k) {
                    assert(e.lru.contains(k));
                    let j = choose|j: int| 0 <= j < e.lru.len() && e.lru[j] == k;
                    assert(e.lru[j] == key);
                }
            }
            assert(e.chunks.dom() =~= set![key]);
        }
        Seq::empty()
    } else {
        let far = e.lru[i];
        lemma_evict_step(e, i);
        let f = Eviction {
            usage: less_bytes(e.usage, e.chunks[far].vram_bytes as int),
            chunks: e.chunks.remove(far),
            lru: e.lru.remove(i),
            evicted: e.evicted.push(far),
        };
        let later = lemma_evict(f, key, center);
        assert forall|k: ChunkKey| #![trigger e.chunks.dom().contains(k)] k != key
            && e.chunks.dom().contains(k) implies apart(far, center) >= apart(k, center) by {
            assert(e.lru.contains(k));
            let j = choose|j: int| 0 <= j < e.lru.len() && e.lru[j] == k;
            assert(e.lru[j] == k);
        }
        lemma_far_first(e, f, evict(e, key, center), later, key, center, far);
        assert(e.evicted.push(far) + later =~= e.evicted + (seq![far] + later));
        seq![far] + later
    }
}

/// Inserting a mesh keeps the budget, unless the inserted mesh is the only
/// chunk mesh that is left. The inserted mesh stays. Those that leave are the
/// farthest from the camera: none of them is nearer than one that stays, and
/// they leave from far to near.
pub proof fn law_insert_keeps_budget(m: PipelineModel, key: ChunkKey, mesh: ChunkMesh)
    requires
        tracked_order(m),
    ensures
        tracked_order(m.inserted(key, mesh)),
        m.inserted(key, mesh).usage <= CHUNK_MESH_VRAM_BUDGET || m.inserted(
            key,
            mesh,
        ).chunks.dom() == set![key],
        m.inserted(key, mesh).chunks.dom().contains(key),
        m.inserted(key, mesh).chunks[key] == mesh,
        ({
            let a = m.with_chunk(key, mesh);
            let after = m.inserted(key, mesh);
            let gone = a.eviction(key).evicted;
            &&& forall|i: int|
                #![trigger gone[i]]
                0 <= i < gone.len() ==> gone[i] != key && m.chunks.dom().contains(gone[i])
            &&& forall|i: int, k: ChunkKey|
                #![trigger gone[i], after.chunks.dom().contains(k)]
                0 <= i < gone.len() && k != key && after.chunks.dom().contains(k) ==> apart(
                    gone[i],
                    m.center,
                ) >= apart(k, m.center)
            &&& forall|i: int, j: int|
                #![trigger gone[i], gone[j]]
                0 <= i < j < gone.len() ==> apart(gone[i], m.center) >= apart(gone[j], m.center)
            &&& forall|k: ChunkKey|
                #![trigger after.chunks.dom().contains(k)]
                after.chunks.dom().contains(k) <==> a.chunks.dom().contains(k) && !gone.contains(k)
        }),
{
    let a = m.with_chunk(key, mesh);
    lemma_with_chunk_tracked(m, key, mesh);
    let e = Eviction { usage: a.usage, chunks: a.chunks, lru: a.lru, evicted: Seq::empty() };
    let gone = lemma_evict(e, key, m.center);
    assert(a.eviction(key).evicted =~= gone);
    let after = m.inserted(key, mesh);
    assert(a.chunks.dom().contains(key));
    assert(!gone.contains(key)) by {
        if gone.contains(key) {
            let i = choose|i: int| 0 <= i < gone.len() && gone[i] == key;
            assert(gone[i] != key);
        }
    }
    assert(after.chunks.dom().contains(key));
    assert(after.chunks[key] == a.chunks[key]);
}

proof fn lemma_uploaded_keeps_depth(m: PipelineModel, ups: Seq<MeshUpload>)
    ensures
        m.uploaded(ups).depth_bytes() == m.depth_bytes(),
    decreases ups.len(),
{
    if ups.len() > 0 {
        lemma_uploaded_keeps_depth(m, ups.drop_last());
    }
}

/// Replacing meshes keeps every chunk mesh in the order of insertion.
pub proof fn law_upload_keeps_order(m: PipelineModel, ups: Seq<MeshUpload>)
    requires
        tracked_order(m),
    ensures
        tracked_order(m.uploaded(ups)),
    decreases ups.len(),
{
    if ups.len() > 0 {
        let b = m.uploaded(ups.drop_last());
        let up = ups.last();
        law_upload_keeps_order(m, ups.drop_last());
        lemma_without_first_tracked(b.lru, up.key);
        lemma_with_chunk_tracked(b, up.key, up.mesh());
    }
}

/// Taking the meshes of a chunk out leaves no mesh of it, and keeps the order
/// of insertion in step.
pub proof fn law_drop_leaves_nothing(m: PipelineModel, key: ChunkKey)
    requires
        tracked_order(m),
    ensures
        tracked_order(m.dropped(key)),
        !m.dropped(key).chunks.dom().contains(key),
        !m.dropped(key).water.dom().contains(key),
        !m.dropped(key).transparent.dom().contains(key),
        !m.dropped(key).lru.contains(key),
{
    lemma_without_first_tracked(m.lru, key);
}

/// Taking the meshes of some chunks out leaves no mesh of any of them and
/// touches no other chunk.
pub proof fn law_drop_all(m: PipelineModel, keys: Seq<ChunkKey>, k: ChunkKey)
    requires
        tracked_order(m),
    ensures
        tracked_order(m.dropped_all(keys)),
        m.dropped_all(keys).chunks.dom().contains(k) <==> m.chunks.dom().contains(k)
            && !keys.contains(k),
        m.dropped_all(keys).water.dom().contains(k) <==> m.water.dom().contains(k)
            && !keys.contains(k),
        m.dropped_all(keys).transparent.dom().contains(k) <==> m.transparent.dom().contains(k)
            && !keys.contains(k),
    decreases keys.len(),
{
    if keys.len() > 0 {
        let before = keys.drop_last();
        law_drop_all(m, before, k);
        law_drop_leaves_nothing(m.dropped_all(before), keys.last());
        assert(keys =~= before.push(keys.last()));
        if before.contains(k) {
            let i = choose|i: int| 0 <= i < before.len() && before[i] == k;
            assert(keys[i] == k);
        }
        if keys.contains(k) && !before.contains(k) {
            let i = choose|i: int| 0 <= i < keys.len() && keys[i] == k;
            if i < before.len() {
                assert(before[i] == k);
            }
        }
        if k == keys.last() {
            assert(keys[keys.len() - 1] == k);
        }
    }
}

/// How many of the first `n` entries are flagged.
pub open spec fn flag_count(flags: Seq<bool>, n: int) -> int
    decreases n,
{
    if n <= 0 {
        0
    } else {
        flag_count(flags, n - 1) + if flags[n - 1] {
            1int
        } else {
            0int
        }
    }
}

/// The triangles of the flagged meshes among the first `n`.
pub open spec fn flagged_triangles(s: Seq<(ChunkKey, ChunkMesh)>, flags: Seq<bool>, n: int) -> int
    decreases n,
{
    if n <= 0 {
        0
    } else {
        flagged_triangles(s, flags, n - 1) + if flags[n - 1] {
            s[n - 1].1.index_count as int / 3
        } else {
            0
        }
    }
}

/// The memory of the flagged meshes among the first `n`.
pub open spec fn flagged_bytes(s: Seq<(ChunkKey, ChunkMesh)>, flags: Seq<bool>, n: int) -> int
    decreases n,
{
    if n <= 0 {
        0
    } else {
        flagged_bytes(s, flags, n - 1) + if flags[n - 1] {
            s[n - 1].1.vram_bytes as int
        } else {
            0
        }
    }
}

/// The flagged positions below `n`, in order.
pub open spec fn flagged(flags: Seq<bool>, n: int) -> Seq<int>
    decreases n,
{
    if n <= 0 {
        seq![]
    } else if flags[n - 1] {
        flagged(flags, n - 1).push(n - 1)
    } else {
        flagged(flags, n - 1)
    }
}

proof fn lemma_flagged(s: Seq<(ChunkKey, ChunkMesh)>, flags: Seq<bool>, n: int)
    requires
        0 <= n <= s.len(),
        s.len() == flags.len(),
    ensures
        0 <= flag_count(flags, n) <= n,
        flagged(flags, n).len() == flag_count(flags, n),
        0 <= flagged_triangles(s, flags, n) <= flagged_triangles(s, flags, s.len() as int),
        0 <= flagged_bytes(s, flags, n) <= bytes_of(s.take(n)),
    decreases n,
{
    if n > 0 {
        lemma_flagged(s, flags, n - 1);
        assert(s.take(n).drop_last() =~= s.take(n - 1));
    } else {
        assert(s.take(0) =~= Seq::empty());
    }
    lemma_triangles_grow(s, flags, n, s.len() as int);
    lemma_triangles_grow(s, flags, 0, n);
}

proof fn lemma_triangles_grow(s: Seq<(ChunkKey, ChunkMesh)>, flags: Seq<bool>, n: int, m: int)
    requires
        0 <= n <= m <= s.len(),
    ensures
        flagged_triangles(s, flags, n) <= flagged_triangles(s, flags, m),
    decreases m - n,
{
    if n < m {
        lemma_triangles_grow(s, flags, n, m - 1);
    }
}

/// A model's wireframe or the outline of a block, drawn round the block that
/// is aimed at.
#[derive(Debug, Clone, Copy, PartialEq, Eq, Structural)]
pub struct OutlinePlan {
    /// The pipeline of outlines has to be made first.
    pub init: bool,
    /// The depth texture has to be made anew.
    pub new_depth: bool,
    /// The wireframe of the model is drawn in place of the block's outline.
    pub use_model: bool,
    pub vertex_count: u32,
}

/// How debug lines are drawn.
#[derive(Debug, Clone, Copy, PartialEq, Eq, Structural)]
pub struct LinesPlan {
    /// The pipeline of debug lines has to be made first.
    pub init: bool,
    /// The vertex buffer has to be made anew with room for all vertices.
    pub grow: bool,
    pub byte_len: u64,
}

/// What to do about a pass of translucent meshes.
#[derive(Debug, Clone, Copy, PartialEq, Eq, Structural)]
pub struct PassPlan {
    /// The pipeline of the pass has to be made first.
    pub init: bool,
    /// The meshes are drawn.
    pub draw: bool,
}

impl PipelineModel {
    /// The bind group of the main pass belongs to these texture views.
    pub open spec fn bound_to(self, atlas: usize, normal_atlas: usize) -> bool {
        self.bind_group_ready && self.cached_atlas == atlas && self.cached_normal_atlas
            == normal_atlas
    }

    /// The books after the bind group was made for these texture views.
    pub open spec fn rebound(self, atlas: usize, normal_atlas: usize) -> PipelineModel {
        PipelineModel {
            bind_group_ready: true,
            cached_atlas: atlas,
            cached_normal_atlas: normal_atlas,
            ..self
        }
    }

    /// The books after the outline's buffers were made.
    pub open spec fn outline_made(self) -> PipelineModel {
        if self.outline_ready {
            self
        } else {
            PipelineModel {
                outline_ready: true,
                usage: self.usage + OUTLINE_VERTICES * POSITION_SIZE + OUTLINE_UNIFORM_SIZE,
                ..self
            }
        }
    }
}

impl Game3DPipeline {
    /// Whether the bind group of the main pass has to be made anew for these
    /// texture views; takes down that it is.
    pub fn bind_group_stale(&mut self, atlas: usize, normal_atlas: usize) -> (r: bool)
        requires
            old(self).wf(),
        ensures
            final(self).wf(),
            r == !old(self)@.bound_to(atlas, normal_atlas),
            final(self)@ == old(self)@.rebound(atlas, normal_atlas),
            final(self).mesh_total() == old(self).mesh_total(),
    {
        let stale: bool = !self.bind_group_ready || atlas != self.cached_atlas || normal_atlas
            != self.cached_normal_atlas;
        self.bind_group_ready = true;
        self.cached_atlas = atlas;
        self.cached_normal_atlas = normal_atlas;
        stale
    }

    /// Whether the bind group of the water pass has to be made anew: when there
    /// is none, or it was made for another atlas; takes down that it is.
    pub fn water_bind_group_stale(&mut self, atlas: usize) -> (r: bool)
        requires
            old(self).wf(),
        ensures
            final(self).wf(),
            r == (!old(self)@.water_bind_group_ready || atlas != old(self)@.water_atlas),
            final(self)@ == (PipelineModel {
                water_bind_group_ready: true,
                water_atlas: atlas,
                ..old(self)@
            }),
            final(self).mesh_total() == old(self).mesh_total(),
    {
        let stale: bool = !self.water_bind_group_ready || atlas != self.water_atlas;
        self.water_bind_group_ready = true;
        self.water_atlas = atlas;
        stale
    }

    /// Takes down which chunk meshes the camera sees, one flag per mesh in
    /// drawing order, and returns the positions of those to draw. Where none is
    /// seen, only the number of culled meshes changes.
    pub fn count_visible(&mut self, seen: &Vec<bool>) -> (r: Vec<usize>)
        requires
            old(self).wf(),
            seen@.len() == old(self).chunk_list().len(),
            seen@.len() <= u32::MAX,
            flagged_triangles(old(self).chunk_list(), seen@, seen@.len() as int) <= u32::MAX,
        ensures
            final(self).wf(),
            final(self).chunk_list() == old(self).chunk_list(),
            r@.map_values(|i: usize| i as int) == flagged(seen@, seen@.len() as int),
            final(self)@ == (PipelineModel {
                culled: seen@.len() - flag_count(seen@, seen@.len() as int),
                ..(if flag_count(seen@, seen@.len() as int) == 0 {
                    old(self)@
                } else {
                    PipelineModel {
                        draw_calls: flag_count(seen@, seen@.len() as int),
                        triangles: flagged_triangles(
                            old(self).chunk_list(),
                            seen@,
                            seen@.len() as int,
                        ),
                        visible_bytes: flagged_bytes(
                            old(self).chunk_list(),
                            seen@,
                            seen@.len() as int,
                        ),
                        ..old(self)@
                    }
                })
            }),
    {
        let mut drawn: Vec<usize> = Vec::new();
        let mut visible: u32 = 0;
        let mut culled: u32 = 0;
        let mut tris: u32 = 0;
        let mut bytes: u64 = 0;
        let n: usize = seen.len();
        let mut i: usize = 0;
        let ghost list = self.chunk_list();
        proof {
            self.lemma_parts();
        }
        assert(drawn@.map_values(|i: usize| i as int) =~= flagged(seen@, 0));
        while i < n
            invariant
                i <= n,
                n == seen@.len(),
                n == list.len(),
                n <= u32::MAX,
                list == self.chunk_meshes.entries(),
                bytes_of(list) <= u64::MAX,
                flagged_triangles(list, seen@, n as int) <= u32::MAX,
                visible == flag_count(seen@, i as int),
                visible + culled == i,
                tris == flagged_triangles(list, seen@, i as int),
                bytes == flagged_bytes(list, seen@, i as int),
                drawn@.map_values(|i: usize| i as int) == flagged(seen@, i as int),
            decreases n - i,
        {
            proof {
                lemma_flagged(list, seen@, i as int + 1);
                lemma_bytes_prefix(list, i as int + 1);
            }
            let ghost before = drawn@;
            if seen[i] {
                let m: ChunkMesh = *self.chunk_meshes.value_at(i);
                visible = visible + 1;
                tris = tris + m.index_count / 3;
                bytes = bytes + m.vram_bytes;
                drawn.push(i);
                assert(drawn@.map_values(|i: usize| i as int) =~= before.map_values(
                    |i: usize| i as int,
                ).push(i as int));
            } else {
                culled = culled + 1;
            }
            i += 1;
        }
        self.culled_last_frame = culled;
        if visible > 0 {
            self.last_draw_calls = visible;
            self.last_visible_triangles = tris;
            self.last_visible_vram_bytes = bytes;
        }
        drawn
    }

    /// What to do about the water pass: nothing without water meshes; else its
    /// pipeline is made if need be, and the meshes are drawn once there is a
    /// depth texture.
    pub fn plan_water(&mut self) -> (r: PassPlan)
        requires
            old(self).wf(),
        ensures
            final(self).wf(),
            final(self).mesh_total() == old(self).mesh_total(),
            r.init == (old(self)@.water.dom() != Set::<ChunkKey>::empty() && !old(
                self,
            )@.water_ready),
            r.draw == (old(self)@.water.dom() != Set::<ChunkKey>::empty()
                && old(self)@.depth_ready),
            final(self)@ == (PipelineModel {
                water_ready: old(self)@.water_ready || r.init,
                ..old(self)@
            }),
    {
        let some: bool = has_entries(&self.water_meshes);
        if !some {
            return PassPlan { init: false, draw: false };
        }
        let init: bool = !self.water_ready;
        self.water_ready = true;
        PassPlan { init, draw: self.depth_ready }
    }

    /// What to do about the glass pass: nothing without glass meshes or without
    /// a depth texture; else its pipeline is made if need be, and the meshes
    /// are drawn.
    pub fn plan_transparent(&mut self) -> (r: PassPlan)
        requires
            old(self).wf(),
        ensures
            final(self).wf(),
            final(self).mesh_total() == old(self).mesh_total(),
            r.draw == (old(self)@.transparent.dom() != Set::<ChunkKey>::empty()
                && old(self)@.depth_ready),
            r.init == (r.draw && !old(self)@.transparent_ready),
            final(self)@ == (PipelineModel {
                transparent_ready: old(self)@.transparent_ready || r.init,
                ..old(self)@
            }),
    {
        let some: bool = has_entries(&self.transparent_meshes);
        if !some || !self.depth_ready {
            return PassPlan { init: false, draw: false };
        }
        let init: bool = !self.transparent_ready;
        self.transparent_ready = true;
        PassPlan { init, draw: true }
    }

    /// Whether the GPU can draw wireframes.
    pub fn wireframe_supported(&self) -> (r: bool)
        ensures
            r == self@.wireframe_supported,
    {
        self.wireframe_supported
    }

    /// Whether wireframes are drawn over the chunks.
    pub fn wireframe_drawn(&self) -> (r: bool)
        ensures
            r == (self@.wireframe_supported && self@.depth_ready),
    {
        self.wireframe_supported && self.depth_ready
    }

    /// Keeps the wireframe of a model, given by its number of vertices. A
    /// wireframe without vertices is not kept.
    pub fn register_model_outline(&mut self, name: String, vertices: u32) -> (r: bool)
        requires
            old(self).wf(),
            old(self)@.usage + POSITION_SIZE * vertices <= u64::MAX,
        ensures
            final(self).wf(),
            final(self).mesh_total() == old(self).mesh_total(),
            r == (vertices > 0),
            r ==> final(self)@.usage == old(self)@.usage + 12 * vertices,
            final(self)@ == (if r {
                PipelineModel {
                    outline_models: old(self)@.outline_models.insert(name@, vertices),
                    usage: old(self)@.usage + POSITION_SIZE * vertices,
                    ..old(self)@
                }
            } else {
                old(self)@
            }),
    {
        if vertices == 0 {
            return false;
        }
        self.vram_usage = self.vram_usage + POSITION_SIZE * vertices as u64;
        self.outline_models.insert(name, vertices);
        true
    }

    /// How the outline of the aimed-at block is drawn: not at all without such
    /// a block or without a depth texture; else with the model's wireframe
    /// where one is known, and with the outline of a block where not.
    pub fn plan_outline(
        &mut self,
        aimed: bool,
        width: u32,
        height: u32,
        model_name: Option<&String>,
    ) -> (r: Option<OutlinePlan>)
        requires
            old(self).wf(),
            old(self)@.outline_made().usage + width * height * 4 <= u64::MAX,
        ensures
            final(self).wf(),
            final(self).mesh_total() == old(self).mesh_total(),
            r is Some <==> aimed && old(self)@.depth_ready,
            r is None ==> final(self)@ == old(self)@,
            r matches Some(p) ==> {
                let known = model_name is Some && old(self)@.outline_models.dom().contains(
                    model_name->Some_0@,
                );
                &&& p.init == !old(self)@.outline_ready
                &&& p.new_depth == (old(self)@.depth_size != (width, height))
                &&& p.use_model == known
                &&& !known ==> p.vertex_count == 24
                &&& p.vertex_count == (if known {
                    old(self)@.outline_models[model_name->Some_0@]
                } else {
                    OUTLINE_VERTICES
                })
                &&& final(self)@ == old(self)@.outline_made().depth_ensured(width, height)
            },
    {
        if !aimed || !self.depth_ready {
            return None;
        }
        let init: bool = !self.outline_ready;
        if init {
            self.vram_usage = self.vram_usage + OUTLINE_VERTICES as u64 * POSITION_SIZE
                + OUTLINE_UNIFORM_SIZE;
            self.outline_ready = true;
        }
        let new_depth: bool = self.ensure_depth(width, height);
        let known: Option<u32> = match model_name {
            Some(n) => match self.outline_models.get(n) {
                Some(c) => Some(*c),
                None => None,
            },
            None => None,
        };
        match known {
            Some(c) => Some(OutlinePlan { init, new_depth, use_model: true, vertex_count: c }),
            None => Some(
                OutlinePlan { init, new_depth, use_model: false, vertex_count: OUTLINE_VERTICES },
            ),
        }
    }

    /// How a number of debug vertices is drawn; nothing is done for none. The
    /// vertex buffer only ever grows.
    pub fn plan_debug_lines(&mut self, vertices: usize) -> (r: Option<LinesPlan>)
        requires
            old(self).wf(),
            vertices * DEBUG_VERTEX_SIZE <= u64::MAX,
        ensures
            final(self).wf(),
            final(self).mesh_total() == old(self).mesh_total(),
            r is Some <==> vertices > 0,
            r is None ==> final(self)@ == old(self)@,
            r matches Some(p) ==> {
                &&& p.init == !old(self)@.debug_lines_ready
                &&& p.grow == (old(self)@.debug_lines_cap < vertices)
                &&& p.byte_len == vertices * DEBUG_VERTEX_SIZE
                &&& p.byte_len == 28 * vertices
                &&& final(self)@ == (PipelineModel {
                    debug_lines_ready: true,
                    debug_lines_cap: if old(self)@.debug_lines_cap < vertices {
                        vertices as int
                    } else {
                        old(self)@.debug_lines_cap
                    },
                    ..old(self)@
                })
            },
    {
        if vertices == 0 {
            return None;
        }
        let init: bool = !self.debug_lines_ready;
        self.debug_lines_ready = true;
        let grow: bool = self.debug_lines_cap < vertices;
        if grow {
            self.debug_lines_cap = vertices;
        }
        Some(LinesPlan { init, grow, byte_len: vertices as u64 * DEBUG_VERTEX_SIZE })
    }

    /// Number of chunk meshes that the camera did not see last.
    pub fn culled_last_frame(&self) -> (r: u32)
        ensures
            r as int == self@.culled,
    {
        self.culled_last_frame
    }

    /// Number of draw calls of the last pass that drew anything.
    pub fn last_draw_calls(&self) -> (r: u32)
        ensures
            r as int == self@.draw_calls,
    {
        self.last_draw_calls
    }

    /// Number of triangles of the last pass that drew anything.
    pub fn last_visible_triangles(&self) -> (r: u32)
        ensures
            r as int == self@.triangles,
    {
        self.last_visible_triangles
    }

    /// Memory of the meshes of the last pass that drew anything.
    pub fn last_visible_vram_bytes(&self) -> (r: u64)
        ensures
            r as int == self@.visible_bytes,
    {
        self.last_visible_vram_bytes
    }
}

proof fn lemma_bytes_prefix(s: Seq<(ChunkKey, ChunkMesh)>, i: int)
    requires
        0 <= i <= s.len(),
    ensures
        bytes_of(s.take(i)) <= bytes_of(s),
    decreases s.len(),
{
    if i == s.len() {
        assert(s.take(i) =~= s);
    } else {
        lemma_bytes_prefix(s.drop_last(), i);
        assert(s.drop_last().take(i) =~= s.take(i));
    }
}

fn has_entries(t: &Table<(i32, i32, i32), ChunkMesh>) -> (r: bool)
    requires
        t.wf(),
    ensures
        r == (t@.dom() != Set::<ChunkKey>::empty()),
{
    let n: usize = t.len();
    proof {
        t.lemma_wf();
        if n > 0 {
            crate::table::lemma_entry(t.entries(), 0);
            assert(t@.dom().contains(t.entries()[0].0.id()));
        } else {
            assert forall|k: ChunkKey| !t@.dom().contains(k) by {
                if t@.dom().contains(k) {
                    let i = crate::table::lemma_position(t.entries(), k);
                }
            }
            assert(t@.dom() =~= Set::<ChunkKey>::empty());
        }
    }
    n > 0
}

/// The memory of meshes one behind the other adds up, and one mesh counts its
/// own bytes.
pub proof fn law_bytes_add_up(
    a: Seq<(ChunkKey, ChunkMesh)>,
    b: Seq<(ChunkKey, ChunkMesh)>,
    k: ChunkKey,
    m: ChunkMesh,
)
    ensures
        bytes_of(Seq::empty()) == 0,
        bytes_of(seq![(k, m)]) == m.vram_bytes,
        bytes_of(a + b) == bytes_of(a) + bytes_of(b),
        mesh_bytes(Some(m)) == m.vram_bytes,
        mesh_bytes(None) == 0,
    decreases b.len(),
{
    reveal_with_fuel(bytes_of, 2);
    assert(seq![(k, m)].drop_last() =~= Seq::empty());
    if b.len() == 0 {
        assert(a + b =~= a);
    } else {
        law_bytes_add_up(a, b.drop_last(), k, m);
        assert((a + b).drop_last() =~= a + b.drop_last());
    }
}

/// Taking bytes off an amount never goes below nothing, and is exact where
/// there are enough.
pub proof fn law_less_bytes(a: int, b: int)
    requires
        a >= 0,
        b >= 0,
    ensures
        0 <= less_bytes(a, b) <= a,
        b <= a ==> less_bytes(a, b) + b == a,
        a < b ==> less_bytes(a, b) == 0,
{
}

/// The distance of two chunks is the same both ways, is nothing only from a
/// chunk to itself, and is made of the squares of the three steps along the axes.
pub proof fn law_apart(a: ChunkKey, b: ChunkKey)
    ensures
        apart(a, b) == apart(b, a),
        apart(a, b) >= 0,
        apart(a, b) == 0 <==> a == b,
        apart(a, (b.0, a.1, a.2)) == (b.0 - a.0) * (b.0 - a.0),
        apart(a, (a.0, b.1, a.2)) == (b.1 - a.1) * (b.1 - a.1),
        apart(a, (a.0, a.1, b.2)) == (b.2 - a.2) * (b.2 - a.2),
        apart(a, b) == apart(a, (b.0, a.1, a.2)) + apart(a, (a.0, b.1, a.2)) + apart(
            a,
            (a.0, a.1, b.2),
        ),
{
    lemma_square(a.0 as int, b.0 as int);
    lemma_square(a.1 as int, b.1 as int);
    lemma_square(a.2 as int, b.2 as int);
    assert(0int * 0int == 0);
}

proof fn lemma_square(x: int, y: int)
    ensures
        (x - y) * (x - y) == (y - x) * (y - x),
        (x - y) * (x - y) >= 0,
        (x - y) * (x - y) == 0 <==> x == y,
{
    assert((x - y) * (x - y) == (y - x) * (y - x)) by (nonlinear_arith);
    assert((x - y) * (x - y) >= 0) by (nonlinear_arith);
    if x != y {
        assert((x - y) * (x - y) > 0) by (nonlinear_arith)
            requires
                x != y,
        ;
    } else {
        assert((x - y) * (x - y) == 0) by (nonlinear_arith)
            requires
                x == y,
        ;
    }
}

/// Taking a key out of an order takes its first occurrence: what stands before
/// it stays, and what stands behind it moves up by one. A key that is not there
/// takes nothing.
pub proof fn law_without_first(s: Seq<ChunkKey>, k: ChunkKey, i: int)
    requires
        0 <= i < s.len(),
    ensures
        !s.contains(k) ==> without_first(s, k) == s,
        s[i] == k && (forall|j: int| #![trigger s[j]] 0 <= j < i ==> s[j] != k) ==> without_first(
            s,
            k,
        ) == s.take(i) + s.skip(i + 1),
{
    if !s.contains(k) {
        assert forall|j: int| #![trigger s[j]] 0 <= j < s.len() implies s[j] != k by {
            if s[j] == k {
                assert(s.contains(k));
            }
        }
        lemma_without_first(s, k, s.len() as int);
    }
    if s[i] == k && (forall|j: int| #![trigger s[j]] 0 <= j < i ==> s[j] != k) {
        lemma_without_first(s, k, i);
        assert(s.remove(i) =~= s.take(i) + s.skip(i + 1));
    }
}

/// What chunks weigh whose meshes are given.
spec fn weight(keys: Seq<ChunkKey>, c: Map<ChunkKey, ChunkMesh>) -> int {
    bytes_of(keys.map_values(|k: ChunkKey| (k, c[k])))
}

proof fn lemma_weight(far: ChunkKey, rest: Seq<ChunkKey>, c: Map<ChunkKey, ChunkMesh>)
    ensures
        weight(seq![far] + rest, c) == c[far].vram_bytes + weight(rest, c),
        weight(rest, c) >= 0,
        weight(Seq::empty(), c) == 0,
{
    let f = |k: ChunkKey| (k, c[k]);
    assert((seq![far] + rest).map_values(f) =~= seq![(far, c[far])] + rest.map_values(f));
    law_bytes_add_up(seq![(far, c[far])], rest.map_values(f), far, c[far]);
    lemma_bytes_nonnegative(rest.map_values(f));
    assert(Seq::<ChunkKey>::empty().map_values(f) =~= Seq::empty());
}

/// The keys that leave, in the order in which they do.
proof fn lemma_evict_weighs(
    e: Eviction,
    key: ChunkKey,
    center: ChunkKey,
    c: Map<ChunkKey, ChunkMesh>,
) -> (gone: Seq<ChunkKey>)
    requires
        e.usage >= 0,
        forall|k: ChunkKey|
            #![trigger e.chunks.dom().contains(k)]
            e.chunks.dom().contains(k) ==> e.chunks[k] == c[k],
    ensures
        evict(e, key, center).evicted == e.evicted + gone,
        evict(e, key, center).usage >= e.usage - weight(gone, c),
        evict(e, key, center).usage >= 0,
        e.usage >= weight(gone, c) ==> evict(e, key, center).usage == e.usage - weight(gone, c),
        gone.len() > 0 ==> evict(e, key, center).usage + c[gone.last()].vram_bytes
            > CHUNK_MESH_VRAM_BUDGET,
        e.usage <= CHUNK_MESH_VRAM_BUDGET ==> gone.len() == 0,
        gone.len() == 0 ==> evict(e, key, center).usage == e.usage && evict(e, key, center).chunks
            == e.chunks,
        forall|k: ChunkKey|
            #![trigger evict(e, key, center).chunks.dom().contains(k)]
            evict(e, key, center).chunks.dom().contains(k) ==> e.chunks.dom().contains(k) && evict(
                e,
                key,
                center,
            ).chunks[k] == e.chunks[k],
    decreases e.lru.len(),
{
    let i = farthest(e.lru, key, center);
    lemma_weight(key, Seq::empty(), c);
    if e.usage <= CHUNK_MESH_VRAM_BUDGET || !(0 <= i < e.lru.len()) {
        assert(e.evicted + Seq::<ChunkKey>::empty() =~= e.evicted);
        Seq::empty()
    } else {
        let far = e.lru[i];
        let rest = e.lru.remove(i);
        if e.chunks.dom().contains(far) {
            let d = Eviction {
                usage: less_bytes(e.usage, e.chunks[far].vram_bytes as int),
                chunks: e.chunks.remove(far),
                lru: rest,
                evicted: e.evicted.push(far),
            };
            let more = lemma_evict_weighs(d, key, center, c);
            lemma_weight(far, more, c);
            let gone = seq![far] + more;
            assert(e.evicted.push(far) + more =~= e.evicted + gone);
            if more.len() > 0 {
                assert(gone.last() == more.last());
            }
            gone
        } else {
            lemma_evict_weighs(Eviction { lru: rest, ..e }, key, center, c)
        }
    }
}

/// What an inserted chunk costs and who pays for it: the memory in use grows by
/// the new mesh, shrinks by the mesh it takes the place of and by those that leave,
/// and changes by nothing else. Chunks leave only while the budget of 256 MiB is
/// exceeded: without the last that left it would be. Every mesh that stays, all
/// water and glass, and everything else is as it was.
pub proof fn law_insert_accounts(m: PipelineModel, key: ChunkKey, mesh: ChunkMesh, k: ChunkKey)
    requires
        m.usage >= 0,
        m.chunks.dom().contains(key) ==> m.usage >= m.chunks[key].vram_bytes,
    ensures
        ({
            let a = m.with_chunk(key, mesh);
            let r = m.inserted(key, mesh);
            let gone = a.eviction(key).evicted;
            let freed = bytes_of(gone.map_values(|k: ChunkKey| (k, a.chunks[k])));
            &&& a.usage == m.usage + mesh.vram_bytes - if m.chunks.dom().contains(key) {
                m.chunks[key].vram_bytes as int
            } else {
                0
            }
            &&& a.lru.last() == key
            &&& a.usage >= freed ==> r.usage == a.usage - freed
            &&& a.usage <= 256 * 1024 * 1024 ==> gone.len() == 0 && r.usage == a.usage && r.chunks
                == m.chunks.insert(key, mesh)
            &&& gone.len() > 0 ==> r.usage + a.chunks[gone.last()].vram_bytes > 256 * 1024 * 1024
            &&& r.chunks.dom().contains(k) && k != key ==> m.chunks.dom().contains(k) && r.chunks[k]
                == m.chunks[k]
            &&& r == (PipelineModel {
                chunks: r.chunks,
                usage: r.usage,
                lru: r.lru,
                ..m
            })
        }),
{
    let a = m.with_chunk(key, mesh);
    let e = Eviction { usage: a.usage, chunks: a.chunks, lru: a.lru, evicted: Seq::empty() };
    let gone = lemma_evict_weighs(e, key, a.center, a.chunks);
    assert(Seq::<ChunkKey>::empty() + gone =~= gone);
}

/// An uploaded mesh weighs 52 bytes for each vertex and 4 for each index. One
/// without vertices or without indices is not drawn and weighs nothing.
pub proof fn law_upload_weighs(u: MeshUpload, a: Seq<MeshUpload>, b: Seq<MeshUpload>)
    ensures
        u.drawable() <==> u.vertices != 0 && u.indices != 0,
        u.vertices > 0 && u.indices > 0 ==> u.bytes() == 52 * u.vertices + 4 * u.indices,
        u.vertices == 0 || u.indices == 0 ==> u.bytes() == 0,
        u.mesh().index_count == u.indices,
        u.bytes() <= u64::MAX ==> u.mesh().vram_bytes == u.bytes(),
        u.mesh().aabb_min == u.aabb_min,
        u.mesh().aabb_max == u.aabb_max,
        upload_bytes(Seq::empty()) == 0,
        upload_bytes(seq![u]) == u.bytes(),
        upload_bytes(a + b) == upload_bytes(a) + upload_bytes(b),
    decreases b.len(),
{
    reveal_with_fuel(upload_bytes, 2);
    assert(seq![u].drop_last() =~= Seq::empty());
    if b.len() == 0 {
        assert(a + b =~= a);
    } else {
        law_upload_weighs(u, a, b.drop_last());
        assert((a + b).drop_last() =~= a + b.drop_last());
    }
}

/// An upload takes the place of the chunk's mesh, or takes the mesh away where
/// it has nothing to draw; the memory of the old mesh is free then, every other
/// chunk stays, and a chunk that is drawn is the latest in the order.
pub proof fn law_replace_mesh(m: PipelineModel, u: MeshUpload, k: ChunkKey)
    ensures
        ({
            let r = m.replaced(u);
            &&& u.vertices > 0 && u.indices > 0 ==> r.chunks.dom().contains(u.key)
                && r.chunks[u.key] == u.mesh() && r.lru.last() == u.key
            &&& u.vertices == 0 || u.indices == 0 ==> !r.chunks.dom().contains(u.key)
            &&& k != u.key ==> (r.chunks.dom().contains(k) <==> m.chunks.dom().contains(k))
                && r.chunks[k] == m.chunks[k]
            &&& !m.chunks.dom().contains(u.key) ==> r.usage == m.usage
            &&& m.chunks.dom().contains(u.key) && m.usage >= m.chunks[u.key].vram_bytes ==> r.usage
                + m.chunks[u.key].vram_bytes == m.usage
            &&& r == (PipelineModel { chunks: r.chunks, lru: r.lru, usage: r.usage, ..m })
        }),
{
}

/// Uploads are taken in turn, and so are the chunks that are dropped.
pub proof fn law_in_turn(
    m: PipelineModel,
    a: Seq<MeshUpload>,
    b: Seq<MeshUpload>,
    u: MeshUpload,
    p: Seq<ChunkKey>,
    q: Seq<ChunkKey>,
    k: ChunkKey,
)
    ensures
        m.uploaded(Seq::empty()) == m,
        m.uploaded(seq![u]) == m.replaced(u),
        m.uploaded(a + b) == m.uploaded(a).uploaded(b),
        m.dropped_all(Seq::empty()) == m,
        m.dropped_all(seq![k]) == m.dropped(k),
        m.dropped_all(p + q) == m.dropped_all(p).dropped_all(q),
        m.glass_dropped(Seq::empty()) == m,
        m.glass_dropped(p + q) == m.glass_dropped(p).glass_dropped(q),
    decreases b.len() + q.len(),
{
    reveal_with_fuel(PipelineModel::uploaded, 2);
    reveal_with_fuel(PipelineModel::dropped_all, 2);
    assert(seq![u].drop_last() =~= Seq::empty());
    assert(seq![k].drop_last() =~= Seq::empty());
    if b.len() > 0 {
        law_in_turn(m, a, b.drop_last(), u, p, q, k);
        assert((a + b).drop_last() =~= a + b.drop_last());
    } else {
        assert(a + b =~= a);
        if q.len() > 0 {
            law_in_turn(m, a, b, u, p, q.drop_last(), k);
            assert((p + q).drop_last() =~= p + q.drop_last());
        } else {
            assert(p + q =~= p);
        }
    }
}

/// Dropping a chunk frees the memory of its three meshes and touches no other
/// chunk; dropping its glass frees that of its glass only.
pub proof fn law_drop_accounts(m: PipelineModel, key: ChunkKey, k: ChunkKey)
    ensures
        ({
            let c = if m.chunks.dom().contains(key) { m.chunks[key].vram_bytes as int } else { 0 };
            let w = if m.water.dom().contains(key) { m.water[key].vram_bytes as int } else { 0 };
            let t = if m.transparent.dom().contains(key) {
                m.transparent[key].vram_bytes as int
            } else {
                0
            };
            let r = m.dropped(key);
            let g = m.glass_dropped(seq![key]);
            &&& m.usage >= c + w + t ==> r.usage + c + w + t == m.usage
            &&& k != key ==> (r.chunks.dom().contains(k) <==> m.chunks.dom().contains(k))
                && r.chunks[k] == m.chunks[k]
            &&& k != key ==> (r.water.dom().contains(k) <==> m.water.dom().contains(k))
                && r.water[k] == m.water[k]
            &&& k != key ==> (r.transparent.dom().contains(k) <==> m.transparent.dom().contains(k))
                && r.transparent[k] == m.transparent[k]
            &&& r == (PipelineModel {
                chunks: r.chunks,
                water: r.water,
                transparent: r.transparent,
                lru: r.lru,
                usage: r.usage,
                ..m
            })
            &&& m.usage >= t ==> g.usage + t == m.usage
            &&& !g.transparent.dom().contains(key)
            &&& k != key ==> (g.transparent.dom().contains(k) <==> m.transparent.dom().contains(k))
                && g.transparent[k] == m.transparent[k]
            &&& g == (PipelineModel { transparent: g.transparent, usage: g.usage, ..m })
        }),
{
    reveal_with_fuel(PipelineModel::glass_dropped, 2);
    assert(seq![key].drop_last() =~= Seq::empty());
    assert(seq![key].last() == key);
}

/// A depth picture of a new size takes the place of the old one, four bytes
/// for each pixel; one of the same size stays. The outline is made once, and
/// costs 464 bytes. Nothing else changes.
pub proof fn law_depth_and_outline(m: PipelineModel, width: u32, height: u32)
    requires
        m.usage >= m.depth_bytes(),
    ensures
        m.depth_ready ==> m.depth_bytes() == 4 * (m.depth_size.0 * m.depth_size.1),
        !m.depth_ready ==> m.depth_bytes() == 0,
        m.depth_size == (width, height) ==> m.depth_ensured(width, height) == m,
        m.depth_size != (width, height) ==> {
            let r = m.depth_ensured(width, height);
            &&& r.depth_ready
            &&& r.depth_size == (width, height)
            &&& r.usage - r.depth_bytes() == m.usage - m.depth_bytes()
            &&& r == (PipelineModel {
                usage: r.usage,
                depth_ready: true,
                depth_size: (width, height),
                ..m
            })
        },
        m.outline_ready ==> m.outline_made() == m,
        !m.outline_ready ==> m.outline_made() == (PipelineModel {
            outline_ready: true,
            usage: m.usage + 464,
            ..m
        }),
        m.outline_made().outline_made() == m.outline_made(),
{
    vstd::arithmetic::mul::lemma_mul_is_commutative(4, m.depth_size.0 * m.depth_size.1);
}

/// The atlases are bound where they were bound last and no other since.
pub proof fn law_binding(m: PipelineModel, a: usize, n: usize, b: usize, o: usize)
    ensures
        m.rebound(a, n).bound_to(a, n),
        m.rebound(a, n).bound_to(b, o) <==> a == b && n == o,
        m.rebound(a, n) == (PipelineModel {
            bind_group_ready: true,
            cached_atlas: a,
            cached_normal_atlas: n,
            ..m
        }),
        !m.bind_group_ready ==> !m.bound_to(a, n),
{
}

/// What is counted of the chunks that are seen: their places in order, each
/// once and no other, their number, a third of their indices as triangles, and
/// their memory.
pub proof fn law_visible(s: Seq<(ChunkKey, ChunkMesh)>, flags: Seq<bool>, n: int)
    requires
        0 <= n <= flags.len(),
    ensures
        flag_count(flags, n) == flagged(flags, n).len(),
        forall|i: int|
            #![trigger flagged(flags, n).contains(i)]
            flagged(flags, n).contains(i) <==> 0 <= i < n && flags[i],
        forall|a: int, b: int|
            #![trigger flagged(flags, n)[a], flagged(flags, n)[b]]
            0 <= a < b < flagged(flags, n).len() ==> flagged(flags, n)[a] < flagged(flags, n)[b],
        flagged_triangles(s, flags, n) == flagged(flags, n).fold_left(
            0int,
            |t: int, i: int| t + s[i].1.index_count as int / 3,
        ),
        flagged_bytes(s, flags, n) == flagged(flags, n).fold_left(
            0int,
            |t: int, i: int| t + s[i].1.vram_bytes,
        ),
    decreases n,
{
    if n > 0 {
        law_visible(s, flags, n - 1);
        let before = flagged(flags, n - 1);
        let all = flagged(flags, n);
        assert forall|a: int| #![trigger before[a]] 0 <= a < before.len() implies 0 <= before[a] < n
            - 1 by {
            assert(before.contains(before[a]));
        }
        if flags[n - 1] {
            assert(all.drop_last() =~= before);
            assert forall|i: int|
                #![trigger all.contains(i)]
                all.contains(i) <==> 0 <= i < n && flags[i] by {
                if all.contains(i) && i != n - 1 {
                    let a = choose|a: int| 0 <= a < all.len() && all[a] == i;
                    assert(before[a] == i);
                    assert(before.contains(i));
                }
                if i == n - 1 {
                    assert(all[before.len() as int] == i);
                }
                if before.contains(i) {
                    let a = choose|a: int| 0 <= a < before.len() && before[a] == i;
                    assert(all[a] == i);
                }
            }
        }
    }
}

/// The order names each chunk that has a mesh exactly once and no other
/// chunk.
pub proof fn law_order_names(m: PipelineModel, k: ChunkKey, i: int, j: int)
    requires
        tracked_order(m),
    ensures
        m.chunks.dom().contains(k) <==> exists|p: int| 0 <= p < m.lru.len() && m.lru[p] == k,
        0 <= i < m.lru.len() && 0 <= j < m.lru.len() && m.lru[i] == m.lru[j] ==> i == j,
{
    assert(m.lru.contains(k) <==> m.chunks.dom().contains(k));
}

} // verus!
