//! What a result of the world's worker changes on the GPU, and the models of
//! blocks.
use crate::block_model_renderer;
use crate::block_model_renderer::BlockInstance;
use crate::block_model_renderer::BlockModelRenderer;
use crate::block_model_renderer::BlockModels;
use crate::game_3d_pipeline::Game3DPipeline;
use crate::game_3d_pipeline::PipelineModel;
use crate::table::Table;
use crate::table::TableKey;
use vstd::prelude::*;
use vstd::string::*;

verus! {

/// A block with a model of its own.
#[derive(Debug, Clone, Copy)]
pub struct ModelBlock {
    pub pos: (i32, i32, i32),
    pub block: u8,
    pub rotation: u8,
}

/// The corners of a box, as the bits of single-precision numbers.
#[derive(Debug, Clone, Copy)]
pub struct Aabb {
    pub min: [u32; 3],
    pub max: [u32; 3],
}

/// The model of each kind of block, the models that are loaded, and the boxes
/// of those that have any geometry.
pub struct ModelCatalog {
    names: Table<u8, String>,
    loaded: Table<String, bool>,
    aabbs: Table<String, Aabb>,
}

/// The catalogue as a mathematical value.
#[verifier::ext_equal]
pub struct CatalogModel {
    pub names: Map<u8, String>,
    pub loaded: Set<Seq<char>>,
    pub aabbs: Map<Seq<char>, Aabb>,
}

impl View for ModelCatalog {
    type V = CatalogModel;

    closed spec fn view(&self) -> CatalogModel {
        CatalogModel {
            names: self.names@,
            loaded: self.loaded@.dom(),
            aabbs: self.aabbs@,
        }
    }
}

impl CatalogModel {
    /// Block `b` has a box.
    pub open spec fn has_box(self, b: u8) -> bool {
        self.names.dom().contains(b) && self.aabbs.dom().contains(self.names[b]@)
    }

    /// The blocks up to `n` that have a box, with their boxes; block zero is
    /// air and has none.
    pub open spec fn boxes(self, n: int) -> Seq<(u8, Aabb)>
        decreases n,
    {
        if n <= 0 {
            Seq::empty()
        } else if self.has_box(n as u8) {
            self.boxes(n - 1).push((n as u8, self.aabbs[self.names[n as u8]@]))
        } else {
            self.boxes(n - 1)
        }
    }

    /// The model of a block can be shown.
    pub open spec fn showable(self, b: u8) -> bool {
        self.names.dom().contains(b) && self.loaded.contains(self.names[b]@)
    }
}

impl BlockModels {
    /// The instances after the first `n` blocks of a list were set up: a block
    /// gets its model unless there is one already, where the model is loaded
    /// and known.
    pub open spec fn with_blocks(self, blocks: Seq<ModelBlock>, catalog: CatalogModel, n: int) -> BlockModels
        decreases n,
    {
        if n <= 0 {
            self
        } else {
            let m = self.with_blocks(blocks, catalog, n - 1);
            let b = blocks[n - 1];
            if !m.instances.dom().contains(b.pos) && catalog.showable(b.block)
                && m.models.dom().contains(catalog.names[b.block]@) {
                BlockModels {
                    instances: m.instances.insert(
                        b.pos,
                        BlockInstance {
                            model_id: catalog.names[b.block],
                            rotation: b.rotation,
                        },
                    ),
                    ..m
                }
            } else {
                m
            }
        }
    }
}

/// How the outline of a block is drawn: along its model, in its box, turned.
#[derive(Debug)]
pub struct OutlineShape {
    pub model: Option<String>,
    pub aabb: Option<Aabb>,
    pub rotation: u8,
}

impl ModelCatalog {
    /// The tables are in order.
    pub closed spec fn wf(&self) -> bool {
        self.names.wf() && self.loaded.wf() && self.aabbs.wf()
    }

    /// A catalogue that knows the models of blocks, none of which is loaded.
    pub fn new(names: Table<u8, String>) -> (r: ModelCatalog)
        requires
            names.wf(),
        ensures
            r.wf(),
            r@ == (CatalogModel { names: names@, loaded: Set::empty(), aabbs: Map::empty() }),
    {
        let r: ModelCatalog = ModelCatalog { names, loaded: Table::new(), aabbs: Table::new() };
        assert(r@.loaded =~= Set::empty());
        r
    }

    /// Takes down that a model is loaded, with its box where it has any
    /// geometry.
    pub fn model_loaded(&mut self, name: &String, aabb: Option<Aabb>)
        requires
            old(self).wf(),
        ensures
            final(self).wf(),
            final(self)@ == (CatalogModel {
                names: old(self)@.names,
                loaded: old(self)@.loaded.insert(name@),
                aabbs: match aabb {
                    Some(b) => old(self)@.aabbs.insert(name@, b),
                    None => old(self)@.aabbs,
                },
            }),
    {
        self.loaded.insert(name.clone(), aabb.is_some());
        assert(self@.loaded =~= old(self)@.loaded.insert(name@));
        match aabb {
            Some(b) => {
                self.aabbs.insert(name.clone(), b);
            },
            None => {},
        }
    }

    /// The blocks that have a box, with their boxes.
    pub fn boxes_by_block(&self) -> (r: Vec<(u8, Aabb)>)
        requires
            self.wf(),
        ensures
            r@ == self@.boxes(255),
    {
        let mut r: Vec<(u8, Aabb)> = Vec::new();
        let mut b: u8 = 0;
        while b < 255
            invariant
                self.wf(),
                r@ == self@.boxes(b as int),
            decreases 255 - b,
        {
            b = b + 1;
            match self.names.get(&b) {
                Some(name) => {
                    match self.aabbs.get(name) {
                        Some(x) => {
                            r.push((b, *x));
                        },
                        None => {},
                    }
                },
                None => {},
            }
        }
        r
    }

    /// The model of a block, if it has one.
    pub fn model_of(&self, block: u8) -> (r: Option<&String>)
        requires
            self.wf(),
        ensures
            match r {
                Some(name) => self@.names.dom().contains(block) && self@.names[block] == *name,
                None => !self@.names.dom().contains(block),
            },
    {
        self.names.get(&block)
    }

    /// How the outline of the block at a position is drawn.
    pub fn outline_of(
        &self,
        block: u8,
        pos: (i32, i32, i32),
        models: &BlockModelRenderer,
    ) -> (r: OutlineShape)
        requires
            self.wf(),
            models.wf(),
        ensures
            r.model == (if self@.names.dom().contains(block) {
                Some(self@.names[block])
            } else {
                None
            }),
            r.aabb == (if self@.has_box(block) {
                Some(self@.aabbs[self@.names[block]@])
            } else {
                None
            }),
            r.rotation == (if models@.instances.dom().contains(pos) {
                models@.instances[pos].rotation
            } else {
                0
            }),
    {
        let rotation: u8 = models.get_instance_rotation(pos);
        match self.names.get(&block) {
            Some(name) => {
                let aabb: Option<Aabb> = match self.aabbs.get(name) {
                    Some(b) => Some(*b),
                    None => None,
                };
                OutlineShape { model: Some(name.clone()), aabb, rotation }
            },
            None => OutlineShape { model: None, aabb: None, rotation },
        }
    }

    /// Sets up the models of blocks, where there is none yet and the model is
    /// loaded.
    pub fn spawn_models(&self, models: &mut BlockModelRenderer, blocks: &Vec<ModelBlock>)
        requires
            self.wf(),
            old(models).wf(),
        ensures
            final(models).wf(),
            final(models)@ == old(models)@.with_blocks(blocks@, self@, blocks@.len() as int),
    {
        let mut i: usize = 0;
        while i < blocks.len()
            invariant
                i <= blocks@.len(),
                self.wf(),
                models.wf(),
                models@ == old(models)@.with_blocks(blocks@, self@, i as int),
            decreases blocks@.len() - i,
        {
            let b: ModelBlock = blocks[i];
            if !models.has_instance(b.pos) {
                match self.names.get(&b.block) {
                    Some(name) => {
                        if self.loaded.contains_key(name) {
                            models.spawn(b.pos, name.clone(), b.rotation);
                        }
                    },
                    None => {},
                }
            }
            i += 1;
        }
    }
}

/// Sizes of a chunk, in blocks.
#[derive(Debug, Clone, Copy, PartialEq, Eq, Structural)]
pub struct ChunkSize {
    pub x: i32,
    pub y: i32,
    pub z: i32,
}

/// Carries a result of the world's worker over: meshes and models of chunks
/// that are gone leave, glass meshes and models of chunks that were meshed anew
/// are cleared, and the models of blocks are set up.
pub fn apply_world_result(
    pipeline: &mut Game3DPipeline,
    models: &mut BlockModelRenderer,
    catalog: &ModelCatalog,
    evicted: &Vec<(i32, i32, i32)>,
    meshed: &Vec<(i32, i32, i32)>,
    blocks: &Vec<ModelBlock>,
    size: ChunkSize,
)
    requires
        old(pipeline).wf(),
        old(models).wf(),
        catalog.wf(),
        size.x > 0,
        size.y > 0,
        size.z > 0,
    ensures
        final(pipeline).wf(),
        final(pipeline).other_bytes() == old(pipeline).other_bytes(),
        final(pipeline)@ == old(pipeline)@.dropped_all(evicted@).glass_dropped(meshed@),
        final(models).wf(),
        final(models)@ == old(models)@.without_chunks(
            evicted@,
            size.x as int,
            size.y as int,
            size.z as int,
        ).without_chunks(
            meshed@,
            size.x as int,
            size.y as int,
            size.z as int,
        ).with_blocks(blocks@, catalog@, blocks@.len() as int),
{
    pipeline.remove_chunk_meshes(evicted);
    models.despawn_in_chunks(evicted, size.x, size.y, size.z);
    pipeline.evict_transparent_for_keys(meshed);
    models.despawn_in_chunks(meshed, size.x, size.y, size.z);
    catalog.spawn_models(models, blocks);
}

/// Setting blocks up leaves the models that stand already as they are, and
/// after it a block of the list stands wherever its model can be shown.
pub proof fn law_models_stand(m: BlockModels, blocks: Seq<ModelBlock>, catalog: CatalogModel, n: int)
    requires
        0 <= n <= blocks.len(),
    ensures
        m.with_blocks(blocks, catalog, n).models == m.models,
        forall|p: (i32, i32, i32)|
            #![trigger m.with_blocks(blocks, catalog, n).instances.dom().contains(p)]
            m.instances.dom().contains(p) ==> m.with_blocks(
                blocks,
                catalog,
                n,
            ).instances.dom().contains(p) && m.with_blocks(blocks, catalog, n).instances[p]
                == m.instances[p],
        forall|i: int|
            #![trigger blocks[i]]
            0 <= i < n && catalog.showable(blocks[i].block) && m.models.dom().contains(
                catalog.names[blocks[i].block]@,
            ) ==> m.with_blocks(blocks, catalog, n).instances.dom().contains(blocks[i].pos),
    decreases n,
{
    if n > 0 {
        law_models_stand(m, blocks, catalog, n - 1);
        let b = m.with_blocks(blocks, catalog, n - 1);
        let w = m.with_blocks(blocks, catalog, n);
        assert(forall|p: (i32, i32, i32)|
            #![trigger w.instances.dom().contains(p)]
            b.instances.dom().contains(p) ==> w.instances.dom().contains(p) && w.instances[p]
                == b.instances[p]);
        assert forall|p: (i32, i32, i32)|
            #![trigger w.instances.dom().contains(p)]
            m.instances.dom().contains(p) implies w.instances.dom().contains(p) && w.instances[p]
            == m.instances[p] by {
            assert(b.instances.dom().contains(p));
        }
        assert forall|i: int|
            #![trigger blocks[i]]
            0 <= i < n && catalog.showable(blocks[i].block) && m.models.dom().contains(
                catalog.names[blocks[i].block]@,
            ) implies w.instances.dom().contains(blocks[i].pos) by {
            if i < n - 1 {
                assert(b.instances.dom().contains(blocks[i].pos));
            }
        }
    }
}

/// Each kind of block has at most one box, and those that have one are listed.
pub proof fn law_boxes(c: CatalogModel, n: int)
    requires
        0 <= n <= 255,
    ensures
        forall|i: int|
            #![trigger c.boxes(n)[i]]
            0 <= i < c.boxes(n).len() ==> 1 <= c.boxes(n)[i].0 <= n && c.has_box(c.boxes(n)[i].0)
                && c.boxes(n)[i].1 == c.aabbs[c.names[c.boxes(n)[i].0]@],
        forall|i: int, j: int|
            #![trigger c.boxes(n)[i], c.boxes(n)[j]]
            0 <= i < j < c.boxes(n).len() ==> c.boxes(n)[i].0 < c.boxes(n)[j].0,
        forall|b: u8|
            #![trigger c.has_box(b)]
            1 <= b <= n && c.has_box(b) ==> exists|i: int|
                #![trigger c.boxes(n)[i]]
                0 <= i < c.boxes(n).len() && c.boxes(n)[i].0 == b,
    decreases n,
{
    if n > 0 {
        law_boxes(c, n - 1);
        let s = c.boxes(n - 1);
        let t = c.boxes(n);
        assert forall|b: u8| #![trigger c.has_box(b)] 1 <= b <= n && c.has_box(b) implies exists|
            i: int,
        |
            #![trigger t[i]]
            0 <= i < t.len() && t[i].0 == b by {
            if b < n {
                let i = choose|i: int| #![trigger s[i]] 0 <= i < s.len() && s[i].0 == b;
                assert(t[i].0 == b);
            } else {
                assert(t[t.len() - 1].0 == b);
            }
        }
    }
}

/// Where the models of new blocks stand: at a place where none stood before,
/// one stands afterwards exactly where some block there has a model that is loaded
/// and registered. It is the model named for the first such block, turned as
/// that block is.
pub proof fn law_spawned_models(
    m: BlockModels,
    blocks: Seq<ModelBlock>,
    catalog: CatalogModel,
    n: int,
    p: (i32, i32, i32),
)
    requires
        0 <= n <= blocks.len(),
        !m.instances.dom().contains(p),
    ensures
        ({
            let r = m.with_blocks(blocks, catalog, n);
            &&& r.instances.dom().contains(p) <==> exists|i: int|
                #![trigger blocks[i]]
                0 <= i < n && blocks[i].pos == p && catalog.names.dom().contains(blocks[i].block)
                    && catalog.loaded.contains(catalog.names[blocks[i].block]@)
                    && m.models.dom().contains(catalog.names[blocks[i].block]@)
            &&& r.instances.dom().contains(p) ==> exists|i: int|
                #![trigger blocks[i]]
                0 <= i < n && blocks[i].pos == p && catalog.names.dom().contains(blocks[i].block)
                    && r.instances[p].model_id == catalog.names[blocks[i].block]
                    && r.instances[p].rotation == blocks[i].rotation && forall|j: int|
                    #![trigger blocks[j]]
                    0 <= j < i && blocks[j].pos == p ==> !(catalog.names.dom().contains(
                        blocks[j].block,
                    ) && catalog.loaded.contains(catalog.names[blocks[j].block]@)
                        && m.models.dom().contains(catalog.names[blocks[j].block]@))
        }),
    decreases n,
{
    if n > 0 {
        law_spawned_models(m, blocks, catalog, n - 1, p);
        law_models_stand(m, blocks, catalog, n - 1);
        let a = m.with_blocks(blocks, catalog, n - 1);
        let r = m.with_blocks(blocks, catalog, n);
        let b = blocks[n - 1];
        let ready = |i: int|
            catalog.names.dom().contains(blocks[i].block) && catalog.loaded.contains(
                catalog.names[blocks[i].block]@,
            ) && m.models.dom().contains(catalog.names[blocks[i].block]@);
        assert(a.models == m.models);
        if a.instances.dom().contains(p) {
            assert(r.instances.dom().contains(p));
            assert(r.instances[p] == a.instances[p]);
            let i = choose|i: int|
                #![trigger blocks[i]]
                0 <= i < n - 1 && blocks[i].pos == p && ready(i);
            assert(0 <= i < n && blocks[i].pos == p && ready(i));
        } else {
            assert forall|j: int| #![trigger blocks[j]] 0 <= j < n - 1 && blocks[j].pos == p implies !ready(
                j,
            ) by {}
            if b.pos == p && ready(n - 1) {
                assert(r.instances.dom().contains(p));
                assert(blocks[n - 1].pos == p);
            } else {
                assert(!r.instances.dom().contains(p));
            }
        }
    }
}

/// A block has a model of its own to show where one is named for it and that
/// one is loaded, and has a box where the box of that model is known.
pub proof fn law_catalog(c: CatalogModel, b: u8)
    ensures
        c.showable(b) <==> c.names.dom().contains(b) && c.loaded.contains(c.names[b]@),
        c.has_box(b) <==> c.names.dom().contains(b) && c.aabbs.dom().contains(c.names[b]@),
{
}

} // verus!
