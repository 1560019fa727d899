//! Block models that have just been loaded.
use crate::block_model_renderer::BlockModelRenderer;
use crate::block_model_renderer::BlockModels;
use crate::table::Table;
use crate::world_result::Aabb;
use crate::world_result::CatalogModel;
use crate::world_result::ModelCatalog;
use vstd::prelude::*;
use vstd::string::*;

verus! {

/// What the loader hands out for a model.
#[derive(Debug)]
pub struct ModelArrival {
    pub name: String,
    /// The block whose shadow the model tells, if it tells one.
    pub shadow_block: Option<u8>,
    /// The box of the model, if it was read and has any geometry.
    pub aabb: Option<Aabb>,
    pub index_count: u32,
    /// Whether a texture came with the model.
    pub has_atlas: bool,
}

/// What a model is drawn with.
#[derive(Debug, Clone, Copy, PartialEq, Eq, Structural)]
pub enum ModelTexture {
    Atlas,
    Fallback,
}

/// What is to be done for a model that arrived.
#[derive(Debug, Clone, Copy)]
pub struct ArrivalStep {
    /// The shadow of the block is taken over.
    pub take_shadow: bool,
    /// The edges of the model are kept for outlines.
    pub outline: bool,
    /// The model is put on the GPU with this texture.
    pub register: Option<ModelTexture>,
}

/// What is to be done for all models that arrived.
#[derive(Debug)]
pub struct ArrivalReport {
    pub steps: Vec<ArrivalStep>,
    /// The last blocks are handed to the illumination once more.
    pub repack: bool,
    /// The boxes of all blocks, where any of them may have changed.
    pub boxes: Option<Vec<(u8, Aabb)>>,
}

/// The blocks whose shadow is known.
pub struct ShadowBook {
    known: Table<u8, bool>,
}

impl View for ShadowBook {
    type V = Set<u8>;

    closed spec fn view(&self) -> Set<u8> {
        self.known@.dom()
    }
}

impl ShadowBook {
    /// The list behind the book is in order.
    pub closed spec fn wf(&self) -> bool {
        self.known.wf()
    }

    /// A book in which no shadow is known.
    pub fn new() -> (r: ShadowBook)
        ensures
            r.wf(),
            r@ == Set::<u8>::empty(),
    {
        let r: ShadowBook = ShadowBook { known: Table::new() };
        assert(r@ =~= Set::<u8>::empty());
        r
    }

    /// Takes the shadow of a block down, and says whether it is a new one.
    pub fn take(&mut self, block: u8) -> (r: bool)
        requires
            old(self).wf(),
        ensures
            final(self).wf(),
            r == !old(self)@.contains(block),
            final(self)@ == old(self)@.insert(block),
    {
        let r: bool = self.known.insert_new(block, true);
        assert(self@ =~= old(self)@.insert(block));
        r
    }
}

/// What is known after some models arrived.
#[verifier::ext_equal]
pub struct ArrivalModel {
    pub catalog: CatalogModel,
    pub models: BlockModels,
    pub shadows: Set<u8>,
    pub steps: Seq<ArrivalStep>,
}

impl ArrivalModel {
    /// The shadow that a model tells is a new one.
    pub open spec fn shadow_is_new(self, a: ModelArrival) -> bool {
        a.shadow_block matches Some(b) && !self.shadows.contains(b)
    }

    /// After one more model: its shadow is taken over unless the block has one;
    /// a model with geometry is put into the catalogue with its box, and on the
    /// GPU unless one of that name is there.
    pub open spec fn with(self, a: ModelArrival) -> ArrivalModel {
        ArrivalModel {
            catalog: CatalogModel {
                loaded: self.catalog.loaded.insert(a.name@),
                aabbs: match a.aabb {
                    Some(b) => self.catalog.aabbs.insert(a.name@, b),
                    None => self.catalog.aabbs,
                },
                ..self.catalog
            },
            models: if a.aabb is Some && !self.models.models.dom().contains(a.name@) {
                BlockModels { models: self.models.models.insert(a.name@, a.index_count), ..self.models }
            } else {
                self.models
            },
            shadows: match a.shadow_block {
                Some(b) => self.shadows.insert(b),
                None => self.shadows,
            },
            steps: self.steps.push(
                ArrivalStep {
                    take_shadow: self.shadow_is_new(a),
                    outline: a.aabb is Some,
                    register: if a.aabb is Some && !self.models.models.dom().contains(a.name@) {
                        Some(
                            if a.has_atlas {
                                ModelTexture::Atlas
                            } else {
                                ModelTexture::Fallback
                            },
                        )
                    } else {
                        None
                    },
                },
            ),
        }
    }

    /// After the first `n` models of a list.
    pub open spec fn with_all(self, list: Seq<ModelArrival>, n: int) -> ArrivalModel
        decreases n,
    {
        if n <= 0 {
            self
        } else {
            self.with_all(list, n - 1).with(list[n - 1])
        }
    }
}

/// A step takes a shadow over.
pub open spec fn any_shadow(steps: Seq<ArrivalStep>) -> bool {
    exists|i: int| #![trigger steps[i]] 0 <= i < steps.len() && steps[i].take_shadow
}

/// A step keeps edges for outlines.
pub open spec fn any_outline(steps: Seq<ArrivalStep>) -> bool {
    exists|i: int| #![trigger steps[i]] 0 <= i < steps.len() && steps[i].outline
}

/// Takes models that arrived, in order. The last blocks are handed to the
/// illumination once more where a shadow was taken over and blocks are known;
/// the boxes are told anew where a model with geometry came.
pub fn take_arrivals(
    catalog: &mut ModelCatalog,
    models: &mut BlockModelRenderer,
    shadows: &mut ShadowBook,
    arrivals: &Vec<ModelArrival>,
    blocks_known: bool,
) -> (r: ArrivalReport)
    requires
        old(catalog).wf(),
        old(models).wf(),
        old(shadows).wf(),
    ensures
        final(catalog).wf(),
        final(models).wf(),
        final(shadows).wf(),
        ({
            let after = (ArrivalModel {
                catalog: old(catalog)@,
                models: old(models)@,
                shadows: old(shadows)@,
                steps: Seq::empty(),
            }).with_all(arrivals@, arrivals@.len() as int);
            &&& final(catalog)@ == after.catalog
            &&& final(models)@ == after.models
            &&& final(shadows)@ == after.shadows
            &&& r.steps@ == after.steps
            &&& r.repack == (blocks_known && any_shadow(after.steps))
            &&& r.boxes is Some <==> any_outline(after.steps)
            &&& r.boxes matches Some(b) ==> b@ == after.catalog.boxes(255)
        }),
{
    let ghost start = ArrivalModel {
        catalog: catalog@,
        models: models@,
        shadows: shadows@,
        steps: Seq::empty(),
    };
    let mut steps: Vec<ArrivalStep> = Vec::new();
    let mut shadow: bool = false;
    let mut outline: bool = false;
    let mut i: usize = 0;
    while i < arrivals.len()
        invariant
            i <= arrivals@.len(),
            catalog.wf(),
            models.wf(),
            shadows.wf(),
            steps@.len() == i,
            catalog@ == start.with_all(arrivals@, i as int).catalog,
            models@ == start.with_all(arrivals@, i as int).models,
            shadows@ == start.with_all(arrivals@, i as int).shadows,
            steps@ == start.with_all(arrivals@, i as int).steps,
            shadow == any_shadow(steps@),
            outline == any_outline(steps@),
        decreases arrivals@.len() - i,
    {
        let a: &ModelArrival = &arrivals[i];
        let ghost now = start.with_all(arrivals@, i as int);
        let ghost before = steps@;
        let take_shadow: bool = match a.shadow_block {
            Some(b) => shadows.take(b),
            None => false,
        };
        catalog.model_loaded(&a.name, a.aabb);
        let register: Option<ModelTexture> = if a.aabb.is_some() && models.register_model(
            a.name.clone(),
            a.index_count,
        ) {
            if a.has_atlas {
                Some(ModelTexture::Atlas)
            } else {
                Some(ModelTexture::Fallback)
            }
        } else {
            None
        };
        let step: ArrivalStep = ArrivalStep { take_shadow, outline: a.aabb.is_some(), register };
        steps.push(step);
        proof {
            assert(steps@ =~= now.with(*a).steps);
            lemma_any(before, step);
        }
        shadow = shadow || take_shadow;
        outline = outline || a.aabb.is_some();
        i += 1;
    }
    let boxes: Option<Vec<(u8, Aabb)>> = if outline {
        Some(catalog.boxes_by_block())
    } else {
        None
    };
    ArrivalReport { steps, repack: blocks_known && shadow, boxes }
}

proof fn lemma_any(steps: Seq<ArrivalStep>, s: ArrivalStep)
    ensures
        any_shadow(steps.push(s)) == (any_shadow(steps) || s.take_shadow),
        any_outline(steps.push(s)) == (any_outline(steps) || s.outline),
{
    let more = steps.push(s);
    assert(more[steps.len() as int] == s);
    if any_shadow(steps) {
        let i = choose|i: int| #![trigger steps[i]] 0 <= i < steps.len() && steps[i].take_shadow;
        assert(more[i] == steps[i]);
    }
    if any_outline(steps) {
        let i = choose|i: int| #![trigger steps[i]] 0 <= i < steps.len() && steps[i].outline;
        assert(more[i] == steps[i]);
    }
    if any_shadow(more) {
        let i = choose|i: int| #![trigger more[i]] 0 <= i < more.len() && more[i].take_shadow;
        assert(i < steps.len() ==> steps[i] == more[i]);
    }
    if any_outline(more) {
        let i = choose|i: int| #![trigger more[i]] 0 <= i < more.len() && more[i].outline;
        assert(i < steps.len() ==> steps[i] == more[i]);
    }
}

proof fn lemma_steps(start: ArrivalModel, list: Seq<ModelArrival>, n: int)
    requires
        0 <= n <= list.len(),
    ensures
        start.with_all(list, n).steps.len() == start.steps.len() + n,
    decreases n,
{
    if n > 0 {
        lemma_steps(start, list, n - 1);
    }
}

/// The shadow of a block is taken over once at most: a second model that tells
/// it changes nothing.
pub proof fn law_shadow_taken_once(
    start: ArrivalModel,
    list: Seq<ModelArrival>,
    n: int,
    i: int,
    j: int,
)
    requires
        start.steps.len() == 0,
        0 <= i < j < n <= list.len(),
        list[i].shadow_block is Some,
        list[i].shadow_block == list[j].shadow_block,
    ensures
        !start.with_all(list, n).steps[j].take_shadow,
{
    let b = list[i].shadow_block->Some_0;
    assert(start.with_all(list, i + 1) == start.with_all(list, i).with(list[i]));
    lemma_shadow_stays(start, list, i + 1, j, b);
    lemma_steps(start, list, j);
    lemma_step_stays(start, list, j, n);
}

/// A shadow that is known already is not taken over.
pub proof fn law_known_shadow_stays(
    start: ArrivalModel,
    list: Seq<ModelArrival>,
    n: int,
    i: int,
)
    requires
        start.steps.len() == 0,
        0 <= i < n <= list.len(),
        list[i].shadow_block matches Some(b) ==> start.shadows.contains(b),
    ensures
        !start.with_all(list, n).steps[i].take_shadow,
{
    match list[i].shadow_block {
        Some(b) => {
            lemma_shadow_stays(start, list, 0, i, b);
        },
        None => {},
    }
    lemma_steps(start, list, i);
    lemma_step_stays(start, list, i, n);
}

proof fn lemma_shadow_stays(start: ArrivalModel, list: Seq<ModelArrival>, m: int, n: int, b: u8)
    requires
        0 <= m <= n <= list.len(),
    ensures
        start.with_all(list, m).shadows.contains(b) ==> start.with_all(list, n).shadows.contains(b),
    decreases n,
{
    if m < n {
        lemma_shadow_stays(start, list, m, n - 1, b);
    }
}

proof fn lemma_step_stays(start: ArrivalModel, list: Seq<ModelArrival>, i: int, n: int)
    requires
        start.steps.len() == 0,
        0 <= i < n <= list.len(),
    ensures
        start.with_all(list, n).steps[i] == start.with_all(list, i).with(list[i]).steps[i],
    decreases n,
{
    lemma_steps(start, list, n - 1);
    if i < n - 1 {
        lemma_step_stays(start, list, i, n - 1);
    }
}

/// A model with geometry can be placed once it arrived, whatever came with it
/// or after it, and its block has a box.
pub proof fn law_arrived_models_are_ready(
    start: ArrivalModel,
    list: Seq<ModelArrival>,
    n: int,
    i: int,
)
    requires
        0 <= i < n <= list.len(),
        list[i].aabb is Some,
    ensures
        start.with_all(list, n).catalog.loaded.contains(list[i].name@),
        start.with_all(list, n).catalog.aabbs.dom().contains(list[i].name@),
        start.with_all(list, n).models.models.dom().contains(list[i].name@),
    decreases n,
{
    if i < n - 1 {
        law_arrived_models_are_ready(start, list, n - 1, i);
    }
}

/// The models that arrive change no instance, and none that was there before.
pub proof fn law_arrivals_keep_models(start: ArrivalModel, list: Seq<ModelArrival>, n: int)
    requires
        0 <= n <= list.len(),
    ensures
        start.with_all(list, n).models.instances == start.models.instances,
        forall|m: Seq<char>| #[trigger]
            start.models.models.dom().contains(m) ==> start.with_all(
                list,
                n,
            ).models.models.dom().contains(m) && start.with_all(list, n).models.models[m]
                == start.models.models[m],
    decreases n,
{
    if n > 0 {
        law_arrivals_keep_models(start, list, n - 1);
    }
}

/// A model that arrives is known as loaded, with its box where it has one, and
/// all that was known before stays. It is registered, with the number of its
/// indices, where it has a box and no model of its name was registered; with its
/// own atlas where it brings one. Its shadow is taken where its block had none.
pub proof fn law_one_arrival(s: ArrivalModel, a: ModelArrival, name: Seq<char>, b: u8)
    ensures
        ({
            let r = s.with(a);
            let step = r.steps.last();
            let fresh = a.aabb is Some && !s.models.models.dom().contains(a.name@);
            &&& r.catalog.names == s.catalog.names
            &&& r.catalog.loaded.contains(name) <==> s.catalog.loaded.contains(name) || name
                == a.name@
            &&& r.catalog.aabbs.dom().contains(name) <==> s.catalog.aabbs.dom().contains(name)
                || name == a.name@ && a.aabb is Some
            &&& a.aabb is Some ==> r.catalog.aabbs[a.name@] == a.aabb->Some_0
            &&& name != a.name@ || a.aabb is None ==> r.catalog.aabbs[name] == s.catalog.aabbs[name]
            &&& r.models.instances == s.models.instances
            &&& !fresh ==> r.models == s.models && step.register is None
            &&& fresh ==> r.models.models == s.models.models.insert(a.name@, a.index_count)
            &&& fresh ==> step.register == Some(
                if a.has_atlas { ModelTexture::Atlas } else { ModelTexture::Fallback },
            )
            &&& r.shadows.contains(b) <==> s.shadows.contains(b) || a.shadow_block == Some(b)
            &&& step.take_shadow <==> a.shadow_block is Some && !s.shadows.contains(
                a.shadow_block->Some_0,
            )
            &&& step.outline <==> a.aabb is Some
            &&& r.steps.drop_last() == s.steps
            &&& r.steps.len() == s.steps.len() + 1
        }),
{
    assert(s.with(a).steps.drop_last() =~= s.steps);
}

/// Arrivals are taken in turn: none changes nothing, and those from a place
/// on meet what those before it left.
pub proof fn law_arrivals_in_turn(s: ArrivalModel, list: Seq<ModelArrival>, k: int, n: int)
    requires
        0 <= k <= n <= list.len(),
    ensures
        s.with_all(list, 0) == s,
        list.len() > 0 ==> s.with_all(list, 1) == s.with(list[0]),
        s.with_all(list, n) == s.with_all(list, k).with_all(list.skip(k), n - k),
    decreases n - k,
{
    reveal_with_fuel(ArrivalModel::with_all, 2);
    if k < n {
        law_arrivals_in_turn(s, list, k, n - 1);
        assert(list.skip(k)[n - k - 1] == list[n - 1]);
    }
}

/// Some step takes a shadow, or draws an outline, where at least one of them
/// does.
pub proof fn law_any_step(a: Seq<ArrivalStep>, x: ArrivalStep)
    ensures
        !any_shadow(Seq::empty()) && !any_outline(Seq::empty()),
        any_shadow(a.push(x)) <==> any_shadow(a) || x.take_shadow,
        any_outline(a.push(x)) <==> any_outline(a) || x.outline,
{
    let b = a.push(x);
    assert(b[a.len() as int] == x);
    assert forall|i: int| #![trigger a[i]] 0 <= i < a.len() implies b[i] == a[i] by {}
    if any_shadow(a) {
        let i = choose|i: int| #![trigger a[i]] 0 <= i < a.len() && a[i].take_shadow;
        assert(b[i].take_shadow);
    }
    if any_outline(a) {
        let i = choose|i: int| #![trigger a[i]] 0 <= i < a.len() && a[i].outline;
        assert(b[i].outline);
    }
    if any_shadow(b) {
        let i = choose|i: int| #![trigger b[i]] 0 <= i < b.len() && b[i].take_shadow;
        if i < a.len() {
            assert(a[i].take_shadow);
        }
    }
    if any_outline(b) {
        let i = choose|i: int| #![trigger b[i]] 0 <= i < b.len() && b[i].outline;
        if i < a.len() {
            assert(a[i].outline);
        }
    }
}

} // verus!
