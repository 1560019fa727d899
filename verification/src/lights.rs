//! The lights of a frame: which blocks shine, and which lights are handed to
//! the shaders and shown as a glow.
use crate::block_definition::BlockLightSource;
use crate::block_definition::LightKind;
use crate::player_renderer::ViewMode;
use crate::single;
use crate::table::Table;
use crate::table::TableKey;
use crate::text;
use vstd::prelude::*;
use vstd::string::*;

verus! {

/// Most lights of a kind.
pub const MAX_LIGHTS: usize = 64;

/// Bits of 16, the range of a block light that has none of its own.
pub const DEFAULT_BLOCK_RANGE: u32 = 0x4180_0000;

/// Bits of 20, the range of an entity light that has none of its own.
pub const DEFAULT_ENTITY_RANGE: u32 = 0x41a0_0000;

/// Bits of one half.
pub const HALF: u32 = 0x3f00_0000;

/// The range of a block light: its own, where that is more than half a block.
pub open spec fn block_range(range: u32) -> u32 {
    if single::is_above(range, HALF) {
        range
    } else {
        DEFAULT_BLOCK_RANGE
    }
}

/// The range of an entity light: its own, where it has one.
pub fn entity_light_range(range: u32) -> (r: u32)
    ensures
        r == (if single::is_above(range, single::ZERO_BITS) {
            range
        } else {
            DEFAULT_ENTITY_RANGE
        }),
        0 < range <= 0x7f80_0000 ==> r == range,
        range == 0 || range > 0x7f80_0000 ==> r == 0x41a0_0000,
{
    if single::above(range, single::ZERO_BITS) {
        range
    } else {
        DEFAULT_ENTITY_RANGE
    }
}

/// A light of a block in the world: where the block is, which of its lights it
/// is, and how far it reaches.
#[derive(Debug, Clone, Copy, PartialEq, Eq, Structural)]
pub struct FoundLight {
    pub x: i32,
    pub y: i32,
    pub z: i32,
    pub block: u8,
    pub source: usize,
    pub range: u32,
}

/// The lights that were found.
#[derive(Debug)]
pub struct LightScan {
    pub points: Vec<FoundLight>,
    pub spots: Vec<FoundLight>,
}

/// The lights that were found as a mathematical value.
#[verifier::ext_equal]
pub struct ScanModel {
    pub points: Seq<FoundLight>,
    pub spots: Seq<FoundLight>,
}

impl View for LightScan {
    type V = ScanModel;

    open spec fn view(&self) -> ScanModel {
        ScanModel { points: self.points@, spots: self.spots@ }
    }
}

/// Place of a cell of a cube with `n` cells along each edge, along x first,
/// then y, then z.
pub open spec fn cell_of(i: int, n: int) -> (int, int, int) {
    (i % n, i / n % n, i / (n * n))
}

impl ScanModel {
    /// There are as many lights of a kind as there may be.
    pub open spec fn full(self) -> bool {
        self.points.len() >= MAX_LIGHTS || self.spots.len() >= MAX_LIGHTS
    }

    /// The lights after one more, unless there are enough.
    pub open spec fn with_light(self, l: FoundLight, kind: LightKind) -> ScanModel {
        if self.full() {
            self
        } else {
            match kind {
                LightKind::Point => ScanModel { points: self.points.push(l), ..self },
                LightKind::Directional => ScanModel { spots: self.spots.push(l), ..self },
            }
        }
    }

    /// The lights after the first `n` lights of a block at `at`.
    pub open spec fn with_block(
        self,
        at: (int, int, int),
        block: u8,
        sources: Seq<BlockLightSource>,
        n: int,
    ) -> ScanModel
        decreases n,
    {
        if n <= 0 {
            self
        } else {
            let s = sources[n - 1];
            self.with_block(at, block, sources, n - 1).with_light(
                FoundLight {
                    x: at.0 as i32,
                    y: at.1 as i32,
                    z: at.2 as i32,
                    block,
                    source: (n - 1) as usize,
                    range: block_range(s.range),
                },
                s.kind,
            )
        }
    }

    /// The lights after the first `i` cells of a cube of blocks with its lower
    /// corner at `origin`.
    pub open spec fn with_cells(
        self,
        blocks: Seq<u8>,
        n: int,
        origin: (i32, i32, i32),
        sources: Map<u8, Vec<BlockLightSource>>,
        i: int,
    ) -> ScanModel
        decreases i,
    {
        if i <= 0 {
            self
        } else {
            let before = self.with_cells(blocks, n, origin, sources, i - 1);
            let b = blocks[i - 1];
            let c = cell_of(i - 1, n);
            if b != 0 && sources.dom().contains(b) {
                before.with_block(
                    (origin.0 + c.0, origin.1 + c.1, origin.2 + c.2),
                    b,
                    sources[b]@,
                    sources[b]@.len() as int,
                )
            } else {
                before
            }
        }
    }
}

/// No lights.
pub open spec fn no_lights() -> ScanModel {
    ScanModel { points: Seq::empty(), spots: Seq::empty() }
}

proof fn lemma_cell(i: int, n: int)
    requires
        n > 0,
        0 <= i < n * n * n,
    ensures
        0 <= cell_of(i, n).0 < n,
        0 <= cell_of(i, n).1 < n,
        0 <= cell_of(i, n).2 < n,
        n * n > 0,
{
    assert(n * n > 0) by (nonlinear_arith)
        requires
            n > 0,
    ;
    let nn = n * n;
    vstd::arithmetic::div_mod::lemma_mod_bound(i, n);
    vstd::arithmetic::div_mod::lemma_mod_bound(i / n, n);
    vstd::arithmetic::div_mod::lemma_div_pos_is_pos(i, nn);
    vstd::arithmetic::div_mod::lemma_fundamental_div_mod(i, nn);
    vstd::arithmetic::div_mod::lemma_mod_bound(i, nn);
    let q = i / nn;
    assert(q < n) by (nonlinear_arith)
        requires
            i == nn * q + i % nn,
            0 <= i % nn,
            i < nn * n,
            nn > 0,
    ;
}

impl LightScan {
    fn take_block(
        &mut self,
        x: i32,
        y: i32,
        z: i32,
        block: u8,
        sources: &Vec<BlockLightSource>,
    )
        ensures
            final(self)@ == old(self)@.with_block(
                (x as int, y as int, z as int),
                block,
                sources@,
                sources@.len() as int,
            ),
    {
        let mut k: usize = 0;
        while k < sources.len()
            invariant
                k <= sources@.len(),
                self@ == old(self)@.with_block(
                    (x as int, y as int, z as int),
                    block,
                    sources@,
                    k as int,
                ),
            decreases sources@.len() - k,
        {
            let range: u32 = if single::above(sources[k].range, HALF) {
                sources[k].range
            } else {
                DEFAULT_BLOCK_RANGE
            };
            let l: FoundLight = FoundLight { x, y, z, block, source: k, range };
            if self.points.len() < MAX_LIGHTS && self.spots.len() < MAX_LIGHTS {
                match sources[k].kind {
                    LightKind::Point => {
                        self.points.push(l);
                    },
                    LightKind::Directional => {
                        self.spots.push(l);
                    },
                }
            }
            k += 1;
        }
    }
}

/// Looks a cube of blocks through for blocks that shine, until there are
/// enough lights of a kind. The blocks lie along x first, then y, then z.
pub fn scan_lights(
    blocks: &Vec<u8>,
    size: usize,
    origin: (i32, i32, i32),
    sources: &Table<u8, Vec<BlockLightSource>>,
) -> (r: LightScan)
    requires
        sources.wf(),
        blocks@.len() == size * size * size,
        size <= i32::MAX,
        origin.0 + size - 1 <= i32::MAX,
        origin.1 + size - 1 <= i32::MAX,
        origin.2 + size - 1 <= i32::MAX,
    ensures
        r@ == no_lights().with_cells(
            blocks@,
            size as int,
            origin,
            sources@,
            blocks@.len() as int,
        ),
{
    let mut r: LightScan = LightScan { points: Vec::new(), spots: Vec::new() };
    let n: usize = size;
    if blocks.len() == 0 {
        return r;
    }
    proof {
        assert(n > 0) by (nonlinear_arith)
            requires
                n * n * n > 0,
        ;
        assert(n * n <= n * n * n) by (nonlinear_arith)
            requires
                n > 0,
        ;
    }
    let area: usize = n * n;
    let mut i: usize = 0;
    while i < blocks.len()
        invariant
            i <= blocks@.len(),
            sources.wf(),
            n > 0,
            n == size,
            area == n * n,
            blocks@.len() == n * n * n,
            n <= i32::MAX,
            origin.0 + n - 1 <= i32::MAX,
            origin.1 + n - 1 <= i32::MAX,
            origin.2 + n - 1 <= i32::MAX,
            r@ == no_lights().with_cells(blocks@, n as int, origin, sources@, i as int),
        decreases blocks@.len() - i,
    {
        let b: u8 = blocks[i];
        if b != 0 {
            match sources.get(&b) {
                Some(list) => {
                    proof {
                        lemma_cell(i as int, n as int);
                    }
                    let cx: usize = i % n;
                    let cy: usize = i / n % n;
                    let cz: usize = i / area;
                    r.take_block(
                        origin.0 + cx as i32,
                        origin.1 + cy as i32,
                        origin.2 + cz as i32,
                        b,
                        list,
                    );
                },
                None => {},
            }
        }
        i += 1;
    }
    r
}

/// There are never more lights of a kind than there may be, and no light is
/// looked for once there are enough of a kind.
pub proof fn law_scan_is_capped(
    blocks: Seq<u8>,
    n: int,
    origin: (i32, i32, i32),
    sources: Map<u8, Vec<BlockLightSource>>,
    i: int,
    j: int,
)
    requires
        0 <= i <= j <= blocks.len(),
    ensures
        ({
            let a = no_lights().with_cells(blocks, n, origin, sources, i);
            let b = no_lights().with_cells(blocks, n, origin, sources, j);
            &&& b.points.len() <= MAX_LIGHTS
            &&& b.spots.len() <= MAX_LIGHTS
            &&& a.full() ==> b == a
        }),
    decreases j,
{
    if j > 0 {
        let before = no_lights().with_cells(blocks, n, origin, sources, j - 1);
        if i < j {
            law_scan_is_capped(blocks, n, origin, sources, i, j - 1);
        } else {
            law_scan_is_capped(blocks, n, origin, sources, j - 1, j - 1);
        }
        let b = blocks[j - 1];
        let c = cell_of(j - 1, n);
        if b != 0 && sources.dom().contains(b) {
            lemma_block_is_capped(
                before,
                (origin.0 + c.0, origin.1 + c.1, origin.2 + c.2),
                b,
                sources[b]@,
                sources[b]@.len() as int,
            );
        }
    }
}

proof fn lemma_block_is_capped(
    m: ScanModel,
    at: (int, int, int),
    block: u8,
    sources: Seq<BlockLightSource>,
    n: int,
)
    requires
        m.points.len() <= MAX_LIGHTS,
        m.spots.len() <= MAX_LIGHTS,
    ensures
        m.with_block(at, block, sources, n).points.len() <= MAX_LIGHTS,
        m.with_block(at, block, sources, n).spots.len() <= MAX_LIGHTS,
        m.full() ==> m.with_block(at, block, sources, n) == m,
    decreases n,
{
    if n > 0 {
        lemma_block_is_capped(m, at, block, sources, n - 1);
    }
}

/// A light of a frame: a light of a block, the head light of a test entity, or
/// a light that the definition of an entity gives it.
#[derive(Debug, Clone, Copy, PartialEq, Eq, Structural)]
pub enum LightRef {
    BlockPoint(usize),
    BlockSpot(usize),
    TestEntity(usize),
    Entity(usize, usize),
}

/// An entity with the lights that its definition gives it.
#[derive(Debug)]
pub struct LightEntity {
    pub is_player: bool,
    pub lights: Vec<LightKind>,
}

/// The lights of a frame, and which of them glow.
#[derive(Debug)]
pub struct FrameLights {
    pub points: Vec<LightRef>,
    pub spots: Vec<LightRef>,
    pub emitters: Vec<LightRef>,
}

/// The lights of a frame as a mathematical value.
#[verifier::ext_equal]
pub struct FrameModel {
    pub points: Seq<LightRef>,
    pub spots: Seq<LightRef>,
    pub emitters: Seq<LightRef>,
}

impl View for FrameLights {
    type V = FrameModel;

    open spec fn view(&self) -> FrameModel {
        FrameModel { points: self.points@, spots: self.spots@, emitters: self.emitters@ }
    }
}

impl FrameModel {
    /// One more point light, if there is room; it glows where `glows` says so.
    pub open spec fn with_point(self, l: LightRef, glows: bool) -> FrameModel {
        if self.points.len() >= MAX_LIGHTS {
            self
        } else {
            FrameModel {
                points: self.points.push(l),
                emitters: if glows {
                    self.emitters.push(l)
                } else {
                    self.emitters
                },
                ..self
            }
        }
    }

    /// One more spot light, if there is room; it glows where `glows` says so.
    pub open spec fn with_spot(self, l: LightRef, glows: bool) -> FrameModel {
        if self.spots.len() >= MAX_LIGHTS {
            self
        } else {
            FrameModel {
                spots: self.spots.push(l),
                emitters: if glows {
                    self.emitters.push(l)
                } else {
                    self.emitters
                },
                ..self
            }
        }
    }

    /// The frame after the head lights of the first `n` test entities that are
    /// still there.
    pub open spec fn with_tests(self, alive: Seq<bool>, n: int) -> FrameModel
        decreases n,
    {
        if n <= 0 {
            self
        } else {
            let m = self.with_tests(alive, n - 1);
            if alive[n - 1] {
                m.with_point(LightRef::TestEntity((n - 1) as usize), true)
            } else {
                m
            }
        }
    }

    /// The frame after the first `n` spot lights of blocks.
    pub open spec fn with_block_spots(self, n: int) -> FrameModel
        decreases n,
    {
        if n <= 0 {
            self
        } else {
            self.with_block_spots(n - 1).with_spot(LightRef::BlockSpot((n - 1) as usize), true)
        }
    }

    /// The frame after the first `n` lights of entity `e`.
    pub open spec fn with_entity(self, e: int, lights: Seq<LightKind>, glows: bool, n: int) -> FrameModel
        decreases n,
    {
        if n <= 0 {
            self
        } else {
            let m = self.with_entity(e, lights, glows, n - 1);
            let l = LightRef::Entity(e as usize, (n - 1) as usize);
            match lights[n - 1] {
                LightKind::Point => m.with_point(l, glows),
                LightKind::Directional => m.with_spot(l, glows),
            }
        }
    }

    /// The frame after the lights of the first `n` entities. The player's own
    /// lights do not glow where the world is seen with the player's eyes.
    pub open spec fn with_entities(self, entities: Seq<LightEntity>, first_person: bool, n: int) -> FrameModel
        decreases n,
    {
        if n <= 0 {
            self
        } else {
            let e = entities[n - 1];
            self.with_entities(entities, first_person, n - 1).with_entity(
                n - 1,
                e.lights@,
                !(e.is_player && first_person),
                e.lights@.len() as int,
            )
        }
    }
}

/// The point lights of blocks, all of which glow.
pub open spec fn block_points(n: int) -> FrameModel {
    let s = Seq::new(n as nat, |i: int| LightRef::BlockPoint(i as usize));
    FrameModel { points: s, spots: Seq::empty(), emitters: s }
}

/// The lights of a frame.
pub open spec fn frame_lights(
    points: int,
    spots: int,
    alive: Seq<bool>,
    entities: Seq<LightEntity>,
    spotlight_on: bool,
    first_person: bool,
) -> FrameModel {
    let m = block_points(points).with_tests(alive, alive.len() as int).with_block_spots(spots);
    if spotlight_on {
        m.with_entities(entities, first_person, entities.len() as int)
    } else {
        m
    }
}

impl FrameLights {
    fn add_point(&mut self, l: LightRef, glows: bool)
        ensures
            final(self)@ == old(self)@.with_point(l, glows),
    {
        if self.points.len() < MAX_LIGHTS {
            self.points.push(l);
            if glows {
                self.emitters.push(l);
            }
        }
    }

    fn add_spot(&mut self, l: LightRef, glows: bool)
        ensures
            final(self)@ == old(self)@.with_spot(l, glows),
    {
        if self.spots.len() < MAX_LIGHTS {
            self.spots.push(l);
            if glows {
                self.emitters.push(l);
            }
        }
    }

    fn add_entity(&mut self, e: usize, lights: &Vec<LightKind>, glows: bool)
        ensures
            final(self)@ == old(self)@.with_entity(
                e as int,
                lights@,
                glows,
                lights@.len() as int,
            ),
    {
        let mut k: usize = 0;
        while k < lights.len()
            invariant
                k <= lights@.len(),
                self@ == old(self)@.with_entity(e as int, lights@, glows, k as int),
            decreases lights@.len() - k,
        {
            match lights[k] {
                LightKind::Point => {
                    self.add_point(LightRef::Entity(e, k), glows);
                },
                LightKind::Directional => {
                    self.add_spot(LightRef::Entity(e, k), glows);
                },
            }
            k += 1;
        }
    }
}

/// The lights of a frame: the lights of blocks, the head lights of the test
/// entities that are still there, and, where the lights of entities are on,
/// those of each entity.
pub fn gather_lights(
    points: usize,
    spots: usize,
    alive: &Vec<bool>,
    entities: &Vec<LightEntity>,
    spotlight_on: bool,
    view_mode: ViewMode,
) -> (r: FrameLights)
    ensures
        r@ == frame_lights(
            points as int,
            spots as int,
            alive@,
            entities@,
            spotlight_on,
            view_mode == ViewMode::FirstPerson,
        ),
{
    let first_person: bool = view_mode == ViewMode::FirstPerson;
    let mut r: FrameLights = FrameLights {
        points: Vec::new(),
        spots: Vec::new(),
        emitters: Vec::new(),
    };
    let mut i: usize = 0;
    while i < points
        invariant
            i <= points,
            r@ == block_points(i as int),
        decreases points - i,
    {
        r.points.push(LightRef::BlockPoint(i));
        r.emitters.push(LightRef::BlockPoint(i));
        i += 1;
        assert(r@ =~= block_points(i as int));
    }
    let ghost base = r@;
    let mut t: usize = 0;
    while t < alive.len()
        invariant
            t <= alive@.len(),
            r@ == base.with_tests(alive@, t as int),
        decreases alive@.len() - t,
    {
        if alive[t] {
            r.add_point(LightRef::TestEntity(t), true);
        }
        t += 1;
    }
    let ghost tested = r@;
    let mut s: usize = 0;
    while s < spots
        invariant
            s <= spots,
            r@ == tested.with_block_spots(s as int),
        decreases spots - s,
    {
        r.add_spot(LightRef::BlockSpot(s), true);
        s += 1;
    }
    if spotlight_on {
        let ghost lit = r@;
        let mut e: usize = 0;
        while e < entities.len()
            invariant
                e <= entities@.len(),
                r@ == lit.with_entities(entities@, first_person, e as int),
            decreases entities@.len() - e,
        {
            let glows: bool = !(entities[e].is_player && first_person);
            r.add_entity(e, &entities[e].lights, glows);
            e += 1;
        }
    }
    r
}

/// A light glows only where it is a light of the frame, and a light of the
/// player does not where the world is seen with the player's eyes.
pub open spec fn glow_is_right(m: FrameModel, entities: Seq<LightEntity>, first_person: bool) -> bool {
    forall|k: int|
        #![trigger m.emitters[k]]
        0 <= k < m.emitters.len() ==> {
            &&& m.points.contains(m.emitters[k]) || m.spots.contains(m.emitters[k])
            &&& m.emitters[k] matches LightRef::Entity(e, _) ==> !(first_person
                && entities[e as int].is_player)
        }
}

proof fn lemma_contains_push(s: Seq<LightRef>, x: LightRef, l: LightRef)
    ensures
        s.push(l).contains(l),
        s.contains(x) ==> s.push(l).contains(x),
{
    assert(s.push(l)[s.len() as int] == l);
    if s.contains(x) {
        let i = choose|i: int| #![trigger s[i]] 0 <= i < s.len() && s[i] == x;
        assert(s.push(l)[i] == x);
    }
}

proof fn lemma_glow_step(m: FrameModel, w: FrameModel, l: LightRef, glows: bool, entities: Seq<LightEntity>, first_person: bool)
    requires
        glow_is_right(m, entities, first_person),
        w == m.with_point(l, glows) || w == m.with_spot(l, glows),
        glows ==> (l matches LightRef::Entity(e, _) ==> !(first_person
            && entities[e as int].is_player)),
    ensures
        glow_is_right(w, entities, first_person),
{
    assert forall|k: int| #![trigger w.emitters[k]] 0 <= k < w.emitters.len() implies {
        &&& w.points.contains(w.emitters[k]) || w.spots.contains(w.emitters[k])
        &&& w.emitters[k] matches LightRef::Entity(e, _) ==> !(first_person
            && entities[e as int].is_player)
    } by {
        let x = w.emitters[k];
        lemma_contains_push(m.points, x, l);
        lemma_contains_push(m.spots, x, l);
        if k < m.emitters.len() {
            assert(m.emitters[k] == x);
        }
    }
}

proof fn lemma_glow_tests(m: FrameModel, alive: Seq<bool>, n: int, entities: Seq<LightEntity>, first_person: bool)
    requires
        glow_is_right(m, entities, first_person),
        m.points.len() <= MAX_LIGHTS,
        m.spots.len() <= MAX_LIGHTS,
    ensures
        glow_is_right(m.with_tests(alive, n), entities, first_person),
        m.with_tests(alive, n).points.len() <= MAX_LIGHTS,
        m.with_tests(alive, n).spots.len() <= MAX_LIGHTS,
    decreases n,
{
    if n > 0 {
        lemma_glow_tests(m, alive, n - 1, entities, first_person);
        let b = m.with_tests(alive, n - 1);
        let l = LightRef::TestEntity((n - 1) as usize);
        lemma_glow_step(b, b.with_point(l, true), l, true, entities, first_person);
    }
}

proof fn lemma_glow_spots(m: FrameModel, n: int, entities: Seq<LightEntity>, first_person: bool)
    requires
        glow_is_right(m, entities, first_person),
        m.points.len() <= MAX_LIGHTS,
        m.spots.len() <= MAX_LIGHTS,
    ensures
        glow_is_right(m.with_block_spots(n), entities, first_person),
        m.with_block_spots(n).points.len() <= MAX_LIGHTS,
        m.with_block_spots(n).spots.len() <= MAX_LIGHTS,
    decreases n,
{
    if n > 0 {
        lemma_glow_spots(m, n - 1, entities, first_person);
        let b = m.with_block_spots(n - 1);
        let l = LightRef::BlockSpot((n - 1) as usize);
        lemma_glow_step(b, b.with_spot(l, true), l, true, entities, first_person);
    }
}

proof fn lemma_glow_entity(m: FrameModel, e: int, glows: bool, n: int, entities: Seq<LightEntity>, first_person: bool)
    requires
        glow_is_right(m, entities, first_person),
        m.points.len() <= MAX_LIGHTS,
        m.spots.len() <= MAX_LIGHTS,
        0 <= e < entities.len() <= usize::MAX,
        glows == !(entities[e].is_player && first_person),
    ensures
        glow_is_right(m.with_entity(e, entities[e].lights@, glows, n), entities, first_person),
        m.with_entity(e, entities[e].lights@, glows, n).points.len() <= MAX_LIGHTS,
        m.with_entity(e, entities[e].lights@, glows, n).spots.len() <= MAX_LIGHTS,
    decreases n,
{
    if n > 0 {
        lemma_glow_entity(m, e, glows, n - 1, entities, first_person);
        let b = m.with_entity(e, entities[e].lights@, glows, n - 1);
        let l = LightRef::Entity(e as usize, (n - 1) as usize);
        lemma_glow_step(b, b.with_point(l, glows), l, glows, entities, first_person);
        lemma_glow_step(b, b.with_spot(l, glows), l, glows, entities, first_person);
    }
}

proof fn lemma_glow_entities(m: FrameModel, n: int, entities: Seq<LightEntity>, first_person: bool)
    requires
        glow_is_right(m, entities, first_person),
        m.points.len() <= MAX_LIGHTS,
        m.spots.len() <= MAX_LIGHTS,
        0 <= n <= entities.len() <= usize::MAX,
    ensures
        glow_is_right(m.with_entities(entities, first_person, n), entities, first_person),
        m.with_entities(entities, first_person, n).points.len() <= MAX_LIGHTS,
        m.with_entities(entities, first_person, n).spots.len() <= MAX_LIGHTS,
    decreases n,
{
    if n > 0 {
        lemma_glow_entities(m, n - 1, entities, first_person);
        let e = entities[n - 1];
        lemma_glow_entity(
            m.with_entities(entities, first_person, n - 1),
            n - 1,
            !(e.is_player && first_person),
            e.lights@.len() as int,
            entities,
            first_person,
        );
    }
}

/// A frame has no more lights of a kind than there may be, every glow is one of
/// its lights, and the player's own lights do not glow before the player's
/// eyes.
pub proof fn law_frame_lights(
    points: int,
    spots: int,
    alive: Seq<bool>,
    entities: Seq<LightEntity>,
    spotlight_on: bool,
    first_person: bool,
)
    requires
        0 <= points <= MAX_LIGHTS,
        entities.len() <= usize::MAX,
    ensures
        ({
            let m = frame_lights(points, spots, alive, entities, spotlight_on, first_person);
            &&& m.points.len() <= MAX_LIGHTS
            &&& m.spots.len() <= MAX_LIGHTS
            &&& glow_is_right(m, entities, first_person)
        }),
{
    let b = block_points(points);
    assert forall|k: int| #![trigger b.emitters[k]] 0 <= k < b.emitters.len() implies {
        &&& b.points.contains(b.emitters[k]) || b.spots.contains(b.emitters[k])
        &&& b.emitters[k] matches LightRef::Entity(e, _) ==> !(first_person
            && entities[e as int].is_player)
    } by {
        assert(b.points[k] == b.emitters[k]);
    }
    lemma_glow_tests(b, alive, alive.len() as int, entities, first_person);
    let t = b.with_tests(alive, alive.len() as int);
    lemma_glow_spots(t, spots, entities, first_person);
    if spotlight_on {
        lemma_glow_entities(
            t.with_block_spots(spots),
            entities.len() as int,
            entities,
            first_person,
        );
    }
}

/// The cells of a chunk are numbered along x, then y, then z: the number of
/// a cell gives its place, and the place the number.
pub proof fn law_cells(i: int, n: int)
    requires
        n > 0,
        0 <= i < n * n * n,
    ensures
        ({
            let c = cell_of(i, n);
            &&& 0 <= c.0 < n
            &&& 0 <= c.1 < n
            &&& 0 <= c.2 < n
            &&& c.0 + n * c.1 + n * n * c.2 == i
        }),
{
    lemma_cell(i, n);
    vstd::arithmetic::div_mod::lemma_fundamental_div_mod(i, n);
    vstd::arithmetic::div_mod::lemma_fundamental_div_mod(i / n, n);
    vstd::arithmetic::div_mod::lemma_div_denominator(i, n, n);
    let q = i / n;
    assert(q / n == i / (n * n));
    let y = q % n;
    let z = q / n;
    assert(n * (n * z + y) == n * n * z + n * y) by (nonlinear_arith);
}

/// How far a block's light reaches: as far as it says where that is more than
/// half a block, else 16 blocks.
pub proof fn law_block_range(range: u32)
    ensures
        0x3f00_0000 < range <= 0x7f80_0000 ==> block_range(range) == range,
        range <= 0x3f00_0000 || range > 0x7f80_0000 ==> block_range(range) == 0x4180_0000,
{
}

/// A light that is found goes to the lights of its kind, behind those found
/// before; once 64 of either kind are found, none goes anywhere.
pub proof fn law_found_light(m: ScanModel, l: FoundLight)
    ensures
        m.full() <==> m.points.len() >= 64 || m.spots.len() >= 64,
        m.full() ==> m.with_light(l, LightKind::Point) == m && m.with_light(
            l,
            LightKind::Directional,
        ) == m,
        !m.full() ==> {
            let p = m.with_light(l, LightKind::Point);
            let s = m.with_light(l, LightKind::Directional);
            &&& p.points.drop_last() == m.points && p.points.last() == l && p.points.len()
                == m.points.len() + 1 && p.spots == m.spots
            &&& s.spots.drop_last() == m.spots && s.spots.last() == l && s.spots.len()
                == m.spots.len() + 1 && s.points == m.points
        },
        no_lights().points.len() == 0,
        no_lights().spots.len() == 0,
{
    assert(m.points.push(l).drop_last() =~= m.points);
    assert(m.spots.push(l).drop_last() =~= m.spots);
}

/// Whether a light is the one that a source of a block gives at a place.
spec fn is_given(
    l: FoundLight,
    at: (int, int, int),
    block: u8,
    sources: Seq<BlockLightSource>,
    kind: LightKind,
) -> bool {
    &&& l.x == at.0 as i32
    &&& l.y == at.1 as i32
    &&& l.z == at.2 as i32
    &&& l.block == block
    &&& 0 <= l.source < sources.len()
    &&& sources[l.source as int].kind == kind
    &&& l.range == block_range(sources[l.source as int].range)
}

/// One block's lights: those of its sources in turn, as long as there is room.
proof fn lemma_block_lights(
    m: ScanModel,
    at: (int, int, int),
    block: u8,
    sources: Seq<BlockLightSource>,
    n: int,
)
    requires
        0 <= n <= sources.len() <= usize::MAX,
    ensures
        ({
            let r = m.with_block(at, block, sources, n);
            &&& m.points.is_prefix_of(r.points)
            &&& m.spots.is_prefix_of(r.spots)
            &&& forall|k: int|
                #![trigger r.points[k]]
                m.points.len() <= k < r.points.len() ==> is_given(
                    r.points[k],
                    at,
                    block,
                    sources,
                    LightKind::Point,
                ) && r.points[k].source < n
            &&& forall|k: int|
                #![trigger r.spots[k]]
                m.spots.len() <= k < r.spots.len() ==> is_given(
                    r.spots[k],
                    at,
                    block,
                    sources,
                    LightKind::Directional,
                ) && r.spots[k].source < n
            &&& forall|s: int|
                #![trigger sources[s]]
                !r.full() && 0 <= s < n && sources[s].kind is Point ==> exists|k: int|
                    #![trigger r.points[k]]
                    m.points.len() <= k < r.points.len() && r.points[k].source == s
            &&& forall|s: int|
                #![trigger sources[s]]
                !r.full() && 0 <= s < n && sources[s].kind is Directional ==> exists|k: int|
                    #![trigger r.spots[k]]
                    m.spots.len() <= k < r.spots.len() && r.spots[k].source == s
        }),
    decreases n,
{
    if n > 0 {
        lemma_block_lights(m, at, block, sources, n - 1);
        let a = m.with_block(at, block, sources, n - 1);
        let r = m.with_block(at, block, sources, n);
        if !a.full() {
            match sources[n - 1].kind {
                LightKind::Point => {
                    assert(r.points[a.points.len() as int].source == n - 1);
                    assert forall|k: int| #![trigger a.points[k]] 0 <= k < a.points.len() implies r.points[k]
                        == a.points[k] by {}
                    assert(r.spots == a.spots);
                },
                LightKind::Directional => {
                    assert(r.spots[a.spots.len() as int].source == n - 1);
                    assert forall|k: int| #![trigger a.spots[k]] 0 <= k < a.spots.len() implies r.spots[k]
                        == a.spots[k] by {}
                    assert(r.points == a.points);
                },
            }
            assert forall|s: int|
                #![trigger sources[s]]
                !r.full() && 0 <= s < n && sources[s].kind is Point implies exists|k: int|
                #![trigger r.points[k]]
                m.points.len() <= k < r.points.len() && r.points[k].source == s by {
                if s < n - 1 {
                    let k = choose|k: int|
                        #![trigger a.points[k]]
                        m.points.len() <= k < a.points.len() && a.points[k].source == s;
                    assert(r.points[k].source == s);
                }
            }
            assert forall|s: int|
                #![trigger sources[s]]
                !r.full() && 0 <= s < n && sources[s].kind is Directional implies exists|k: int|
                #![trigger r.spots[k]]
                m.spots.len() <= k < r.spots.len() && r.spots[k].source == s by {
                if s < n - 1 {
                    let k = choose|k: int|
                        #![trigger a.spots[k]]
                        m.spots.len() <= k < a.spots.len() && a.spots[k].source == s;
                    assert(r.spots[k].source == s);
                }
            }
        }
    }
}

/// What a scan finds: each point light is that of a source of its kind of the
/// block in some cell, at that cell's place, and each spot light likewise. The
/// lights of earlier cells come first. As long as fewer than 64 of each kind are
/// found, every source of every block counts.
pub proof fn law_scan(
    blocks: Seq<u8>,
    n: int,
    origin: (i32, i32, i32),
    sources: Map<u8, Vec<BlockLightSource>>,
    i: int,
    j: int,
)
    requires
        n > 0,
        blocks.len() == n * n * n,
        origin.0 + n - 1 <= i32::MAX,
        origin.1 + n - 1 <= i32::MAX,
        origin.2 + n - 1 <= i32::MAX,
        0 <= i <= j <= blocks.len(),
    ensures
        ({
            let a = no_lights().with_cells(blocks, n, origin, sources, i);
            let r = no_lights().with_cells(blocks, n, origin, sources, j);
            &&& a.points.is_prefix_of(r.points)
            &&& a.spots.is_prefix_of(r.spots)
            &&& forall|k: int|
                #![trigger r.points[k]]
                a.points.len() <= k < r.points.len() ==> exists|c: int|
                    #![trigger blocks[c]]
                    i <= c < j && blocks[c] != 0 && sources.dom().contains(blocks[c])
                        && is_found_at(r.points[k], n, origin, c, blocks[c], sources[blocks[c]]@)
                        && sources[blocks[c]]@[r.points[k].source as int].kind is Point
            &&& forall|k: int|
                #![trigger r.spots[k]]
                a.spots.len() <= k < r.spots.len() ==> exists|c: int|
                    #![trigger blocks[c]]
                    i <= c < j && blocks[c] != 0 && sources.dom().contains(blocks[c])
                        && is_found_at(r.spots[k], n, origin, c, blocks[c], sources[blocks[c]]@)
                        && sources[blocks[c]]@[r.spots[k].source as int].kind is Directional
            &&& forall|c: int, s: int|
                #![trigger blocks[c], sources[blocks[c]]@[s]]
                r.points.len() < 64 && r.spots.len() < 64 && i <= c < j && blocks[c] != 0
                    && sources.dom().contains(blocks[c]) && 0 <= s < sources[blocks[c]]@.len() ==> {
                    ||| sources[blocks[c]]@[s].kind is Point && exists|k: int|
                        #![trigger r.points[k]]
                        a.points.len() <= k < r.points.len() && r.points[k].source == s
                            && is_found_at(r.points[k], n, origin, c, blocks[c], sources[blocks[c]]@)
                    ||| sources[blocks[c]]@[s].kind is Directional && exists|k: int|
                        #![trigger r.spots[k]]
                        a.spots.len() <= k < r.spots.len() && r.spots[k].source == s
                            && is_found_at(r.spots[k], n, origin, c, blocks[c], sources[blocks[c]]@)
                }
        }),
    decreases j - i,
{
    if i < j {
        law_scan(blocks, n, origin, sources, i, j - 1);
        let a = no_lights().with_cells(blocks, n, origin, sources, i);
        let p = no_lights().with_cells(blocks, n, origin, sources, j - 1);
        let r = no_lights().with_cells(blocks, n, origin, sources, j);
        let d = j - 1;
        let b = blocks[d];
        law_cells(d, n);
        let c = cell_of(d, n);
        let at = (origin.0 + c.0, origin.1 + c.1, origin.2 + c.2);
        if b != 0 && sources.dom().contains(b) {
            let list = sources[b]@;
            assert(sources[b].len() == list.len());
            lemma_block_lights(p, at, b, list, list.len() as int);
            assert forall|k: int| #![trigger p.points[k]] 0 <= k < p.points.len() implies r.points[k]
                == p.points[k] by {}
            assert forall|k: int| #![trigger p.spots[k]] 0 <= k < p.spots.len() implies r.spots[k]
                == p.spots[k] by {}
            assert forall|k: int| #![trigger a.points[k]] 0 <= k < a.points.len() implies a.points[k]
                == p.points[k] by {}
            assert forall|k: int| #![trigger a.spots[k]] 0 <= k < a.spots.len() implies a.spots[k]
                == p.spots[k] by {}
            assert(a.points =~= r.points.subrange(0, a.points.len() as int));
            assert(a.spots =~= r.spots.subrange(0, a.spots.len() as int));
            lemma_new_lights(p, r, blocks, n, origin, sources, d);
            assert forall|k: int| #![trigger r.points[k]] a.points.len() <= k < r.points.len() implies exists|
                c: int,
            |
                #![trigger blocks[c]]
                i <= c < j && blocks[c] != 0 && sources.dom().contains(blocks[c]) && is_found_at(
                    r.points[k],
                    n,
                    origin,
                    c,
                    blocks[c],
                    sources[blocks[c]]@,
                ) && sources[blocks[c]]@[r.points[k].source as int].kind is Point by {
                if k < p.points.len() {
                    let c = choose|c: int|
                        #![trigger blocks[c]]
                        i <= c < d && blocks[c] != 0 && sources.dom().contains(blocks[c])
                            && is_found_at(p.points[k], n, origin, c, blocks[c], sources[blocks[c]]@)
                            && sources[blocks[c]]@[p.points[k].source as int].kind is Point;
                    assert(blocks[c] != 0);
                } else {
                    assert(blocks[d] == b);
                }
            }
            assert forall|k: int| #![trigger r.spots[k]] a.spots.len() <= k < r.spots.len() implies exists|
                c: int,
            |
                #![trigger blocks[c]]
                i <= c < j && blocks[c] != 0 && sources.dom().contains(blocks[c]) && is_found_at(
                    r.spots[k],
                    n,
                    origin,
                    c,
                    blocks[c],
                    sources[blocks[c]]@,
                ) && sources[blocks[c]]@[r.spots[k].source as int].kind is Directional by {
                if k < p.spots.len() {
                    let c = choose|c: int|
                        #![trigger blocks[c]]
                        i <= c < d && blocks[c] != 0 && sources.dom().contains(blocks[c])
                            && is_found_at(p.spots[k], n, origin, c, blocks[c], sources[blocks[c]]@)
                            && sources[blocks[c]]@[p.spots[k].source as int].kind is Directional;
                    assert(blocks[c] != 0);
                } else {
                    assert(blocks[d] == b);
                }
            }
            assert forall|c: int, s: int|
                #![trigger blocks[c], sources[blocks[c]]@[s]]
                r.points.len() < 64 && r.spots.len() < 64 && i <= c < j && blocks[c] != 0
                    && sources.dom().contains(blocks[c]) && 0 <= s < sources[blocks[c]]@.len() implies {
                ||| sources[blocks[c]]@[s].kind is Point && exists|k: int|
                    #![trigger r.points[k]]
                    a.points.len() <= k < r.points.len() && r.points[k].source == s && is_found_at(
                        r.points[k],
                        n,
                        origin,
                        c,
                        blocks[c],
                        sources[blocks[c]]@,
                    )
                ||| sources[blocks[c]]@[s].kind is Directional && exists|k: int|
                    #![trigger r.spots[k]]
                    a.spots.len() <= k < r.spots.len() && r.spots[k].source == s && is_found_at(
                        r.spots[k],
                        n,
                        origin,
                        c,
                        blocks[c],
                        sources[blocks[c]]@,
                    )
            } by {
                let l = sources[blocks[c]]@[s];
                if c < d {
                    match l.kind {
                        LightKind::Point => {
                            let k = choose|k: int|
                                #![trigger p.points[k]]
                                a.points.len() <= k < p.points.len() && p.points[k].source == s
                                    && is_found_at(
                                    p.points[k],
                                    n,
                                    origin,
                                    c,
                                    blocks[c],
                                    sources[blocks[c]]@,
                                );
                            assert(r.points[k].source == s);
                        },
                        LightKind::Directional => {
                            let k = choose|k: int|
                                #![trigger p.spots[k]]
                                a.spots.len() <= k < p.spots.len() && p.spots[k].source == s
                                    && is_found_at(
                                    p.spots[k],
                                    n,
                                    origin,
                                    c,
                                    blocks[c],
                                    sources[blocks[c]]@,
                                );
                            assert(r.spots[k].source == s);
                        },
                    }
                } else {
                    assert(c == d);
                    assert(list[s] == l);
                    match l.kind {
                        LightKind::Point => {
                            let k = choose|k: int|
                                #![trigger r.points[k]]
                                p.points.len() <= k < r.points.len() && r.points[k].source == s;
                            assert(is_found_at(r.points[k], n, origin, c, b, list));
                        },
                        LightKind::Directional => {
                            let k = choose|k: int|
                                #![trigger r.spots[k]]
                                p.spots.len() <= k < r.spots.len() && r.spots[k].source == s;
                            assert(is_found_at(r.spots[k], n, origin, c, b, list));
                        },
                    }
                }
            }
        } else {
            assert(r == p);
        }
    }
}

/// Whether a light stands at the place of a cell, the lowest corner of all
/// cells being `origin`, and is one of that cell's block with the reach that its
/// source has.
pub open spec fn is_found_at(
    l: FoundLight,
    n: int,
    origin: (i32, i32, i32),
    cell: int,
    block: u8,
    sources: Seq<BlockLightSource>,
) -> bool {
    &&& (l.x - origin.0) + n * (l.y - origin.1) + n * n * (l.z - origin.2) == cell
    &&& 0 <= l.x - origin.0 < n
    &&& 0 <= l.y - origin.1 < n
    &&& 0 <= l.z - origin.2 < n
    &&& l.block == block
    &&& l.source < sources.len()
    &&& l.range == block_range(sources[l.source as int].range)
}

proof fn lemma_new_lights(
    p: ScanModel,
    r: ScanModel,
    blocks: Seq<u8>,
    n: int,
    origin: (i32, i32, i32),
    sources: Map<u8, Vec<BlockLightSource>>,
    d: int,
)
    requires
        n > 0,
        blocks.len() == n * n * n,
        origin.0 + n - 1 <= i32::MAX,
        origin.1 + n - 1 <= i32::MAX,
        origin.2 + n - 1 <= i32::MAX,
        0 <= d < blocks.len(),
        sources.dom().contains(blocks[d]),
        r == p.with_block(
            (
                origin.0 + cell_of(d, n).0,
                origin.1 + cell_of(d, n).1,
                origin.2 + cell_of(d, n).2,
            ),
            blocks[d],
            sources[blocks[d]]@,
            sources[blocks[d]]@.len() as int,
        ),
    ensures
        forall|k: int|
            #![trigger r.points[k]]
            p.points.len() <= k < r.points.len() ==> is_found_at(
                r.points[k],
                n,
                origin,
                d,
                blocks[d],
                sources[blocks[d]]@,
            ) && sources[blocks[d]]@[r.points[k].source as int].kind is Point,
        forall|k: int|
            #![trigger r.spots[k]]
            p.spots.len() <= k < r.spots.len() ==> is_found_at(
                r.spots[k],
                n,
                origin,
                d,
                blocks[d],
                sources[blocks[d]]@,
            ) && sources[blocks[d]]@[r.spots[k].source as int].kind is Directional,
{
    law_cells(d, n);
    let c = cell_of(d, n);
    let at = (origin.0 + c.0, origin.1 + c.1, origin.2 + c.2);
    let list = sources[blocks[d]]@;
    assert(sources[blocks[d]].len() == list.len());
    lemma_block_lights(p, at, blocks[d], list, list.len() as int);
    assert forall|k: int| #![trigger r.points[k]] p.points.len() <= k < r.points.len() implies is_found_at(
        r.points[k],
        n,
        origin,
        d,
        blocks[d],
        list,
    ) && list[r.points[k].source as int].kind is Point by {
        let l = r.points[k];
        assert(is_given(l, at, blocks[d], list, LightKind::Point));
        assert(l.x - origin.0 == c.0 && l.y - origin.1 == c.1 && l.z - origin.2 == c.2);
    }
    assert forall|k: int| #![trigger r.spots[k]] p.spots.len() <= k < r.spots.len() implies is_found_at(
        r.spots[k],
        n,
        origin,
        d,
        blocks[d],
        list,
    ) && list[r.spots[k].source as int].kind is Directional by {
        let l = r.spots[k];
        assert(is_given(l, at, blocks[d], list, LightKind::Directional));
        assert(l.x - origin.0 == c.0 && l.y - origin.1 == c.1 && l.z - origin.2 == c.2);
    }
}

/// Where a light stands in the order in which a frame's lights are taken.
spec fn comes_before(x: LightRef, y: LightRef) -> bool {
    match (x, y) {
        (LightRef::BlockPoint(i), LightRef::BlockPoint(j)) => i < j,
        (LightRef::BlockPoint(_), _) => true,
        (LightRef::TestEntity(_), LightRef::BlockPoint(_)) => false,
        (LightRef::TestEntity(i), LightRef::TestEntity(j)) => i < j,
        (LightRef::TestEntity(_), _) => true,
        (LightRef::BlockSpot(i), LightRef::BlockSpot(j)) => i < j,
        (LightRef::BlockSpot(_), LightRef::Entity(_, _)) => true,
        (LightRef::BlockSpot(_), _) => false,
        (LightRef::Entity(e, i), LightRef::Entity(f, j)) => e < f || e == f && i < j,
        (LightRef::Entity(_, _), _) => false,
    }
}

spec fn glows_in(x: LightRef, entities: Seq<LightEntity>, first_person: bool) -> bool {
    x matches LightRef::Entity(e, _) ==> !(entities[e as int].is_player && first_person)
}

spec fn is_point_light(x: LightRef, entities: Seq<LightEntity>) -> bool {
    match x {
        LightRef::BlockPoint(_) => true,
        LightRef::TestEntity(_) => true,
        LightRef::BlockSpot(_) => false,
        LightRef::Entity(e, i) => entities[e as int].lights@[i as int] is Point,
    }
}

/// The lights taken so far: of the blocks, of the first `na` test lights and
/// `ns` block spots, of the first `ne` entities and the first `ni` of the next.
spec fn offered(
    x: LightRef,
    points: int,
    alive: Seq<bool>,
    na: int,
    ns: int,
    entities: Seq<LightEntity>,
    ne: int,
    ni: int,
) -> bool {
    match x {
        LightRef::BlockPoint(i) => i < points,
        LightRef::TestEntity(a) => a < na && alive[a as int],
        LightRef::BlockSpot(i) => i < ns,
        LightRef::Entity(e, i) => e < ne && i < entities[e as int].lights@.len() || e == ne && i < ni,
    }
}

/// What is known of the lists while lights are taken.
spec fn lists_hold(
    m: FrameModel,
    points: int,
    alive: Seq<bool>,
    na: int,
    ns: int,
    entities: Seq<LightEntity>,
    ne: int,
    ni: int,
    first_person: bool,
) -> bool {
    &&& m.points.len() <= MAX_LIGHTS
    &&& m.spots.len() <= MAX_LIGHTS
    &&& forall|k: int|
        #![trigger m.points[k]]
        0 <= k < m.points.len() ==> offered(m.points[k], points, alive, na, ns, entities, ne, ni)
            && is_point_light(m.points[k], entities)
    &&& forall|k: int|
        #![trigger m.spots[k]]
        0 <= k < m.spots.len() ==> offered(m.spots[k], points, alive, na, ns, entities, ne, ni)
            && !is_point_light(m.spots[k], entities)
    &&& forall|x: LightRef|
        #![trigger m.points.contains(x)]
        m.points.len() < MAX_LIGHTS && is_point_light(x, entities) && offered(
            x,
            points,
            alive,
            na,
            ns,
            entities,
            ne,
            ni,
        ) ==> m.points.contains(x)
    &&& forall|x: LightRef|
        #![trigger m.spots.contains(x)]
        m.spots.len() < MAX_LIGHTS && !is_point_light(x, entities) && offered(
            x,
            points,
            alive,
            na,
            ns,
            entities,
            ne,
            ni,
        ) ==> m.spots.contains(x)
    &&& forall|k: int, l: int|
        #![trigger m.points[k], m.points[l]]
        0 <= k < l < m.points.len() ==> comes_before(m.points[k], m.points[l])
    &&& forall|k: int, l: int|
        #![trigger m.spots[k], m.spots[l]]
        0 <= k < l < m.spots.len() ==> comes_before(m.spots[k], m.spots[l])
    &&& forall|k: int, l: int|
        #![trigger m.emitters[k], m.emitters[l]]
        0 <= k < l < m.emitters.len() ==> comes_before(m.emitters[k], m.emitters[l])
    &&& forall|k: int|
        #![trigger m.emitters[k]]
        0 <= k < m.emitters.len() ==> offered(m.emitters[k], points, alive, na, ns, entities, ne, ni)
    &&& forall|x: LightRef|
        #![trigger m.emitters.contains(x)]
        m.emitters.contains(x) <==> (m.points.contains(x) || m.spots.contains(x)) && glows_in(
            x,
            entities,
            first_person,
        )
}

proof fn lemma_pushed(s: Seq<LightRef>, l: LightRef)
    ensures
        forall|x: LightRef|
            #![trigger s.push(l).contains(x)]
            s.push(l).contains(x) <==> s.contains(x) || x == l,
{
    assert forall|x: LightRef| #![trigger s.push(l).contains(x)] s.push(l).contains(x)
        <==> s.contains(x) || x == l by {
        if s.push(l).contains(x) && x != l {
            let i = choose|i: int| 0 <= i < s.push(l).len() && s.push(l)[i] == x;
            assert(s[i] == x);
        }
        if s.contains(x) {
            let i = choose|i: int| 0 <= i < s.len() && s[i] == x;
            assert(s.push(l)[i] == x);
        }
        assert(s.push(l)[s.len() as int] == l);
    }
}

/// Taking one more light, which comes behind all that were taken.
proof fn lemma_take_light(
    m: FrameModel,
    w: FrameModel,
    l: LightRef,
    points: int,
    alive: Seq<bool>,
    a: (int, int),
    ns: (int, int),
    entities: Seq<LightEntity>,
    e: (int, int, int, int),
    first_person: bool,
)
    requires
        lists_hold(m, points, alive, a.0, ns.0, entities, e.0, e.1, first_person),
        forall|x: LightRef|
            #![trigger offered(x, points, alive, a.1, ns.1, entities, e.2, e.3)]
            offered(x, points, alive, a.1, ns.1, entities, e.2, e.3) <==> offered(
                x,
                points,
                alive,
                a.0,
                ns.0,
                entities,
                e.0,
                e.1,
            ) || x == l,
        forall|x: LightRef|
            #![trigger offered(x, points, alive, a.0, ns.0, entities, e.0, e.1)]
            offered(x, points, alive, a.0, ns.0, entities, e.0, e.1) ==> comes_before(x, l),
        is_point_light(l, entities) ==> w == m.with_point(l, glows_in(l, entities, first_person)),
        !is_point_light(l, entities) ==> w == m.with_spot(l, glows_in(l, entities, first_person)),
    ensures
        lists_hold(w, points, alive, a.1, ns.1, entities, e.2, e.3, first_person),
{
    lemma_pushed(m.points, l);
    lemma_pushed(m.spots, l);
    lemma_pushed(m.emitters, l);
    assert(!offered(l, points, alive, a.0, ns.0, entities, e.0, e.1)) by {
        if offered(l, points, alive, a.0, ns.0, entities, e.0, e.1) {
            assert(comes_before(l, l));
        }
    }
    assert forall|k: int| #![trigger w.points[k]] 0 <= k < w.points.len() implies offered(
        w.points[k],
        points,
        alive,
        a.1,
        ns.1,
        entities,
        e.2,
        e.3,
    ) && is_point_light(w.points[k], entities) by {
        if k < m.points.len() {
            assert(w.points[k] == m.points[k]);
            assert(offered(m.points[k], points, alive, a.0, ns.0, entities, e.0, e.1));
        }
    }
    assert forall|k: int| #![trigger w.spots[k]] 0 <= k < w.spots.len() implies offered(
        w.spots[k],
        points,
        alive,
        a.1,
        ns.1,
        entities,
        e.2,
        e.3,
    ) && !is_point_light(w.spots[k], entities) by {
        if k < m.spots.len() {
            assert(w.spots[k] == m.spots[k]);
            assert(offered(m.spots[k], points, alive, a.0, ns.0, entities, e.0, e.1));
        }
    }
    assert forall|k: int| #![trigger w.emitters[k]] 0 <= k < w.emitters.len() implies offered(
        w.emitters[k],
        points,
        alive,
        a.1,
        ns.1,
        entities,
        e.2,
        e.3,
    ) by {
        if k < m.emitters.len() {
            assert(w.emitters[k] == m.emitters[k]);
            assert(offered(m.emitters[k], points, alive, a.0, ns.0, entities, e.0, e.1));
        }
    }
    assert forall|k: int, j: int| #![trigger w.points[k], w.points[j]] 0 <= k < j < w.points.len() implies comes_before(
        w.points[k],
        w.points[j],
    ) by {
        assert(w.points[k] == m.points[k]);
        assert(offered(m.points[k], points, alive, a.0, ns.0, entities, e.0, e.1));
        if j < m.points.len() {
            assert(w.points[j] == m.points[j]);
        }
    }
    assert forall|k: int, j: int| #![trigger w.spots[k], w.spots[j]] 0 <= k < j < w.spots.len() implies comes_before(
        w.spots[k],
        w.spots[j],
    ) by {
        assert(w.spots[k] == m.spots[k]);
        assert(offered(m.spots[k], points, alive, a.0, ns.0, entities, e.0, e.1));
        if j < m.spots.len() {
            assert(w.spots[j] == m.spots[j]);
        }
    }
    assert forall|k: int, j: int| #![trigger w.emitters[k], w.emitters[j]] 0 <= k < j < w.emitters.len() implies comes_before(
        w.emitters[k],
        w.emitters[j],
    ) by {
        assert(w.emitters[k] == m.emitters[k]);
        assert(offered(m.emitters[k], points, alive, a.0, ns.0, entities, e.0, e.1));
        if j < m.emitters.len() {
            assert(w.emitters[j] == m.emitters[j]);
        }
    }
    assert(!m.points.contains(l)) by {
        if m.points.contains(l) {
            let k = choose|k: int| 0 <= k < m.points.len() && m.points[k] == l;
            assert(offered(m.points[k], points, alive, a.0, ns.0, entities, e.0, e.1));
        }
    }
    assert(!m.spots.contains(l)) by {
        if m.spots.contains(l) {
            let k = choose|k: int| 0 <= k < m.spots.len() && m.spots[k] == l;
            assert(offered(m.spots[k], points, alive, a.0, ns.0, entities, e.0, e.1));
        }
    }
}

proof fn lemma_take_tests(
    m: FrameModel,
    points: int,
    alive: Seq<bool>,
    n: int,
    entities: Seq<LightEntity>,
    first_person: bool,
)
    requires
        lists_hold(m, points, alive, 0, 0, entities, 0, 0, first_person),
        0 <= n <= alive.len() <= usize::MAX,
    ensures
        lists_hold(m.with_tests(alive, n), points, alive, n, 0, entities, 0, 0, first_person),
    decreases n,
{
    if n > 0 {
        lemma_take_tests(m, points, alive, n - 1, entities, first_person);
        let b = m.with_tests(alive, n - 1);
        let l = LightRef::TestEntity((n - 1) as usize);
        let w = m.with_tests(alive, n);
        if alive[n - 1] {
            lemma_take_light(
                b,
                w,
                l,
                points,
                alive,
                (n - 1, n),
                (0, 0),
                entities,
                (0, 0, 0, 0),
                first_person,
            );
        } else {
            assert forall|x: LightRef|
                #![trigger offered(x, points, alive, n, 0, entities, 0, 0)]
                offered(x, points, alive, n, 0, entities, 0, 0) == offered(
                    x,
                    points,
                    alive,
                    n - 1,
                    0,
                    entities,
                    0,
                    0,
                ) by {}
        }
    }
}

proof fn lemma_take_spots(
    m: FrameModel,
    points: int,
    alive: Seq<bool>,
    n: int,
    entities: Seq<LightEntity>,
    first_person: bool,
)
    requires
        lists_hold(m, points, alive, alive.len() as int, 0, entities, 0, 0, first_person),
        0 <= n <= usize::MAX,
    ensures
        lists_hold(
            m.with_block_spots(n),
            points,
            alive,
            alive.len() as int,
            n,
            entities,
            0,
            0,
            first_person,
        ),
    decreases n,
{
    if n > 0 {
        lemma_take_spots(m, points, alive, n - 1, entities, first_person);
        let a = alive.len() as int;
        lemma_take_light(
            m.with_block_spots(n - 1),
            m.with_block_spots(n),
            LightRef::BlockSpot((n - 1) as usize),
            points,
            alive,
            (a, a),
            (n - 1, n),
            entities,
            (0, 0, 0, 0),
            first_person,
        );
    }
}

proof fn lemma_take_entity(
    m: FrameModel,
    points: int,
    alive: Seq<bool>,
    spots: int,
    entities: Seq<LightEntity>,
    e: int,
    n: int,
    first_person: bool,
)
    requires
        lists_hold(m, points, alive, alive.len() as int, spots, entities, e, 0, first_person),
        0 <= e < entities.len() <= usize::MAX,
        0 <= n <= entities[e].lights@.len() <= usize::MAX,
    ensures
        lists_hold(
            m.with_entity(
                e,
                entities[e].lights@,
                !(entities[e].is_player && first_person),
                n,
            ),
            points,
            alive,
            alive.len() as int,
            spots,
            entities,
            e,
            n,
            first_person,
        ),
    decreases n,
{
    if n > 0 {
        lemma_take_entity(m, points, alive, spots, entities, e, n - 1, first_person);
        let a = alive.len() as int;
        let g = !(entities[e].is_player && first_person);
        lemma_take_light(
            m.with_entity(e, entities[e].lights@, g, n - 1),
            m.with_entity(e, entities[e].lights@, g, n),
            LightRef::Entity(e as usize, (n - 1) as usize),
            points,
            alive,
            (a, a),
            (spots, spots),
            entities,
            (e, n - 1, e, n),
            first_person,
        );
    }
}

proof fn lemma_take_entities(
    m: FrameModel,
    points: int,
    alive: Seq<bool>,
    spots: int,
    entities: Seq<LightEntity>,
    n: int,
    first_person: bool,
)
    requires
        lists_hold(m, points, alive, alive.len() as int, spots, entities, 0, 0, first_person),
        0 <= n <= entities.len() <= usize::MAX,
    ensures
        lists_hold(
            m.with_entities(entities, first_person, n),
            points,
            alive,
            alive.len() as int,
            spots,
            entities,
            n,
            0,
            first_person,
        ),
    decreases n,
{
    if n > 0 {
        lemma_take_entities(m, points, alive, spots, entities, n - 1, first_person);
        let e = n - 1;
        let a = alive.len() as int;
        assert(entities[e].lights.len() == entities[e].lights@.len());
        let b = m.with_entities(entities, first_person, e);
        let k = entities[e].lights@.len() as int;
        lemma_take_entity(b, points, alive, spots, entities, e, k, first_person);
        assert forall|x: LightRef|
            #![trigger offered(x, points, alive, a, spots, entities, n, 0)]
            #![trigger offered(x, points, alive, a, spots, entities, e, k)]
            offered(x, points, alive, a, spots, entities, n, 0) == offered(
                x,
                points,
                alive,
                a,
                spots,
                entities,
                e,
                k,
            ) by {}
    }
}

/// The lights of a frame. A light of a block, of a living test light, or,
/// with the lamp on, of an entity is listed by its kind, as long as the list of that
/// kind has fewer than 64; nothing else is listed, and nothing twice. Lights of
/// blocks come first, then the test lights, then the entities', each in their own
/// order. A light that is listed shows its glow, but for those of a player who is
/// seen from within.
pub proof fn law_frame_lists(
    points: int,
    spots: int,
    alive: Seq<bool>,
    entities: Seq<LightEntity>,
    on: bool,
    first_person: bool,
    x: LightRef,
    k: int,
    l: int,
)
    requires
        0 <= points <= 64,
        0 <= spots <= usize::MAX,
        alive.len() <= usize::MAX,
        entities.len() <= usize::MAX,
    ensures
        ({
            let m = frame_lights(points, spots, alive, entities, on, first_person);
            let there = match x {
                LightRef::BlockPoint(i) => i < points,
                LightRef::TestEntity(a) => a < alive.len() && alive[a as int],
                LightRef::BlockSpot(i) => i < spots,
                LightRef::Entity(e, i) => on && e < entities.len() && i
                    < entities[e as int].lights@.len(),
            };
            let point = match x {
                LightRef::BlockPoint(_) => true,
                LightRef::TestEntity(_) => true,
                LightRef::BlockSpot(_) => false,
                LightRef::Entity(e, i) => entities[e as int].lights@[i as int] is Point,
            };
            &&& m.points.len() <= 64 && m.spots.len() <= 64
            &&& m.points.contains(x) ==> there && point
            &&& m.spots.contains(x) ==> there && !point
            &&& m.points.len() < 64 && there && point ==> m.points.contains(x)
            &&& m.spots.len() < 64 && there && !point ==> m.spots.contains(x)
            &&& m.emitters.contains(x) <==> (m.points.contains(x) || m.spots.contains(x)) && !(
            first_person && (x matches LightRef::Entity(e, _) && entities[e as int].is_player))
            &&& 0 <= k < l < m.points.len() ==> in_frame_order(m.points[k], m.points[l])
            &&& 0 <= k < l < m.spots.len() ==> in_frame_order(m.spots[k], m.spots[l])
            &&& 0 <= k < l < m.emitters.len() ==> in_frame_order(m.emitters[k], m.emitters[l])
        }),
{
    let m0 = block_points(points);
    let s = Seq::new(points as nat, |i: int| LightRef::BlockPoint(i as usize));
    assert(m0.points == s && m0.emitters == s);
    assert forall|y: LightRef|
        #![trigger m0.points.contains(y)]
        offered(y, points, alive, 0, 0, entities, 0, 0) implies m0.points.contains(y) by {
        let i = y->BlockPoint_0;
        assert(m0.points[i as int] == y);
    }
    assert(lists_hold(m0, points, alive, 0, 0, entities, 0, 0, first_person)) by {
        assert forall|y: LightRef|
            #![trigger m0.emitters.contains(y)]
            m0.emitters.contains(y) <==> (m0.points.contains(y) || m0.spots.contains(y))
                && glows_in(y, entities, first_person) by {
            if m0.points.contains(y) {
                let i = choose|i: int| 0 <= i < m0.points.len() && m0.points[i] == y;
                assert(y == LightRef::BlockPoint(i as usize));
            }
        }
    }
    let n = alive.len() as int;
    lemma_take_tests(m0, points, alive, n, entities, first_person);
    let m1 = m0.with_tests(alive, n);
    lemma_take_spots(m1, points, alive, spots, entities, first_person);
    let m2 = m1.with_block_spots(spots);
    let ne = if on { entities.len() as int } else { 0 };
    if on {
        lemma_take_entities(m2, points, alive, spots, entities, ne, first_person);
    }
    let m = frame_lights(points, spots, alive, entities, on, first_person);
    assert(lists_hold(m, points, alive, n, spots, entities, ne, 0, first_person));
    if m.points.contains(x) {
        let i = choose|i: int| 0 <= i < m.points.len() && m.points[i] == x;
        assert(offered(m.points[i], points, alive, n, spots, entities, ne, 0));
    }
    if m.spots.contains(x) {
        let i = choose|i: int| 0 <= i < m.spots.len() && m.spots[i] == x;
        assert(offered(m.spots[i], points, alive, n, spots, entities, ne, 0));
    }
    if 0 <= k < l < m.points.len() {
        assert(comes_before(m.points[k], m.points[l]));
    }
    if 0 <= k < l < m.spots.len() {
        assert(comes_before(m.spots[k], m.spots[l]));
    }
    if 0 <= k < l < m.emitters.len() {
        assert(comes_before(m.emitters[k], m.emitters[l]));
    }
}

/// Whether of two different lights of a frame the first is to be listed
/// before the second.
pub open spec fn in_frame_order(x: LightRef, y: LightRef) -> bool {
    &&& x != y
    &&& x matches LightRef::BlockPoint(i) ==> y matches LightRef::BlockPoint(j) ==> i < j
    &&& x matches LightRef::TestEntity(i) ==> y matches LightRef::TestEntity(j) ==> i < j
    &&& x matches LightRef::BlockSpot(i) ==> y matches LightRef::BlockSpot(j) ==> i < j
    &&& x matches LightRef::Entity(e, i) ==> y matches LightRef::Entity(f, j) ==> e < f || e == f
        && i < j
    &&& y is BlockPoint ==> x is BlockPoint
    &&& y is TestEntity ==> x is BlockPoint || x is TestEntity
    &&& x is Entity ==> y is Entity
}

} // verus!
