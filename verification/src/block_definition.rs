//! The properties of a block as the editor handles them. Numbers with a
//! fraction are held as the bits of single-precision numbers.
use crate::inventory::clone_opt_text;
use vstd::prelude::*;
use vstd::string::*;

verus! {

/// The bits of the single-precision number one.
pub const ONE_BITS: u32 = 0x3f80_0000;

/// How a surface answers to light.
#[derive(Debug, Clone, Copy)]
pub struct MaterialProperties {
    pub albedo: [u32; 3],
    pub roughness: u32,
    pub metalness: u32,
    pub ao: u32,
}

/// What light a block gives off.
#[derive(Debug, Clone, Copy)]
pub struct EmissionProperties {
    pub emit_light: bool,
    pub light_color: [u32; 3],
    pub light_strength: u32,
    pub light_intensity: u32,
    pub light_range: u32,
    pub no_self_gi: bool,
}

/// How a fluid spreads and what it looks like from inside.
#[derive(Debug, Clone, Copy)]
pub struct FluidProperties {
    pub level_decrease: u8,
    pub tick_delay: u32,
    pub slope_find_distance: u8,
    pub fog_color: [u32; 3],
    pub fog_density: u32,
}

/// Texture, layers and colour of one side of a block.
#[derive(Debug)]
pub struct FaceOverride {
    pub color: [u32; 3],
    pub texture: Option<String>,
    pub layer1: Option<String>,
    pub layer2: Option<String>,
    pub layer3: Option<String>,
    pub layer4: Option<String>,
    pub layer5: Option<String>,
    pub resolved_texture: Option<String>,
}

impl Clone for FaceOverride {
    fn clone(&self) -> (r: FaceOverride)
        ensures
            r == *self,
    {
        FaceOverride {
            color: self.color,
            texture: clone_opt_text(&self.texture),
            layer1: clone_opt_text(&self.layer1),
            layer2: clone_opt_text(&self.layer2),
            layer3: clone_opt_text(&self.layer3),
            layer4: clone_opt_text(&self.layer4),
            layer5: clone_opt_text(&self.layer5),
            resolved_texture: clone_opt_text(&self.resolved_texture),
        }
    }
}

/// The overrides of the sides of a block.
#[derive(Debug)]
pub struct FaceColors {
    pub all: Option<FaceOverride>,
    pub top: Option<FaceOverride>,
    pub bottom: Option<FaceOverride>,
    pub sides: Option<FaceOverride>,
    pub north: Option<FaceOverride>,
    pub south: Option<FaceOverride>,
    pub east: Option<FaceOverride>,
    pub west: Option<FaceOverride>,
}

fn clone_face(f: &Option<FaceOverride>) -> (r: Option<FaceOverride>)
    ensures
        r == *f,
{
    match f {
        Some(o) => Some(o.clone()),
        None => None,
    }
}

impl Clone for FaceColors {
    fn clone(&self) -> (r: FaceColors)
        ensures
            r == *self,
    {
        FaceColors {
            all: clone_face(&self.all),
            top: clone_face(&self.top),
            bottom: clone_face(&self.bottom),
            sides: clone_face(&self.sides),
            north: clone_face(&self.north),
            south: clone_face(&self.south),
            east: clone_face(&self.east),
            west: clone_face(&self.west),
        }
    }
}

/// Whether a light shines all round or in one direction.
#[derive(Debug, Clone, Copy, PartialEq, Eq, Structural)]
pub enum LightKind {
    Point,
    Directional,
}

/// A light fixed to a block.
#[derive(Debug)]
pub struct BlockLightSource {
    pub label: String,
    pub kind: LightKind,
    pub position: [u32; 3],
    pub color: [u32; 3],
    pub intensity: u32,
    pub range: u32,
    pub direction: [u32; 3],
    pub focus: u32,
}

impl Clone for BlockLightSource {
    fn clone(&self) -> (r: BlockLightSource)
        ensures
            r == *self,
    {
        BlockLightSource {
            label: self.label.clone(),
            kind: self.kind,
            position: self.position,
            color: self.color,
            intensity: self.intensity,
            range: self.range,
            direction: self.direction,
            focus: self.focus,
        }
    }
}

/// How a block turns when it is placed.
#[derive(Debug, Clone, Copy, PartialEq, Eq, Structural)]
pub enum PlacementMode {
    Fixed,
    AttachHorizontal,
    AttachFull,
    AttachFullRotatable,
    LookHorizontal,
    LookFull,
    LookAxis,
}

/// The properties of a block.
#[derive(Debug)]
pub struct BlockDefinition {
    pub id: String,
    pub display_name: String,
    pub description: String,
    pub color: [u32; 3],
    pub texture: Option<String>,
    pub solid: bool,
    pub fluid: Option<FluidProperties>,
    pub material: MaterialProperties,
    pub emission: EmissionProperties,
    pub faces: FaceColors,
    pub biome_tint: bool,
    pub placement_mode: PlacementMode,
    pub default_rotation: u8,
    pub inventory_tab: Option<String>,
    pub light_sources: Vec<BlockLightSource>,
    /// The properties that the editor passes through, as one text.
    pub rest: String,
}

/// The properties of a block as a mathematical value.
#[verifier::ext_equal]
pub struct BlockDefModel {
    pub id: Seq<char>,
    pub display_name: Seq<char>,
    pub description: Seq<char>,
    pub color: [u32; 3],
    pub texture: Option<String>,
    pub solid: bool,
    pub fluid: Option<FluidProperties>,
    pub material: MaterialProperties,
    pub emission: EmissionProperties,
    pub faces: FaceColors,
    pub biome_tint: bool,
    pub placement_mode: PlacementMode,
    pub default_rotation: u8,
    pub inventory_tab: Option<String>,
    pub lights: Seq<BlockLightSource>,
    pub rest: Seq<char>,
}

impl View for BlockDefinition {
    type V = BlockDefModel;

    open spec fn view(&self) -> BlockDefModel {
        BlockDefModel {
            id: self.id@,
            display_name: self.display_name@,
            description: self.description@,
            color: self.color,
            texture: self.texture,
            solid: self.solid,
            fluid: self.fluid,
            material: self.material,
            emission: self.emission,
            faces: self.faces,
            biome_tint: self.biome_tint,
            placement_mode: self.placement_mode,
            default_rotation: self.default_rotation,
            inventory_tab: self.inventory_tab,
            lights: self.light_sources@,
            rest: self.rest@,
        }
    }
}

fn clone_lights(v: &Vec<BlockLightSource>) -> (r: Vec<BlockLightSource>)
    ensures
        r@ == v@,
{
    let mut r: Vec<BlockLightSource> = Vec::new();
    let mut i: usize = 0;
    while i < v.len()
        invariant
            i <= v@.len(),
            r@ == v@.take(i as int),
        decreases v@.len() - i,
    {
        r.push(v[i].clone());
        assert(v@.take(i as int + 1) =~= v@.take(i as int).push(v@[i as int]));
        i += 1;
    }
    assert(v@.take(v@.len() as int) =~= v@);
    r
}

impl Clone for BlockDefinition {
    fn clone(&self) -> (r: BlockDefinition)
        ensures
            r@ == self@,
    {
        BlockDefinition {
            id: self.id.clone(),
            display_name: self.display_name.clone(),
            description: self.description.clone(),
            color: self.color,
            texture: clone_opt_text(&self.texture),
            solid: self.solid,
            fluid: self.fluid,
            material: self.material,
            emission: self.emission,
            faces: self.faces.clone(),
            biome_tint: self.biome_tint,
            placement_mode: self.placement_mode,
            default_rotation: self.default_rotation,
            inventory_tab: clone_opt_text(&self.inventory_tab),
            light_sources: clone_lights(&self.light_sources),
            rest: self.rest.clone(),
        }
    }
}

/// The side of a block that an override is for.
#[derive(Debug, Clone, Copy, PartialEq, Eq, Structural)]
pub enum FaceSlot {
    All,
    Top,
    Bottom,
    Sides,
    North,
    South,
    East,
    West,
}

/// A layer over the texture of a side; the first is the lowest.
#[derive(Debug, Clone, Copy, PartialEq, Eq, Structural)]
pub enum LayerSlot {
    Layer1,
    Layer2,
    Layer3,
    Layer4,
    Layer5,
}

/// A change that the inspector makes to a block.
#[derive(Debug)]
pub enum BlockEdit {
    Id(String),
    DisplayName(String),
    Description(String),
    InventoryTab(String),
    Color([u32; 3]),
    Solid(bool),
    BiomeTint(bool),
    Placement(PlacementMode),
    Rotation(u8),
    Material(MaterialProperties),
    Emission(EmissionProperties),
    FaceEnabled(FaceSlot, bool),
    FaceTexture(FaceSlot, String),
    FaceLayer(FaceSlot, LayerSlot, String),
    FaceColor(FaceSlot, [u32; 3]),
    FluidEnabled(bool),
    Fluid(FluidProperties),
    AddLight(LightKind),
    RemoveLight(usize),
    Light(usize, BlockLightSource),
}

impl FaceColors {
    /// The override of a side.
    pub open spec fn face(self, slot: FaceSlot) -> Option<FaceOverride> {
        match slot {
            FaceSlot::All => self.all,
            FaceSlot::Top => self.top,
            FaceSlot::Bottom => self.bottom,
            FaceSlot::Sides => self.sides,
            FaceSlot::North => self.north,
            FaceSlot::South => self.south,
            FaceSlot::East => self.east,
            FaceSlot::West => self.west,
        }
    }

    /// The overrides with another one for a side.
    pub open spec fn with_face(self, slot: FaceSlot, f: Option<FaceOverride>) -> FaceColors {
        match slot {
            FaceSlot::All => FaceColors { all: f, ..self },
            FaceSlot::Top => FaceColors { top: f, ..self },
            FaceSlot::Bottom => FaceColors { bottom: f, ..self },
            FaceSlot::Sides => FaceColors { sides: f, ..self },
            FaceSlot::North => FaceColors { north: f, ..self },
            FaceSlot::South => FaceColors { south: f, ..self },
            FaceSlot::East => FaceColors { east: f, ..self },
            FaceSlot::West => FaceColors { west: f, ..self },
        }
    }

    /// The override of a side, to be changed.
    pub fn face_mut(&mut self, slot: FaceSlot) -> (r: &mut Option<FaceOverride>)
        ensures
            *r == old(self).face(slot),
            *final(self) == old(self).with_face(slot, *final(r)),
    {
        match slot {
            FaceSlot::All => &mut self.all,
            FaceSlot::Top => &mut self.top,
            FaceSlot::Bottom => &mut self.bottom,
            FaceSlot::Sides => &mut self.sides,
            FaceSlot::North => &mut self.north,
            FaceSlot::South => &mut self.south,
            FaceSlot::East => &mut self.east,
            FaceSlot::West => &mut self.west,
        }
    }
}

/// What a text field stands for: nothing where it is empty.
pub open spec fn field_text(s: String) -> Option<String> {
    if s@.len() == 0 {
        None
    } else {
        Some(s)
    }
}

/// What a text field stands for: nothing where it is empty.
pub fn non_empty(s: String) -> (r: Option<String>)
    ensures
        r == field_text(s),
{
    let empty: bool = crate::text::same_text(s.as_str(), "");
    proof {
        reveal_strlit("");
        assert(s@.len() == 0 ==> s@ =~= ""@);
    }
    if empty {
        None
    } else {
        Some(s)
    }
}

impl FaceOverride {
    /// The override of a side when it is switched on: white, without texture.
    pub open spec fn plain() -> FaceOverride {
        FaceOverride {
            color: [ONE_BITS, ONE_BITS, ONE_BITS],
            texture: None,
            layer1: None,
            layer2: None,
            layer3: None,
            layer4: None,
            layer5: None,
            resolved_texture: None,
        }
    }

    /// The override with another layer.
    pub open spec fn with_layer(self, l: LayerSlot, t: Option<String>) -> FaceOverride {
        match l {
            LayerSlot::Layer1 => FaceOverride { layer1: t, ..self },
            LayerSlot::Layer2 => FaceOverride { layer2: t, ..self },
            LayerSlot::Layer3 => FaceOverride { layer3: t, ..self },
            LayerSlot::Layer4 => FaceOverride { layer4: t, ..self },
            LayerSlot::Layer5 => FaceOverride { layer5: t, ..self },
        }
    }

    fn set_layer(&mut self, l: LayerSlot, t: Option<String>)
        ensures
            *final(self) == old(self).with_layer(l, t),
    {
        match l {
            LayerSlot::Layer1 => {
                self.layer1 = t;
            },
            LayerSlot::Layer2 => {
                self.layer2 = t;
            },
            LayerSlot::Layer3 => {
                self.layer3 = t;
            },
            LayerSlot::Layer4 => {
                self.layer4 = t;
            },
            LayerSlot::Layer5 => {
                self.layer5 = t;
            },
        }
    }
}

/// What new fluids, new lights and new blocks start from.
#[derive(Debug)]
pub struct BlockDefaults {
    pub material: MaterialProperties,
    pub emission: EmissionProperties,
    pub fluid: FluidProperties,
    pub light: BlockLightSource,
    pub rest: String,
}

impl BlockDefModel {
    /// The block after a change of the override of a side; none without one.
    pub open spec fn with_face_change(
        self,
        slot: FaceSlot,
        f: spec_fn(FaceOverride) -> FaceOverride,
    ) -> BlockDefModel {
        match self.faces.face(slot) {
            Some(o) => BlockDefModel { faces: self.faces.with_face(slot, Some(f(o))), ..self },
            None => self,
        }
    }

    /// The block after a change.
    pub open spec fn edited(self, e: BlockEdit, defaults: BlockDefaults) -> BlockDefModel {
        match e {
            BlockEdit::Id(s) => BlockDefModel { id: s@, ..self },
            BlockEdit::DisplayName(s) => BlockDefModel { display_name: s@, ..self },
            BlockEdit::Description(s) => BlockDefModel { description: s@, ..self },
            BlockEdit::InventoryTab(s) => BlockDefModel { inventory_tab: field_text(s), ..self },
            BlockEdit::Color(c) => BlockDefModel { color: c, ..self },
            BlockEdit::Solid(b) => BlockDefModel { solid: b, ..self },
            BlockEdit::BiomeTint(b) => BlockDefModel { biome_tint: b, ..self },
            BlockEdit::Placement(p) => BlockDefModel { placement_mode: p, ..self },
            BlockEdit::Rotation(n) => BlockDefModel { default_rotation: n, ..self },
            BlockEdit::Material(m) => BlockDefModel { material: m, ..self },
            BlockEdit::Emission(x) => BlockDefModel { emission: x, ..self },
            BlockEdit::FaceEnabled(slot, on) => BlockDefModel {
                faces: self.faces.with_face(
                    slot,
                    if on {
                        Some(FaceOverride::plain())
                    } else {
                        None
                    },
                ),
                ..self
            },
            BlockEdit::FaceTexture(slot, s) => self.with_face_change(
                slot,
                |o: FaceOverride| FaceOverride { texture: field_text(s), ..o },
            ),
            BlockEdit::FaceLayer(slot, l, s) => self.with_face_change(
                slot,
                |o: FaceOverride| o.with_layer(l, field_text(s)),
            ),
            BlockEdit::FaceColor(slot, c) => self.with_face_change(
                slot,
                |o: FaceOverride| FaceOverride { color: c, ..o },
            ),
            BlockEdit::FluidEnabled(on) => BlockDefModel {
                fluid: if on {
                    Some(defaults.fluid)
                } else {
                    None
                },
                ..self
            },
            BlockEdit::Fluid(f) => if self.fluid is Some {
                BlockDefModel { fluid: Some(f), ..self }
            } else {
                self
            },
            BlockEdit::AddLight(kind) => BlockDefModel {
                lights: self.lights.push((BlockLightSource { kind: kind, ..defaults.light })),
                ..self
            },
            BlockEdit::RemoveLight(i) => if i < self.lights.len() {
                BlockDefModel { lights: self.lights.remove(i as int), ..self }
            } else {
                self
            },
            BlockEdit::Light(i, l) => if i < self.lights.len() {
                BlockDefModel { lights: self.lights.update(i as int, l), ..self }
            } else {
                self
            },
        }
    }
}

impl BlockDefinition {
    /// Carries a change of the inspector out. A change of a side without an
    /// override, of a missing fluid or of a missing light is passed over.
    pub fn apply(&mut self, e: BlockEdit, defaults: &BlockDefaults)
        ensures
            final(self)@ == old(self)@.edited(e, *defaults),
    {
        match e {
            BlockEdit::Id(s) => {
                self.id = s;
            },
            BlockEdit::DisplayName(s) => {
                self.display_name = s;
            },
            BlockEdit::Description(s) => {
                self.description = s;
            },
            BlockEdit::InventoryTab(s) => {
                self.inventory_tab = non_empty(s);
            },
            BlockEdit::Color(c) => {
                self.color = c;
            },
            BlockEdit::Solid(b) => {
                self.solid = b;
            },
            BlockEdit::BiomeTint(b) => {
                self.biome_tint = b;
            },
            BlockEdit::Placement(p) => {
                self.placement_mode = p;
            },
            BlockEdit::Rotation(n) => {
                self.default_rotation = n;
            },
            BlockEdit::Material(m) => {
                self.material = m;
            },
            BlockEdit::Emission(x) => {
                self.emission = x;
            },
            BlockEdit::FaceEnabled(slot, on) => {
                let f: &mut Option<FaceOverride> = self.faces.face_mut(slot);
                if on {
                    *f = Some(
                        FaceOverride {
                            color: [ONE_BITS, ONE_BITS, ONE_BITS],
                            texture: None,
                            layer1: None,
                            layer2: None,
                            layer3: None,
                            layer4: None,
                            layer5: None,
                            resolved_texture: None,
                        },
                    );
                } else {
                    *f = None;
                }
            },
            BlockEdit::FaceTexture(slot, s) => {
                self.set_face_texture(slot, s);
            },
            BlockEdit::FaceLayer(slot, l, s) => {
                self.set_face_layer(slot, l, s);
            },
            BlockEdit::FaceColor(slot, c) => {
                self.set_face_color(slot, c);
            },
            BlockEdit::FluidEnabled(on) => {
                self.fluid = if on {
                    Some(defaults.fluid)
                } else {
                    None
                };
            },
            BlockEdit::Fluid(f) => {
                if self.fluid.is_some() {
                    self.fluid = Some(f);
                }
            },
            BlockEdit::AddLight(kind) => {
                let mut l: BlockLightSource = defaults.light.clone();
                l.kind = kind;
                self.light_sources.push(l);
            },
            BlockEdit::RemoveLight(i) => {
                if i < self.light_sources.len() {
                    self.light_sources.remove(i);
                }
            },
            BlockEdit::Light(i, l) => {
                if i < self.light_sources.len() {
                    self.light_sources.set(i, l);
                }
            },
        }
    }

    fn set_face_texture(&mut self, slot: FaceSlot, s: String)
        ensures
            final(self)@ == old(self)@.with_face_change(
                slot,
                |o: FaceOverride| FaceOverride { texture: field_text(s), ..o },
            ),
    {
        let f: &mut Option<FaceOverride> = self.faces.face_mut(slot);
        match f {
            Some(o) => {
                o.texture = non_empty(s);
            },
            None => {},
        }
    }

    fn set_face_layer(&mut self, slot: FaceSlot, l: LayerSlot, s: String)
        ensures
            final(self)@ == old(self)@.with_face_change(
                slot,
                |o: FaceOverride| o.with_layer(l, field_text(s)),
            ),
    {
        let f: &mut Option<FaceOverride> = self.faces.face_mut(slot);
        match f {
            Some(o) => {
                o.set_layer(l, non_empty(s));
            },
            None => {},
        }
    }

    fn set_face_color(&mut self, slot: FaceSlot, c: [u32; 3])
        ensures
            final(self)@ == old(self)@.with_face_change(
                slot,
                |o: FaceOverride| FaceOverride { color: c, ..o },
            ),
    {
        let f: &mut Option<FaceOverride> = self.faces.face_mut(slot);
        match f {
            Some(o) => {
                o.color = c;
            },
            None => {},
        }
    }
}

/// Adding a light and removing it again leaves the block as it was.
pub proof fn law_add_remove_light(m: BlockDefModel, kind: LightKind, defaults: BlockDefaults)
    requires
        m.lights.len() < usize::MAX,
    ensures
        m.edited(BlockEdit::AddLight(kind), defaults).edited(
            BlockEdit::RemoveLight(m.lights.len() as usize),
            defaults,
        ) == m,
{
    let a = m.edited(BlockEdit::AddLight(kind), defaults);
    assert(a.lights.remove(m.lights.len() as int) =~= m.lights);
}

/// Removing the light at a place takes that light away: one light fewer is
/// left, those before it stay where they are, those behind it move up by one, and
/// nothing else of the block changes. A place past the last light changes nothing.
pub proof fn law_remove_light(m: BlockDefModel, i: usize, defaults: BlockDefaults)
    ensures
        ({
            let r = m.edited(BlockEdit::RemoveLight(i), defaults);
            &&& r == (BlockDefModel { lights: r.lights, ..m })
            &&& i >= m.lights.len() ==> r.lights == m.lights
            &&& i < m.lights.len() ==> {
                &&& r.lights.len() == m.lights.len() - 1
                &&& forall|j: int| #![trigger r.lights[j]] 0 <= j < i ==> r.lights[j] == m.lights[j]
                &&& forall|j: int|
                    #![trigger m.lights[j]]
                    i < j < m.lights.len() ==> r.lights[j - 1] == m.lights[j]
            }
        }),
{
}

/// Changing the light at a place changes that light only; adding one puts it
/// behind all others, of the kind asked for and as new lights are otherwise.
pub proof fn law_change_lights(
    m: BlockDefModel,
    i: usize,
    l: BlockLightSource,
    kind: LightKind,
    defaults: BlockDefaults,
)
    ensures
        ({
            let r = m.edited(BlockEdit::Light(i, l), defaults);
            &&& r == (BlockDefModel { lights: r.lights, ..m })
            &&& r.lights.len() == m.lights.len()
            &&& i < m.lights.len() ==> r.lights[i as int] == l
            &&& forall|j: int|
                #![trigger r.lights[j]]
                0 <= j < m.lights.len() && j != i ==> r.lights[j] == m.lights[j]
        }),
        ({
            let r = m.edited(BlockEdit::AddLight(kind), defaults);
            let x = r.lights.last();
            &&& r == (BlockDefModel { lights: r.lights, ..m })
            &&& r.lights.len() == m.lights.len() + 1
            &&& r.lights.drop_last() == m.lights
            &&& x == (BlockLightSource { kind, ..defaults.light })
        }),
{
    assert(m.edited(BlockEdit::AddLight(kind), defaults).lights.drop_last() =~= m.lights);
}

/// Setting a plain value of a block sets that value to what was given and
/// leaves all others. A tab without a name is no tab.
pub proof fn law_set_value(m: BlockDefModel, e: BlockEdit, d: BlockDefaults)
    ensures
        match e {
            BlockEdit::Id(s) => m.edited(e, d) == (BlockDefModel { id: s@, ..m }),
            BlockEdit::DisplayName(s) => m.edited(e, d) == (BlockDefModel { display_name: s@, ..m }),
            BlockEdit::Description(s) => m.edited(e, d) == (BlockDefModel { description: s@, ..m }),
            BlockEdit::InventoryTab(s) => {
                &&& m.edited(e, d) == (BlockDefModel {
                    inventory_tab: m.edited(e, d).inventory_tab,
                    ..m
                })
                &&& s@.len() == 0 ==> m.edited(e, d).inventory_tab is None
                &&& s@.len() > 0 ==> m.edited(e, d).inventory_tab == Some(s)
            },
            BlockEdit::Color(c) => m.edited(e, d) == (BlockDefModel { color: c, ..m }),
            BlockEdit::Solid(b) => m.edited(e, d) == (BlockDefModel { solid: b, ..m }),
            BlockEdit::BiomeTint(b) => m.edited(e, d) == (BlockDefModel { biome_tint: b, ..m }),
            BlockEdit::Placement(p) => m.edited(e, d) == (BlockDefModel { placement_mode: p, ..m }),
            BlockEdit::Rotation(n) => m.edited(e, d) == (BlockDefModel { default_rotation: n, ..m }),
            BlockEdit::Material(x) => m.edited(e, d) == (BlockDefModel { material: x, ..m }),
            BlockEdit::Emission(x) => m.edited(e, d) == (BlockDefModel { emission: x, ..m }),
            _ => true,
        },
{
}

/// A block is made a fluid with the usual properties, or none any more; the
/// properties of a fluid can be changed, those of another block cannot.
pub proof fn law_set_fluid(m: BlockDefModel, f: FluidProperties, d: BlockDefaults)
    ensures
        m.edited(BlockEdit::FluidEnabled(true), d) == (BlockDefModel { fluid: Some(d.fluid), ..m }),
        m.edited(BlockEdit::FluidEnabled(false), d) == (BlockDefModel { fluid: None, ..m }),
        m.fluid is Some ==> m.edited(BlockEdit::Fluid(f), d) == (BlockDefModel {
            fluid: Some(f),
            ..m
        }),
        m.fluid is None ==> m.edited(BlockEdit::Fluid(f), d) == m,
{
}

/// Each face reads back what was set for it, and setting one leaves the
/// others. The face for all sides, and each of the named ones, is a field of its own.
pub proof fn law_faces(c: FaceColors, slot: FaceSlot, other: FaceSlot, f: Option<FaceOverride>)
    ensures
        c.with_face(slot, f).face(slot) == f,
        other != slot ==> c.with_face(slot, f).face(other) == c.face(other),
        c.face(FaceSlot::All) == c.all,
        c.face(FaceSlot::Top) == c.top,
        c.face(FaceSlot::Bottom) == c.bottom,
        c.face(FaceSlot::Sides) == c.sides,
        c.face(FaceSlot::North) == c.north,
        c.face(FaceSlot::South) == c.south,
        c.face(FaceSlot::East) == c.east,
        c.face(FaceSlot::West) == c.west,
{
}

/// Edits of a face touch that face only. Turned on it is white and without
/// pictures, turned off it is gone; a picture, a layer or the colour can be set on a
/// face that is on, each leaving the rest of the face, and an empty name sets no
/// picture. A face that is off stays off.
pub proof fn law_edit_face(
    m: BlockDefModel,
    slot: FaceSlot,
    other: FaceSlot,
    l: LayerSlot,
    s: String,
    c: [u32; 3],
    d: BlockDefaults,
)
    ensures
        forall|e: BlockEdit|
            #![trigger m.edited(e, d)]
            e == BlockEdit::FaceEnabled(slot, true) || e == BlockEdit::FaceEnabled(slot, false) || e
                == BlockEdit::FaceTexture(slot, s) || e == BlockEdit::FaceLayer(slot, l, s) || e
                == BlockEdit::FaceColor(slot, c) ==> m.edited(e, d) == (BlockDefModel {
                faces: m.edited(e, d).faces,
                ..m
            }) && (other != slot ==> m.edited(e, d).faces.face(other) == m.faces.face(other)),
        m.edited(BlockEdit::FaceEnabled(slot, false), d).faces.face(slot) is None,
        m.edited(BlockEdit::FaceEnabled(slot, true), d).faces.face(slot) matches Some(o)
            && o.color@ == seq![0x3f80_0000u32, 0x3f80_0000u32, 0x3f80_0000u32] && o.texture is None
            && o.layer1 is None && o.layer2 is None && o.layer3 is None && o.layer4 is None
            && o.layer5 is None && o.resolved_texture is None,
        m.faces.face(slot) is None ==> m.edited(BlockEdit::FaceTexture(slot, s), d) == m && m.edited(
            BlockEdit::FaceLayer(slot, l, s),
            d,
        ) == m && m.edited(BlockEdit::FaceColor(slot, c), d) == m,
        m.faces.face(slot) matches Some(o) ==> {
            let t = if s@.len() == 0 { None } else { Some(s) };
            &&& m.edited(BlockEdit::FaceTexture(slot, s), d).faces.face(slot) == Some(
                FaceOverride { texture: t, ..o },
            )
            &&& m.edited(BlockEdit::FaceColor(slot, c), d).faces.face(slot) == Some(
                FaceOverride { color: c, ..o },
            )
            &&& m.edited(BlockEdit::FaceLayer(slot, l, s), d).faces.face(slot) == Some(
                match l {
                    LayerSlot::Layer1 => FaceOverride { layer1: t, ..o },
                    LayerSlot::Layer2 => FaceOverride { layer2: t, ..o },
                    LayerSlot::Layer3 => FaceOverride { layer3: t, ..o },
                    LayerSlot::Layer4 => FaceOverride { layer4: t, ..o },
                    LayerSlot::Layer5 => FaceOverride { layer5: t, ..o },
                },
            )
        },
{
    assert(FaceOverride::plain().color@ =~= seq![0x3f80_0000u32, 0x3f80_0000u32, 0x3f80_0000u32]);
}

/// What is seen of a block's definition is what it holds.
pub proof fn law_definition_view(b: BlockDefinition)
    ensures
        b@.id == b.id@ && b@.display_name == b.display_name@ && b@.description == b.description@,
        b@.color == b.color && b@.texture == b.texture && b@.solid == b.solid && b@.fluid == b.fluid,
        b@.material == b.material && b@.emission == b.emission && b@.faces == b.faces,
        b@.biome_tint == b.biome_tint && b@.placement_mode == b.placement_mode,
        b@.default_rotation == b.default_rotation && b@.inventory_tab == b.inventory_tab,
        b@.lights == b.light_sources@ && b@.rest == b.rest@,
{
}

} // verus!
