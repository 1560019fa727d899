//! The game screen: what the player's keys, buttons and menus do.
use crate::block_definition::PlacementMode;
use crate::inventory;
use crate::inventory::InventoryConfig;
use crate::inventory::InventoryModel;
use crate::inventory::InventorySlot;
use crate::inventory::ItemStack;
use crate::inventory_ui;
use crate::inventory_ui::InventoryUI;
use crate::inventory_ui::InventoryUiModel;
use crate::player_renderer::ViewMode;
use crate::profiler_overlay::ProfilerOverlay;
use crate::screen::take_action;
use crate::screen::ScreenAction;
use crate::screen::ScreenKind;
use crate::screen::WorldMetadata;
use crate::stocking;
use crate::stocking::BlockInfo;
use crate::table::Table;
use crate::table::TableKey;
use crate::text;
use vstd::prelude::*;
use vstd::string::*;

verus! {

/// The seed of a world that has none of its own.
pub const DEFAULT_SEED: u64 = 12345;

/// Seconds after which a world is saved by itself.
pub const AUTOSAVE_SECONDS: u64 = 300;

/// A key that the game knows, or the number of another one.
#[derive(Debug, Clone, Copy, PartialEq, Eq, Structural)]
pub enum Key {
    A,
    C,
    D,
    E,
    G,
    J,
    L,
    N,
    Q,
    S,
    T,
    W,
    /// The number row: 0 for the key `1`, and so on up to 8 for the key `9`.
    Digit(u8),
    Escape,
    Space,
    F3,
    F4,
    F5,
    F6,
    ShiftLeft,
    ShiftRight,
    ControlLeft,
    ControlRight,
    AltLeft,
    AltRight,
    Other(u32),
}

impl TableKey for Key {
    type Id = Key;

    open spec fn id(&self) -> Key {
        *self
    }

    fn same_key(&self, other: &Key) -> (r: bool) {
        *self == *other
    }
}

/// Something that happens at the window.
#[derive(Debug, Clone, Copy, PartialEq, Eq, Structural)]
pub enum InputEvent {
    /// The wheel is turned by so many whole steps, or by less than one.
    Wheel(i32),
    LeftPressed,
    LeftReleased,
    RightPressed,
    MiddlePressed,
    KeyPressed(Key),
    KeyReleased(Key),
}

/// What an event asks of the world around the screen.
#[derive(Debug, Clone, Copy, PartialEq, Eq, Structural)]
pub enum GameRequest {
    Nothing,
    /// The wheel turns what the player holds outside the inventory.
    ScrollSlot,
    /// The block that is aimed at is broken.
    BreakBlock,
    /// A block is placed: its number, how it turns, its own rotation.
    PlaceBlock(u8, PlacementMode, u8),
    ToggleFly,
    SaveWorld,
    /// An entity with a light appears before the player.
    SpawnTestLight,
    TimeFaster,
    TimeSlower,
    /// Time stops, or goes on at its normal speed.
    ToggleTime,
}

/// What comes of an event: a request, and whether the movement of the mouse so
/// far is forgotten.
#[derive(Debug, Clone, Copy, PartialEq, Eq, Structural)]
pub struct EventOutcome {
    pub request: GameRequest,
    pub reset_mouse: bool,
}

/// The present time: what `chrono::Local::now` gives, written by
/// `chrono::DateTime::to_rfc3339`. It depends on the clock and the time zone, so
/// nothing is claimed of it.
#[verifier::external_body]
fn now_text() -> (r: String) {
    chrono::Local::now().to_rfc3339()
}

/// What the debug panel switches on and off.
#[derive(Debug, Clone, Copy)]
pub struct DebugRenderState {
    /// Whether the panel is shown.
    pub visible: bool,
    /// Whether the edges of all triangles are drawn.
    pub wireframe: bool,
    /// Whether the boxes of chunks are drawn.
    pub bbox_visible: bool,
    /// Whether the body of the player is drawn.
    pub bbox_physical: bool,
    /// Whether the box of the player is drawn.
    pub bbox_hitboxes: bool,
    /// Whether the volume of the global illumination and the lights are drawn.
    pub lighting_debug: bool,
    /// Whether the directions of sun and moon are drawn.
    pub shadow_vectors: bool,
    /// Whether the GPU can draw edges only.
    pub wireframe_supported: bool,
    /// Lower corner of the volume of the global illumination.
    pub vct_origin: [i32; 3],
    /// Number of spot lights in the last frame.
    pub spot_lights: usize,
    /// Number of point lights in the last frame.
    pub point_lights: usize,
}

impl DebugRenderState {
    /// Everything is off.
    pub open spec fn off() -> DebugRenderState {
        DebugRenderState {
            visible: false,
            wireframe: false,
            bbox_visible: false,
            bbox_physical: false,
            bbox_hitboxes: false,
            lighting_debug: false,
            shadow_vectors: false,
            wireframe_supported: false,
            vct_origin: [0, 0, 0],
            spot_lights: 0,
            point_lights: 0,
        }
    }

    /// A panel with everything off.
    pub fn new() -> (r: DebugRenderState)
        ensures
            r == DebugRenderState::off(),
    {
        DebugRenderState {
            visible: false,
            wireframe: false,
            bbox_visible: false,
            bbox_physical: false,
            bbox_hitboxes: false,
            lighting_debug: false,
            shadow_vectors: false,
            wireframe_supported: false,
            vct_origin: [0, 0, 0],
            spot_lights: 0,
            point_lights: 0,
        }
    }

    /// Whether any lines are drawn.
    pub fn needs_lines(&self) -> (r: bool)
        ensures
            r == (self.visible && (self.bbox_visible || self.bbox_physical || self.bbox_hitboxes
                || self.lighting_debug || self.shadow_vectors)),
    {
        self.visible && (self.bbox_visible || self.bbox_physical || self.bbox_hitboxes
            || self.lighting_debug || self.shadow_vectors)
    }

    /// Whether the edges of all triangles are drawn.
    pub fn draws_wireframe(&self) -> (r: bool)
        ensures
            r == (self.visible && self.wireframe && self.wireframe_supported),
    {
        self.visible && self.wireframe && self.wireframe_supported
    }

    /// Takes down what a frame knows, while the panel is shown.
    pub fn note_frame(&mut self, wireframe_supported: bool, spot_lights: usize, point_lights: usize)
        ensures
            *final(self) == (if old(self).visible {
                DebugRenderState { wireframe_supported, spot_lights, point_lights, ..*old(self) }
            } else {
                *old(self)
            }),
    {
        if self.visible {
            self.wireframe_supported = wireframe_supported;
            self.spot_lights = spot_lights;
            self.point_lights = point_lights;
        }
    }

    /// The line of the panel that counts the lights.
    pub fn lights_text(&self) -> (r: String)
        ensures
            r@ == "    Точечных: "@ + text::decimal(self.point_lights as nat)
                + "  Направленных: "@ + text::decimal(self.spot_lights as nat),
    {
        let points: String = text::decimal_text(self.point_lights as u64);
        let spots: String = text::decimal_text(self.spot_lights as u64);
        let head: String = text::joined3("    Точечных: ", points.as_str(), "  Направленных: ");
        text::joined(head.as_str(), spots.as_str())
    }
}

/// What the game knows of the kinds of blocks.
pub struct GameBlocks {
    /// The number of a block by the name under which it is registered.
    pub ids: Table<String, u8>,
    pub infos: Table<u8, BlockInfo>,
    /// How a block turns of which nothing is known.
    pub default_placement: PlacementMode,
}

/// The kinds of blocks as a mathematical value.
#[verifier::ext_equal]
pub struct BlocksModel {
    pub ids: Map<Seq<char>, u8>,
    pub infos: Map<u8, BlockInfo>,
    pub default_placement: PlacementMode,
}

impl View for GameBlocks {
    type V = BlocksModel;

    open spec fn view(&self) -> BlocksModel {
        BlocksModel {
            ids: self.ids@,
            infos: self.infos@,
            default_placement: self.default_placement,
        }
    }
}

impl GameBlocks {
    /// The tables are in order.
    pub open spec fn wf(&self) -> bool {
        self.ids.wf() && self.infos.wf()
    }
}

/// A block that is aimed at.
#[derive(Debug, Clone, Copy)]
pub struct TargetBlock {
    pub block: u8,
    pub pos: (i32, i32, i32),
}

/// The game screen.
pub struct GameScreen {
    pub inventory_ui: InventoryUI,
    pub camera_locked: bool,
    pub mouse_down: bool,
    pub paused: bool,
    /// Whether the lights of entities are on.
    pub player_spotlight_on: bool,
    /// Whether the debug overlay is shown.
    pub debug_visible: bool,
    pub profiler: ProfilerOverlay,
    pub debug_render: DebugRenderState,
    pub view_mode: ViewMode,
    /// The keys that are held down.
    pub keys: Table<Key, bool>,
    pub target_block: Option<TargetBlock>,
    pub pending_action: ScreenAction,
    pub world_metadata: Option<WorldMetadata>,
}

/// The game screen as a mathematical value.
#[verifier::ext_equal]
pub struct GameModel {
    pub ui: InventoryUiModel,
    pub locked: bool,
    pub mouse_down: bool,
    pub paused: bool,
    pub spotlight: bool,
    pub debug: bool,
    pub profiler: ProfilerOverlay,
    pub debug_render: DebugRenderState,
    pub view_mode: ViewMode,
    pub keys: Set<Key>,
    pub target: Option<TargetBlock>,
    pub action: ScreenAction,
    pub world: Option<WorldMetadata>,
}

impl View for GameScreen {
    type V = GameModel;

    open spec fn view(&self) -> GameModel {
        GameModel {
            ui: self.inventory_ui@,
            locked: self.camera_locked,
            mouse_down: self.mouse_down,
            paused: self.paused,
            spotlight: self.player_spotlight_on,
            debug: self.debug_visible,
            profiler: self.profiler,
            debug_render: self.debug_render,
            view_mode: self.view_mode,
            keys: self.keys@.dom(),
            target: self.target_block,
            action: self.pending_action,
            world: self.world_metadata,
        }
    }
}

/// The other view.
pub open spec fn other_view(v: ViewMode) -> ViewMode {
    match v {
        ViewMode::FirstPerson => ViewMode::ThirdPerson,
        ViewMode::ThirdPerson => ViewMode::FirstPerson,
    }
}

/// The interface with a hotbar slot made active, unless the inventory is open
/// or there is no such slot.
pub open spec fn slot_selected(m: InventoryUiModel, i: int) -> InventoryUiModel {
    if !m.inventory.open && i < m.inventory.hotbar.len() {
        InventoryUiModel { inventory: InventoryModel { active: i, ..m.inventory }, ..m }
    } else {
        m
    }
}

/// The interface with another content in the active hotbar slot.
pub open spec fn active_replaced(m: InventoryUiModel, x: InventorySlot) -> InventoryUiModel {
    if 0 <= m.inventory.active < m.inventory.hotbar.len() {
        InventoryUiModel {
            inventory: InventoryModel {
                hotbar: m.inventory.hotbar.update(m.inventory.active, x),
                ..m.inventory
            },
            ..m
        }
    } else {
        m
    }
}

/// A slot holds a block of the given number.
pub open spec fn holds(s: InventorySlot, block: u8, ids: Map<Seq<char>, u8>) -> bool {
    s matches InventorySlot::Occupied(it) && ids.dom().contains(it.block_id@)
        && ids[it.block_id@] == block
}

/// The first slot from `from` on that holds a block of the given number.
pub open spec fn first_holding(s: Seq<InventorySlot>, block: u8, ids: Map<Seq<char>, u8>, from: int) -> Option<
    int,
>
    decreases s.len() - from,
{
    if from >= s.len() || from < 0 {
        None
    } else if holds(s[from], block, ids) {
        Some(from)
    } else {
        first_holding(s, block, ids, from + 1)
    }
}

/// A request that leaves the movement of the mouse as it is.
pub open spec fn asks(request: GameRequest) -> EventOutcome {
    EventOutcome { request, reset_mouse: false }
}

/// No request; the movement of the mouse is forgotten where `reset` says so.
pub open spec fn quiet(reset: bool) -> EventOutcome {
    EventOutcome { request: GameRequest::Nothing, reset_mouse: reset }
}

impl GameModel {
    /// A key of shift is held down.
    pub open spec fn shift(self) -> bool {
        self.keys.contains(Key::ShiftLeft) || self.keys.contains(Key::ShiftRight)
    }

    /// A key of control is held down.
    pub open spec fn ctrl(self) -> bool {
        self.keys.contains(Key::ControlLeft) || self.keys.contains(Key::ControlRight)
    }

    /// A key of alt is held down.
    pub open spec fn alt(self) -> bool {
        self.keys.contains(Key::AltLeft) || self.keys.contains(Key::AltRight)
    }

    /// The camera goes round the player, who stays as they are.
    pub open spec fn orbit(self) -> bool {
        self.view_mode == ViewMode::ThirdPerson && self.alt()
    }

    /// The block that is placed: that of the active stack, or the first block.
    pub open spec fn block_in_hand(self, blocks: BlocksModel) -> u8 {
        match self.ui.inventory.active_stack() {
            Some(it) if blocks.ids.dom().contains(it.block_id@) => blocks.ids[it.block_id@],
            _ => 1,
        }
    }

    /// What comes of turning the wheel.
    pub open spec fn wheel(self, steps: int) -> (GameModel, EventOutcome) {
        if self.ui.inventory.open {
            (self, asks(GameRequest::ScrollSlot))
        } else if self.ui.inventory.hotbar.len() > 0 {
            (
                GameModel {
                    ui: InventoryUiModel {
                        inventory: InventoryModel {
                            active: inventory::scrolled(
                                self.ui.inventory.active,
                                steps,
                                self.ui.inventory.hotbar.len() as int,
                            ),
                            ..self.ui.inventory
                        },
                        ..self.ui
                    },
                    ..self
                },
                quiet(false),
            )
        } else {
            (self, quiet(false))
        }
    }

    /// What comes of the left button going down.
    pub open spec fn left(self) -> (GameModel, EventOutcome) {
        (
            GameModel { mouse_down: true, ..self },
            if !self.ui.interacted && self.locked {
                asks(GameRequest::BreakBlock)
            } else {
                quiet(false)
            },
        )
    }

    /// What comes of the right button going down.
    pub open spec fn right(self, blocks: BlocksModel) -> EventOutcome {
        if !self.ui.inventory.open && self.locked {
            let b = self.block_in_hand(blocks);
            if blocks.infos.dom().contains(b) {
                asks(
                    GameRequest::PlaceBlock(
                        b,
                        blocks.infos[b].placement_mode,
                        blocks.infos[b].default_rotation,
                    ),
                )
            } else {
                asks(GameRequest::PlaceBlock(b, blocks.default_placement, 0))
            }
        } else {
            quiet(false)
        }
    }

    /// Picking the block that is aimed at puts a stack into the active slot, as
    /// no slot holds the block.
    pub open spec fn puts_block(self, blocks: BlocksModel) -> bool {
        &&& self.locked
        &&& self.target matches Some(t)
        &&& t.block != 0
        &&& first_holding(self.ui.inventory.hotbar, t.block, blocks.ids, 0) is None
        &&& blocks.infos.dom().contains(t.block)
        &&& blocks.infos[t.block].key is Some
    }

    /// The screen after the block that is aimed at was picked: the slot that
    /// holds it becomes active, or a stack of it goes into the active slot.
    pub open spec fn picked(self, blocks: BlocksModel) -> GameModel {
        match self.target {
            Some(t) if self.locked && t.block != 0 => {
                match first_holding(self.ui.inventory.hotbar, t.block, blocks.ids, 0) {
                    Some(i) => GameModel { ui: slot_selected(self.ui, i), ..self },
                    None => if blocks.infos.dom().contains(t.block)
                        && blocks.infos[t.block].key is Some {
                        GameModel {
                            ui: active_replaced(
                                self.ui,
                                InventorySlot::Occupied(stocking::picked(blocks.infos[t.block])),
                            ),
                            ..self
                        }
                    } else {
                        self
                    },
                }
            },
            _ => self,
        }
    }

    /// The screen with a key held down.
    pub open spec fn holding(self, key: Key) -> GameModel {
        GameModel { keys: self.keys.insert(key), ..self }
    }

    /// What comes of a key, which is held down already.
    pub open spec fn key(self, key: Key) -> (GameModel, EventOutcome) {
        match key {
            Key::C => (
                GameModel { ui: inventory_ui::creative_toggled(self.ui), ..self },
                quiet(false),
            ),
            Key::N => (self, asks(GameRequest::ToggleFly)),
            Key::L => (GameModel { spotlight: !self.spotlight, ..self }, quiet(false)),
            Key::S => (
                self,
                if self.ctrl() {
                    asks(GameRequest::SaveWorld)
                } else {
                    quiet(false)
                },
            ),
            Key::J => (GameModel { locked: !self.locked, ..self }, quiet(true)),
            Key::Escape => (
                GameModel { paused: !self.paused, locked: self.locked && self.paused, ..self },
                quiet(!self.paused),
            ),
            Key::F3 => (GameModel { debug: !self.debug, ..self }, quiet(false)),
            Key::F4 => (
                GameModel {
                    profiler: ProfilerOverlay { visible: !self.profiler.visible, ..self.profiler },
                    ..self
                },
                quiet(false),
            ),
            Key::F5 => (
                GameModel { view_mode: other_view(self.view_mode), ..self },
                quiet(false),
            ),
            Key::F6 => (
                GameModel {
                    debug_render: DebugRenderState {
                        visible: !self.debug_render.visible,
                        ..self.debug_render
                    },
                    ..self
                },
                quiet(false),
            ),
            Key::G => (self, asks(GameRequest::SpawnTestLight)),
            Key::E => (
                GameModel {
                    ui: InventoryUiModel { inventory: self.ui.inventory.toggled(), ..self.ui },
                    locked: self.locked && self.ui.inventory.open,
                    ..self
                },
                quiet(!self.ui.inventory.open),
            ),
            Key::Q => (
                GameModel { ui: active_replaced(self.ui, InventorySlot::Empty), ..self },
                quiet(false),
            ),
            Key::Digit(d) => (
                if d < 9 {
                    GameModel { ui: slot_selected(self.ui, d as int), ..self }
                } else {
                    self
                },
                quiet(false),
            ),
            Key::T => (
                self,
                if self.shift() {
                    asks(GameRequest::TimeFaster)
                } else if self.ctrl() {
                    asks(GameRequest::TimeSlower)
                } else {
                    asks(GameRequest::ToggleTime)
                },
            ),
            _ => (self, quiet(false)),
        }
    }

    /// What comes of an event.
    pub open spec fn after(self, event: InputEvent, blocks: BlocksModel) -> (GameModel, EventOutcome) {
        match event {
            InputEvent::Wheel(steps) => self.wheel(steps as int),
            InputEvent::LeftPressed => self.left(),
            InputEvent::LeftReleased => (GameModel { mouse_down: false, ..self }, quiet(false)),
            InputEvent::RightPressed => (self, self.right(blocks)),
            InputEvent::MiddlePressed => (self.picked(blocks), quiet(false)),
            InputEvent::KeyPressed(k) => self.holding(k).key(k),
            InputEvent::KeyReleased(k) => (
                GameModel { keys: self.keys.remove(k), ..self },
                quiet(false),
            ),
        }
    }

    /// Every stack that the cursor may put back finds slots within their
    /// limits.
    pub open spec fn can_toggle(self) -> bool {
        self.ui.inventory.open ==> (self.ui.inventory.dragged matches Some(d)
            ==> self.ui.inventory.fits_for(d.block_id@))
    }
}

/// How the player stands.
#[derive(Debug, Clone, Copy, PartialEq, Eq, Structural)]
pub enum PlayerStance {
    Standing,
    Crouching,
    Prone,
}

/// How the player wants to move.
#[derive(Debug, Clone, Copy, PartialEq, Eq, Structural)]
pub struct MoveIntent {
    pub forward: bool,
    pub back: bool,
    pub left: bool,
    pub right: bool,
    pub jump: bool,
    pub fly_down: bool,
    /// Whether the player moves where the body faces, not where the camera
    /// looks.
    pub orbit: bool,
    /// The stance that is asked for; flying there is none.
    pub stance: Option<PlayerStance>,
}

/// Something the player does in the pause menu.
#[derive(Debug, Clone, Copy, PartialEq, Eq, Structural)]
pub enum PauseEvent {
    SaveWorld,
    Resume,
    Close,
    BackToMenu,
    ShowDebug(bool),
    ShowProfiler(bool),
}

impl GameScreen {
    /// The tables are in order.
    pub open spec fn wf(&self) -> bool {
        self.inventory_ui.wf() && self.keys.wf()
    }

    /// A game without a saved world.
    pub fn new(
        config: InventoryConfig,
        blocks: &GameBlocks,
        tiles: &Table<String, Vec<u8>>,
    ) -> (r: GameScreen)
        requires
            blocks.wf(),
            tiles.wf(),
        ensures
            r.wf(),
            r@ == fresh_game(r@.ui, None),
            is_stocked(r@.ui, config, blocks@, tiles@),
    {
        GameScreen::new_with_world(None, config, blocks, tiles)
    }

    /// A game in a saved world, if one is given. The hotbar and the palette are
    /// filled from the blocks.
    pub fn new_with_world(
        metadata: Option<WorldMetadata>,
        config: InventoryConfig,
        blocks: &GameBlocks,
        tiles: &Table<String, Vec<u8>>,
    ) -> (r: GameScreen)
        requires
            blocks.wf(),
            tiles.wf(),
        ensures
            r.wf(),
            r@ == fresh_game(r@.ui, metadata),
            is_stocked(r@.ui, config, blocks@, tiles@),
    {
        let mut inventory_ui: InventoryUI = InventoryUI::new(config);
        stocking::stock_hotbar(&mut inventory_ui, &blocks.infos, tiles);
        let ghost filled = inventory_ui@;
        stocking::stock_palette(&mut inventory_ui, &blocks.infos, tiles);
        assert(stocking::is_hotbar_stocked(
            inventory_ui::fresh_ui(config),
            filled,
            blocks@.infos,
            tiles@,
        ));
        let r: GameScreen = GameScreen {
            inventory_ui,
            camera_locked: false,
            mouse_down: false,
            paused: false,
            player_spotlight_on: false,
            debug_visible: false,
            profiler: ProfilerOverlay::new(),
            debug_render: DebugRenderState::new(),
            view_mode: ViewMode::FirstPerson,
            keys: Table::new(),
            target_block: None,
            pending_action: ScreenAction::Stay,
            world_metadata: metadata,
        };
        assert(r@.keys =~= Set::empty());
        r
    }

    /// The name of the screen.
    pub fn name(&self) -> (r: &'static str)
        ensures
            r@ == "Game"@,
    {
        "Game"
    }

    /// The seed of the world.
    pub fn world_seed(&self) -> (r: u64)
        ensures
            r == (match self@.world {
                Some(m) => m.seed,
                None => DEFAULT_SEED,
            }),
            self@.world is None ==> r == 12345,
    {
        match &self.world_metadata {
            Some(m) => m.seed,
            None => DEFAULT_SEED,
        }
    }

    /// Whether the pointer is kept by the window.
    pub fn wants_pointer_lock(&self) -> (r: bool)
        ensures
            r == (self@.locked && !self@.ui.inventory.open),
    {
        self.camera_locked && !self.inventory_ui.is_open()
    }

    fn held(&self, key: Key) -> (r: bool)
        requires
            self.wf(),
        ensures
            r == self@.keys.contains(key),
    {
        self.keys.contains_key(&key)
    }

    fn shift_held(&self) -> (r: bool)
        requires
            self.wf(),
        ensures
            r == self@.shift(),
    {
        self.held(Key::ShiftLeft) || self.held(Key::ShiftRight)
    }

    fn ctrl_held(&self) -> (r: bool)
        requires
            self.wf(),
        ensures
            r == self@.ctrl(),
    {
        self.held(Key::ControlLeft) || self.held(Key::ControlRight)
    }

    /// Whether the camera goes round the player, who stays as they are.
    pub fn orbit_mode(&self) -> (r: bool)
        requires
            self.wf(),
        ensures
            r == self@.orbit(),
    {
        self.view_mode == ViewMode::ThirdPerson && (self.held(Key::AltLeft) || self.held(
            Key::AltRight,
        ))
    }

    /// How the player wants to move, by the keys that are held down.
    pub fn process_input(&self, fly_mode: bool) -> (r: MoveIntent)
        requires
            self.wf(),
        ensures
            r == (MoveIntent {
                forward: self@.keys.contains(Key::W),
                back: self@.keys.contains(Key::S),
                left: self@.keys.contains(Key::A),
                right: self@.keys.contains(Key::D),
                jump: self@.keys.contains(Key::Space),
                fly_down: fly_mode && self@.shift(),
                orbit: self@.orbit(),
                stance: if fly_mode {
                    None
                } else if self@.ctrl() {
                    Some(PlayerStance::Prone)
                } else if self@.shift() {
                    Some(PlayerStance::Crouching)
                } else {
                    Some(PlayerStance::Standing)
                },
            }),
    {
        let shift: bool = self.shift_held();
        let stance: Option<PlayerStance> = if fly_mode {
            None
        } else if self.ctrl_held() {
            Some(PlayerStance::Prone)
        } else if shift {
            Some(PlayerStance::Crouching)
        } else {
            Some(PlayerStance::Standing)
        };
        MoveIntent {
            forward: self.held(Key::W),
            back: self.held(Key::S),
            left: self.held(Key::A),
            right: self.held(Key::D),
            jump: self.held(Key::Space),
            fly_down: fly_mode && shift,
            orbit: self.orbit_mode(),
            stance,
        }
    }

    fn on_wheel(&mut self, steps: i32) -> (r: EventOutcome)
        requires
            old(self).wf(),
            old(self)@.ui.inventory.hotbar.len() <= i32::MAX,
            old(self)@.ui.inventory.active + old(self)@.ui.inventory.hotbar.len() <= usize::MAX,
        ensures
            final(self).wf(),
            (final(self)@, r) == old(self)@.wheel(steps as int),
    {
        let taken: bool = self.inventory_ui.scroll_hotbar(steps);
        EventOutcome {
            request: if taken {
                GameRequest::Nothing
            } else {
                GameRequest::ScrollSlot
            },
            reset_mouse: false,
        }
    }

    fn on_right(&self, blocks: &GameBlocks) -> (r: EventOutcome)
        requires
            self.wf(),
            blocks.wf(),
        ensures
            r == self@.right(blocks@),
    {
        if self.inventory_ui.is_open() || !self.camera_locked {
            return EventOutcome { request: GameRequest::Nothing, reset_mouse: false };
        }
        let block: u8 = match self.inventory_ui.active_block_id() {
            Some(name) => {
                let key: String = name.to_string();
                match blocks.ids.get(&key) {
                    Some(id) => *id,
                    None => 1,
                }
            },
            None => 1,
        };
        let request: GameRequest = match blocks.infos.get(&block) {
            Some(info) => GameRequest::PlaceBlock(
                block,
                info.placement_mode,
                info.default_rotation,
            ),
            None => GameRequest::PlaceBlock(block, blocks.default_placement, 0),
        };
        EventOutcome { request, reset_mouse: false }
    }

    fn slot_with(&self, block: u8, blocks: &GameBlocks) -> (r: Option<usize>)
        requires
            self.wf(),
            blocks.wf(),
        ensures
            match r {
                Some(i) => first_holding(
                    self@.ui.inventory.hotbar,
                    block,
                    blocks@.ids,
                    0,
                ) == Some(i as int),
                None => first_holding(self@.ui.inventory.hotbar, block, blocks@.ids, 0) is None,
            },
    {
        let n: usize = self.inventory_ui.hotbar_count();
        let mut i: usize = 0;
        let ghost bar = self@.ui.inventory.hotbar;
        while i < n
            invariant
                i <= n,
                n == bar.len(),
                bar == self@.ui.inventory.hotbar,
                self.wf(),
                blocks.wf(),
                first_holding(bar, block, blocks@.ids, 0) == first_holding(
                    bar,
                    block,
                    blocks@.ids,
                    i as int,
                ),
            decreases n - i,
        {
            let mut found: bool = false;
            match self.inventory_ui.hotbar_item(i) {
                Some(it) => {
                    match blocks.ids.get(&it.block_id) {
                        Some(id) => {
                            found = *id == block;
                        },
                        None => {},
                    }
                },
                None => {},
            }
            assert(found == holds(bar[i as int], block, blocks@.ids));
            if found {
                return Some(i);
            }
            i += 1;
        }
        None
    }

    fn on_middle(&mut self, blocks: &GameBlocks)
        requires
            old(self).wf(),
            blocks.wf(),
            old(self)@.puts_block(blocks@) ==> old(self)@.ui.inventory.active < old(
                self,
            )@.ui.inventory.hotbar.len(),
        ensures
            final(self).wf(),
            final(self)@ == old(self)@.picked(blocks@),
    {
        proof {
            self.inventory_ui.lemma_active();
        }
        if !self.camera_locked {
            return ;
        }
        let block: u8 = match &self.target_block {
            Some(t) => t.block,
            None => 0,
        };
        if block == 0 {
            return ;
        }
        match self.slot_with(block, blocks) {
            Some(i) => {
                self.inventory_ui.select_hotbar(i);
            },
            None => {
                match blocks.infos.get(&block) {
                    Some(info) => {
                        match &info.key {
                            Some(key) => {
                                let stack: ItemStack = stocking::picked_stack(info, key);
                                self.inventory_ui.set_active_stack(stack);
                            },
                            None => {},
                        }
                    },
                    None => {},
                }
            },
        }
    }

    #[verifier::rlimit(40)]
    fn on_key(&mut self, key: Key) -> (r: EventOutcome)
        requires
            old(self).wf(),
            key == Key::E ==> old(self)@.can_toggle(),
        ensures
            final(self).wf(),
            (final(self)@, r) == old(self)@.key(key),
    {
        let mut request: GameRequest = GameRequest::Nothing;
        let mut reset_mouse: bool = false;
        match key {
            Key::C => {
                self.inventory_ui.toggle_creative();
            },
            Key::N => {
                request = GameRequest::ToggleFly;
            },
            Key::L => {
                self.player_spotlight_on = !self.player_spotlight_on;
            },
            Key::S => {
                if self.ctrl_held() {
                    request = GameRequest::SaveWorld;
                }
            },
            Key::J => {
                self.camera_locked = !self.camera_locked;
                reset_mouse = true;
            },
            Key::Escape => {
                self.paused = !self.paused;
                if self.paused {
                    self.camera_locked = false;
                    reset_mouse = true;
                }
            },
            Key::F3 => {
                self.debug_visible = !self.debug_visible;
            },
            Key::F4 => {
                self.profiler.visible = !self.profiler.visible;
            },
            Key::F5 => {
                self.view_mode = match self.view_mode {
                    ViewMode::FirstPerson => ViewMode::ThirdPerson,
                    ViewMode::ThirdPerson => ViewMode::FirstPerson,
                };
            },
            Key::F6 => {
                self.debug_render.visible = !self.debug_render.visible;
            },
            Key::G => {
                request = GameRequest::SpawnTestLight;
            },
            Key::E => {
                self.inventory_ui.toggle();
                if self.inventory_ui.is_open() {
                    self.camera_locked = false;
                    reset_mouse = true;
                }
            },
            Key::Q => {
                self.inventory_ui.clear_active_hotbar_slot();
            },
            Key::Digit(d) => {
                if d < 9 {
                    self.inventory_ui.select_hotbar(d as usize);
                }
            },
            Key::T => {
                if self.shift_held() {
                    request = GameRequest::TimeFaster;
                } else if self.ctrl_held() {
                    request = GameRequest::TimeSlower;
                } else {
                    request = GameRequest::ToggleTime;
                }
            },
            _ => {},
        }
        EventOutcome { request, reset_mouse }
    }

    /// Carries out what happened at the window, and says what it asks of the
    /// world.
    pub fn on_event(&mut self, event: InputEvent, blocks: &GameBlocks) -> (r: EventOutcome)
        requires
            old(self).wf(),
            blocks.wf(),
            event is Wheel ==> old(self)@.ui.inventory.hotbar.len() <= i32::MAX && old(
                self,
            )@.ui.inventory.active + old(self)@.ui.inventory.hotbar.len() <= usize::MAX,
            event is MiddlePressed && old(self)@.puts_block(blocks@)
                ==> old(self)@.ui.inventory.active < old(self)@.ui.inventory.hotbar.len(),
            event == InputEvent::KeyPressed(Key::E) ==> old(self)@.can_toggle(),
        ensures
            final(self).wf(),
            (final(self)@, r) == old(self)@.after(event, blocks@),
    {
        match event {
            InputEvent::Wheel(steps) => self.on_wheel(steps),
            InputEvent::LeftPressed => {
                self.mouse_down = true;
                let hit: bool = !self.inventory_ui.was_interacted() && self.camera_locked;
                EventOutcome {
                    request: if hit {
                        GameRequest::BreakBlock
                    } else {
                        GameRequest::Nothing
                    },
                    reset_mouse: false,
                }
            },
            InputEvent::LeftReleased => {
                self.mouse_down = false;
                EventOutcome { request: GameRequest::Nothing, reset_mouse: false }
            },
            InputEvent::RightPressed => self.on_right(blocks),
            InputEvent::MiddlePressed => {
                self.on_middle(blocks);
                EventOutcome { request: GameRequest::Nothing, reset_mouse: false }
            },
            InputEvent::KeyPressed(k) => {
                self.keys.insert(k, true);
                assert(self@.keys =~= old(self)@.keys.insert(k));
                self.on_key(k)
            },
            InputEvent::KeyReleased(k) => {
                self.keys.remove(&k);
                assert(self@.keys =~= old(self)@.keys.remove(k));
                EventOutcome { request: GameRequest::Nothing, reset_mouse: false }
            },
        }
    }

    /// Carries out what the player did in the pause menu. Says whether the
    /// world is to be saved.
    pub fn on_pause_event(&mut self, event: PauseEvent) -> (save: bool)
        requires
            old(self).wf(),
        ensures
            final(self).wf(),
            save == (event == PauseEvent::SaveWorld),
            final(self)@ == (match event {
                PauseEvent::SaveWorld => old(self)@,
                PauseEvent::Resume => GameModel { paused: false, ..old(self)@ },
                PauseEvent::Close => GameModel { paused: false, ..old(self)@ },
                PauseEvent::BackToMenu => GameModel {
                    action: ScreenAction::Switch(ScreenKind::MainMenu),
                    ..old(self)@
                },
                PauseEvent::ShowDebug(b) => GameModel { debug: b, ..old(self)@ },
                PauseEvent::ShowProfiler(b) => GameModel {
                    profiler: ProfilerOverlay { visible: b, ..old(self)@.profiler },
                    ..old(self)@
                },
            }),
    {
        match event {
            PauseEvent::SaveWorld => {
                return true;
            },
            PauseEvent::Resume => {
                self.paused = false;
            },
            PauseEvent::Close => {
                self.paused = false;
            },
            PauseEvent::BackToMenu => {
                self.pending_action = ScreenAction::Switch(ScreenKind::MainMenu);
            },
            PauseEvent::ShowDebug(b) => {
                self.debug_visible = b;
            },
            PauseEvent::ShowProfiler(b) => {
                self.profiler.visible = b;
            },
        }
        false
    }

    /// Whether the world is to be saved by itself: it has a place to be saved
    /// in, and long enough was nothing saved.
    pub fn autosave_due(&self, seconds: u64) -> (r: bool)
        ensures
            r == (self@.world is Some && seconds >= AUTOSAVE_SECONDS),
            r ==> seconds >= 300,
            self@.world is Some && seconds >= 300 ==> r,
    {
        self.world_metadata.is_some() && seconds >= AUTOSAVE_SECONDS
    }

    /// Puts the state of the game and a point in time into what is known of the
    /// world, and returns a copy to be written. Without a saved world nothing is
    /// written.
    pub fn save_world_at(&mut self, now: String, data: String) -> (r: Option<WorldMetadata>)
        requires
            old(self).wf(),
        ensures
            final(self).wf(),
            r == (match old(self)@.world {
                Some(m) => Some(WorldMetadata { last_played: now, data, ..m }),
                None => None,
            }),
            final(self)@ == (GameModel { world: r, ..old(self)@ }),
    {
        match &mut self.world_metadata {
            Some(m) => {
                m.last_played = now;
                m.data = data;
                Some(m.clone())
            },
            None => None,
        }
    }

    /// Puts the state of the game and the present time into what is known of
    /// the world, and returns a copy to be written. Without a saved world
    /// nothing is written. What the time is depends on the clock.
    pub fn do_save_world(&mut self, data: String) -> (r: Option<WorldMetadata>)
        requires
            old(self).wf(),
        ensures
            final(self).wf(),
            r is Some <==> old(self)@.world is Some,
            r matches Some(m) ==> m == (WorldMetadata {
                last_played: m.last_played,
                data,
                ..old(self)@.world->Some_0
            }),
            final(self)@ == (GameModel { world: r, ..old(self)@ }),
    {
        let now: String = now_text();
        self.save_world_at(now, data)
    }

    /// Hands out what the screen asks for and forgets it.
    pub fn poll_action(&mut self) -> (r: ScreenAction)
        requires
            old(self).wf(),
        ensures
            final(self).wf(),
            r == old(self)@.action,
            final(self)@ == (GameModel { action: ScreenAction::Stay, ..old(self)@ }),
    {
        take_action(&mut self.pending_action)
    }

    /// The hint how to lock or unlock the cursor.
    pub fn lock_text(&self) -> (r: &'static str)
        ensures
            r@ == (if self@.locked {
                "J - unlock cursor"@
            } else {
                "J - lock cursor / enable camera"@
            }),
    {
        if self.camera_locked {
            "J - unlock cursor"
        } else {
            "J - lock cursor / enable camera"
        }
    }
}

/// A game at its start.
pub open spec fn fresh_game(ui: InventoryUiModel, world: Option<WorldMetadata>) -> GameModel {
    GameModel {
        ui,
        locked: false,
        mouse_down: false,
        paused: false,
        spotlight: false,
        debug: false,
        profiler: ProfilerOverlay { visible: false, last_frame: None },
        debug_render: DebugRenderState::off(),
        view_mode: ViewMode::FirstPerson,
        keys: Set::empty(),
        target: None,
        action: ScreenAction::Stay,
        world,
    }
}

/// The interface of an inventory whose hotbar and palette were filled from the
/// blocks.
pub open spec fn is_stocked(
    ui: InventoryUiModel,
    config: InventoryConfig,
    blocks: BlocksModel,
    tiles: Map<Seq<char>, Vec<u8>>,
) -> bool {
    exists|filled: InventoryUiModel|
        #![trigger stocking::is_hotbar_stocked(
            inventory_ui::fresh_ui(config),
            filled,
            blocks.infos,
            tiles,
        )]
        stocking::is_hotbar_stocked(
            inventory_ui::fresh_ui(config),
            filled,
            blocks.infos,
            tiles,
        ) && stocking::is_palette_stocked(filled, ui, blocks.infos, tiles)
}

/// Whether a saved player is put back where they were: not where they never
/// left the place where players start. The position is given as the bits of
/// single-precision numbers; players start at 8, 250, 30.
pub fn restores_player(position: [u32; 3]) -> (r: bool)
    ensures
        r == !(position[0] == 0x4100_0000 && position[1] == 0x437a_0000 && position[2]
            == 0x41f0_0000),
{
    !(position[0] == 0x4100_0000 && position[1] == 0x437a_0000 && position[2] == 0x41f0_0000)
}

/// A number in decimal notation with at least two digits.
pub open spec fn two_digits(n: nat) -> Seq<char> {
    if n < 10 {
        "0"@ + text::decimal(n)
    } else {
        text::decimal(n)
    }
}

fn two_digit_text(n: u32) -> (r: String)
    ensures
        r@ == two_digits(n as nat),
{
    let d: String = text::decimal_text(n as u64);
    if n < 10 {
        text::joined("0", d.as_str())
    } else {
        d
    }
}

/// The clock on the screen: the time of day and how fast it goes.
pub fn time_text(hours: u32, minutes: u32, speed: &str) -> (r: String)
    ensures
        r@ == two_digits(hours as nat) + ":"@ + two_digits(minutes as nat) + "  Speed: "@ + speed@
            + "  (T/Shift+T/Ctrl+T)"@,
{
    let h: String = two_digit_text(hours);
    let m: String = two_digit_text(minutes);
    let clock: String = text::joined3(h.as_str(), ":", m.as_str());
    let head: String = text::joined3(clock.as_str(), "  Speed: ", speed);
    text::joined(head.as_str(), "  (T/Shift+T/Ctrl+T)")
}

/// Pausing the game or opening the inventory sets the camera free, so the
/// pointer is not kept then.
pub proof fn law_menus_free_the_pointer(m: GameModel)
    ensures
        !m.paused ==> !m.key(Key::Escape).0.locked && m.key(Key::Escape).0.paused,
        !m.ui.inventory.open ==> !m.key(Key::E).0.locked && m.key(Key::E).0.ui.inventory.open,
{
}

/// Keys that switch something on and off change nothing when they are pressed
/// twice.
pub proof fn law_switches(m: GameModel, key: Key)
    requires
        key == Key::L || key == Key::J || key == Key::F3 || key == Key::F4 || key == Key::F5
            || key == Key::F6 || (key == Key::C && m.ui.creative == m.ui.inventory.creative) || (
        key == Key::Escape && !m.locked) || (key == Key::E && !m.locked
            && m.ui.inventory.dragged is None),
    ensures
        m.key(key).0.key(key).0 == m,
{
}

/// A key that is let go is held down no more, whatever it did.
pub proof fn law_keys(m: GameModel, key: Key, other: Key, blocks: BlocksModel)
    ensures
        ({
            let pressed = m.after(InputEvent::KeyPressed(key), blocks).0;
            let released = pressed.after(InputEvent::KeyReleased(key), blocks).0;
            &&& pressed.keys.contains(key)
            &&& !released.keys.contains(key)
            &&& other != key ==> (released.keys.contains(other) <==> m.keys.contains(other))
        }),
{
}

/// After a block was picked, and the inventory is closed, the active slot holds
/// it, where the registry of blocks agrees with itself and the active slot is
/// one of the hotbar's.
pub proof fn law_picked_block_is_active(m: GameModel, blocks: BlocksModel)
    requires
        m.locked,
        !m.ui.inventory.open,
        0 <= m.ui.inventory.active < m.ui.inventory.hotbar.len(),
        m.target matches Some(t) && t.block != 0 && blocks.infos.dom().contains(t.block)
            && blocks.infos[t.block].key is Some && blocks.ids.dom().contains(
            blocks.infos[t.block].key->Some_0@,
        ) && blocks.ids[blocks.infos[t.block].key->Some_0@] == t.block,
    ensures
        ({
            let p = m.picked(blocks);
            &&& p.ui.inventory.hotbar.len() == m.ui.inventory.hotbar.len()
            &&& 0 <= p.ui.inventory.active < p.ui.inventory.hotbar.len()
            &&& holds(
                p.ui.inventory.hotbar[p.ui.inventory.active],
                m.target->Some_0.block,
                blocks.ids,
            )
        }),
{
    lemma_first_holding(m.ui.inventory.hotbar, m.target->Some_0.block, blocks.ids, 0);
}

proof fn lemma_first_holding(s: Seq<InventorySlot>, block: u8, ids: Map<Seq<char>, u8>, from: int)
    requires
        0 <= from,
    ensures
        first_holding(s, block, ids, from) matches Some(i) ==> from <= i < s.len() && holds(
            s[i],
            block,
            ids,
        ) && forall|j: int| #![trigger s[j]] from <= j < i ==> !holds(s[j], block, ids),
        first_holding(s, block, ids, from) is None ==> forall|j: int|
            #![trigger s[j]]
            from <= j < s.len() ==> !holds(s[j], block, ids),
    decreases s.len() - from,
{
    if from < s.len() && !holds(s[from], block, ids) {
        lemma_first_holding(s, block, ids, from + 1);
    }
}

/// No event puts more into a slot than fits, and the inventory can be opened
/// and closed at any time.
pub proof fn law_events_keep_limits(m: GameModel, event: InputEvent, blocks: BlocksModel)
    requires
        m.ui.inventory.fits(),
    ensures
        m.can_toggle(),
        m.after(event, blocks).0.ui.inventory.fits(),
{
    let inv = m.ui.inventory;
    match event {
        InputEvent::KeyPressed(Key::E) => {
            match inv.dragged {
                Some(d) if inv.open => {
                    let a = InventoryModel { open: false, ..inv }.with_dragged(None);
                    inventory::law_add_keeps_limits(a, d);
                },
                _ => {},
            }
        },
        _ => {},
    }
}

/// A right click that places a block asks for the block in hand, and where
/// that block is known, with its own way of being placed and its own first
/// rotation. An unknown block is placed in the default way, unturned.
pub proof fn law_right_click_places_own_block(m: GameModel, blocks: BlocksModel)
    ensures
        ({
            let b = m.block_in_hand(blocks);
            let r = m.after(InputEvent::RightPressed, blocks);
            &&& r.0 == m
            &&& !r.1.reset_mouse
            &&& m.locked && !m.ui.inventory.open ==> match r.1.request {
                GameRequest::PlaceBlock(c, mode, rotation) => {
                    &&& c == b
                    &&& blocks.infos.dom().contains(b) ==> mode == blocks.infos[b].placement_mode
                        && rotation == blocks.infos[b].default_rotation
                    &&& !blocks.infos.dom().contains(b) ==> mode == blocks.default_placement
                        && rotation == 0
                },
                _ => false,
            }
            &&& !m.locked || m.ui.inventory.open ==> r.1.request == GameRequest::Nothing
        }),
{
}

/// What a right click asks for depends on the block in hand alone: two
/// registries with the same names that agree on that block give the same request,
/// so redefining any other block changes nothing, while redefining that one
/// changes the request along with it.
pub proof fn law_right_click_reads_own_block_only(
    m: GameModel,
    a: BlocksModel,
    b: BlocksModel,
    other: u8,
    info: BlockInfo,
)
    requires
        m.locked,
        !m.ui.inventory.open,
    ensures
        ({
            let h = m.block_in_hand(a);
            let changed = BlocksModel { infos: a.infos.insert(other, info), ..a };
            &&& a.ids == b.ids ==> m.block_in_hand(b) == h
            &&& a.ids == b.ids && a.default_placement == b.default_placement && (
            a.infos.dom().contains(h) <==> b.infos.dom().contains(h)) && (a.infos.dom().contains(h)
                ==> a.infos[h] == b.infos[h]) ==> m.after(InputEvent::RightPressed, a)
                == m.after(InputEvent::RightPressed, b)
            &&& other != h ==> m.after(InputEvent::RightPressed, changed) == m.after(
                InputEvent::RightPressed,
                a,
            )
            &&& other == h ==> m.after(InputEvent::RightPressed, changed).1.request
                == GameRequest::PlaceBlock(h, info.placement_mode, info.default_rotation)
        }),
{
}

/// The block in hand is that of the active slot's stack, by the name it is
/// registered under; with an empty hand, or a name that is not registered, it is
/// block 1.
pub proof fn law_block_in_hand(m: GameModel, blocks: BlocksModel, i: ItemStack)
    requires
        0 <= m.ui.inventory.active < m.ui.inventory.hotbar.len(),
        m.ui.inventory.hotbar[m.ui.inventory.active] == InventorySlot::Occupied(i),
    ensures
        blocks.ids.dom().contains(i.block_id@) ==> m.block_in_hand(blocks) == blocks.ids[i.block_id@],
        !blocks.ids.dom().contains(i.block_id@) ==> m.block_in_hand(blocks) == 1,
        (GameModel {
            ui: InventoryUiModel {
                inventory: InventoryModel {
                    hotbar: m.ui.inventory.hotbar.update(m.ui.inventory.active, InventorySlot::Empty),
                    ..m.ui.inventory
                },
                ..m.ui
            },
            ..m
        }).block_in_hand(blocks) == 1,
{
}

/// The left button asks for the block to be broken where the pointer is locked
/// and the inventory was not clicked, and is held until it is released.
pub proof fn law_left_button(m: GameModel, blocks: BlocksModel)
    ensures
        m.after(InputEvent::LeftPressed, blocks).0 == (GameModel { mouse_down: true, ..m }),
        m.after(InputEvent::LeftPressed, blocks).1.request == GameRequest::BreakBlock <==> m.locked
            && !m.ui.interacted,
        !(m.locked && !m.ui.interacted) ==> m.after(InputEvent::LeftPressed, blocks).1.request
            == GameRequest::Nothing,
        !m.after(InputEvent::LeftPressed, blocks).1.reset_mouse,
        m.after(InputEvent::LeftReleased, blocks).0 == (GameModel { mouse_down: false, ..m }),
        m.after(InputEvent::LeftReleased, blocks).1.request == GameRequest::Nothing,
        !m.after(InputEvent::LeftReleased, blocks).1.reset_mouse,
{
}

/// Turning the wheel moves the active slot: by one step forward to the next
/// slot, from the last to the first, and back the other way. While the inventory is
/// open it only asks for the window to scroll. Nothing else changes.
pub proof fn law_wheel(m: GameModel, steps: i32, blocks: BlocksModel)
    requires
        0 <= m.ui.inventory.active < m.ui.inventory.hotbar.len(),
    ensures
        ({
            let r = m.after(InputEvent::Wheel(steps), blocks);
            let n = m.ui.inventory.hotbar.len() as int;
            let a = m.ui.inventory.active;
            let b = r.0.ui.inventory.active;
            &&& r.0 == (GameModel {
                ui: InventoryUiModel {
                    inventory: InventoryModel { active: b, ..m.ui.inventory },
                    ..m.ui
                },
                ..m
            })
            &&& !r.1.reset_mouse
            &&& m.ui.inventory.open ==> r.1.request == GameRequest::ScrollSlot && b == a
            &&& !m.ui.inventory.open ==> r.1.request == GameRequest::Nothing && 0 <= b < n
            &&& !m.ui.inventory.open && steps == 1 ==> b == if a + 1 == n { 0 } else { a + 1 }
            &&& !m.ui.inventory.open && steps == -1 ==> b == if a == 0 { n - 1 } else { a - 1 }
            &&& !m.ui.inventory.open ==> (b - a - steps) % n == 0
        }),
{
    let n = m.ui.inventory.hotbar.len() as int;
    let a = m.ui.inventory.active;
    inventory::law_scroll_steps(a, 0, 0, n);
    inventory::law_scroll_stays(a, steps as int, n);
    let b = inventory::scrolled(a, steps as int, n);
    vstd::arithmetic::div_mod::lemma_add_mod_noop_right(a, steps as int, n);
    vstd::arithmetic::div_mod::lemma_sub_mod_noop(b, a + steps, n);
    vstd::arithmetic::div_mod::lemma_small_mod(b as nat, n as nat);
    assert(b == (a + steps) % n);
    vstd::arithmetic::div_mod::lemma_small_mod(0, n as nat);
    assert((b % n - (a + steps) % n) == 0);
}

/// The place that is found is the first whose stack is of the block, and
/// none is found where no stack is.
pub proof fn law_first_holding(
    s: Seq<InventorySlot>,
    block: u8,
    ids: Map<Seq<char>, u8>,
    from: int,
)
    requires
        0 <= from <= s.len(),
    ensures
        match first_holding(s, block, ids, from) {
            Some(i) => {
                &&& from <= i < s.len()
                &&& s[i] matches InventorySlot::Occupied(it)
                &&& ids.dom().contains(it.block_id@)
                &&& ids[it.block_id@] == block
                &&& forall|j: int|
                    #![trigger s[j]]
                    from <= j < i ==> (s[j] matches InventorySlot::Occupied(x) ==> !(
                    ids.dom().contains(x.block_id@) && ids[x.block_id@] == block))
            },
            None => forall|j: int|
                #![trigger s[j]]
                from <= j < s.len() ==> (s[j] matches InventorySlot::Occupied(x) ==> !(
                ids.dom().contains(x.block_id@) && ids[x.block_id@] == block)),
        },
    decreases s.len() - from,
{
    if from < s.len() {
        if !holds(s[from], block, ids) {
            law_first_holding(s, block, ids, from + 1);
            assert(s[from] matches InventorySlot::Occupied(x) ==> !(ids.dom().contains(x.block_id@)
                && ids[x.block_id@] == block));
        }
    }
}

/// The middle button picks the block that is aimed at. Where some slot of the
/// hotbar holds it, the first such slot becomes active and nothing else changes
/// (with the inventory open nothing does); else a stack of it under its own name
/// takes the place of that in hand, and all other slots stay. With the pointer free,
/// nothing aimed at, air aimed at, or a block that is unknown or has no name,
/// nothing happens.
pub proof fn law_pick_block(m: GameModel, blocks: BlocksModel, i: int)
    requires
        0 <= m.ui.inventory.active < m.ui.inventory.hotbar.len(),
    ensures
        ({
            let r = m.after(InputEvent::MiddlePressed, blocks);
            let p = r.0.ui.inventory;
            let h = m.ui.inventory.hotbar;
            &&& r.1.request == GameRequest::Nothing && !r.1.reset_mouse
            &&& r.0 == (GameModel {
                ui: InventoryUiModel {
                    inventory: InventoryModel {
                        active: p.active,
                        hotbar: p.hotbar,
                        ..m.ui.inventory
                    },
                    ..m.ui
                },
                ..m
            })
            &&& !m.locked || m.target is None || m.target->Some_0.block == 0 ==> r.0 == m
            &&& m.locked && (m.target matches Some(t) && t.block != 0 && {
                &&& 0 <= i < h.len()
                &&& h[i] matches InventorySlot::Occupied(it)
                &&& blocks.ids.dom().contains(it.block_id@)
                &&& blocks.ids[it.block_id@] == t.block
                &&& forall|j: int|
                    #![trigger h[j]]
                    0 <= j < i ==> (h[j] matches InventorySlot::Occupied(x) ==> !(
                    blocks.ids.dom().contains(x.block_id@) && blocks.ids[x.block_id@] == t.block))
            }) ==> p.hotbar == h && p.active == (if m.ui.inventory.open {
                m.ui.inventory.active
            } else {
                i
            })
            &&& m.locked && (m.target matches Some(t) && t.block != 0 && (forall|j: int|
                #![trigger h[j]]
                0 <= j < h.len() ==> (h[j] matches InventorySlot::Occupied(x) ==> !(
                blocks.ids.dom().contains(x.block_id@) && blocks.ids[x.block_id@] == t.block)))) ==> {
                let b = m.target->Some_0.block;
                let known = blocks.infos.dom().contains(b) && blocks.infos[b].key is Some;
                &&& p.active == m.ui.inventory.active
                &&& !known ==> r.0 == m
                &&& known ==> p.hotbar.len() == h.len() && forall|j: int|
                    #![trigger p.hotbar[j]]
                    0 <= j < h.len() && j != p.active ==> p.hotbar[j] == h[j]
                &&& known ==> (p.hotbar[p.active] matches InventorySlot::Occupied(x) && {
                    let info = blocks.infos[b];
                    &&& Some(x.block_id) == info.key
                    &&& x.amount == 64 && x.max_stack == 64
                    &&& x.display_name == if info.display_name@.len() == 0 {
                        info.id
                    } else {
                        info.display_name
                    }
                    &&& x.block_color == info.color
                    &&& x.top_texture == info.top_texture && x.side_texture == info.side_texture
                    &&& x.inventory_tab is None && x.model_name is None
                })
            }
        }),
{
    law_first_holding(m.ui.inventory.hotbar, m.target->Some_0.block, blocks.ids, 0);
    let h = m.ui.inventory.hotbar;
    if m.target is Some {
        let f = first_holding(h, m.target->Some_0.block, blocks.ids, 0);
        if f is Some {
            let k = f->Some_0;
            if k < i {
                assert(h[k] is Occupied);
            }
            if i < k && 0 <= i {
                assert(h[i] matches InventorySlot::Occupied(x) ==> !(blocks.ids.dom().contains(
                    x.block_id@,
                ) && blocks.ids[x.block_id@] == m.target->Some_0.block));
            }
            assert(h[k] is Occupied);
        }
    }
}

/// What the keys ask for: N to fly or walk, G for a test light, S with Ctrl to
/// save, T to change the pace of time, with Shift to speed it up and with Ctrl alone
/// to slow it down. No other key asks for anything, and the mouse is centred anew
/// by J, and by Escape and E as they open a menu.
pub proof fn law_key_requests(m: GameModel, k: Key)
    ensures
        ({
            let q = m.key(k).1.request;
            let shift = m.keys.contains(Key::ShiftLeft) || m.keys.contains(Key::ShiftRight);
            let ctrl = m.keys.contains(Key::ControlLeft) || m.keys.contains(Key::ControlRight);
            &&& q == GameRequest::ToggleFly <==> k == Key::N
            &&& q == GameRequest::SpawnTestLight <==> k == Key::G
            &&& q == GameRequest::SaveWorld <==> k == Key::S && ctrl
            &&& q == GameRequest::TimeFaster <==> k == Key::T && shift
            &&& q == GameRequest::TimeSlower <==> k == Key::T && ctrl && !shift
            &&& q == GameRequest::ToggleTime <==> k == Key::T && !ctrl && !shift
            &&& !(q is ScrollSlot) && !(q is BreakBlock) && !(q is PlaceBlock)
            &&& m.key(k).1.reset_mouse <==> k == Key::J || k == Key::Escape && !m.paused || k
                == Key::E && !m.ui.inventory.open
        }),
{
}

/// What the keys change. L switches the lamp, F3, F4 and F6 the three
/// overlays, F5 the view, J the lock of the pointer. Escape switches the pause and E the
/// inventory, and each frees the pointer as it opens. C switches creative mode, Q
/// empties the active slot, and a digit makes that slot active. Each key
/// changes its own thing only, and no other key changes anything.
pub proof fn law_key_effects(m: GameModel, k: Key)
    ensures
        ({
            let r = m.key(k).0;
            &&& r.spotlight == (if k == Key::L { !m.spotlight } else { m.spotlight })
            &&& r.debug == (if k == Key::F3 { !m.debug } else { m.debug })
            &&& r.profiler.visible == (if k == Key::F4 {
                !m.profiler.visible
            } else {
                m.profiler.visible
            })
            &&& r.profiler.last_frame == m.profiler.last_frame
            &&& r.debug_render == (DebugRenderState {
                visible: if k == Key::F6 {
                    !m.debug_render.visible
                } else {
                    m.debug_render.visible
                },
                ..m.debug_render
            })
            &&& r.view_mode == m.view_mode <==> k != Key::F5
            &&& r.paused == (if k == Key::Escape { !m.paused } else { m.paused })
            &&& k == Key::J ==> r.locked == !m.locked
            &&& k == Key::Escape ==> r.locked == (m.locked && !r.paused)
            &&& k == Key::E ==> r.locked == (m.locked && !r.ui.inventory.open)
            &&& k != Key::J && k != Key::Escape && k != Key::E ==> r.locked == m.locked
            &&& r.keys == m.keys && r.mouse_down == m.mouse_down && r.target == m.target && r.action
                == m.action && r.world == m.world
            &&& k == Key::E ==> r.ui == (InventoryUiModel {
                inventory: m.ui.inventory.toggled(),
                ..m.ui
            }) && r.ui.inventory.open == !m.ui.inventory.open
            &&& k == Key::C ==> r.ui.creative == !m.ui.creative && r.ui.inventory.creative
                == !m.ui.creative && r.ui == (InventoryUiModel {
                creative: r.ui.creative,
                inventory: InventoryModel {
                    creative: r.ui.inventory.creative,
                    ..m.ui.inventory
                },
                ..m.ui
            })
            &&& k == Key::Q && 0 <= m.ui.inventory.active < m.ui.inventory.hotbar.len() ==> r.ui == (
            InventoryUiModel {
                inventory: InventoryModel {
                    hotbar: m.ui.inventory.hotbar.update(m.ui.inventory.active, InventorySlot::Empty),
                    ..m.ui.inventory
                },
                ..m.ui
            })
            &&& k == Key::Q && !(0 <= m.ui.inventory.active < m.ui.inventory.hotbar.len()) ==> r.ui
                == m.ui
            &&& (k matches Key::Digit(d) ==> r.ui == (InventoryUiModel {
                inventory: InventoryModel {
                    active: if !m.ui.inventory.open && d < 9 && d < m.ui.inventory.hotbar.len() {
                        d as int
                    } else {
                        m.ui.inventory.active
                    },
                    ..m.ui.inventory
                },
                ..m.ui
            }))
            &&& !(k is Digit) && k != Key::E && k != Key::C && k != Key::Q ==> r.ui == m.ui
        }),
{
}

/// A key that is pressed acts as a key that is held, and is held from then on
/// till it is released; releasing it does nothing else.
pub proof fn law_press_and_release(m: GameModel, k: Key, blocks: BlocksModel)
    ensures
        m.after(InputEvent::KeyPressed(k), blocks) == (GameModel {
            keys: m.keys.insert(k),
            ..m
        }).key(k),
        m.after(InputEvent::KeyReleased(k), blocks).0 == (GameModel {
            keys: m.keys.remove(k),
            ..m
        }),
        m.after(InputEvent::KeyReleased(k), blocks).1.request == GameRequest::Nothing,
        !m.after(InputEvent::KeyReleased(k), blocks).1.reset_mouse,
{
}

/// Shift, Ctrl and Alt are held where either of the two keys is, and the
/// camera orbits where Alt is held in the view from behind.
pub proof fn law_modifiers(m: GameModel)
    ensures
        m.shift() <==> m.keys.contains(Key::ShiftLeft) || m.keys.contains(Key::ShiftRight),
        m.ctrl() <==> m.keys.contains(Key::ControlLeft) || m.keys.contains(Key::ControlRight),
        m.alt() <==> m.keys.contains(Key::AltLeft) || m.keys.contains(Key::AltRight),
        m.orbit() <==> m.view_mode is ThirdPerson && (m.keys.contains(Key::AltLeft)
            || m.keys.contains(Key::AltRight)),
        m.can_toggle() <==> !m.ui.inventory.open || m.ui.inventory.dragged is None
            || m.ui.inventory.fits_for(m.ui.inventory.dragged->Some_0.block_id@),
{
}

/// A game starts with the pointer free, in first person, not paused, with no
/// key held, nothing aimed at, and every lamp and overlay off.
pub proof fn law_fresh_game(ui: InventoryUiModel, world: Option<WorldMetadata>, k: Key)
    ensures
        ({
            let g = fresh_game(ui, world);
            let d = g.debug_render;
            &&& g.ui == ui && g.world == world
            &&& !g.locked && !g.mouse_down && !g.paused && !g.spotlight && !g.debug
            &&& !g.profiler.visible && g.profiler.last_frame is None
            &&& g.view_mode is FirstPerson
            &&& !g.keys.contains(k)
            &&& g.target is None
            &&& g.action == ScreenAction::Stay
            &&& !d.visible && !d.wireframe && !d.bbox_visible && !d.bbox_physical
                && !d.bbox_hitboxes && !d.lighting_debug && !d.shadow_vectors
                && !d.wireframe_supported
            &&& d.vct_origin@ == seq![0i32, 0i32, 0i32]
            &&& d.spot_lights == 0 && d.point_lights == 0
        }),
{
    assert(DebugRenderState::off().vct_origin@ =~= seq![0i32, 0i32, 0i32]);
}

/// A number below a hundred is written with exactly two digits that have its
/// value; a larger one in full.
pub proof fn law_two_digits(n: nat)
    ensures
        n < 100 ==> two_digits(n).len() == 2,
        text::digits_value(two_digits(n)) == n,
        forall|i: int|
            #![trigger two_digits(n)[i]]
            0 <= i < two_digits(n).len() ==> text::is_digit(two_digits(n)[i]),
        n >= 10 ==> two_digits(n) == text::decimal(n),
{
    reveal_strlit("0");
    text::lemma_decimal(n);
    text::law_digits_value('0', "0"@, text::decimal(n));
    assert("0"@ =~= seq!['0']);
    reveal_with_fuel(text::decimal, 3);
    assert(text::digits_value("0"@) == 0);
    vstd::arithmetic::mul::lemma_mul_basics(vstd::arithmetic::power::pow(10, text::decimal(n).len()));
}

/// What is seen of a game, and of the known blocks, is what they hold.
pub proof fn law_game_view(g: GameScreen, b: GameBlocks, k: Key)
    ensures
        g@.ui == g.inventory_ui@ && g@.locked == g.camera_locked && g@.mouse_down == g.mouse_down,
        g@.paused == g.paused && g@.spotlight == g.player_spotlight_on && g@.debug
            == g.debug_visible,
        g@.profiler == g.profiler && g@.debug_render == g.debug_render && g@.view_mode
            == g.view_mode,
        g@.keys.contains(k) <==> g.keys@.dom().contains(k),
        g@.target == g.target_block && g@.action == g.pending_action && g@.world
            == g.world_metadata,
        b@.ids == b.ids@ && b@.infos == b.infos@ && b@.default_placement == b.default_placement,
{
}

/// With an empty hotbar the wheel changes nothing.
pub proof fn law_wheel_without_hotbar(m: GameModel, steps: i32, blocks: BlocksModel)
    requires
        m.ui.inventory.hotbar.len() == 0,
    ensures
        m.after(InputEvent::Wheel(steps), blocks).0 == m,
        m.after(InputEvent::Wheel(steps), blocks).1.request == (if m.ui.inventory.open {
            GameRequest::ScrollSlot
        } else {
            GameRequest::Nothing
        }),
{
}

/// A game starts with a hotbar of the first solid blocks, 64 of each, in the
/// order of their numbers, and empty slots behind them; with a palette of all blocks
/// that are given out; and with the window closed and nothing at the cursor.
pub proof fn law_stocked_game(
    ui: InventoryUiModel,
    config: InventoryConfig,
    blocks: BlocksModel,
    tiles: Map<Seq<char>, Vec<u8>>,
    i: int,
)
    requires
        is_stocked(ui, config, blocks, tiles),
    ensures
        ({
            let solid = stocking::stocked_blocks(blocks.infos, false, 255);
            let all = stocking::stocked_blocks(blocks.infos, true, 255);
            let h = ui.inventory.hotbar;
            &&& h.len() == config.hotbar_slots_count
            &&& 0 <= i < h.len() && i < solid.len() ==> (h[i] matches InventorySlot::Occupied(s)
                && Some(s.block_id) == blocks.infos[solid[i]].key && s.amount == 64
                && blocks.infos[solid[i]].solid)
            &&& solid.len() <= i < h.len() ==> h[i] == InventorySlot::Empty
            &&& ui.items.len() == all.len()
            &&& 0 <= i < all.len() ==> Some(ui.items[i].block_id) == blocks.infos[all[i]].key
            &&& inventory_ui::is_tab_bar(ui.tabs, ui.items) && ui.selected == 0
            &&& ui.inventory.main.len() == config.main_slots_count
            &&& 0 <= i < config.main_slots_count ==> ui.inventory.main[i] == InventorySlot::Empty
            &&& !ui.inventory.open && ui.inventory.dragged is None && ui.inventory.active == 0
            &&& ui.creative == config.creative_mode && ui.config == config
        }),
{
    let fresh = inventory_ui::fresh_ui(config);
    let filled = choose|filled: InventoryUiModel|
        #![trigger stocking::is_hotbar_stocked(fresh, filled, blocks.infos, tiles)]
        stocking::is_hotbar_stocked(fresh, filled, blocks.infos, tiles)
            && stocking::is_palette_stocked(filled, ui, blocks.infos, tiles);
    stocking::law_hotbar_stocked(fresh, filled, blocks.infos, tiles, i, i);
    stocking::law_palette_stocked(filled, ui, blocks.infos, tiles, i);
}

} // verus!
