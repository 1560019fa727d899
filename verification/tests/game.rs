use qubepixel::block_definition::PlacementMode;
use qubepixel::game_screen;
use qubepixel::game_screen::DebugRenderState;
use qubepixel::game_screen::GameBlocks;
use qubepixel::game_screen::GameRequest;
use qubepixel::game_screen::GameScreen;
use qubepixel::game_screen::InputEvent;
use qubepixel::game_screen::Key;
use qubepixel::game_screen::PauseEvent;
use qubepixel::game_screen::PlayerStance;
use qubepixel::game_screen::TargetBlock;
use qubepixel::inventory::InventoryConfig;
use qubepixel::player_renderer::ViewMode;
use qubepixel::screen::ScreenAction;
use qubepixel::screen::ScreenKind;
use qubepixel::screen::WorldMetadata;
use qubepixel::stocking;
use qubepixel::stocking::BlockInfo;
use qubepixel::table::Table;

fn info(key: &str, solid: bool, transparent: bool) -> BlockInfo {
    BlockInfo {
        key: Some(format!("block/{}", key)),
        id: key.to_string(),
        display_name: String::new(),
        solid,
        transparent,
        color: [1, 2, 3],
        top_texture: Some(format!("{}_top", key)),
        side_texture: Some(format!("{}_side", key)),
        has_model: false,
        model_tile: None,
        inventory_tab: Some("Nature".to_string()),
        placement_mode: PlacementMode::LookAxis,
        default_rotation: 3,
    }
}

fn blocks() -> GameBlocks {
    let mut infos: Table<u8, BlockInfo> = Table::new();
    infos.insert(1, info("stone", true, false));
    infos.insert(2, info("water", false, false));
    infos.insert(3, info("glass", false, true));
    let mut lamp = info("lamp", true, false);
    lamp.display_name = "Bright Lamp".to_string();
    lamp.top_texture = None;
    lamp.side_texture = None;
    lamp.has_model = true;
    lamp.model_tile = Some(vec![7; 1024]);
    infos.insert(4, lamp);
    let mut ghost = info("ghost", true, false);
    ghost.key = None;
    infos.insert(5, ghost);
    infos.insert(9, info("dirt", true, false));
    infos.insert(200, info("gold", true, false));
    let mut ids: Table<String, u8> = Table::new();
    for i in 0..infos.len() {
        let (id, b) = (*infos.key_at(i), infos.value_at(i));
        if let Some(key) = &b.key {
            ids.insert(key.clone(), id);
        }
    }
    GameBlocks { ids, infos, default_placement: PlacementMode::Fixed }
}

fn tiles() -> Table<String, Vec<u8>> {
    let mut t: Table<String, Vec<u8>> = Table::new();
    t.insert("stone_top".to_string(), vec![1; 1024]);
    t.insert("glass_side".to_string(), vec![2; 1024]);
    t
}

fn config(hotbar: usize) -> InventoryConfig {
    InventoryConfig {
        main_slots_count: 9,
        hotbar_slots_count: hotbar,
        creative_mode: true,
        default_max_stack: 64,
        max_stack_sizes: Table::new(),
    }
}

fn game(hotbar: usize) -> GameScreen {
    GameScreen::new(config(hotbar), &blocks(), &tiles())
}

fn press(g: &mut GameScreen, key: Key) -> (GameRequest, bool) {
    let r = g.on_event(InputEvent::KeyPressed(key), &blocks());
    g.on_event(InputEvent::KeyReleased(key), &blocks());
    (r.request, r.reset_mouse)
}

fn hotbar(g: &GameScreen) -> Vec<String> {
    let n = g.inventory_ui.hotbar_count();
    (0..n)
        .map(|i| g.inventory_ui.hotbar_item(i).map_or(String::new(), |s| s.block_id.clone()))
        .collect()
}

#[test]
fn the_hotbar_is_filled_with_solid_blocks() {
    let g = game(5);
    assert_eq!(hotbar(&g), ["block/stone", "block/lamp", "block/dirt", "block/gold", ""]);
    let stone = g.inventory_ui.hotbar_item(0).unwrap();
    assert_eq!((stone.amount, stone.max_stack), (64, 64));
    assert_eq!(stone.display_name, "stone");
    assert_eq!(stone.block_color, [1, 2, 3]);
    assert_eq!(stone.top_texture.as_deref(), Some("stone_top"));
    assert_eq!(stone.inventory_tab.as_deref(), Some("Nature"));
    let lamp = g.inventory_ui.hotbar_item(1).unwrap();
    assert_eq!(lamp.display_name, "Bright Lamp");
    assert_eq!(lamp.top_texture.as_deref(), Some("modelblock/lamp"));
    assert_eq!(lamp.side_texture.as_deref(), Some("modelblock/lamp"));
    assert_eq!(hotbar(&game(2)), ["block/stone", "block/lamp"]);
}

#[test]
fn the_palette_holds_what_can_be_seen_through_too() {
    let mut g = game(2);
    let ids: Vec<String> =
        (0..5).map(|i| g.inventory_ui.palette_item(i).unwrap().block_id.clone()).collect();
    assert_eq!(ids, ["block/stone", "block/glass", "block/lamp", "block/dirt", "block/gold"]);
    assert!(g.inventory_ui.palette_item(5).is_none());
    let tile = g.inventory_ui.ensure_tile_texture(&"stone_top".to_string()).unwrap();
    assert_eq!((tile.width, tile.height, tile.rgba[0]), (16, 16, 1));
    assert!(g.inventory_ui.ensure_tile_texture(&"glass_side".to_string()).is_some());
    let model = g.inventory_ui.ensure_tile_texture(&"modelblock/lamp".to_string()).unwrap();
    assert_eq!(model.rgba[0], 7);
    assert!(g.inventory_ui.ensure_tile_texture(&"dirt_top".to_string()).is_none());
}

#[test]
fn model_textures_are_looked_for_in_three_folders() {
    let paths = stocking::model_texture_paths(&vec!["a.png".to_string(), "b.png".to_string()]);
    assert_eq!(
        paths,
        [
            "assets/textures/modelblocks/a.png",
            "assets/models/textures/a.png",
            "assets/textures/a.png",
            "assets/textures/modelblocks/b.png",
            "assets/models/textures/b.png",
            "assets/textures/b.png"
        ]
    );
}

#[test]
fn keys_switch_things() {
    let mut g = game(3);
    assert_eq!(g.name(), "Game");
    assert!(!g.camera_locked && !g.paused);
    assert_eq!(press(&mut g, Key::J), (GameRequest::Nothing, true));
    assert!(g.camera_locked && g.wants_pointer_lock());
    assert_eq!(g.lock_text(), "J - unlock cursor");
    press(&mut g, Key::L);
    press(&mut g, Key::F3);
    press(&mut g, Key::F4);
    press(&mut g, Key::F6);
    assert!(g.player_spotlight_on && g.debug_visible && g.profiler.visible);
    assert!(g.debug_render.visible);
    press(&mut g, Key::F5);
    assert_eq!(g.view_mode, ViewMode::ThirdPerson);
    press(&mut g, Key::F5);
    assert_eq!(g.view_mode, ViewMode::FirstPerson);
    assert!(g.inventory_ui.is_creative());
    press(&mut g, Key::C);
    assert!(!g.inventory_ui.is_creative());
    assert_eq!(press(&mut g, Key::N), (GameRequest::ToggleFly, false));
    assert_eq!(press(&mut g, Key::G), (GameRequest::SpawnTestLight, false));
    assert_eq!(press(&mut g, Key::Other(77)), (GameRequest::Nothing, false));
}

#[test]
fn menus_set_the_camera_free() {
    let mut g = game(3);
    press(&mut g, Key::J);
    assert_eq!(press(&mut g, Key::Escape), (GameRequest::Nothing, true));
    assert!(g.paused && !g.camera_locked);
    assert_eq!(press(&mut g, Key::Escape), (GameRequest::Nothing, false));
    assert!(!g.paused && !g.camera_locked);
    press(&mut g, Key::J);
    assert_eq!(press(&mut g, Key::E), (GameRequest::Nothing, true));
    assert!(g.inventory_ui.is_open() && !g.camera_locked && !g.wants_pointer_lock());
    assert_eq!(press(&mut g, Key::E), (GameRequest::Nothing, false));
    assert!(!g.inventory_ui.is_open());
}

#[test]
fn modifiers_change_what_a_key_does() {
    let mut g = game(3);
    assert_eq!(press(&mut g, Key::S).0, GameRequest::Nothing);
    assert_eq!(press(&mut g, Key::T).0, GameRequest::ToggleTime);
    g.on_event(InputEvent::KeyPressed(Key::ControlRight), &blocks());
    assert_eq!(press(&mut g, Key::S).0, GameRequest::SaveWorld);
    assert_eq!(press(&mut g, Key::T).0, GameRequest::TimeSlower);
    g.on_event(InputEvent::KeyPressed(Key::ShiftLeft), &blocks());
    assert_eq!(press(&mut g, Key::T).0, GameRequest::TimeFaster);
    g.on_event(InputEvent::KeyReleased(Key::ControlRight), &blocks());
    assert_eq!(press(&mut g, Key::S).0, GameRequest::Nothing);
}

#[test]
fn the_number_row_selects_slots() {
    let mut g = game(3);
    press(&mut g, Key::Digit(2));
    assert_eq!(g.inventory_ui.inventory.active_hotbar_index, 2);
    press(&mut g, Key::Digit(8));
    assert_eq!(g.inventory_ui.inventory.active_hotbar_index, 2);
    press(&mut g, Key::Q);
    assert!(g.inventory_ui.hotbar_item(2).is_none());
    let r = g.on_event(InputEvent::Wheel(1), &blocks());
    assert_eq!(r.request, GameRequest::Nothing);
    assert_eq!(g.inventory_ui.inventory.active_hotbar_index, 0);
    press(&mut g, Key::E);
    let r = g.on_event(InputEvent::Wheel(1), &blocks());
    assert_eq!(r.request, GameRequest::ScrollSlot);
    assert_eq!(g.inventory_ui.inventory.active_hotbar_index, 0);
}

#[test]
fn blocks_are_broken_and_placed_while_the_camera_is_locked() {
    let mut g = game(3);
    assert_eq!(g.on_event(InputEvent::LeftPressed, &blocks()).request, GameRequest::Nothing);
    assert!(g.mouse_down);
    g.on_event(InputEvent::LeftReleased, &blocks());
    assert!(!g.mouse_down);
    assert_eq!(g.on_event(InputEvent::RightPressed, &blocks()).request, GameRequest::Nothing);
    press(&mut g, Key::J);
    assert_eq!(g.on_event(InputEvent::LeftPressed, &blocks()).request, GameRequest::BreakBlock);
    press(&mut g, Key::Digit(2));
    assert_eq!(
        g.on_event(InputEvent::RightPressed, &blocks()).request,
        GameRequest::PlaceBlock(9, PlacementMode::LookAxis, 3)
    );
    press(&mut g, Key::Q);
    assert_eq!(
        g.on_event(InputEvent::RightPressed, &blocks()).request,
        GameRequest::PlaceBlock(1, PlacementMode::LookAxis, 3)
    );
    let empty = GameBlocks {
        ids: Table::new(),
        infos: Table::new(),
        default_placement: PlacementMode::Fixed,
    };
    assert_eq!(
        g.on_event(InputEvent::RightPressed, &empty).request,
        GameRequest::PlaceBlock(1, PlacementMode::Fixed, 0)
    );
}

#[test]
fn picking_selects_or_replaces() {
    let mut g = game(2);
    press(&mut g, Key::J);
    g.on_event(InputEvent::MiddlePressed, &blocks());
    assert_eq!(hotbar(&g), ["block/stone", "block/lamp"]);
    g.target_block = Some(TargetBlock { block: 4, pos: (0, 0, 0) });
    g.on_event(InputEvent::MiddlePressed, &blocks());
    assert_eq!(g.inventory_ui.inventory.active_hotbar_index, 1);
    g.target_block = Some(TargetBlock { block: 200, pos: (0, 0, 0) });
    g.on_event(InputEvent::MiddlePressed, &blocks());
    assert_eq!(hotbar(&g), ["block/stone", "block/gold"]);
    let gold = g.inventory_ui.hotbar_item(1).unwrap();
    assert_eq!((gold.amount, gold.inventory_tab.is_none()), (64, true));
    for block in [0, 5, 77] {
        g.target_block = Some(TargetBlock { block, pos: (0, 0, 0) });
        g.on_event(InputEvent::MiddlePressed, &blocks());
        assert_eq!(hotbar(&g), ["block/stone", "block/gold"]);
    }
}

#[test]
fn held_keys_move_the_player() {
    let mut g = game(1);
    for k in [Key::W, Key::D, Key::Space, Key::ShiftRight] {
        g.on_event(InputEvent::KeyPressed(k), &blocks());
    }
    let m = g.process_input(false);
    assert!(m.forward && m.right && m.jump && !m.back && !m.left && !m.fly_down && !m.orbit);
    assert_eq!(m.stance, Some(PlayerStance::Crouching));
    let f = g.process_input(true);
    assert!(f.fly_down);
    assert_eq!(f.stance, None);
    g.on_event(InputEvent::KeyPressed(Key::ControlLeft), &blocks());
    assert_eq!(g.process_input(false).stance, Some(PlayerStance::Prone));
    for k in [Key::ControlLeft, Key::ShiftRight] {
        g.on_event(InputEvent::KeyReleased(k), &blocks());
    }
    assert_eq!(g.process_input(false).stance, Some(PlayerStance::Standing));
    g.on_event(InputEvent::KeyPressed(Key::AltLeft), &blocks());
    assert!(!g.orbit_mode());
    press(&mut g, Key::F5);
    assert!(g.orbit_mode() && g.process_input(false).orbit);
}

#[test]
fn the_pause_menu_has_buttons() {
    let mut g = game(1);
    g.paused = true;
    assert!(g.on_pause_event(PauseEvent::SaveWorld));
    assert!(g.paused);
    assert!(!g.on_pause_event(PauseEvent::Resume));
    assert!(!g.paused);
    g.paused = true;
    g.on_pause_event(PauseEvent::Close);
    assert!(!g.paused);
    g.on_pause_event(PauseEvent::ShowDebug(true));
    g.on_pause_event(PauseEvent::ShowProfiler(true));
    assert!(g.debug_visible && g.profiler.visible);
    g.on_pause_event(PauseEvent::BackToMenu);
    assert!(matches!(g.poll_action(), ScreenAction::Switch(ScreenKind::MainMenu)));
    assert!(matches!(g.poll_action(), ScreenAction::Stay));
}

fn world() -> WorldMetadata {
    WorldMetadata {
        name: "home".to_string(),
        seed: 99,
        last_played: "never".to_string(),
        data: "old".to_string(),
    }
}

#[test]
fn worlds_are_saved() {
    let mut g = game(1);
    assert_eq!(g.world_seed(), 12345);
    assert!(!g.autosave_due(10_000));
    assert!(g.do_save_world("new".to_string()).is_none());
    let mut g = GameScreen::new_with_world(Some(world()), config(1), &blocks(), &tiles());
    assert_eq!(g.world_seed(), 99);
    assert!(!g.autosave_due(299) && g.autosave_due(300));
    let w = g.save_world_at("today".to_string(), "new".to_string()).unwrap();
    assert_eq!((w.name.as_str(), w.seed), ("home", 99));
    assert_eq!((w.last_played.as_str(), w.data.as_str()), ("today", "new"));
    assert_eq!(g.world_metadata.as_ref().unwrap().last_played, "today");
}

#[test]
fn saving_takes_the_time_from_the_clock() {
    let mut g = GameScreen::new_with_world(Some(world()), config(1), &blocks(), &tiles());
    let before = chrono::Local::now();
    let w = g.do_save_world("new".to_string()).unwrap();
    let saved = chrono::DateTime::parse_from_rfc3339(&w.last_played).unwrap();
    assert!(saved >= before);
    assert!(saved <= chrono::Local::now());
}

#[test]
fn players_who_never_left_are_not_put_back() {
    let p = |x: f32, y: f32, z: f32| [x.to_bits(), y.to_bits(), z.to_bits()];
    assert!(!game_screen::restores_player(p(8.0, 250.0, 30.0)));
    assert!(game_screen::restores_player(p(8.5, 250.0, 30.0)));
    assert!(game_screen::restores_player(p(0.0, 0.0, 0.0)));
}

#[test]
fn the_clock_is_shown() {
    assert_eq!(
        game_screen::time_text(6, 5, "1x"),
        "06:05  Speed: 1x  (T/Shift+T/Ctrl+T)"
    );
    assert_eq!(
        game_screen::time_text(23, 59, "Paused"),
        "23:59  Speed: Paused  (T/Shift+T/Ctrl+T)"
    );
}

#[test]
fn the_debug_panel_switches_lines() {
    let mut d = DebugRenderState::new();
    d.shadow_vectors = true;
    d.wireframe = true;
    assert!(!d.needs_lines() && !d.draws_wireframe());
    d.note_frame(true, 1, 2);
    assert!(!d.wireframe_supported);
    d.visible = true;
    d.note_frame(true, 1, 2);
    assert!(d.needs_lines() && d.draws_wireframe());
    assert_eq!(d.lights_text(), "    Точечных: 2  Направленных: 1");
    d.shadow_vectors = false;
    assert!(!d.needs_lines());
}
