use qubepixel::main_menu;
use qubepixel::main_menu::MainMenuScreen;
use qubepixel::main_menu::MenuButton;
use qubepixel::main_menu::MenuView;
use qubepixel::main_menu::WorldAction;
use qubepixel::screen::ScreenAction;
use qubepixel::screen::ScreenKind;
use qubepixel::screen::WorldMetadata;
use qubepixel::settings;
use qubepixel::settings::SettingsEvent;
use qubepixel::settings::SettingsScreen;
use qubepixel::settings::SettingsValues;

fn values() -> SettingsValues {
    SettingsValues {
        render_distance: 8,
        mouse_sensitivity: 0.002f32.to_bits(),
        vertical_below: 2,
        vertical_above: 3,
        biome_ambient_tint: true,
        gi_mode: 1,
        shadow_sun: true,
        shadow_block: false,
        halo: true,
        volumetric_rays: false,
        shadow_quality: 16,
    }
}

#[test]
fn settings_are_changed_and_saved() {
    let mut s = SettingsScreen::new();
    let mut v = values();
    assert_eq!(s.name(), "Settings");
    assert!(s.handle(&mut v, SettingsEvent::RenderDistance(12)));
    assert!(s.handle(&mut v, SettingsEvent::MouseSensitivity(7)));
    assert!(s.handle(&mut v, SettingsEvent::VerticalBelow(5)));
    assert!(s.handle(&mut v, SettingsEvent::VerticalAbove(6)));
    assert!(s.handle(&mut v, SettingsEvent::BiomeAmbientTint(false)));
    assert!(s.handle(&mut v, SettingsEvent::ShadowSun(false)));
    assert!(s.handle(&mut v, SettingsEvent::ShadowBlock(true)));
    assert!(s.handle(&mut v, SettingsEvent::Halo(false)));
    assert!(s.handle(&mut v, SettingsEvent::VolumetricRays(true)));
    assert!(s.handle(&mut v, SettingsEvent::GiMode(4)));
    assert!(s.handle(&mut v, SettingsEvent::ShadowQuality(64)));
    let expected = SettingsValues {
        render_distance: 12,
        mouse_sensitivity: 7,
        vertical_below: 5,
        vertical_above: 6,
        biome_ambient_tint: false,
        gi_mode: 4,
        shadow_sun: false,
        shadow_block: true,
        halo: false,
        volumetric_rays: true,
        shadow_quality: 64,
    };
    assert!(v == expected);
}

#[test]
fn choosing_the_same_again_saves_nothing() {
    let mut s = SettingsScreen::new();
    let mut v = values();
    assert!(!s.handle(&mut v, SettingsEvent::GiMode(1)));
    assert!(!s.handle(&mut v, SettingsEvent::ShadowQuality(16)));
    assert!(s.handle(&mut v, SettingsEvent::Halo(true)));
    assert!(v == values());
}

#[test]
fn settings_lead_back() {
    let mut s = SettingsScreen::new();
    let mut v = values();
    assert!(!s.handle(&mut v, SettingsEvent::Back));
    assert!(matches!(s.poll_action(), ScreenAction::Pop));
    assert!(matches!(s.poll_action(), ScreenAction::Stay));
}

#[test]
fn lighting_modes_are_described() {
    assert_eq!(
        settings::gi_modes(),
        [(0, "Off"), (1, "Mono 16"), (2, "Mono 32"), (3, "RGB 32"), (4, "Full")]
    );
    assert_eq!(
        settings::gi_description(0),
        "GI off — highest FPS. Block lights still cast DDA shadows."
    );
    assert!(settings::gi_description(1).starts_with("Mono 16 — "));
    assert!(settings::gi_description(2).starts_with("Mono 32 — "));
    assert!(settings::gi_description(3).starts_with("RGB 32 — "));
    assert!(settings::gi_description(9).starts_with("Full — "));
    assert_eq!(
        settings::shadow_levels(),
        [(8, "Low"), (16, "Medium"), (32, "High"), (64, "Ultra")]
    );
}

fn world(name: &str) -> WorldMetadata {
    WorldMetadata {
        name: name.to_string(),
        seed: 42,
        last_played: "2024-05-06T07:08:09+00:00".to_string(),
        data: "{}".to_string(),
    }
}

#[test]
fn the_first_page_leads_to_other_screens() {
    let mut m = MainMenuScreen::new();
    assert_eq!(m.name(), "MainMenu");
    m.press(MenuButton::QuickPlay);
    assert!(matches!(m.poll_action(), ScreenAction::Switch(ScreenKind::Game(None))));
    m.press(MenuButton::Settings);
    assert!(matches!(m.poll_action(), ScreenAction::Push(ScreenKind::Settings)));
    m.press(MenuButton::WorldGenEditor);
    assert!(matches!(m.poll_action(), ScreenAction::Push(ScreenKind::WorldGenVisualizer)));
    m.press(MenuButton::BlockEditor);
    assert!(matches!(m.poll_action(), ScreenAction::Push(ScreenKind::BlockEditor)));
    m.press(MenuButton::EntityEditor);
    assert!(matches!(m.poll_action(), ScreenAction::Push(ScreenKind::EntityEditor)));
    assert!(matches!(m.poll_action(), ScreenAction::Stay));
}

#[test]
fn worlds_are_listed_and_launched() {
    let mut m = MainMenuScreen::new();
    m.status_msg = "old news".to_string();
    m.enter_world_list(vec![world("a"), world("b")]);
    assert!(matches!(m.view, MenuView::WorldList));
    assert_eq!(m.status_msg, "");
    assert_eq!(m.worlds.len(), 2);
    m.world_list_action(WorldAction::Launch(world("b")), 0);
    match m.poll_action() {
        ScreenAction::Switch(ScreenKind::Game(Some(w))) => assert_eq!(w.name, "b"),
        _ => panic!("no game"),
    }
    m.world_list_action(WorldAction::Back, 0);
    assert!(matches!(m.view, MenuView::Main));
}

#[test]
fn a_new_world_needs_a_name() {
    let mut m = MainMenuScreen::new();
    m.world_list_action(WorldAction::OpenNew, 987654321);
    assert!(matches!(m.view, MenuView::NewWorld));
    assert_eq!(m.new_world_seed, "987654321");
    assert_eq!(m.new_world_name, "");
    assert!(m.new_world().is_none());
    assert_eq!(m.status_msg, "World name cannot be empty.");
    m.new_world_name = "  Home ".to_string();
    let w = m.new_world().unwrap();
    assert_eq!((w.name.as_str(), w.seed), ("Home", Some(987654321)));
    m.new_world_seed = " 7 ".to_string();
    assert_eq!(m.new_world().unwrap().seed, Some(7));
    m.new_world_seed = "seed".to_string();
    assert_eq!(m.new_world().unwrap().seed, None);
}

#[test]
fn creating_a_world_launches_it_or_says_why_not() {
    let mut m = MainMenuScreen::new();
    m.enter_new_world(1);
    m.world_created(Err("exists".to_string()));
    assert_eq!(m.status_msg, "Error: exists");
    assert!(matches!(m.poll_action(), ScreenAction::Stay));
    m.world_created(Ok(world("x")));
    assert!(matches!(m.poll_action(), ScreenAction::Switch(ScreenKind::Game(Some(_)))));
}

#[test]
fn deleting_a_world_is_asked_about() {
    let mut m = MainMenuScreen::new();
    m.enter_world_list(vec![world("a"), world("b")]);
    m.world_list_action(WorldAction::ConfirmDelete("a".to_string()), 0);
    assert_eq!(m.deletion_target().as_deref(), Some("a"));
    assert_eq!(main_menu::deletion_notice("a"), "\"a\" will be permanently deleted.");
    m.world_deleted(Err("locked".to_string()));
    assert_eq!(m.status_msg, "Delete failed: locked");
    m.world_deleted(Ok(vec![world("b")]));
    assert!(matches!(m.view, MenuView::WorldList));
    assert_eq!(m.worlds.len(), 1);
    m.view = MenuView::Main;
    assert_eq!(m.deletion_target(), None);
    assert!(matches!(m.view, MenuView::WorldList));
}

#[test]
fn worlds_have_captions() {
    assert_eq!(main_menu::world_caption(&world("a")), "Seed: 42  |  Last played: 2024-05-06");
}

#[test]
fn dates_are_the_first_ten_bytes() {
    for s in ["", "short", "0123456789", "0123456789x", "ééééé!", "aéééééé", "日本語a!", "日本語日本"] {
        assert_eq!(main_menu::date_part(s), s.get(..10).unwrap_or(s), "{}", s);
    }
}
