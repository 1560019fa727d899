use qubepixel::block_definition::BlockDefaults;
use qubepixel::block_definition::BlockEdit;
use qubepixel::block_definition::BlockLightSource;
use qubepixel::block_definition::EmissionProperties;
use qubepixel::block_definition::FaceSlot;
use qubepixel::block_definition::FluidProperties;
use qubepixel::block_definition::LayerSlot;
use qubepixel::block_definition::LightKind;
use qubepixel::block_definition::MaterialProperties;
use qubepixel::block_editor;
use qubepixel::block_editor::BlockEditor;
use qubepixel::block_editor::EditorTab;
use qubepixel::block_editor::SaveStage;
use qubepixel::entity_editor;
use qubepixel::entity_editor::EntityDefinition;
use qubepixel::entity_editor::EntityEdit;
use qubepixel::entity_editor::EntityEditor;
use qubepixel::entity_editor::EntityLightSource;
use qubepixel::entity_editor_screen::shows_preview;
use qubepixel::entity_editor_screen::EntityEditorScreen;
use qubepixel::screen::ScreenAction;

fn bits(v: f32) -> u32 {
    v.to_bits()
}

fn defaults() -> BlockDefaults {
    BlockDefaults {
        material: MaterialProperties {
            albedo: [bits(1.0), bits(1.0), bits(1.0)],
            roughness: bits(0.8),
            metalness: 0,
            ao: bits(1.0),
        },
        emission: EmissionProperties {
            emit_light: false,
            light_color: [bits(1.0), bits(1.0), bits(1.0)],
            light_strength: 0,
            light_intensity: bits(1.0),
            light_range: bits(16.0),
            no_self_gi: false,
        },
        fluid: FluidProperties {
            level_decrease: 1,
            tick_delay: 5,
            slope_find_distance: 4,
            fog_color: [0, 0, bits(1.0)],
            fog_density: bits(0.1),
        },
        light: BlockLightSource {
            label: String::new(),
            kind: LightKind::Point,
            position: [0, 0, 0],
            color: [bits(1.0), bits(1.0), bits(1.0)],
            intensity: bits(5.0),
            range: bits(16.0),
            direction: [0, bits(-1.0), 0],
            focus: bits(30.0),
        },
        rest: "{}".to_string(),
    }
}

fn loaded_editor() -> BlockEditor {
    let mut e = BlockEditor::new(defaults());
    let keys = e.reload_registry(Some(r#"{"blocks": ["stone", "oak_log", "ghost"]}"#));
    assert_eq!(keys, ["stone", "oak_log", "ghost"]);
    for key in ["stone", "oak_log"] {
        let def = block_editor::default_block_def(key, &defaults());
        e.load_block_def(key.to_string(), def);
    }
    e
}

#[test]
fn block_tabs_have_labels() {
    let labels: Vec<&str> = EditorTab::all().into_iter().map(|t| t.label()).collect();
    assert_eq!(labels.len(), 6);
    assert!(labels.iter().all(|l| !l.is_empty()));
}

#[test]
fn a_fresh_block_is_named_after_its_key() {
    let d = block_editor::default_block_def("dark_oak_log", &defaults());
    assert_eq!(d.id, "dark_oak_log");
    assert_eq!(d.display_name, "dark oak log");
    assert_eq!(d.color, [bits(0.5), bits(0.5), bits(0.5)]);
    assert!(d.solid && d.fluid.is_none() && d.light_sources.is_empty());
}

#[test]
fn the_list_can_be_searched() {
    let mut e = loaded_editor();
    assert_eq!(e.registered(), 3);
    assert_eq!(e.visible_rows().len(), 3);
    e.set_search("OAK L".to_string());
    let rows = e.visible_rows();
    assert_eq!(rows.len(), 1);
    assert_eq!((rows[0].index, rows[0].key.as_str()), (1, "oak_log"));
    assert_eq!(rows[0].display, "oak log");
    e.set_search("ghost".to_string());
    let rows = e.visible_rows();
    assert_eq!(rows[0].display, "ghost");
    assert!(rows[0].color.is_none());
}

#[test]
fn selecting_loads_a_block() {
    let mut e = loaded_editor();
    assert!(!e.is_editing());
    e.select_block(&"ghost".to_string());
    assert!(!e.is_editing());
    e.select_block(&"oak_log".to_string());
    assert!(e.is_editing() && e.can_duplicate() && !e.is_dirty());
    assert_eq!(e.edited_key(), "oak_log");
    assert_eq!(e.caption(), "oak_log  |  #2");
    assert_eq!(e.tags(false), ["Solid"]);
    assert!(e.visible_rows()[1].selected);
}

#[test]
fn edits_change_the_definition() {
    let mut e = loaded_editor();
    e.select_block(&"stone".to_string());
    e.edit(BlockEdit::DisplayName("Rock".to_string()));
    e.edit(BlockEdit::Solid(false));
    e.edit(BlockEdit::BiomeTint(true));
    e.edit(BlockEdit::InventoryTab("Nature".to_string()));
    e.edit(BlockEdit::FaceEnabled(FaceSlot::Top, true));
    e.edit(BlockEdit::FaceTexture(FaceSlot::Top, "grass".to_string()));
    e.edit(BlockEdit::FaceLayer(FaceSlot::Top, LayerSlot::Layer2, "moss".to_string()));
    e.edit(BlockEdit::FluidEnabled(true));
    assert!(e.is_dirty());
    let d = e.edited_def();
    assert_eq!(d.display_name, "Rock");
    assert!(!d.solid);
    assert_eq!(d.inventory_tab.as_deref(), Some("Nature"));
    let top = d.faces.top.as_ref().unwrap();
    assert_eq!(top.texture.as_deref(), Some("grass"));
    assert_eq!(top.layer2.as_deref(), Some("moss"));
    assert_eq!(d.fluid.as_ref().unwrap().tick_delay, 5);
    assert_eq!(e.tags(true), ["Fluid", "Biome Tint"]);
    e.edit(BlockEdit::InventoryTab(String::new()));
    assert_eq!(e.edited_def().inventory_tab, None);
    e.edit(BlockEdit::FaceEnabled(FaceSlot::Top, false));
    assert!(e.edited_def().faces.top.is_none());
    e.edit(BlockEdit::FluidEnabled(false));
    assert!(e.edited_def().fluid.is_none());
}

#[test]
fn adding_and_removing_a_light_changes_nothing() {
    let mut e = loaded_editor();
    e.select_block(&"stone".to_string());
    e.edit(BlockEdit::AddLight(LightKind::Directional));
    assert_eq!(e.edited_def().light_sources.len(), 1);
    assert_eq!(e.edited_def().light_sources[0].kind, LightKind::Directional);
    assert_eq!(e.edited_def().light_sources[0].intensity, bits(5.0));
    e.edit(BlockEdit::RemoveLight(0));
    assert!(e.edited_def().light_sources.is_empty());
}

#[test]
fn a_block_is_created_by_the_dialog() {
    let mut e = loaded_editor();
    e.open_dialog();
    assert!(e.dialog().open);
    e.fill_dialog("   ".to_string(), String::new());
    e.create_block();
    assert_eq!(e.dialog().err, "ID cannot be empty.");
    e.fill_dialog(" stone ".to_string(), String::new());
    e.create_block();
    assert_eq!(e.dialog().err, "Block 'stone' already exists.");
    e.fill_dialog(" mud ".to_string(), " Wet Mud ".to_string());
    e.create_block();
    assert!(!e.dialog().open);
    assert_eq!(e.edited_key(), "mud");
    assert_eq!(e.edited_def().display_name, "Wet Mud");
    assert_eq!(e.status(), ("New block 'mud' ready — fill in properties and Save.", true));
    assert_eq!(e.caption(), "mud  |  #NEW");
    e.edit(BlockEdit::Id("mud2".to_string()));
    assert_eq!(e.edited_key(), "mud2");
}

#[test]
fn saving_puts_a_new_block_into_the_registry() {
    let mut e = loaded_editor();
    e.open_dialog();
    e.fill_dialog("mud".to_string(), String::new());
    e.create_block();
    assert!(e.begin_save());
    assert!(e.block_written());
    assert_eq!(e.registry_keys(), ["stone", "oak_log", "ghost", "mud"]);
    let text = e.save_registry(Some(r#"{"format_version": 3}"#));
    assert_eq!(qubepixel::json::registry_keys(&text), e.registry_keys());
    e.finish_save("\"blocks/mud.json\"");
    assert_eq!(e.status(), ("Saved 'mud'  →  \"blocks/mud.json\"", true));
    assert!(!e.is_dirty());
    assert!(!e.block_written());
    e.select_block(&"mud".to_string());
    assert_eq!(e.edited_def().display_name, "mud");
}

#[test]
fn saving_needs_a_key_and_reports_failures() {
    let mut e = BlockEditor::new(defaults());
    assert!(!e.begin_save());
    assert_eq!(e.status(), ("No block key set — enter an ID in the Basic tab first.", false));
    for (stage, prefix) in [
        (SaveStage::Serialize, "Serialization error: "),
        (SaveStage::Stringify, "JSON stringify error: "),
        (SaveStage::CreateDir, "Failed to create dir: "),
        (SaveStage::Write, "Write error: "),
        (SaveStage::Registry, "Saved block JSON but registry update failed: "),
    ] {
        e.fail_save(stage, "why");
        assert_eq!(e.status(), (format!("{}why", prefix).as_str(), false));
    }
}

#[test]
fn a_duplicate_is_a_new_block() {
    let mut e = loaded_editor();
    e.select_block(&"stone".to_string());
    e.duplicate_current();
    assert_eq!(e.edited_key(), "stone_copy");
    assert_eq!(e.edited_def().display_name, "stone Copy");
    assert!(e.is_dirty() && !e.can_duplicate());
    assert_eq!(e.status().0, "Duplicated as 'stone_copy' — edit and Save.");
}

#[test]
fn lighting_modes_limit_the_editor() {
    let caps: Vec<(u32, u32)> = (0..5)
        .map(|m| (block_editor::emission_range_cap(m), block_editor::light_range_cap(m)))
        .collect();
    assert_eq!(caps, [(128, 64), (16, 16), (32, 32), (32, 32), (128, 64)]);
    assert!(block_editor::mono_notice(0, 16).is_none());
    assert_eq!(
        block_editor::mono_notice(1, 16).unwrap(),
        "⚠ Mono 16 mode active — color editing disabled, range capped to 16 blocks."
    );
    assert!(block_editor::mono_mode(2) && !block_editor::mono_mode(3));
}

#[test]
fn surfaces_have_names() {
    let cases = [(0.0f32, "Mirror-like"), (0.29, "Mirror-like"), (0.3, "Semi-gloss"), (0.6, "Matte")];
    for (v, name) in cases {
        assert_eq!(block_editor::roughness_label(bits(v)), name);
    }
    assert_eq!(block_editor::roughness_label(bits(-1.0)), "Mirror-like");
    assert_eq!(block_editor::roughness_label(bits(f32::NAN)), "Matte");
    assert_eq!(block_editor::metalness_label(bits(0.1)), "Dielectric (stone/wood)");
    assert_eq!(block_editor::metalness_label(bits(0.2)), "Mixed");
    assert_eq!(block_editor::metalness_label(bits(0.9)), "Metallic");
}

#[test]
fn lights_have_headings() {
    assert_eq!(block_editor::light_header(0, "", LightKind::Point), "Light #1 (Point)");
    assert_eq!(
        block_editor::light_header(1, "lamp", LightKind::Directional),
        "#2 'lamp' (Directional)"
    );
}

fn entity_light() -> EntityLightSource {
    EntityLightSource {
        label: String::new(),
        bone: String::new(),
        kind: LightKind::Point,
        position: [0, 0, 0],
        color: [bits(1.0), bits(1.0), bits(1.0)],
        intensity: bits(5.0),
        billboard_radius: 0,
        range: bits(20.0),
        direction: [0, 0, bits(1.0)],
        focus: bits(30.0),
    }
}

fn entity(id: &str) -> EntityDefinition {
    EntityDefinition {
        id: id.to_string(),
        display_name: format!("The {}", id),
        description: String::new(),
        model_path: format!("models/{}.json", id),
        skin_path: None,
        default_scale: bits(1.0),
        light_sources: Vec::new(),
        rest: String::new(),
    }
}

fn entity_editor_with_sheep() -> EntityEditor {
    let mut e = EntityEditor::new(entity("draft"), entity_light());
    e.reload_registry(vec!["sheep".to_string()]);
    e.load_entity_def("sheep".to_string(), entity("sheep"));
    e
}

#[test]
fn entities_are_selected_and_edited() {
    let mut e = entity_editor_with_sheep();
    e.select_entity(&"sheep".to_string());
    assert!(e.is_editing() && !e.is_draft());
    assert_eq!(e.caption(), "sheep  |  #1");
    assert_eq!(e.light_tag(), None);
    e.edit(EntityEdit::Id("cow".to_string()));
    assert_eq!(e.edited_def().id, "sheep");
    assert!(!e.is_dirty());
    e.edit(EntityEdit::AddLight(LightKind::Point));
    e.edit(EntityEdit::SkinPath("skin.png".to_string()));
    assert!(e.is_dirty());
    assert!(e.light_tag().is_some());
    assert_eq!(e.edited_def().skin_path.as_deref(), Some("skin.png"));
    e.edit(EntityEdit::SkinPath(String::new()));
    assert_eq!(e.edited_def().skin_path, None);
}

#[test]
fn bones_are_asked_for_once() {
    let mut e = entity_editor_with_sheep();
    e.select_entity(&"sheep".to_string());
    assert_eq!(e.refresh_bones_cache(), Some("models/sheep.json".to_string()));
    assert_eq!(e.refresh_bones_cache(), None);
    e.bones_loaded(&vec!["leg1".to_string(), "body".to_string(), "leg0".to_string()]);
    assert_eq!(e.bones(), ["body", "leg0", "leg1"]);
    e.edit(EntityEdit::ModelPath("models/other.json".to_string()));
    assert_eq!(e.refresh_bones_cache(), Some("models/other.json".to_string()));
    assert!(e.bones().is_empty());
}

#[test]
fn an_entity_is_created_and_saved() {
    let mut e = entity_editor_with_sheep();
    e.open_dialog();
    e.fill_dialog(String::new(), String::new());
    assert_eq!(e.confirm_dialog(), None);
    assert_eq!(e.dialog().err, "ID cannot be empty.");
    e.fill_dialog("sheep".to_string(), String::new());
    assert_eq!(e.confirm_dialog(), None);
    assert_eq!(e.dialog().err, "'sheep' already exists.");
    e.fill_dialog(" cow ".to_string(), "Bessie".to_string());
    let id = e.confirm_dialog().unwrap();
    assert_eq!(id, "cow");
    e.create_entity(entity(&id));
    assert!(e.is_draft());
    assert_eq!(e.edited_def().display_name, "Bessie");
    assert!(e.entity_written());
    e.finish_save();
    assert_eq!(e.status(), ("Saved.", true));
    assert_eq!(e.registry_keys(), ["sheep", "cow"]);
    e.select_entity(&"cow".to_string());
    assert_eq!(e.edited_def().display_name, "Bessie");
}

#[test]
fn entity_saving_reports_failures() {
    let mut e = entity_editor_with_sheep();
    for stage in [
        entity_editor::SaveStage::CreateDir,
        entity_editor::SaveStage::Write,
        entity_editor::SaveStage::Registry,
    ] {
        e.fail_save(stage, "disk full");
        let (text, good) = e.status();
        assert!(!good && text.ends_with("disk full") && text.len() > "disk full".len());
    }
}

#[test]
fn entity_lights_have_headings() {
    assert_eq!(
        entity_editor::light_header(0, "", LightKind::Point, "head"),
        "Light #1 (Point) @ head"
    );
    let header = entity_editor::light_header(2, "eye", LightKind::Directional, "");
    assert!(header.starts_with("#3 'eye' (Directional) @ "));
}

#[test]
fn names_are_sorted_without_repetition() {
    let v = vec!["b".to_string(), "a".to_string(), "c".to_string(), "a".to_string()];
    assert_eq!(entity_editor::sorted_names(&v), ["a", "b", "c"]);
}

#[test]
fn the_entity_screen_leads_back() {
    let mut s = EntityEditorScreen::new(entity("draft"), entity_light());
    assert_eq!(s.name(), "EntityEditor");
    assert!(!s.editor.visible);
    s.start();
    assert!(s.editor.visible);
    assert!(s.begin_ui(false));
    s.finish_ui(false);
    assert!(matches!(s.poll_action(), ScreenAction::Stay));
    assert!(!s.begin_ui(true));
    assert!(matches!(s.poll_action(), ScreenAction::Pop));
    s.finish_ui(true);
    assert!(matches!(s.poll_action(), ScreenAction::Pop));
    assert!(matches!(s.poll_action(), ScreenAction::Stay));
}

#[test]
fn small_previews_are_not_drawn() {
    assert!(!shows_preview(None));
    assert!(!shows_preview(Some((bits(4.0), bits(100.0)))));
    assert!(!shows_preview(Some((bits(100.0), bits(3.9)))));
    assert!(shows_preview(Some((bits(4.5), bits(4.1)))));
}
