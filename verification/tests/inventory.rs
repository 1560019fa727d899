use qubepixel::palette;
use qubepixel::inventory::InventoryConfig;
use qubepixel::inventory::InventorySlot;
use qubepixel::inventory::ItemStack;
use qubepixel::inventory::PlayerInventory;
use qubepixel::inventory::RenderCommand;
use qubepixel::inventory::SlotRect;
use qubepixel::inventory::SlotTarget;
use qubepixel::inventory_ui;
use qubepixel::inventory_ui::InventoryUI;
use qubepixel::inventory_ui::PendingClick;
use qubepixel::inventory_ui::TileImage;
use qubepixel::table::Table;

fn stack(id: &str, n: u32) -> ItemStack {
    ItemStack::new(id.to_string(), id.to_uppercase(), n, 64)
}

fn count(inv: &PlayerInventory, id: &str) -> u32 {
    inv.hotbar_slots
        .iter()
        .chain(inv.main_slots.iter())
        .filter_map(|s| s.item())
        .chain(inv.dragged_item.iter())
        .filter(|i| i.block_id == id)
        .map(|i| i.amount)
        .sum()
}

#[test]
fn stacks_are_cut_to_their_limit() {
    let s = ItemStack::new("stone".to_string(), "Stone".to_string(), 100, 64);
    assert_eq!(s.amount, 64);
    assert!(s.is_full() && !s.is_empty());
    assert_eq!(s.block_color, [0.5f32.to_bits(); 3]);
    assert!(stack("a", 0).is_empty());
    assert_eq!(ItemStack::single("a".to_string(), "A".to_string(), 16).amount, 1);
}

#[test]
fn stacks_merge_up_to_the_limit() {
    let mut a = stack("stone", 50);
    assert!(a.can_merge(&stack("stone", 1)));
    assert!(!a.can_merge(&stack("dirt", 1)));
    let rest = a.merge_from(stack("stone", 20)).unwrap();
    assert_eq!((a.amount, rest.amount), (64, 6));
    let mut b = stack("stone", 1);
    assert!(b.merge_from(stack("stone", 2)).is_none());
    assert_eq!(b.amount, 3);
    let back = b.merge_from(stack("dirt", 5)).unwrap();
    assert_eq!((b.amount, back.amount, back.block_id.as_str()), (3, 5, "dirt"));
}

#[test]
fn splitting_keeps_the_amount() {
    let mut s = stack("stone", 7);
    let half = s.split_half().unwrap();
    assert_eq!(s.amount + half.amount, 7);
    assert!(half.amount == 3 || half.amount == 4);
    let mut one = stack("stone", 1);
    assert!(one.split_half().is_none());
    let mut c = stack("stone", 5);
    assert!(c.consume(3));
    assert_eq!(c.amount, 2);
    assert!(!c.consume(3));
    assert_eq!(c.amount, 2);
}

#[test]
fn slots_take_and_give() {
    let mut s = InventorySlot::empty();
    assert!(s.is_empty() && s.item().is_none());
    assert!(s.insert(stack("stone", 10)).is_none());
    assert!(s.is_occupied());
    let half = s.take_half().unwrap();
    assert_eq!(half.amount + s.item().unwrap().amount, 10);
    let all = s.take().unwrap();
    assert_eq!(all.amount, 5);
    assert!(s.is_empty());
    assert!(s.place_one(&stack("dirt", 9)));
    assert_eq!(s.item().unwrap().amount, 1);
    assert!(!s.place_one(&stack("stone", 9)));
    let mut t = InventorySlot::occupied(stack("stone", 3));
    InventorySlot::swap(&mut s, &mut t);
    assert_eq!(s.item().unwrap().block_id, "stone");
    assert_eq!(t.item().unwrap().block_id, "dirt");
}

#[test]
fn items_fill_the_hotbar_first() {
    let mut inv = PlayerInventory::new(2, 2);
    assert!(inv.add_item(stack("stone", 60)).is_none());
    assert!(inv.add_item(stack("stone", 10)).is_none());
    assert_eq!(inv.hotbar_slot(0).unwrap().item().unwrap().amount, 64);
    assert_eq!(inv.hotbar_slot(1).unwrap().item().unwrap().amount, 6);
    assert!(inv.add_item(stack("dirt", 64)).is_none());
    assert!(inv.add_item(stack("sand", 64)).is_none());
    assert_eq!(inv.main_slot(1).unwrap().item().unwrap().block_id, "sand");
    let rest = inv.add_item(stack("stone", 64)).unwrap();
    assert_eq!(rest.amount, 6);
    assert_eq!(count(&inv, "stone"), 128);
    let none = inv.add_item(stack("gold", 3)).unwrap();
    assert_eq!(none.amount, 3);
}

#[test]
fn closing_puts_the_dragged_stack_back() {
    let mut inv = PlayerInventory::new(1, 1);
    inv.toggle_open();
    assert!(inv.is_open);
    inv.dragged_item = Some(stack("stone", 5));
    inv.toggle_open();
    assert!(!inv.is_open && inv.dragged_item.is_none());
    assert_eq!(count(&inv, "stone"), 5);
}

#[test]
fn survival_consumes_blocks() {
    let mut inv = PlayerInventory::new(0, 1);
    inv.add_item(stack("stone", 2));
    assert_eq!(inv.active_block_id(), Some("stone"));
    assert_eq!(inv.active_block_name(), "STONE");
    let used = inv.use_active_block().unwrap();
    assert_eq!((used.0.as_str(), used.1.as_str(), used.2), ("stone", "STONE", true));
    assert_eq!(count(&inv, "stone"), 1);
    inv.use_active_block();
    assert_eq!(count(&inv, "stone"), 0);
    assert!(inv.use_active_block().is_none());
    assert_eq!(inv.active_block_name(), "Empty");
    inv.creative_mode = true;
    inv.add_item(stack("dirt", 1));
    assert!(!inv.use_active_block().unwrap().2);
    assert_eq!(count(&inv, "dirt"), 1);
}

#[test]
fn the_hotbar_scrolls_round() {
    let mut inv = PlayerInventory::new(0, 9);
    inv.scroll_hotbar(-1);
    assert_eq!(inv.active_hotbar_index, 8);
    inv.scroll_hotbar(2);
    assert_eq!(inv.active_hotbar_index, 1);
    inv.scroll_hotbar(18);
    assert_eq!(inv.active_hotbar_index, 1);
    inv.set_active_hotbar(5);
    assert_eq!(inv.active_hotbar_index, 5);
    inv.set_active_hotbar(9);
    assert_eq!(inv.active_hotbar_index, 5);
    assert_eq!(inv.hotbar_slot_name(3), "Empty");
    assert_eq!(inv.hotbar_count(), 9);
}

#[test]
fn targets_name_slots() {
    let mut inv = PlayerInventory::new(2, 2);
    if let Some(s) = inv.slot_mut_by_target(SlotTarget::Main(1)) {
        s.insert(stack("stone", 1));
    }
    assert!(inv.main_slot(1).unwrap().is_occupied());
    assert!(inv.slot_mut_by_target(SlotTarget::Hotbar(2)).is_none());
    assert!(inv.slot_mut_by_target(SlotTarget::Creative(0)).is_none());
    assert!(inv.slot_mut_by_target(SlotTarget::Trash).is_none());
    if let Some(s) = inv.hotbar_slot_mut(0) {
        s.insert(stack("dirt", 1));
    }
    inv.clear_hotbar_slot(0);
    assert!(inv.hotbar_slot(0).unwrap().is_empty());
    assert!(inv.main_slot_mut(5).is_none());
}

fn config() -> InventoryConfig {
    let mut max_stack_sizes: Table<String, u32> = Table::new();
    max_stack_sizes.insert("egg".to_string(), 16);
    InventoryConfig {
        main_slots_count: 4,
        hotbar_slots_count: 3,
        creative_mode: false,
        default_max_stack: 64,
        max_stack_sizes,
    }
}

#[test]
fn limits_come_from_the_configuration() {
    let c = config();
    assert_eq!(c.get_max_stack("egg"), 16);
    assert_eq!(c.get_max_stack("stone"), 64);
    let d = InventoryConfig::default();
    assert_eq!((d.main_slots_count, d.hotbar_slots_count), (27, 12));
    assert!(d.creative_mode);
    assert_eq!(d.get_max_stack("egg"), 64);
}

fn palette_ui() -> InventoryUI {
    let mut ui = InventoryUI::new(config());
    let items = vec![
        stack("stone", 64).with_tab(Some("Nature".to_string())),
        stack("lamp", 64).with_tab(Some("Decor".to_string())),
        stack("air", 64),
    ];
    ui.set_creative_items(items);
    ui
}

#[test]
fn the_tab_bar_lists_each_tab_once() {
    let items = vec![
        stack("a", 1).with_tab(Some("Z".to_string())),
        stack("b", 1).with_tab(Some("A".to_string())),
        stack("c", 1).with_tab(Some("Z".to_string())),
        stack("d", 1),
    ];
    let tabs = inventory_ui::tabs_of(&items);
    assert_eq!(tabs[0], "All");
    let mut rest: Vec<String> = tabs[1..].to_vec();
    let sorted = rest.clone();
    rest.dedup();
    assert_eq!(rest, sorted);
    assert!(rest.contains(&"A".to_string()) && rest.contains(&"Z".to_string()));
}

#[test]
fn left_clicks_pick_up_and_put_down() {
    let mut ui = palette_ui();
    ui.inventory.add_item(stack("stone", 10));
    ui.handle_left_click(SlotTarget::Hotbar(0));
    assert_eq!(ui.inventory.dragged_item.as_ref().unwrap().amount, 10);
    assert_eq!(count(&ui.inventory, "stone"), 10);
    ui.handle_left_click(SlotTarget::Main(2));
    assert!(ui.inventory.dragged_item.is_none());
    assert_eq!(ui.inventory.main_slot(2).unwrap().item().unwrap().amount, 10);
    ui.handle_left_click(SlotTarget::Main(2));
    ui.handle_left_click(SlotTarget::Trash);
    assert!(ui.inventory.dragged_item.is_none());
    assert_eq!(count(&ui.inventory, "stone"), 0);
}

#[test]
fn right_clicks_split_and_place_one() {
    let mut ui = palette_ui();
    ui.inventory.add_item(stack("stone", 10));
    ui.handle_right_click(SlotTarget::Hotbar(0));
    assert_eq!(count(&ui.inventory, "stone"), 10);
    let held = ui.inventory.dragged_item.as_ref().unwrap().amount;
    assert_eq!(held, 5);
    ui.handle_right_click(SlotTarget::Main(0));
    assert_eq!(ui.inventory.main_slot(0).unwrap().item().unwrap().amount, 1);
    assert_eq!(ui.inventory.dragged_item.as_ref().unwrap().amount, 4);
    assert_eq!(count(&ui.inventory, "stone"), 10);
}

#[test]
fn clicks_are_carried_out_in_order() {
    let mut ui = palette_ui();
    ui.inventory.add_item(stack("stone", 10));
    ui.inventory.add_item(stack("dirt", 3));
    ui.process_pending_clicks(vec![
        PendingClick::Left(SlotTarget::Hotbar(0)),
        PendingClick::Left(SlotTarget::Hotbar(1)),
        PendingClick::Delete(SlotTarget::Hotbar(1)),
    ]);
    assert_eq!(ui.inventory.dragged_item.as_ref().unwrap().block_id, "dirt");
    assert!(ui.inventory.hotbar_slot(1).unwrap().is_empty());
    assert_eq!(count(&ui.inventory, "stone"), 0);
}

#[test]
fn the_palette_gives_full_stacks() {
    let mut ui = palette_ui();
    ui.handle_left_click(SlotTarget::Creative(0));
    let got = ui
        .inventory
        .dragged_item
        .clone()
        .or_else(|| ui.inventory.active_item().cloned())
        .unwrap();
    assert_eq!((got.block_id.as_str(), got.amount), ("stone", 64));
}

#[test]
fn the_window_is_filtered_by_tab() {
    let mut ui = palette_ui();
    ui.toggle_creative();
    assert_eq!(ui.visible_palette(), [0, 1, 2]);
    let tabs = ui.window_view().tabs;
    let nature = tabs.iter().position(|t| t == "Nature").unwrap();
    ui.finish_window(true, Some(nature), Vec::new());
    assert_eq!(ui.visible_palette(), [0]);
    assert_eq!(ui.palette_item(0).unwrap().block_id, "stone");
    assert!(ui.palette_item(3).is_none());
    let v = ui.window_view();
    assert_eq!(v.selected_tab, nature);
    assert_eq!(v.title, "CREATIVE INVENTORY");
    assert!(v.main_cells.is_empty());
    assert_eq!(v.hotbar_cells.len(), 3);
    ui.toggle_creative();
    let v = ui.window_view();
    assert_eq!(v.title, "INVENTORY");
    assert_eq!(v.main_cells.len(), 9);
    assert!(!v.palette_shown && v.palette.is_empty());
}

#[test]
fn the_hotbar_is_out_of_reach_while_the_window_is_open() {
    let mut ui = palette_ui();
    assert!(ui.select_hotbar(2));
    assert_eq!(ui.inventory.active_hotbar_index, 2);
    assert!(ui.scroll_hotbar(1));
    assert_eq!(ui.inventory.active_hotbar_index, 0);
    ui.toggle();
    assert!(ui.is_open());
    assert!(!ui.select_hotbar(1));
    assert!(!ui.scroll_hotbar(1));
    assert_eq!(ui.inventory.active_hotbar_index, 0);
}

#[test]
fn modes_are_switched() {
    let mut ui = palette_ui();
    let survival = ui.mode_text().to_string();
    assert!(!ui.is_creative());
    ui.toggle_creative();
    assert!(ui.is_creative() && ui.inventory.creative_mode);
    assert_ne!(ui.mode_text(), survival);
    ui.toggle_creative();
    assert_eq!(ui.mode_text(), survival);
}

#[test]
fn tiles_become_textures_once() {
    let mut ui = palette_ui();
    let tile = |v: u8| TileImage { width: 16, height: 16, rgba: vec![v; 1024] };
    ui.add_tile_image("stone".to_string(), tile(1));
    ui.add_tile_image("stone".to_string(), tile(2));
    let got = ui.ensure_tile_texture(&"stone".to_string()).unwrap();
    assert_eq!(got.rgba[0], 1);
    assert!(ui.ensure_tile_texture(&"stone".to_string()).is_none());
    assert!(ui.ensure_tile_texture(&"dirt".to_string()).is_none());
}

#[test]
fn frames_collect_what_was_drawn() {
    let mut ui = palette_ui();
    let rect = SlotRect { min_x: 0, min_y: 0, max_x: 1, max_y: 1 };
    ui.begin_ui();
    ui.push_render_command(rect, "stone".to_string(), 3);
    let name = "block/lamp".to_string();
    ui.draw_slot_block(SlotRect { min_x: 0, min_y: 0, max_x: 1, max_y: 1 }, Some(&name));
    let commands = ui.finish_ui();
    assert_eq!(commands.len(), 1);
    assert!(ui.render_commands().is_empty());
    let previews = ui.take_model_preview_slots();
    assert_eq!(previews.len(), 1);
    assert_eq!(previews[0].model_id, "block/lamp");
    assert!(ui.take_model_preview_slots().is_empty());
}

#[test]
fn the_stacks_of_the_hotbar_are_noted() {
    let mut ui = palette_ui();
    let n = ui.hotbar_count();
    let rect = |i: u32| SlotRect { min_x: i, min_y: 0, max_x: i + 1, max_y: 1 };
    let rects: Vec<SlotRect> = (0..n as u32).map(rect).collect();
    for i in 0..n {
        ui.inventory.hotbar_slots[i] = InventorySlot::Empty;
    }
    ui.set_hotbar_slot(0, stack("stone", 5));
    ui.set_hotbar_slot(2, stack("dirt", 2));
    ui.begin_ui();
    ui.push_render_command(rect(90), "old".to_string(), 1);
    ui.note_hotbar(&rects);
    let noted: Vec<(u32, String, u32)> =
        ui.finish_ui().into_iter().map(|c| (c.rect.min_x, c.block_id, c.count)).collect();
    assert_eq!(
        noted,
        [(90, "old".to_string(), 1), (0, "stone".to_string(), 5), (2, "dirt".to_string(), 2)]
    );
}

#[test]
fn inventories_can_be_copied() {
    let mut inv = PlayerInventory::new(3, 2);
    inv.add_item(stack("stone", 4));
    inv.dragged_item = Some(stack("dirt", 1));
    inv.is_open = true;
    let copy = inv.clone();
    assert_eq!((count(&copy, "stone"), count(&copy, "dirt")), (4, 1));
    assert_eq!((copy.main_slots.len(), copy.hotbar_slots.len(), copy.is_open), (3, 2, true));
    let mut config = InventoryConfig::default();
    config.max_stack_sizes.insert("stone".to_string(), 16);
    let copy = config.clone();
    assert_eq!((copy.get_max_stack("stone"), copy.get_max_stack("dirt")), (16, 64));
    assert_eq!((copy.main_slots_count, copy.hotbar_slots_count), (27, 12));
    let rect = SlotRect { min_x: 1, min_y: 2, max_x: 3, max_y: 4 };
    let command = RenderCommand { rect, block_id: "stone".to_string(), count: 7 };
    let copy = command.clone();
    assert_eq!((copy.rect, copy.block_id.as_str(), copy.count), (rect, "stone", 7));
}

#[test]
fn reported_clicks_wait_for_the_end_of_the_window() {
    let mut ui = palette_ui();
    ui.inventory.add_item(stack("stone", 4));
    let mut clicks = Vec::new();
    ui.begin_ui();
    assert!(!ui.was_interacted());
    ui.report_click(&mut clicks, SlotTarget::Hotbar(0), true, false, false);
    ui.report_click(&mut clicks, SlotTarget::Hotbar(1), false, false, false);
    assert_eq!(clicks.len(), 1);
    assert!(ui.was_interacted());
    assert!(ui.inventory.dragged_item.is_none());
    ui.finish_window(true, None, clicks);
    assert!(ui.inventory.dragged_item.is_some());
}

#[test]
fn counts_are_shown_from_two_on() {
    assert_eq!(inventory_ui::count_label(1), None);
    assert_eq!(inventory_ui::count_label(64), Some("64".to_string()));
}

#[test]
fn lists_stay_sorted() {
    let mut v: Vec<String> = Vec::new();
    for t in ["m", "a", "z", "m", "b"] {
        inventory_ui::insert_sorted(&mut v, t.to_string());
    }
    assert_eq!(v, ["a", "b", "m", "z"]);
}

#[test]
fn colours_of_the_inventory() {
    let c = palette::slot_bg();
    assert_eq!((c.r, c.g, c.b, c.a), (55, 55, 55, 220));
    assert_eq!(palette::text_primary(), palette::text_count());
    assert_eq!(palette::window_border(), palette::slot_border_dark());
    let tab = palette::tab_active_text();
    assert_eq!((tab.r, tab.g, tab.b, tab.a), (120, 220, 255, 255));
    assert_eq!(palette::section_label().a, 180);
}

#[test]
fn a_stack_can_have_a_model() {
    let s = ItemStack::new("torch".to_string(), "Torch".to_string(), 3, 64)
        .with_model(Some("torch_model".to_string()));
    assert_eq!(s.model_name, Some("torch_model".to_string()));
    assert_eq!(s.amount, 3);
}
