use qubepixel::arrivals::take_arrivals;
use qubepixel::arrivals::ModelArrival;
use qubepixel::arrivals::ModelTexture;
use qubepixel::arrivals::ShadowBook;
use qubepixel::block_model_renderer::BlockModelRenderer;
use qubepixel::entity_setup::EntitySetup;
use qubepixel::spawning::QueuedSpawn;
use qubepixel::table::Table;
use qubepixel::world_result::Aabb;
use qubepixel::world_result::ModelBlock;
use qubepixel::world_result::ModelCatalog;

fn unit_box() -> Aabb {
    Aabb { min: [0, 0, 0], max: [1.0f32.to_bits(), 0.5f32.to_bits(), 1.0f32.to_bits()] }
}

fn arrival(name: &str, shadow_block: Option<u8>, geometry: bool, has_atlas: bool) -> ModelArrival {
    ModelArrival {
        name: name.to_string(),
        shadow_block,
        aabb: if geometry { Some(unit_box()) } else { None },
        index_count: 36,
        has_atlas,
    }
}

fn catalog() -> ModelCatalog {
    let mut names: Table<u8, String> = Table::new();
    names.insert(4, "torch".to_string());
    names.insert(9, "chair".to_string());
    ModelCatalog::new(names)
}

#[test]
fn models_that_arrive_can_be_placed() {
    let mut catalog = catalog();
    let mut models = BlockModelRenderer::new();
    let mut shadows = ShadowBook::new();
    let list = vec![
        arrival("torch", Some(4), true, true),
        arrival("chair", None, true, false),
        arrival("broken", None, false, true),
    ];
    let r = take_arrivals(&mut catalog, &mut models, &mut shadows, &list, true);
    assert_eq!(r.steps.len(), 3);
    assert!(r.steps[0].take_shadow && r.steps[0].outline);
    assert_eq!(r.steps[0].register, Some(ModelTexture::Atlas));
    assert!(!r.steps[1].take_shadow && r.steps[1].outline);
    assert_eq!(r.steps[1].register, Some(ModelTexture::Fallback));
    assert!(!r.steps[2].take_shadow && !r.steps[2].outline);
    assert_eq!(r.steps[2].register, None);
    assert!(r.repack);
    let boxes = r.boxes.unwrap();
    assert_eq!(boxes.iter().map(|b| b.0).collect::<Vec<u8>>(), vec![4, 9]);
    assert_eq!(boxes[0].1.max, unit_box().max);
    assert!(models.is_registered(&"torch".to_string()));
    assert!(!models.is_registered(&"broken".to_string()));
    let block = ModelBlock { pos: (1, 2, 3), block: 9, rotation: 3 };
    catalog.spawn_models(&mut models, &vec![block]);
    assert_eq!(models.get_instance_rotation((1, 2, 3)), 3);
}

#[test]
fn a_model_that_arrives_twice_is_taken_once() {
    let mut catalog = catalog();
    let mut models = BlockModelRenderer::new();
    let mut shadows = ShadowBook::new();
    let first = vec![arrival("torch", Some(4), true, true), arrival("torch", Some(4), true, true)];
    let r = take_arrivals(&mut catalog, &mut models, &mut shadows, &first, false);
    assert!(r.steps[0].take_shadow && !r.steps[1].take_shadow);
    assert_eq!(r.steps[1].register, None);
    assert!(r.steps[1].outline);
    assert!(!r.repack);
    let again = vec![arrival("torch", Some(4), true, true)];
    let r = take_arrivals(&mut catalog, &mut models, &mut shadows, &again, true);
    assert!(!r.steps[0].take_shadow && !r.repack);
    assert!(r.boxes.is_some());
}

#[test]
fn nothing_changes_without_arrivals() {
    let mut catalog = catalog();
    let mut models = BlockModelRenderer::new();
    let mut shadows = ShadowBook::new();
    let r = take_arrivals(&mut catalog, &mut models, &mut shadows, &Vec::new(), true);
    assert!(r.steps.is_empty() && !r.repack && r.boxes.is_none());
}

#[test]
fn entities_wait_for_what_draws_them() {
    let mut s = EntitySetup::new();
    let place = [1.0f32.to_bits(), 2.0f32.to_bits(), 3.0f32.to_bits()];
    s.ask_light(place);
    assert!(!s.begin_renderer(false));
    assert!(!s.begin_sheep_model());
    assert!(!s.takes_sheep());
    assert!(s.take_lights().is_empty());
    assert!(s.begin_renderer(true));
    assert!(!s.begin_renderer(true));
    assert!(!s.takes_sheep());
    assert!(s.begin_sheep_model());
    assert!(!s.begin_sheep_model());
    assert!(s.takes_sheep());
    assert_eq!(s.take_lights(), vec![place]);
    assert!(s.take_lights().is_empty());
    s.light_appeared(7);
    assert_eq!(s.lights, vec![7]);
}

#[test]
fn sheep_stand_on_their_block() {
    let q = QueuedSpawn { chunk: (0, 0, 0), x: 5, y: i32::MAX, z: -2 };
    assert_eq!(q.feet(), (5, 2147483648, -2));
}
