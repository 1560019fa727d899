use qubepixel::block_definition::BlockLightSource;
use qubepixel::block_definition::LightKind;
use qubepixel::lights;
use qubepixel::lights::LightEntity;
use qubepixel::lights::LightRef;
use qubepixel::player_renderer::ViewMode;
use qubepixel::spawning;
use qubepixel::spawning::FreshChunk;
use qubepixel::spawning::Herd;
use qubepixel::spawning::SpawnEntry;
use qubepixel::spawning::SpawnRule;
use qubepixel::spawning::SurfaceSample;
use qubepixel::table::Table;

fn hash01(x: i32, y: i32, z: i32, salt: u64) -> f32 {
    let mut h: u64 = 0xCBF2_9CE4_8422_2325u64
        ^ (x as i64 as u64).wrapping_mul(0x100000001B3)
        ^ (y as i64 as u64).wrapping_mul(0x9E3779B97F4A7C15)
        ^ (z as i64 as u64).wrapping_mul(0xBF58_476D_1CE4_E5B9)
        ^ salt.wrapping_mul(0x94D049BB133111EB);
    h ^= h >> 30;
    h = h.wrapping_mul(0xBF58_476D_1CE4_E5B9);
    h ^= h >> 27;
    h = h.wrapping_mul(0x94D0_49BB_1331_11EBu64);
    h ^= h >> 31;
    (h >> 40) as f32 / (1u32 << 24) as f32
}

#[test]
fn rolls_are_stable() {
    for (x, y, z, salt) in [(0, 0, 0, 0), (1, 64, -7, 3), (-5, -6, -7, u64::MAX), (i32::MIN, 1, i32::MAX, 9)] {
        let n = spawning::position_hash(x, y, z, salt);
        assert_eq!(n as f32 / (1u32 << 24) as f32, hash01(x, y, z, salt));
    }
}

fn rule(rarity: f32) -> SpawnRule {
    SpawnRule {
        enabled: true,
        max_alive: 10,
        max_per_chunk: 2,
        min_y: 60,
        max_y: 100,
        spawn_on_blocks: vec!["grass".to_string(), "unknown".to_string()],
        rarity: rarity.to_bits(),
    }
}

fn ids() -> Table<String, u8> {
    let mut t: Table<String, u8> = Table::new();
    t.insert("grass".to_string(), 2);
    t
}

fn chunk(x: i32, samples: Vec<(i32, i32, i32, u8)>) -> FreshChunk {
    FreshChunk {
        key: (x, 0, 0),
        samples: samples
            .into_iter()
            .map(|(x, y, z, block)| SurfaceSample { x, y, z, block })
            .collect(),
    }
}

fn sheep(rule: SpawnRule) -> Vec<SpawnEntry> {
    vec![SpawnEntry { key: "sheep".to_string(), rule: Some(rule) }]
}

#[test]
fn blocks_of_a_rule_are_resolved() {
    assert_eq!(spawning::allowed_blocks(&vec!["grass".to_string(), "x".to_string()], &ids()), [2]);
}

#[test]
fn sheep_spawn_on_the_right_ground() {
    let mut h = Herd::new();
    let ground = vec![
        (0, 59, 0, 2),
        (1, 101, 0, 2),
        (2, 70, 0, 3),
        (3, 70, 0, 2),
        (4, 60, 0, 2),
        (5, 100, 0, 2),
    ];
    h.process_entity_spawn_candidates(&sheep(rule(1.0)), &ids(), &vec![chunk(0, ground)]);
    let q = h.take_pending();
    let places: Vec<(i32, i32)> = q.iter().map(|s| (s.x, s.y)).collect();
    assert_eq!(places, [(3, 70), (4, 60)]);
    assert_eq!(q[0].chunk, (0, 0, 0));
    assert_eq!(h.pending_count(), 0);
}

#[test]
fn rarity_follows_the_roll() {
    let samples: Vec<(i32, i32, i32, u8)> = (0..200).map(|i| (i, 70, -i, 2)).collect();
    let mut r = rule(0.3);
    r.max_per_chunk = 1000;
    r.max_alive = 1000;
    let mut expected = Vec::new();
    for &(x, y, z, _) in &samples {
        if hash01(x, y, z, 0) < 0.3 {
            expected.push((x, z));
        }
    }
    let mut h = Herd::new();
    h.process_entity_spawn_candidates(&sheep(r), &ids(), &vec![chunk(0, samples)]);
    let got: Vec<(i32, i32)> = h.take_pending().iter().map(|s| (s.x, s.z)).collect();
    assert_eq!(got, expected);
    assert!(!got.is_empty() && got.len() < 200);
}

#[test]
fn the_sheep_of_a_chunk_do_not_depend_on_those_before() {
    let samples = || (0..200).map(|i| (i, 70, -i, 2)).collect::<Vec<(i32, i32, i32, u8)>>();
    let small = || {
        let mut r = rule(0.3);
        r.max_per_chunk = 1000;
        r.max_alive = 1000;
        sheep(r)
    };
    let places = |h: &mut Herd| -> Vec<(i32, i32, i32)> {
        h.take_pending().iter().map(|s| (s.x, s.y, s.z)).collect()
    };
    let mut fresh = Herd::new();
    fresh.process_entity_spawn_candidates(&small(), &ids(), &vec![chunk(0, samples())]);
    let alone = places(&mut fresh);
    let mut later = Herd::new();
    let other = (0..50).map(|i| (i, 80, i, 2)).collect();
    later.process_entity_spawn_candidates(&small(), &ids(), &vec![chunk(1, other)]);
    later.take_pending();
    later.process_entity_spawn_candidates(&small(), &ids(), &vec![chunk(0, samples())]);
    assert_eq!(places(&mut later), alone);
    assert!(!alone.is_empty());
}

#[test]
fn the_cap_holds_within_a_batch() {
    let ground = || {
        vec![
            chunk(0, vec![(3, 70, 0, 2), (4, 70, 0, 2)]),
            chunk(1, vec![(20, 70, 0, 2), (21, 70, 0, 2)]),
        ]
    };
    let capped = |n: u32| {
        let mut r = rule(1.0);
        r.max_alive = n;
        sheep(r)
    };
    let mut h = Herd::new();
    h.process_entity_spawn_candidates(&capped(1), &ids(), &ground());
    assert_eq!(h.pending_count(), 1);
    h.process_entity_spawn_candidates(&capped(1), &ids(), &ground());
    assert_eq!(h.pending_count(), 1);
    h.sheep_spawned((0, 0, 0), 7);
    h.process_entity_spawn_candidates(&capped(4), &ids(), &ground());
    assert_eq!((h.sheep_count(), h.pending_count()), (1, 3));
    assert_eq!((h.sheep_seed(0, 0), h.sheep_seed(0, 1), h.sheep_seed(8, 2)), (3, 2, 9));
}

#[test]
fn nothing_spawns_beyond_the_cap_or_without_a_rule() {
    let ground = || vec![chunk(0, vec![(3, 70, 0, 2)])];
    let mut h = Herd::new();
    let mut off = rule(1.0);
    off.enabled = false;
    h.process_entity_spawn_candidates(&sheep(off), &ids(), &ground());
    let mut full = rule(1.0);
    full.max_alive = 0;
    h.process_entity_spawn_candidates(&sheep(full), &ids(), &ground());
    let none = vec![SpawnEntry { key: "sheep".to_string(), rule: None }];
    h.process_entity_spawn_candidates(&none, &ids(), &ground());
    let cow = vec![SpawnEntry { key: "cow".to_string(), rule: Some(rule(1.0)) }];
    h.process_entity_spawn_candidates(&cow, &ids(), &ground());
    h.process_entity_spawn_candidates(&sheep(rule(0.0)), &ids(), &ground());
    assert_eq!(h.pending_count(), 0);
    h.process_entity_spawn_candidates(&sheep(rule(1.0)), &ids(), &ground());
    assert_eq!(h.pending_count(), 1);
}

#[test]
fn sheep_go_with_their_chunks() {
    let mut h = Herd::new();
    h.sheep_spawned((0, 0, 0), 7);
    h.sheep_spawned((1, 0, 0), 8);
    h.sheep_spawned((0, 0, 0), 9);
    let ground = vec![chunk(0, vec![(3, 70, 0, 2)]), chunk(1, vec![(20, 70, 0, 2)])];
    h.process_entity_spawn_candidates(&sheep(rule(1.0)), &ids(), &ground);
    assert_eq!((h.sheep_count(), h.pending_count()), (3, 2));
    assert_eq!(h.despawn_entities_in_chunks(&vec![(0, 0, 0), (5, 5, 5), (0, 0, 0)]), [7, 9]);
    assert_eq!((h.sheep_count(), h.pending_count()), (1, 1));
    assert!(h.is_sheep(8) && !h.is_sheep(7));
    assert_eq!(h.take_pending()[0].chunk, (1, 0, 0));
}

fn source(kind: LightKind, range: f32) -> BlockLightSource {
    BlockLightSource {
        label: String::new(),
        kind,
        position: [0; 3],
        color: [0; 3],
        intensity: 0,
        range: range.to_bits(),
        direction: [0; 3],
        focus: 0,
    }
}

#[test]
fn shining_blocks_are_found() {
    let mut sources: Table<u8, Vec<BlockLightSource>> = Table::new();
    sources.insert(3, vec![source(LightKind::Point, 0.5), source(LightKind::Directional, 9.0)]);
    let mut blocks = vec![0u8; 64];
    blocks[1 + 4 * 2 + 16 * 3] = 3;
    blocks[0] = 7;
    let r = lights::scan_lights(&blocks, 4, (10, -20, 30), &sources);
    assert_eq!((r.points.len(), r.spots.len()), (1, 1));
    let p = r.points[0];
    assert_eq!((p.x, p.y, p.z), (11, -18, 33));
    assert_eq!((p.block, p.source, f32::from_bits(p.range)), (3, 0, 16.0));
    assert_eq!((r.spots[0].source, f32::from_bits(r.spots[0].range)), (1, 9.0));
}

#[test]
fn the_scan_stops_at_its_limit() {
    let mut sources: Table<u8, Vec<BlockLightSource>> = Table::new();
    sources.insert(1, vec![source(LightKind::Point, 5.0)]);
    sources.insert(2, vec![source(LightKind::Directional, 5.0)]);
    let mut blocks = vec![1u8; 125];
    blocks[124] = 2;
    let r = lights::scan_lights(&blocks, 5, (0, 0, 0), &sources);
    assert_eq!((r.points.len(), r.spots.len()), (64, 0));
    let last = r.points[63];
    assert_eq!((last.x, last.y, last.z), (63 % 5, 63 / 5 % 5, 63 / 25));
}

#[test]
fn a_frame_has_the_lights_of_blocks_and_entities() {
    let entities = vec![
        LightEntity { is_player: true, lights: vec![LightKind::Point, LightKind::Directional] },
        LightEntity { is_player: false, lights: vec![LightKind::Point] },
    ];
    let off =
        lights::gather_lights(1, 1, &vec![true, false], &entities, false, ViewMode::FirstPerson);
    assert_eq!(off.points, [LightRef::BlockPoint(0), LightRef::TestEntity(0)]);
    assert_eq!(off.spots, [LightRef::BlockSpot(0)]);
    assert_eq!(
        off.emitters,
        [LightRef::BlockPoint(0), LightRef::TestEntity(0), LightRef::BlockSpot(0)]
    );
    let on = lights::gather_lights(0, 0, &Vec::new(), &entities, true, ViewMode::FirstPerson);
    assert_eq!(on.points, [LightRef::Entity(0, 0), LightRef::Entity(1, 0)]);
    assert_eq!(on.spots, [LightRef::Entity(0, 1)]);
    assert_eq!(on.emitters, [LightRef::Entity(1, 0)]);
    let third = lights::gather_lights(0, 0, &Vec::new(), &entities, true, ViewMode::ThirdPerson);
    assert_eq!(third.emitters.len(), 3);
}

#[test]
fn a_frame_has_no_more_lights_than_fit() {
    let entities = vec![LightEntity { is_player: false, lights: vec![LightKind::Point; 10] }];
    let f = lights::gather_lights(60, 70, &vec![true; 3], &entities, true, ViewMode::FirstPerson);
    assert_eq!((f.points.len(), f.spots.len()), (64, 64));
    assert_eq!(f.points[63], LightRef::Entity(0, 0));
    assert_eq!(f.emitters.len(), 128);
}

#[test]
fn lights_without_a_range_get_one() {
    assert_eq!(f32::from_bits(lights::entity_light_range(0.0f32.to_bits())), 20.0);
    assert_eq!(f32::from_bits(lights::entity_light_range((-3.0f32).to_bits())), 20.0);
    assert_eq!(f32::from_bits(lights::entity_light_range(0.25f32.to_bits())), 0.25);
}
