use qubepixel::block_model_renderer;
use qubepixel::block_model_renderer::Angle;
use qubepixel::block_model_renderer::Axis;
use qubepixel::block_model_renderer::BlockModelRenderer;
use qubepixel::game_3d_pipeline::Game3DPipeline;
use qubepixel::game_3d_pipeline::MeshUpload;
use qubepixel::game_3d_pipeline::CHUNK_MESH_VRAM_BUDGET;
use qubepixel::game_3d_pipeline::UNIFORM_SIZE;
use qubepixel::gpu_bytes;
use qubepixel::table::Table;
use qubepixel::uploads::MeshKind;
use qubepixel::uploads::PackedMesh;
use qubepixel::uploads::UploadQueue;
use qubepixel::world_result::apply_world_result;
use qubepixel::world_result::Aabb;
use qubepixel::world_result::ChunkSize;
use qubepixel::world_result::ModelBlock;
use qubepixel::world_result::ModelCatalog;

const BOX: [u32; 3] = [0, 0, 0];

fn insert(p: &mut Game3DPipeline, x: i32, bytes: u64) -> Vec<(i32, i32, i32)> {
    p.insert_chunk_mesh((x, 0, 0), 36, bytes, BOX, BOX)
}

#[test]
fn indices_become_bytes() {
    let bytes = gpu_bytes::index_bytes(&vec![1, 0x0403_0201]);
    let mut expected = 1u32.to_ne_bytes().to_vec();
    expected.extend(0x0403_0201u32.to_ne_bytes());
    assert_eq!(bytes, expected);
}

#[test]
fn draw_commands_hold_the_index_count() {
    let bytes = gpu_bytes::draw_command_bytes(300);
    assert_eq!(bytes.len(), 20);
    assert_eq!(bytes[0..4], 300u32.to_ne_bytes());
    assert_eq!(bytes[4..8], 1u32.to_ne_bytes());
    assert!(bytes[8..].iter().all(|&b| b == 0));
}

#[test]
fn memory_is_counted() {
    let mut p = Game3DPipeline::new(true);
    assert_eq!(p.vram_usage(), UNIFORM_SIZE);
    assert!(insert(&mut p, 0, 1000).is_empty());
    assert!(insert(&mut p, 1, 500).is_empty());
    assert_eq!(p.vram_usage(), UNIFORM_SIZE + 1500);
    insert(&mut p, 0, 200);
    assert_eq!(p.vram_usage(), UNIFORM_SIZE + 700);
    p.insert_water_mesh((0, 0, 0), 6, 50, BOX, BOX);
    p.insert_transparent_mesh((0, 0, 0), 6, 25, BOX, BOX);
    assert_eq!(p.vram_usage(), UNIFORM_SIZE + 775);
    p.evict_transparent_for_keys(&vec![(0, 0, 0)]);
    assert_eq!(p.vram_usage(), UNIFORM_SIZE + 750);
    p.remove_chunk_meshes(&vec![(0, 0, 0), (7, 7, 7)]);
    assert_eq!(p.vram_usage(), UNIFORM_SIZE + 500);
    assert_eq!(p.gpu_chunk_count(), 1);
    assert_eq!(p.chunk_aabbs().len(), 1);
}

#[test]
fn far_meshes_leave_when_the_budget_is_exceeded() {
    let mut p = Game3DPipeline::new(true);
    let third = CHUNK_MESH_VRAM_BUDGET / 3;
    p.look_from((1, 0, 0));
    assert!(insert(&mut p, 1, third).is_empty());
    assert!(insert(&mut p, 9, third).is_empty());
    assert!(insert(&mut p, 2, 10).is_empty());
    assert_eq!(insert(&mut p, 3, third), [(9, 0, 0)]);
    assert!(p.vram_usage() <= CHUNK_MESH_VRAM_BUDGET);
    assert_eq!(p.gpu_chunk_count(), 3);
    p.look_from((4, 0, 0));
    assert_eq!(insert(&mut p, 30, third), [(1, 0, 0)]);
    assert_eq!(
        insert(&mut p, 4, CHUNK_MESH_VRAM_BUDGET * 2),
        [(30, 0, 0), (2, 0, 0), (3, 0, 0)]
    );
    assert_eq!(p.gpu_chunk_count(), 1);
}

#[test]
fn of_meshes_as_far_the_oldest_leaves() {
    let mut p = Game3DPipeline::new(true);
    let half = CHUNK_MESH_VRAM_BUDGET / 2;
    p.look_from((0, i32::MAX, 0));
    let mut at = |key: (i32, i32, i32), bytes: u64| p.insert_chunk_mesh(key, 36, bytes, BOX, BOX);
    assert!(at((0, i32::MIN, 5), 10).is_empty());
    assert!(at((5, i32::MIN, 0), 10).is_empty());
    assert!(at((0, 0, 0), half).is_empty());
    assert_eq!(at((1, 1, 1), half), [(0, i32::MIN, 5), (5, i32::MIN, 0), (0, 0, 0)]);
}

#[test]
fn water_follows_the_atlas() {
    let mut p = Game3DPipeline::new(true);
    assert!(p.bind_group_stale(7, 8));
    assert!(p.water_bind_group_stale(7));
    assert!(!p.bind_group_stale(7, 8));
    assert!(!p.water_bind_group_stale(7));
    assert!(p.bind_group_stale(9, 8));
    assert!(p.water_bind_group_stale(9));
    assert!(!p.water_bind_group_stale(9));
}

#[test]
fn a_mesh_over_the_budget_leaves_with_the_next_one() {
    let mut p = Game3DPipeline::new(true);
    let large = 300 * 1024 * 1024;
    assert!(insert(&mut p, 0, large).is_empty());
    assert_eq!(p.vram_usage(), UNIFORM_SIZE + large);
    assert_eq!(insert(&mut p, 1, 10), [(0, 0, 0)]);
    assert_eq!(p.vram_usage(), UNIFORM_SIZE + 10);
    assert_eq!(insert(&mut p, 2, large), [(1, 0, 0)]);
    assert!(insert(&mut p, 2, large + 1).is_empty());
    assert_eq!(insert(&mut p, 3, 20), [(2, 0, 0)]);
    assert_eq!((p.gpu_chunk_count(), p.vram_usage()), (1, UNIFORM_SIZE + 20));
}

#[test]
fn replaced_meshes_can_be_evicted() {
    let mut p = Game3DPipeline::new(true);
    let vertices = CHUNK_MESH_VRAM_BUDGET / 52;
    let up = |vertices: u64| MeshUpload {
        key: (0, 0, 0),
        vertices,
        indices: 3,
        aabb_min: BOX,
        aabb_max: BOX,
    };
    p.update_chunk_meshes(&vec![up(vertices)]);
    assert!(p.vram_usage() > CHUNK_MESH_VRAM_BUDGET);
    assert_eq!(insert(&mut p, 1, 10), [(0, 0, 0)]);
    insert(&mut p, 0, 40);
    p.update_chunk_meshes(&vec![up(0)]);
    assert_eq!(insert(&mut p, 2, CHUNK_MESH_VRAM_BUDGET), [(1, 0, 0)]);
    assert_eq!(p.gpu_chunk_count(), 1);
}

#[test]
fn meshes_are_replaced_in_batches() {
    let mut p = Game3DPipeline::new(true);
    let up = |x: i32, vertices: u64, indices: u32| MeshUpload {
        key: (x, 0, 0),
        vertices,
        indices,
        aabb_min: BOX,
        aabb_max: BOX,
    };
    p.update_chunk_meshes(&vec![up(0, 4, 6), up(1, 8, 12)]);
    assert_eq!(p.vram_usage(), UNIFORM_SIZE + 12 * 52 + 18 * 4);
    p.update_chunk_meshes(&vec![up(0, 0, 0)]);
    assert_eq!(p.vram_usage(), UNIFORM_SIZE + 8 * 52 + 12 * 4);
    assert_eq!(p.gpu_chunk_count(), 1);
}

#[test]
fn the_depth_texture_follows_the_window() {
    let mut p = Game3DPipeline::new(true);
    assert!(p.ensure_depth(10, 20));
    assert!(!p.ensure_depth(10, 20));
    assert_eq!(p.vram_usage(), UNIFORM_SIZE + 800);
    assert!(p.ensure_depth(1, 1));
    assert_eq!(p.vram_usage(), UNIFORM_SIZE + 4);
}

#[test]
fn visible_chunks_are_counted() {
    let mut p = Game3DPipeline::new(true);
    for x in 0..4 {
        p.insert_chunk_mesh((x, 0, 0), 30 * (x as u32 + 1), 100, BOX, BOX);
    }
    assert_eq!(p.count_visible(&vec![true, false, true, false]), [0, 2]);
    assert_eq!(p.culled_last_frame(), 2);
    assert_eq!(p.visible_chunks(), 2);
    assert_eq!(p.last_draw_calls(), 2);
    assert_eq!(p.last_visible_triangles(), 10 + 30);
    assert_eq!(p.last_visible_vram_bytes(), 200);
}

#[test]
fn bind_groups_follow_the_atlas() {
    let mut p = Game3DPipeline::new(true);
    assert!(p.bind_group_stale(1, 2));
    assert!(!p.bind_group_stale(1, 2));
    assert!(p.bind_group_stale(1, 3));
}

#[test]
fn passes_are_set_up_once() {
    let mut p = Game3DPipeline::new(false);
    p.ensure_depth(4, 4);
    let w = p.plan_water();
    assert!(!w.draw);
    p.insert_water_mesh((0, 0, 0), 6, 50, BOX, BOX);
    let first = p.plan_water();
    let second = p.plan_water();
    assert!(first.draw && second.draw && !second.init);
    p.insert_transparent_mesh((0, 0, 0), 6, 50, BOX, BOX);
    let first = p.plan_transparent();
    let second = p.plan_transparent();
    assert!(first.draw && second.draw && !second.init);
}

#[test]
fn debug_lines_grow_their_buffer() {
    let mut p = Game3DPipeline::new(false);
    assert!(p.plan_debug_lines(0).is_none());
    let a = p.plan_debug_lines(10).unwrap();
    assert!(a.init && a.grow);
    assert_eq!(a.byte_len, 280);
    let b = p.plan_debug_lines(10).unwrap();
    assert!(!b.init && !b.grow);
    assert!(p.plan_debug_lines(100_000).unwrap().grow);
}

#[test]
fn outlines_follow_the_model() {
    let mut p = Game3DPipeline::new(false);
    assert!(p.plan_outline(true, 10, 10, None).is_none());
    p.ensure_depth(10, 10);
    assert!(p.plan_outline(false, 10, 10, None).is_none());
    let plain = p.plan_outline(true, 10, 10, None).unwrap();
    assert!(plain.init && !plain.use_model);
    assert_eq!(plain.vertex_count, 24);
    p.register_model_outline("block/lamp".to_string(), 48);
    let name = "block/lamp".to_string();
    let model = p.plan_outline(true, 10, 10, Some(&name)).unwrap();
    assert!(!model.init && model.use_model);
    assert_eq!(model.vertex_count, 48);
}

#[test]
fn models_stand_where_they_are_set_up() {
    let mut m = BlockModelRenderer::new();
    assert!(!m.spawn((0, 0, 0), "lamp".to_string(), 0));
    assert!(m.register_model("lamp".to_string(), 36));
    assert!(!m.register_model("lamp".to_string(), 99));
    assert!(m.spawn((1, 2, 3), "lamp".to_string(), 5));
    assert!(!m.spawn((1, 2, 3), "lamp".to_string(), 6));
    assert_eq!(m.get_instance_rotation((1, 2, 3)), 5);
    assert_eq!(m.get_instance_rotation((9, 9, 9)), 0);
    let (pos, id, rot) = m.instance_at(0).unwrap();
    assert_eq!((pos, id.as_str(), rot), ((1, 2, 3), "lamp", 5));
    assert!(m.instance_at(1).is_none());
    m.despawn((1, 2, 3));
    assert_eq!(m.instance_count(), 0);
    assert!(m.is_registered(&"lamp".to_string()));
}

#[test]
fn models_go_with_their_chunks() {
    let mut m = BlockModelRenderer::new();
    m.register_model("lamp".to_string(), 36);
    for p in [(-1, 0, 0), (0, 0, 0), (15, 255, 15), (16, 0, 0)] {
        assert!(m.spawn(p, "lamp".to_string(), 0));
    }
    let mut gone = m.despawn_in_chunks(&vec![(0, 0, 0)], 16, 256, 16);
    gone.sort();
    assert_eq!(gone, [(0, 0, 0), (15, 255, 15)]);
    assert!(m.has_instance((-1, 0, 0)) && m.has_instance((16, 0, 0)));
    for (w, c) in [(-17, -2), (-16, -1), (-1, -1), (0, 0), (15, 0), (16, 1)] {
        assert_eq!(block_model_renderer::chunk_coordinate(w, 16), c);
    }
}

fn turned(rot: u8, v: [i32; 3]) -> [i32; 3] {
    let mut p = v;
    for t in block_model_renderer::block_rotation(rot).into_iter().rev() {
        let n = match t.angle {
            Angle::Quarter => 1,
            Angle::Half => 2,
            Angle::MinusQuarter => 3,
        };
        for _ in 0..n {
            p = match t.axis {
                Axis::X => [p[0], -p[2], p[1]],
                Axis::Y => [p[2], p[1], -p[0]],
                Axis::Z => [-p[1], p[0], p[2]],
            };
        }
    }
    p
}

#[test]
fn rotations_keep_lengths() {
    for rot in 0..=255u8 {
        let p = turned(rot, [1, 2, 3]);
        let mut sizes: Vec<i32> = p.iter().map(|c| c.abs()).collect();
        sizes.sort();
        assert_eq!(sizes, [1, 2, 3]);
    }
    assert_eq!(turned(0, [1, 2, 3]), [1, 2, 3]);
}

fn packed(x: i32, kind: MeshKind, bytes: usize) -> PackedMesh {
    PackedMesh {
        key: (x, 0, 0),
        vertex_data: vec![0; bytes - 1],
        index_data: vec![0; 1],
        index_count: 3,
        aabb_min: BOX,
        aabb_max: BOX,
        kind,
    }
}

#[test]
fn uploads_are_limited_per_frame() {
    let mut q = UploadQueue::new();
    let mut p = Game3DPipeline::new(true);
    for x in 0..40 {
        q.push(packed(x, MeshKind::Opaque, 10));
    }
    let r = q.upload(&mut p);
    assert_eq!(r.steps.len(), 32);
    assert_eq!(r.bytes, 320);
    assert_eq!(r.steps[31].mesh.key, (31, 0, 0));
    assert_eq!(q.len(), 8);
    assert_eq!(p.gpu_chunk_count(), 32);
    assert_eq!(q.upload(&mut p).steps.len(), 8);
    let none = q.upload(&mut p);
    assert!(none.steps.is_empty() && none.bytes == 0);
}

#[test]
fn uploads_are_sorted_by_kind() {
    let mut q = UploadQueue::new();
    let mut p = Game3DPipeline::new(true);
    q.push(packed(0, MeshKind::Water, 10));
    q.push(packed(0, MeshKind::Glass, 20));
    q.push(packed(0, MeshKind::Opaque, 40));
    let r = q.upload(&mut p);
    assert!(r.steps.iter().all(|s| s.evicted.is_empty()));
    assert_eq!(p.gpu_chunk_count(), 1);
    assert_eq!(p.vram_usage(), UNIFORM_SIZE + 70);
    p.ensure_depth(1, 1);
    assert!(p.plan_water().draw && p.plan_transparent().draw);
}

fn catalog() -> ModelCatalog {
    let mut names: Table<u8, String> = Table::new();
    names.insert(5, "block/lamp".to_string());
    names.insert(9, "block/table".to_string());
    ModelCatalog::new(names)
}

#[test]
fn blocks_have_models() {
    let c = catalog();
    assert_eq!(c.model_of(5).unwrap(), "block/lamp");
    assert!(c.model_of(6).is_none());
}

#[test]
fn world_results_change_meshes_and_models() {
    let mut p = Game3DPipeline::new(true);
    let mut m = BlockModelRenderer::new();
    let mut c = catalog();
    p.ensure_depth(1, 1);
    m.register_model("block/lamp".to_string(), 36);
    c.model_loaded(&"block/lamp".to_string(), None);
    insert(&mut p, 0, 100);
    insert(&mut p, 1, 100);
    p.insert_transparent_mesh((1, 0, 0), 3, 10, BOX, BOX);
    m.spawn((0, 0, 0), "block/lamp".to_string(), 1);
    m.spawn((17, 0, 0), "block/lamp".to_string(), 1);
    m.spawn((40, 0, 0), "block/lamp".to_string(), 1);
    let blocks = vec![
        ModelBlock { pos: (18, 0, 0), block: 5, rotation: 2 },
        ModelBlock { pos: (19, 0, 0), block: 9, rotation: 0 },
        ModelBlock { pos: (20, 0, 0), block: 1, rotation: 0 },
        ModelBlock { pos: (40, 0, 0), block: 5, rotation: 7 },
    ];
    let size = ChunkSize { x: 16, y: 256, z: 16 };
    apply_world_result(&mut p, &mut m, &c, &vec![(0, 0, 0)], &vec![(1, 0, 0)], &blocks, size);
    assert_eq!(p.gpu_chunk_count(), 1);
    assert!(!p.plan_transparent().draw);
    assert!(!m.has_instance((0, 0, 0)) && !m.has_instance((17, 0, 0)));
    assert_eq!(m.get_instance_rotation((18, 0, 0)), 2);
    assert!(!m.has_instance((19, 0, 0)) && !m.has_instance((20, 0, 0)));
    assert_eq!(m.get_instance_rotation((40, 0, 0)), 1);
}

#[test]
fn blocks_have_the_boxes_of_their_models() {
    let mut c = catalog();
    assert!(c.boxes_by_block().is_empty());
    let aabb = Aabb { min: [1, 2, 3], max: [4, 5, 6] };
    c.model_loaded(&"block/table".to_string(), Some(aabb));
    c.model_loaded(&"block/lamp".to_string(), None);
    let boxes = c.boxes_by_block();
    assert_eq!(boxes.len(), 1);
    assert_eq!((boxes[0].0, boxes[0].1.max), (9, [4, 5, 6]));
    let m = BlockModelRenderer::new();
    let shape = c.outline_of(9, (0, 0, 0), &m);
    assert_eq!(shape.model.as_deref(), Some("block/table"));
    assert_eq!(shape.aabb.unwrap().min, [1, 2, 3]);
    assert!(c.outline_of(5, (0, 0, 0), &m).aabb.is_none());
    assert!(c.outline_of(1, (0, 0, 0), &m).model.is_none());
}
