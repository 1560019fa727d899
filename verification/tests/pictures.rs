use qubepixel::inventory_model_renderer;
use qubepixel::inventory_model_renderer::InventoryModelRenderer;
use qubepixel::inventory_model_renderer::PixelSlot;
use qubepixel::light_emitter_renderer;
use qubepixel::light_emitter_renderer::LightEmitterRenderer;
use qubepixel::pixels;
use qubepixel::pixels::RgbaPixels;
use qubepixel::player_renderer;
use qubepixel::player_renderer::Driver;
use qubepixel::player_renderer::PlayerRenderer;
use qubepixel::player_renderer::ViewMode;
use qubepixel::previews;
use qubepixel::previews::BoneMesh;
use qubepixel::previews::FaceTextures;
use qubepixel::previews::LoadedEntity;
use qubepixel::previews::TexKeys;
use qubepixel::shapes;
use qubepixel::sheep_renderer::SheepRenderer;
use qubepixel::stocking;
use qubepixel::table::Table;

fn water(frame: usize, along: usize) -> u8 {
    let center = (frame as f32 / 32.0) * 16.0;
    let t = along as f32;
    let dist = (t - center).abs().min((t + 16.0 - center).abs());
    ((1.0 - (dist / 16.0).min(1.0) * 0.18) * 255.0).round() as u8
}

#[test]
fn water_has_a_moving_band() {
    let anim = pixels::generate_water_anim_pixels();
    let flow = pixels::generate_water_flow_pixels();
    assert_eq!(anim.len(), 16 * 16 * 32 * 4);
    assert_eq!(flow.len(), anim.len());
    for frame in 0..32 {
        for y in 0..16 {
            for x in 0..16 {
                let i = ((frame * 16 + y) * 16 + x) * 4;
                assert_eq!(anim[i..i + 3], [water(frame, y); 3], "{} {}", frame, y);
                assert_eq!(flow[i..i + 3], [water(frame, x); 3], "{} {}", frame, x);
                assert_eq!((anim[i + 3], flow[i + 3]), (255, 255));
            }
        }
    }
}

#[test]
fn layers_are_blended_over_opaque_pixels() {
    for b in (0..=255u32).step_by(15) {
        for l in (0..=255u32).step_by(5) {
            for a in 0..=255u32 {
                let base = vec![b as u8, 0, 255, 255];
                let layer = vec![l as u8, 255, 0, a as u8];
                let out = pixels::blend_over(&base, &layer);
                let t = a as f32 / 255.0;
                let f = |b: f32, l: f32| (b * (1.0 - t) + l * t).round().min(255.0) as u8;
                assert_eq!(out[0], f(b as f32, l as f32), "{} {} {}", b, l, a);
                assert_eq!(out[1], f(0.0, 255.0));
                assert_eq!(out[2], f(255.0, 0.0));
                assert_eq!(out[3], 255);
            }
        }
    }
}

#[test]
fn layers_are_blended_source_over() {
    let over = |base: [u8; 4], layer: [u8; 4]| pixels::blend_over(&base.to_vec(), &layer.to_vec());
    assert_eq!(over([9, 9, 9, 0], [0, 200, 0, 128]), [0, 200, 0, 128]);
    assert_eq!(over([9, 8, 7, 0], [1, 2, 3, 0]), [9, 8, 7, 0]);
    assert_eq!(over([9, 8, 7, 60], [1, 2, 3, 0]), [9, 8, 7, 60]);
    assert_eq!(over([9, 8, 7, 60], [1, 2, 3, 255]), [1, 2, 3, 255]);
    for ba in (0..=255u32).step_by(17) {
        for la in (1..=255u32).step_by(3) {
            let out = over([200, 0, 90, ba as u8], [40, 255, 130, la as u8]);
            let (b, l) = (f64::from(ba) / 255.0, f64::from(la) / 255.0);
            let a = l + b * (1.0 - l);
            let f = |x: f64, y: f64| (y * l + x * b * (1.0 - l)) / a;
            let near = |got: u8, want: f64| (f64::from(got) - want).abs() <= 0.5 + 1e-9;
            assert!(near(out[0], f(200.0, 40.0)), "{} {} {:?}", ba, la, out);
            assert!(near(out[1], f(0.0, 255.0)), "{} {} {:?}", ba, la, out);
            assert!(near(out[2], f(90.0, 130.0)), "{} {} {:?}", ba, la, out);
            assert!(near(out[3], 255.0 * a), "{} {} {:?}", ba, la, out);
        }
    }
}

fn picture(width: u32, height: u32, rgba: [u8; 4]) -> RgbaPixels {
    let n = (width * height) as usize;
    RgbaPixels { width, height, data: rgba.iter().copied().cycle().take(4 * n).collect() }
}

#[test]
fn layers_of_other_sizes_are_scaled() {
    let base = picture(4, 2, [10, 20, 30, 255]);
    let layers = vec![
        None,
        Some(picture(1, 1, [255, 255, 255, 255])),
        Some(picture(4, 2, [0, 0, 0, 0])),
    ];
    let out = pixels::composite_layers(base, &layers);
    assert_eq!((out.width, out.height), (4, 2));
    assert_eq!(out.data, vec![255; 32]);
}

#[test]
fn scaling_is_bilinear() {
    let base = picture(4, 1, [0, 0, 0, 255]);
    let mut layer = picture(2, 1, [0, 0, 0, 255]);
    layer.data[4..7].copy_from_slice(&[200, 200, 200]);
    let out = pixels::composite_layers(base, &vec![Some(layer)]);
    let row: Vec<u8> = (0..4).map(|i| out.data[4 * i]).collect();
    assert!(row[0] < row[1] && row[1] < row[2] && row[2] < row[3], "{:?}", row);
}

#[test]
fn missing_textures_show_a_checkerboard() {
    let c = pixels::checkerboard();
    assert_eq!((c.width, c.height), (64, 64));
    assert_eq!(c.data[0..4], [255, 0, 255, 255]);
    assert_eq!(c.data[4 * 8..4 * 8 + 4], [80, 0, 80, 255]);
    let i = 4 * (8 * 64 + 8);
    assert_eq!(c.data[i..i + 4], [255, 0, 255, 255]);
}

fn png(width: u32, height: u32, f: impl Fn(u32, u32) -> [u8; 4]) -> Vec<u8> {
    let img = image::RgbaImage::from_fn(width, height, |x, y| image::Rgba(f(x, y)));
    let mut out = std::io::Cursor::new(Vec::new());
    img.write_to(&mut out, image::ImageFormat::Png).unwrap();
    out.into_inner()
}

#[test]
fn tiles_are_made_from_files() {
    let bytes = png(32, 8, |x, y| [x as u8, y as u8, 7, 255]);
    let tile = pixels::tile_of_file(&bytes).unwrap();
    assert_eq!(tile.len(), 1024);
    for y in 0..16u32 {
        for x in 0..16u32 {
            let i = ((y * 16 + x) * 4) as usize;
            assert_eq!(tile[i..i + 4], [(x * 2) as u8, (y / 2) as u8, 7, 255]);
        }
    }
    assert!(pixels::tile_of_file(&vec![1, 2, 3]).is_none());
    assert!(pixels::tile_of_file(&Vec::new()).is_none());
}

#[test]
fn pictures_are_read_from_files() {
    let bytes = png(3, 2, |x, y| [x as u8, y as u8, 5, 200]);
    let p = pixels::picture_of_file(&bytes, "png").unwrap();
    assert_eq!((p.width, p.height, p.data.len()), (3, 2, 24));
    assert_eq!(p.data[20..24], [2, 1, 5, 200]);
    assert!(pixels::picture_of_file(&bytes, "PNG").is_some());
    assert!(pixels::picture_of_file(&bytes, "gif").is_none());
    assert!(pixels::picture_of_file(&bytes, "").is_none());
    assert!(pixels::picture_of_file(&vec![7; 9], "png").is_none());
}

#[test]
fn the_first_picture_is_taken() {
    let good = png(1, 1, |_, _| [9, 8, 7, 6]);
    let other = png(1, 1, |_, _| [1, 1, 1, 1]);
    let tile = stocking::first_tile(&vec![vec![0], good, other]).unwrap();
    assert_eq!(tile[0..4], [9, 8, 7, 6]);
    assert!(stocking::first_tile(&vec![vec![0]]).is_none());
}

#[test]
fn cubes_have_six_sides() {
    let (v, i) = shapes::build_cube_vertices([1; 4], [2; 4], [3; 4]);
    assert_eq!((v.len(), i.len()), (24, 36));
    assert_eq!(i[0..6], [0, 1, 2, 0, 2, 3]);
    assert_eq!(i[30..36], [20, 21, 22, 20, 22, 23]);
    assert_eq!(v[0].position, [0, 1, 1]);
    assert_eq!(v[0].uv, [0, 0]);
    assert_eq!(v[8].position, [1, 0, 0]);
    assert_eq!(v[8].uv, [0, 1]);
    assert_eq!((v[0].color, v[4].color, v[20].color), ([1; 4], [2; 4], [3; 4]));
}

#[test]
fn quads_are_two_triangles() {
    assert_eq!(shapes::quad_indices(8), [8, 9, 10, 8, 10, 11]);
}

#[test]
fn boxes_have_twelve_edges() {
    let mut out = Vec::new();
    shapes::push_aabb(&mut out, [1, 2, 3], [4, 5, 6], [9; 4]);
    assert_eq!(out.len(), 24);
    assert_eq!((out[0].pos, out[1].pos), ([1, 2, 3], [4, 2, 3]));
    assert_eq!((out[22].pos, out[23].pos), ([4, 5, 3], [4, 5, 6]));
    for pair in out.chunks(2) {
        let n = (0..3).filter(|&k| pair[0].pos[k] != pair[1].pos[k]).count();
        assert_eq!(n, 1);
        assert_eq!(pair[0].color, [9; 4]);
    }
}

#[test]
fn previews_stay_in_the_picture() {
    assert!(previews::clamp_viewport(0, 0, 0, 5, 10, 10).is_none());
    let v = previews::clamp_viewport(8, 2, 5, 3, 10, 10).unwrap();
    assert_eq!((v.x, v.y, v.width, v.height), (8, 2, 2, 3));
    let v = previews::clamp_viewport(50, 50, 5, 5, 10, 10).unwrap();
    assert_eq!((v.x, v.y, v.width, v.height), (9, 9, 1, 1));
    let v = previews::clamp_viewport(0, 0, 5, 5, 0, 0).unwrap();
    assert_eq!((v.x, v.y, v.width, v.height), (0, 0, 1, 1));
}

#[test]
fn face_keys_name_base_and_layers() {
    let layers = vec!["moss".to_string(), "snow".to_string()];
    assert_eq!(previews::layer_combo_key("stone", &layers), "stone+moss+snow");
    assert_eq!(previews::layer_combo_key("stone", &Vec::new()), "stone");
    let face = |b: &str| Some(FaceTextures { base: b.to_string(), layers: Vec::new() });
    let mut keys = TexKeys::new();
    let first = keys.sync_textures(&face("a"), &None, &face("b"));
    assert!(first.top && first.side);
    let again = keys.sync_textures(&face("a"), &None, &face("b"));
    assert!(!again.top && !again.bottom && !again.side);
    assert!(keys.sync_textures(&face("a"), &face("c"), &face("b")).bottom);
}

#[test]
fn entity_previews_load_what_changed() {
    let mut l = LoadedEntity::new();
    let skin = Some("skin.png".to_string());
    assert_eq!(l.sync(&"a.json".to_string(), &skin), (true, true));
    assert_eq!(l.sync(&"a.json".to_string(), &skin), (false, false));
    assert_eq!(l.sync(&"b.json".to_string(), &skin), (true, false));
    assert_eq!(l.sync(&"b.json".to_string(), &None), (false, true));
}

#[test]
fn bones_are_merged_in_the_order_of_their_names() {
    let bones = vec![
        BoneMesh { name: "leg".to_string(), vertex_count: 3, indices: vec![0, 1, 2] },
        BoneMesh { name: "body".to_string(), vertex_count: 4, indices: vec![0, 2, 3] },
    ];
    let m = previews::merge_bones(&bones).unwrap();
    assert_eq!(m.order, [1, 0]);
    assert_eq!(m.indices, [0, 2, 3, 4, 5, 6]);
    assert!(previews::merge_bones(&Vec::new()).is_none());
}

#[test]
fn slots_have_their_own_uniforms() {
    assert_eq!(inventory_model_renderer::aligned_uniform_size(), 256);
    let mut r = InventoryModelRenderer::new();
    assert!(r.register_model("lamp".to_string(), 36));
    assert!(!r.register_model("lamp".to_string(), 9));
    assert!(r.is_registered(&"lamp".to_string()));
    let slot = |id: &str, x: u32, w: u32| PixelSlot {
        model_id: id.to_string(),
        x,
        y: 0,
        width: w,
        height: 10,
    };
    let none = r.plan_previews(&Vec::new(), 100, 100);
    assert!(!none.new_depth && none.draws.is_empty());
    let slots = vec![slot("lamp", 0, 10), slot("other", 0, 10), slot("lamp", 5, 0), slot("lamp", 95, 10)];
    let plan = r.plan_previews(&slots, 100, 100);
    assert!(plan.new_depth);
    assert_eq!(plan.draws.len(), 2);
    assert_eq!((plan.draws[0].slot, plan.draws[0].offset), (0, 0));
    assert_eq!((plan.draws[1].slot, plan.draws[1].offset), (3, 768));
    assert_eq!((plan.draws[1].viewport.width, plan.draws[1].index_count), (5, 36));
    assert!(!r.plan_previews(&slots, 100, 100).new_depth);
    let many: Vec<PixelSlot> = (0..300).map(|_| slot("lamp", 0, 1)).collect();
    assert_eq!(r.plan_previews(&many, 100, 100).draws.len(), 256);
}

#[test]
fn glows_are_squares() {
    let c = light_emitter_renderer::billboard_corners();
    let flat: Vec<(bool, bool)> = c.iter().map(|k| (k.right, k.up)).collect();
    assert_eq!(
        flat,
        [(false, true), (true, true), (true, false), (false, true), (true, false), (false, false)]
    );
    assert!(light_emitter_renderer::has_own_radius(0.5f32.to_bits()));
    assert!(!light_emitter_renderer::has_own_radius(0.0f32.to_bits()));
    assert!(!light_emitter_renderer::has_own_radius((-1.0f32).to_bits()));
    let mut r = LightEmitterRenderer::new();
    assert!(r.plan(0).is_none());
    let p = r.plan(2).unwrap();
    assert_eq!((p.vertices, p.bytes, p.new_buffer), (12, 432, true));
    assert!(!r.plan(1).unwrap().new_buffer);
    assert!(r.plan(3).unwrap().new_buffer);
}

#[test]
fn the_players_limbs_swing() {
    let b = player_renderer::player_bones(true);
    let names: Vec<&str> = b.iter().map(|x| x.name).collect();
    assert_eq!(
        names,
        [
            "body", "leftThigh", "leftShin", "rightThigh", "rightShin", "leftArm", "leftForearm",
            "rightArm", "rightForearm", "head"
        ]
    );
    let shin = &b[2].joints;
    assert_eq!(shin.len(), 2);
    assert_eq!(shin[0], b[1].joints[0]);
    assert_eq!((shin[0].x, shin[0].y, shin[0].percent), (19, 120, -45));
    assert_eq!((shin[1].driver, shin[1].percent), (Driver::BackwardSwing, 55));
    let forearm = &b[8].joints;
    assert_eq!((forearm[0].x, forearm[0].percent), (-50, -35));
    assert_eq!((forearm[1].driver, forearm[1].percent), (Driver::ForwardSwing, -30));
    let still = player_renderer::player_bones(false);
    assert!(still[..9].iter().all(|x| x.joints.iter().all(|j| j.percent == 0)));
    assert_eq!(still[9].joints.len(), 2);
    assert!(still[9].joints.iter().all(|j| j.percent == -100));
}

#[test]
fn the_head_is_left_out_before_the_players_eyes() {
    assert_eq!(player_renderer::skip_bones(ViewMode::FirstPerson), ["head"]);
    assert!(player_renderer::skip_bones(ViewMode::ThirdPerson).is_empty());
    assert!(player_renderer::light_follows_bone(true, "rightForearm"));
    assert!(!player_renderer::light_follows_bone(true, "tail"));
    assert!(!player_renderer::light_follows_bone(true, ""));
    assert!(!player_renderer::light_follows_bone(false, "head"));
    let mut pivots: Table<String, [u32; 3]> = Table::new();
    assert_eq!(PlayerRenderer::new(&pivots, [1, 2, 3]).head_pivot, [1, 2, 3]);
    pivots.insert("head".to_string(), [4, 5, 6]);
    assert_eq!(PlayerRenderer::new(&pivots, [1, 2, 3]).head_pivot, [4, 5, 6]);
}

#[test]
fn sheep_walk_crosswise() {
    let b = SheepRenderer::bones(true);
    let names: Vec<&str> = b.iter().map(|x| x.name).collect();
    assert_eq!(names, ["body", "leg0", "leg1", "leg2", "leg3", "head"]);
    let percents: Vec<i32> = b[1..5].iter().map(|x| x.joints[0].percent).collect();
    assert_eq!(percents, [55, -55, -55, 55]);
    assert_eq!((b[1].joints[0].x, b[1].joints[0].z), (-30, 70));
    assert_eq!((b[4].joints[0].x, b[4].joints[0].z), (30, -50));
    assert!(SheepRenderer::bones(false)[1..5].iter().all(|x| x.joints[0].percent == 0));
}
