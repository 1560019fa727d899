use qubepixel::profiler_overlay;
use qubepixel::profiler_overlay::ProfilerFrame;
use qubepixel::profiler_overlay::ProfilerOverlay;
use qubepixel::profiler_overlay::Shade;

fn frame() -> ProfilerFrame {
    ProfilerFrame {
        fps: 75.0f64.to_bits(),
        frame_total_us: 1000,
        gen_time_us: 100,
        gen_count: 1,
        mesh_time_us: 200,
        dirty_count: 2,
        upload_time_us: 300,
        upload_count: 3,
        sky_render_us: 10,
        vct_upload_us: 20,
        vct_dispatch_us: 30,
        render_3d_us: 40,
        transparent_us: 50,
        entity_render_us: 60,
        block_model_us: 70,
        hand_block_us: 80,
        water_render_us: 90,
        outline_us: 5,
        total_chunks: 11,
        visible_chunks: 7,
        culled_chunks: 4,
        lod0_count: 1,
        lod1_count: 2,
        lod2_count: 3,
        worker_pending: 9,
        upload_pending: 0,
        gpu_queue_depth: 64,
        vram_bytes: 0,
        draw_calls: 3,
        shadow_draw_calls: 2,
        visible_triangles: 100,
        visible_vram_bytes: 0,
        upload_bytes: 0,
        upload_throughput_mb_s: 0,
        cam_pos: [0, 0, 0],
        get_texture_us: 5000,
        update_us: 100,
        egui_build_us: 200,
        egui_render_us: 300,
        submit_present_us: 400,
    }
}

#[test]
fn nothing_is_reported_while_hidden() {
    let mut p = ProfilerOverlay::new();
    assert!(!p.visible);
    assert!(p.report(0).is_none());
    p.visible = true;
    assert!(p.report(0).is_none());
    p.feed(frame());
    assert!(p.report(0).is_some());
    p.visible = false;
    assert!(p.report(0).is_none());
}

#[test]
fn sums_and_averages_are_reported() {
    let mut p = ProfilerOverlay::new();
    p.visible = true;
    p.feed(frame());
    let r = p.report(13_333).unwrap();
    assert_eq!(r.stages_us, 1055);
    assert_eq!(r.accounted_us, 7000);
    assert_eq!(r.gap_us, 6333);
    assert_eq!(r.avg_tris, 33);
    assert_eq!(r.stages.len(), 13);
    assert_eq!(r.phases.len(), 6);
    assert!(r.stages.iter().all(|s| !s.marked && s.shade == Shade::Green));
    assert_eq!(p.report(10).unwrap().gap_us, 0);
}

#[test]
fn the_heaviest_stage_is_marked() {
    let mut p = ProfilerOverlay::new();
    p.visible = true;
    let mut f = frame();
    f.mesh_time_us = 6_000;
    f.outline_us = 501;
    p.feed(f);
    let r = p.report(0).unwrap();
    let marked: Vec<usize> = (0..13).filter(|&i| r.stages[i].marked).collect();
    assert_eq!(marked, [1]);
    assert_eq!(r.stages[1].shade, Shade::Rgb(255, 120, 120));
    assert_eq!(r.stages[12].shade, Shade::Yellow);
}

#[test]
fn of_equal_stages_the_last_is_marked() {
    let mut p = ProfilerOverlay::new();
    p.visible = true;
    let mut f = frame();
    f.gen_time_us = 20_000;
    f.water_render_us = 20_000;
    p.feed(f);
    let r = p.report(0).unwrap();
    assert_eq!(r.stages[0].shade, Shade::Red);
    assert!(!r.stages[0].marked && r.stages[11].marked);
}

#[test]
fn stages_change_colour_at_their_bounds() {
    let bounds = [
        (5_000, 15_000),
        (5_000, 15_000),
        (2_000, 5_000),
        (1_000, 3_000),
        (1_000, 3_000),
        (1_000, 4_000),
        (2_000, 5_000),
        (500, 2_000),
        (500, 2_000),
        (500, 2_000),
        (200, 1_000),
        (500, 2_000),
        (500, 2_000),
    ];
    for (i, (warn, crit)) in bounds.iter().enumerate() {
        for (us, shade) in [
            (warn - 1, Shade::Green),
            (*warn, Shade::Yellow),
            (crit - 1, Shade::Yellow),
            (*crit, Shade::Red),
        ] {
            let mut f = frame();
            {
                let fields: [&mut u128; 13] = [
                    &mut f.gen_time_us,
                    &mut f.mesh_time_us,
                    &mut f.upload_time_us,
                    &mut f.sky_render_us,
                    &mut f.vct_upload_us,
                    &mut f.vct_dispatch_us,
                    &mut f.render_3d_us,
                    &mut f.transparent_us,
                    &mut f.entity_render_us,
                    &mut f.block_model_us,
                    &mut f.hand_block_us,
                    &mut f.water_render_us,
                    &mut f.outline_us,
                ];
                let mut j = 0;
                for field in fields {
                    if j == i {
                        *field = us;
                    } else if j == (i + 1) % 13 {
                        *field = 100_000;
                    }
                    j += 1;
                }
            }
            let mut p = ProfilerOverlay::new();
            p.visible = true;
            p.feed(f);
            assert_eq!(p.report(0).unwrap().stages[i].shade, shade, "{} {}", i, us);
        }
    }
}

#[test]
fn phases_have_colours() {
    let mut p = ProfilerOverlay::new();
    p.visible = true;
    let mut f = frame();
    f.get_texture_us = 5_001;
    f.update_us = 2_000;
    f.egui_build_us = 5_000;
    f.frame_total_us = 8_000;
    f.egui_render_us = 999;
    f.submit_present_us = 500;
    p.feed(f);
    let r = p.report(0).unwrap();
    let shades: Vec<Shade> = r.phases.iter().map(|l| l.shade).collect();
    assert_eq!(
        shades,
        [Shade::Yellow, Shade::Yellow, Shade::Red, Shade::Red, Shade::Green, Shade::Yellow]
    );
    p.feed(frame());
    assert_eq!(p.report(0).unwrap().phases[0].shade, Shade::Rgb(255, 220, 120));
}

#[test]
fn frame_rates_have_colours() {
    for v in [0.0f64, 29.9, 30.0, 59.9, 60.0, 1e9, f64::INFINITY, -1.0, f64::NAN] {
        let expected = if v >= 60.0 {
            Shade::Green
        } else if v >= 30.0 {
            Shade::Yellow
        } else {
            Shade::Red
        };
        assert_eq!(profiler_overlay::fps_shade(v.to_bits()), expected, "{}", v);
    }
    for v in [0.0f64, 16.6, 16.7, 33.3, 33.4, f64::INFINITY, -5.0, f64::NAN] {
        let expected = if v > 33.3 {
            Shade::Red
        } else if v > 16.6 {
            Shade::Yellow
        } else {
            Shade::Green
        };
        assert_eq!(profiler_overlay::wall_shade(v.to_bits()), expected, "{}", v);
    }
}

#[test]
fn queues_and_staging_have_colours() {
    let mut p = ProfilerOverlay::new();
    p.visible = true;
    let mut f = frame();
    f.upload_bytes = 512;
    f.gpu_queue_depth = 65;
    p.feed(f);
    let r = p.report(0).unwrap();
    assert_eq!((r.staging, r.queue), (Shade::Yellow, Shade::Yellow));
    let mut f = frame();
    f.upload_bytes = 2048;
    f.draw_calls = 0;
    p.feed(f);
    let r = p.report(0).unwrap();
    assert_eq!((r.staging, r.queue), (Shade::Red, Shade::Rgb(180, 180, 180)));
    assert_eq!(r.avg_tris, 0);
}

#[test]
fn counts_are_written_out() {
    let f = frame();
    assert_eq!(profiler_overlay::draws_text(&f), "Draws: 3  shadow: 2  tris: 100");
    assert_eq!(profiler_overlay::chunks_text(&f), "Chunks: 11  vis=7  cull=4");
    assert_eq!(profiler_overlay::lod_text(&f), "LOD: 0=1  1=2  2=3");
    assert_eq!(profiler_overlay::pending_text(&f), "Worker pending: 9   upload Q: 64");
}

#[test]
fn stages_say_how_much_they_handled() {
    let f = frame();
    assert_eq!(profiler_overlay::stage_note(&f, 0), "  (1 chunks)");
    assert_eq!(profiler_overlay::stage_note(&f, 1), "  (2 dirty)");
    assert_eq!(profiler_overlay::stage_note(&f, 2), "  3 bufs");
    assert_eq!(profiler_overlay::stage_note(&f, 3), "");
    assert_eq!(profiler_overlay::stage_note(&f, 12), "");
}
