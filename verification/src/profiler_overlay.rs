//! The overlay that shows where the time of a frame goes.
use crate::text;
use vstd::prelude::*;
use vstd::string::*;

verus! {

/// What is measured in one frame. Times are in microseconds; numbers with a
/// fraction are held as their bits.
#[derive(Debug)]
pub struct ProfilerFrame {
    /// Frames per second, as the bits of a double-precision number.
    pub fps: u64,
    pub frame_total_us: u128,
    pub gen_time_us: u128,
    pub gen_count: usize,
    pub mesh_time_us: u128,
    pub dirty_count: usize,
    pub upload_time_us: u128,
    pub upload_count: usize,
    pub sky_render_us: u128,
    pub vct_upload_us: u128,
    pub vct_dispatch_us: u128,
    pub render_3d_us: u128,
    pub transparent_us: u128,
    pub entity_render_us: u128,
    pub block_model_us: u128,
    pub hand_block_us: u128,
    pub water_render_us: u128,
    pub outline_us: u128,
    pub total_chunks: usize,
    pub visible_chunks: u32,
    pub culled_chunks: u32,
    pub lod0_count: usize,
    pub lod1_count: usize,
    pub lod2_count: usize,
    pub worker_pending: usize,
    pub upload_pending: usize,
    pub gpu_queue_depth: usize,
    pub vram_bytes: u64,
    pub draw_calls: u32,
    pub shadow_draw_calls: u32,
    pub visible_triangles: u32,
    pub visible_vram_bytes: u64,
    pub upload_bytes: u64,
    /// Megabytes per second, as the bits of a double-precision number.
    pub upload_throughput_mb_s: u64,
    /// Position of the camera, as the bits of single-precision numbers.
    pub cam_pos: [u32; 3],
    pub get_texture_us: u128,
    pub update_us: u128,
    pub egui_build_us: u128,
    pub egui_render_us: u128,
    pub submit_present_us: u128,
}

/// Colour of a line.
#[derive(Debug, Clone, Copy, PartialEq, Eq, Structural)]
pub enum Shade {
    Green,
    Yellow,
    Red,
    Rgb(u8, u8, u8),
}

/// A line of the overlay that shows a time.
#[derive(Debug, Clone, Copy, PartialEq, Eq, Structural)]
pub struct TimeLine {
    pub us: u128,
    pub shade: Shade,
    /// Whether the line is marked as the heaviest.
    pub marked: bool,
}

/// What the overlay says of a frame.
#[derive(Debug)]
pub struct ProfilerReport {
    pub fps: Shade,
    /// The stages of the pipeline, in order.
    pub stages: Vec<TimeLine>,
    /// The phases of the frame, in order.
    pub phases: Vec<TimeLine>,
    /// Sum of the stages.
    pub stages_us: u128,
    /// Sum of the phases.
    pub accounted_us: u128,
    /// What is left of the frame beside the phases.
    pub gap_us: u128,
    /// Triangles of a draw call on average.
    pub avg_tris: u32,
    pub staging: Shade,
    pub queue: Shade,
}

/// Green below the first bound, red from the second bound on, yellow between.
pub open spec fn severity(us: int, warn: int, crit: int) -> Shade {
    if us >= crit {
        Shade::Red
    } else if us >= warn {
        Shade::Yellow
    } else {
        Shade::Green
    }
}

fn shade_of(us: u128, warn: u128, crit: u128) -> (r: Shade)
    ensures
        r == severity(us as int, warn as int, crit as int),
{
    if us >= crit {
        Shade::Red
    } else if us >= warn {
        Shade::Yellow
    } else {
        Shade::Green
    }
}

/// Bits of positive infinity.
pub const F64_INFINITY: u64 = 0x7FF0_0000_0000_0000;

/// Bits of 60.
pub const F64_60: u64 = 0x404E_0000_0000_0000;

/// Bits of 30.
pub const F64_30: u64 = 0x403E_0000_0000_0000;

/// Bits of 33.3.
pub const F64_33_3: u64 = 0x4040_A666_6666_6666;

/// Bits of 16.6.
pub const F64_16_6: u64 = 0x4030_9999_9999_999A;

/// The number of bits `bits` is at least the positive one of bits `bound`. The
/// bits of positive numbers are ordered as the numbers are; what is negative or
/// no number is below every bound.
pub open spec fn at_least(bits: u64, bound: u64) -> bool {
    bound <= bits <= F64_INFINITY
}

/// Colour of the frame rate: good from 60 on, bad below 30.
pub fn fps_shade(fps: u64) -> (r: Shade)
    ensures
        r == (if at_least(fps, F64_60) {
            Shade::Green
        } else if at_least(fps, F64_30) {
            Shade::Yellow
        } else {
            Shade::Red
        }),
{
    if fps > F64_INFINITY {
        Shade::Red
    } else if fps >= F64_60 {
        Shade::Green
    } else if fps >= F64_30 {
        Shade::Yellow
    } else {
        Shade::Red
    }
}

/// Colour of the time of a frame in milliseconds: bad above 33.3, good up to
/// 16.6.
pub fn wall_shade(wall_ms: u64) -> (r: Shade)
    ensures
        r == (if wall_ms != F64_33_3 && at_least(wall_ms, F64_33_3) {
            Shade::Red
        } else if wall_ms != F64_16_6 && at_least(wall_ms, F64_16_6) {
            Shade::Yellow
        } else {
            Shade::Green
        }),
{
    if wall_ms > F64_INFINITY {
        Shade::Green
    } else if wall_ms > F64_33_3 {
        Shade::Red
    } else if wall_ms > F64_16_6 {
        Shade::Yellow
    } else {
        Shade::Green
    }
}

impl ProfilerFrame {
    /// The times of the stages, in order.
    pub open spec fn stage_us(self) -> Seq<u128> {
        seq![
            self.gen_time_us,
            self.mesh_time_us,
            self.upload_time_us,
            self.sky_render_us,
            self.vct_upload_us,
            self.vct_dispatch_us,
            self.render_3d_us,
            self.transparent_us,
            self.entity_render_us,
            self.block_model_us,
            self.hand_block_us,
            self.water_render_us,
            self.outline_us,
        ]
    }

    /// Sum of the stages.
    pub open spec fn stage_sum(self) -> int {
        self.gen_time_us + self.mesh_time_us + self.upload_time_us + self.sky_render_us
            + self.vct_upload_us + self.vct_dispatch_us + self.render_3d_us + self.transparent_us
            + self.entity_render_us + self.block_model_us + self.hand_block_us
            + self.water_render_us + self.outline_us
    }

    /// Sum of the phases.
    pub open spec fn phase_sum(self) -> int {
        self.get_texture_us + self.update_us + self.egui_build_us + self.frame_total_us
            + self.egui_render_us + self.submit_present_us
    }

    /// `k` is the heaviest stage, the last one where several are.
    pub open spec fn is_heaviest(self, k: int) -> bool {
        let s = self.stage_us();
        &&& 0 <= k < s.len()
        &&& forall|i: int| #![trigger s[i]] 0 <= i < s.len() ==> s[i] <= s[k]
        &&& forall|i: int| #![trigger s[i]] k < i < s.len() ==> s[i] < s[k]
    }
}

/// The bounds of a stage's time from which it is yellow and red.
pub open spec fn stage_bounds() -> Seq<(int, int)> {
    seq![
        (5_000, 15_000),
        (5_000, 15_000),
        (2_000, 5_000),
        (1_000, 3_000),
        (1_000, 3_000),
        (1_000, 4_000),
        (2_000, 5_000),
        (500, 2_000),
        (500, 2_000),
        (500, 2_000),
        (200, 1_000),
        (500, 2_000),
        (500, 2_000),
    ]
}

/// A stage is marked where it is the heaviest and takes more than half a
/// millisecond.
pub open spec fn marked_stage(f: ProfilerFrame, k: int) -> bool {
    f.is_heaviest(k) && f.stage_us()[k] > 500
}

/// Line `k` of the stages.
pub open spec fn stage_line(f: ProfilerFrame, k: int) -> TimeLine {
    TimeLine {
        us: f.stage_us()[k],
        shade: if marked_stage(f, k) {
            Shade::Rgb(255, 120, 120)
        } else {
            severity(f.stage_us()[k] as int, stage_bounds()[k].0, stage_bounds()[k].1)
        },
        marked: marked_stage(f, k),
    }
}

fn stage_lines(f: &ProfilerFrame) -> (r: Vec<TimeLine>)
    ensures
        r@ == Seq::new(13, |k: int| stage_line(*f, k)),
{
    let bounds: [(u128, u128); 13] = [
        (5_000, 15_000),
        (5_000, 15_000),
        (2_000, 5_000),
        (1_000, 3_000),
        (1_000, 3_000),
        (1_000, 4_000),
        (2_000, 5_000),
        (500, 2_000),
        (500, 2_000),
        (500, 2_000),
        (200, 1_000),
        (500, 2_000),
        (500, 2_000),
    ];
    let us: [u128; 13] = [
        f.gen_time_us,
        f.mesh_time_us,
        f.upload_time_us,
        f.sky_render_us,
        f.vct_upload_us,
        f.vct_dispatch_us,
        f.render_3d_us,
        f.transparent_us,
        f.entity_render_us,
        f.block_model_us,
        f.hand_block_us,
        f.water_render_us,
        f.outline_us,
    ];
    assert(us@ =~= f.stage_us());
    assert(forall|k: int|
        #![trigger bounds@[k]]
        0 <= k < 13 ==> bounds@[k].0 == stage_bounds()[k].0 && bounds@[k].1 == stage_bounds()[k].1);
    let mut worst: usize = 0;
    let mut i: usize = 1;
    while i < 13
        invariant
            1 <= i <= 13,
            worst < i,
            us@.len() == 13,
            forall|k: int| #![trigger us@[k]] 0 <= k < i ==> us@[k] <= us@[worst as int],
            forall|k: int| #![trigger us@[k]] worst < k < i ==> us@[k] < us@[worst as int],
        decreases 13 - i,
    {
        if us[i] >= us[worst] {
            worst = i;
        }
        i += 1;
    }
    assert(f.is_heaviest(worst as int));
    assert(forall|k: int| #![trigger f.is_heaviest(k)] f.is_heaviest(k) ==> k == worst) by {
        assert forall|k: int| #![trigger f.is_heaviest(k)] f.is_heaviest(k) implies k == worst by {
            let s = f.stage_us();
            assert(s[k] <= s[worst as int] && s[worst as int] <= s[k]);
        }
    }
    let mut r: Vec<TimeLine> = Vec::new();
    let mut k: usize = 0;
    while k < 13
        invariant
            k <= 13,
            worst < 13,
            us@ == f.stage_us(),
            bounds@.len() == 13,
            forall|k: int|
                #![trigger bounds@[k]]
                0 <= k < 13 ==> bounds@[k].0 == stage_bounds()[k].0 && bounds@[k].1
                    == stage_bounds()[k].1,
            f.is_heaviest(worst as int),
            forall|k: int| #![trigger f.is_heaviest(k)] f.is_heaviest(k) ==> k == worst,
            r@ == Seq::new(k as nat, |j: int| stage_line(*f, j)),
        decreases 13 - k,
    {
        let marked: bool = k == worst && us[k] > 500;
        let shade: Shade = if marked {
            Shade::Rgb(255, 120, 120)
        } else {
            shade_of(us[k], bounds[k].0, bounds[k].1)
        };
        r.push(TimeLine { us: us[k], shade, marked });
        assert(marked == marked_stage(*f, k as int));
        k += 1;
        assert(r@ =~= Seq::new(k as nat, |j: int| stage_line(*f, j)));
    }
    r
}

/// A line that is not marked.
pub open spec fn plain_line(us: u128, shade: Shade) -> TimeLine {
    TimeLine { us, shade, marked: false }
}

/// The lines of the phases: waiting for the last frame's picture, the update,
/// building the interface, drawing the world, drawing the interface, handing
/// the frame over.
pub open spec fn phase_lines_spec(f: ProfilerFrame) -> Seq<TimeLine> {
    seq![
        plain_line(
            f.get_texture_us,
            if f.get_texture_us > 10_000 {
                Shade::Red
            } else if f.get_texture_us > 5_000 {
                Shade::Yellow
            } else {
                Shade::Rgb(255, 220, 120)
            },
        ),
        plain_line(f.update_us, severity(f.update_us as int, 2_000, 5_000)),
        plain_line(f.egui_build_us, severity(f.egui_build_us as int, 2_000, 5_000)),
        plain_line(f.frame_total_us, severity(f.frame_total_us as int, 2_000, 8_000)),
        plain_line(f.egui_render_us, severity(f.egui_render_us as int, 1_000, 3_000)),
        plain_line(f.submit_present_us, severity(f.submit_present_us as int, 500, 2_000)),
    ]
}

fn plain(us: u128, shade: Shade) -> (r: TimeLine)
    ensures
        r == plain_line(us, shade),
{
    TimeLine { us, shade, marked: false }
}

fn phase_lines(f: &ProfilerFrame) -> (r: Vec<TimeLine>)
    ensures
        r@ == phase_lines_spec(*f),
{
    let mut r: Vec<TimeLine> = Vec::new();
    let sync: Shade = if f.get_texture_us > 10_000 {
        Shade::Red
    } else if f.get_texture_us > 5_000 {
        Shade::Yellow
    } else {
        Shade::Rgb(255, 220, 120)
    };
    r.push(plain(f.get_texture_us, sync));
    r.push(plain(f.update_us, shade_of(f.update_us, 2_000, 5_000)));
    r.push(plain(f.egui_build_us, shade_of(f.egui_build_us, 2_000, 5_000)));
    r.push(plain(f.frame_total_us, shade_of(f.frame_total_us, 2_000, 8_000)));
    r.push(plain(f.egui_render_us, shade_of(f.egui_render_us, 1_000, 3_000)));
    r.push(plain(f.submit_present_us, shade_of(f.submit_present_us, 500, 2_000)));
    assert(r@ =~= phase_lines_spec(*f));
    r
}

/// The overlay: whether it is shown, and the last frame that was measured.
#[derive(Debug)]
pub struct ProfilerOverlay {
    pub visible: bool,
    pub last_frame: Option<ProfilerFrame>,
}

impl ProfilerOverlay {
    /// An overlay that is hidden and knows no frame.
    pub fn new() -> (r: ProfilerOverlay)
        ensures
            !r.visible,
            r.last_frame is None,
    {
        ProfilerOverlay { visible: false, last_frame: None }
    }

    /// Takes a frame in, in place of the one before.
    pub fn feed(&mut self, frame: ProfilerFrame)
        ensures
            final(self).last_frame == Some(frame),
            final(self).visible == old(self).visible,
    {
        self.last_frame = Some(frame);
    }

    /// What the overlay says, where it is shown and knows a frame. `wall_us` is
    /// how long the whole frame took.
    pub fn report(&self, wall_us: u128) -> (r: Option<ProfilerReport>)
        requires
            wall_us <= i128::MAX,
            self.last_frame matches Some(f) ==> f.stage_sum() <= u128::MAX && f.phase_sum()
                <= i128::MAX,
        ensures
            r is Some <==> self.visible && self.last_frame is Some,
            r matches Some(p) ==> {
                let f = self.last_frame->Some_0;
                &&& p.fps == (if at_least(f.fps, F64_60) {
                    Shade::Green
                } else if at_least(f.fps, F64_30) {
                    Shade::Yellow
                } else {
                    Shade::Red
                })
                &&& p.stages@ == Seq::new(13, |k: int| stage_line(f, k))
                &&& p.phases@ == phase_lines_spec(f)
                &&& p.stages_us == f.stage_sum()
                &&& p.accounted_us == f.phase_sum()
                &&& p.gap_us == (if wall_us > f.phase_sum() {
                    wall_us - f.phase_sum()
                } else {
                    0
                })
                &&& p.avg_tris == (if f.draw_calls > 0 {
                    f.visible_triangles as int / f.draw_calls as int
                } else {
                    0
                })
                &&& p.staging == severity(f.upload_bytes * 1000, 512_000, 2_048_000)
                &&& p.queue == (if f.gpu_queue_depth > 64 {
                    Shade::Yellow
                } else {
                    Shade::Rgb(180, 180, 180)
                })
            },
    {
        if !self.visible {
            return None;
        }
        match &self.last_frame {
            None => None,
            Some(f) => {
                let stages_us: u128 = f.gen_time_us + f.mesh_time_us + f.upload_time_us
                    + f.sky_render_us + f.vct_upload_us + f.vct_dispatch_us + f.render_3d_us
                    + f.transparent_us + f.entity_render_us + f.block_model_us + f.hand_block_us
                    + f.water_render_us + f.outline_us;
                let accounted_us: u128 = f.get_texture_us + f.update_us + f.egui_build_us
                    + f.frame_total_us + f.egui_render_us + f.submit_present_us;
                let gap_us: u128 = if wall_us > accounted_us {
                    wall_us - accounted_us
                } else {
                    0
                };
                let avg_tris: u32 = if f.draw_calls > 0 {
                    f.visible_triangles / f.draw_calls
                } else {
                    0
                };
                let queue: Shade = if f.gpu_queue_depth > 64 {
                    Shade::Yellow
                } else {
                    Shade::Rgb(180, 180, 180)
                };
                Some(
                    ProfilerReport {
                        fps: fps_shade(f.fps),
                        stages: stage_lines(f),
                        phases: phase_lines(f),
                        stages_us,
                        accounted_us,
                        gap_us,
                        avg_tris,
                        staging: shade_of(f.upload_bytes as u128 * 1000, 512_000, 2_048_000),
                        queue,
                    },
                )
            },
        }
    }
}

/// What stands behind the time of stage `k`: how many chunks were generated,
/// were dirty, or how many buffers were uploaded; nothing for other stages.
pub open spec fn stage_note_text(f: ProfilerFrame, k: int) -> Seq<char> {
    if k == 0 {
        "  ("@ + text::decimal(f.gen_count as nat) + " chunks)"@
    } else if k == 1 {
        "  ("@ + text::decimal(f.dirty_count as nat) + " dirty)"@
    } else if k == 2 {
        "  "@ + text::decimal(f.upload_count as nat) + " bufs"@
    } else {
        Seq::empty()
    }
}

/// What stands behind the time of stage `k`.
pub fn stage_note(f: &ProfilerFrame, k: usize) -> (r: String)
    ensures
        r@ == stage_note_text(*f, k as int),
{
    if k == 0 {
        text::joined3("  (", text::decimal_text(f.gen_count as u64).as_str(), " chunks)")
    } else if k == 1 {
        text::joined3("  (", text::decimal_text(f.dirty_count as u64).as_str(), " dirty)")
    } else if k == 2 {
        text::joined3("  ", text::decimal_text(f.upload_count as u64).as_str(), " bufs")
    } else {
        String::new()
    }
}

/// The line of the draw calls.
pub fn draws_text(f: &ProfilerFrame) -> (r: String)
    ensures
        r@ == "Draws: "@ + text::decimal(f.draw_calls as nat) + "  shadow: "@ + text::decimal(
            f.shadow_draw_calls as nat,
        ) + "  tris: "@ + text::decimal(f.visible_triangles as nat),
{
    triple(
        "Draws: ",
        f.draw_calls as u64,
        "  shadow: ",
        f.shadow_draw_calls as u64,
        "  tris: ",
        f.visible_triangles as u64,
    )
}

/// The line of the chunks.
pub fn chunks_text(f: &ProfilerFrame) -> (r: String)
    ensures
        r@ == "Chunks: "@ + text::decimal(f.total_chunks as nat) + "  vis="@ + text::decimal(
            f.visible_chunks as nat,
        ) + "  cull="@ + text::decimal(f.culled_chunks as nat),
{
    triple(
        "Chunks: ",
        f.total_chunks as u64,
        "  vis=",
        f.visible_chunks as u64,
        "  cull=",
        f.culled_chunks as u64,
    )
}

/// The line of the levels of detail.
pub fn lod_text(f: &ProfilerFrame) -> (r: String)
    ensures
        r@ == "LOD: 0="@ + text::decimal(f.lod0_count as nat) + "  1="@ + text::decimal(
            f.lod1_count as nat,
        ) + "  2="@ + text::decimal(f.lod2_count as nat),
{
    triple(
        "LOD: 0=",
        f.lod0_count as u64,
        "  1=",
        f.lod1_count as u64,
        "  2=",
        f.lod2_count as u64,
    )
}

/// The line of what waits to be done.
pub fn pending_text(f: &ProfilerFrame) -> (r: String)
    ensures
        r@ == "Worker pending: "@ + text::decimal(f.worker_pending as nat) + "   upload Q: "@
            + text::decimal(f.gpu_queue_depth as nat),
{
    let a: String = text::decimal_text(f.worker_pending as u64);
    let b: String = text::decimal_text(f.gpu_queue_depth as u64);
    let head: String = text::joined3("Worker pending: ", a.as_str(), "   upload Q: ");
    text::joined(head.as_str(), b.as_str())
}

fn triple(a: &str, x: u64, b: &str, y: u64, c: &str, z: u64) -> (r: String)
    ensures
        r@ == a@ + text::decimal(x as nat) + b@ + text::decimal(y as nat) + c@ + text::decimal(
            z as nat,
        ),
{
    let xt: String = text::decimal_text(x);
    let yt: String = text::decimal_text(y);
    let zt: String = text::decimal_text(z);
    let one: String = text::joined3(a, xt.as_str(), b);
    let two: String = text::joined3(one.as_str(), yt.as_str(), c);
    text::joined(two.as_str(), zt.as_str())
}

/// At most one stage is marked, and no stage takes longer than a marked one.
pub proof fn law_one_stage_marked(f: ProfilerFrame, a: int, b: int)
    requires
        0 <= a < 13,
        0 <= b < 13,
        stage_line(f, a).marked,
    ensures
        stage_line(f, b).marked ==> a == b,
        f.stage_us()[b] <= f.stage_us()[a],
{
}

/// A time is red from its critical bound on, yellow from its warning bound on
/// and green below both.
pub proof fn law_severity(us: int, warn: int, crit: int)
    requires
        warn <= crit,
    ensures
        severity(us, warn, crit) is Red <==> crit <= us,
        severity(us, warn, crit) is Yellow <==> warn <= us < crit,
        severity(us, warn, crit) is Green <==> us < warn,
{
}

/// The bits of a number that is not negative order as the numbers do, and
/// neither a negative number nor what is no number reaches a bound.
pub proof fn law_at_least(a: u64, b: u64, bound: u64)
    requires
        bound <= 0x7ff0_0000_0000_0000,
    ensures
        at_least(bound, bound),
        at_least(a, bound) && a <= b <= 0x7ff0_0000_0000_0000 ==> at_least(b, bound),
        a < bound ==> !at_least(a, bound),
        a > 0x7ff0_0000_0000_0000 ==> !at_least(a, bound),
{
}

/// The stages of a frame in the order in which they are shown, and the sums
/// that are shown below them: the sum of the stages is that of all of them.
pub proof fn law_stages(f: ProfilerFrame)
    ensures
        f.stage_us().len() == 13,
        f.stage_us()[0] == f.gen_time_us && f.stage_us()[1] == f.mesh_time_us && f.stage_us()[2]
            == f.upload_time_us,
        f.stage_us()[3] == f.sky_render_us && f.stage_us()[4] == f.vct_upload_us && f.stage_us()[5]
            == f.vct_dispatch_us,
        f.stage_us()[6] == f.render_3d_us && f.stage_us()[7] == f.transparent_us && f.stage_us()[8]
            == f.entity_render_us,
        f.stage_us()[9] == f.block_model_us && f.stage_us()[10] == f.hand_block_us
            && f.stage_us()[11] == f.water_render_us && f.stage_us()[12] == f.outline_us,
        f.stage_sum() == f.stage_us().fold_left(0int, |t: int, us: u128| t + us),
        f.phase_sum() == phase_lines_spec(f).fold_left(0int, |t: int, l: TimeLine| t + l.us),
{
    reveal_with_fuel(Seq::fold_left, 14);
    let s = f.stage_us();
    let g = |t: int, us: u128| t + us;
    assert(s.take(13) =~= s);
    assert(s.take(0).fold_left(0int, g) == 0);
    lemma_fold_step(s, 0, g);
    lemma_fold_step(s, 1, g);
    lemma_fold_step(s, 2, g);
    lemma_fold_step(s, 3, g);
    lemma_fold_step(s, 4, g);
    lemma_fold_step(s, 5, g);
    lemma_fold_step(s, 6, g);
    lemma_fold_step(s, 7, g);
    lemma_fold_step(s, 8, g);
    lemma_fold_step(s, 9, g);
    lemma_fold_step(s, 10, g);
    lemma_fold_step(s, 11, g);
    lemma_fold_step(s, 12, g);
    let p = phase_lines_spec(f);
    let h = |t: int, l: TimeLine| t + l.us;
    assert(p.take(6) =~= p);
    assert(p.take(0).fold_left(0int, h) == 0);
    lemma_fold_step(p, 0, h);
    lemma_fold_step(p, 1, h);
    lemma_fold_step(p, 2, h);
    lemma_fold_step(p, 3, h);
    lemma_fold_step(p, 4, h);
    lemma_fold_step(p, 5, h);
}

proof fn lemma_fold_step<A>(s: Seq<A>, i: int, g: spec_fn(int, A) -> int)
    requires
        0 <= i < s.len(),
    ensures
        s.take(i + 1).fold_left(0int, g) == g(s.take(i).fold_left(0int, g), s[i]),
{
    assert(s.take(i + 1).drop_last() =~= s.take(i));
    assert(s.take(i + 1).last() == s[i]);
}

/// The line of a stage shows its own time. The longest stage, and of equal
/// ones the last, is marked and shown in its own red where it takes more than 500
/// microseconds; every other is shown by its bounds and not marked.
pub proof fn law_stage_line(f: ProfilerFrame, k: int)
    requires
        0 <= k < 13,
    ensures
        stage_line(f, k).us == f.stage_us()[k],
        stage_line(f, k).marked <==> f.stage_us()[k] > 500 && (forall|i: int|
            #![trigger f.stage_us()[i]]
            0 <= i < 13 ==> f.stage_us()[i] < f.stage_us()[k] || f.stage_us()[i] == f.stage_us()[k]
                && i <= k),
        stage_line(f, k).marked ==> stage_line(f, k).shade == Shade::Rgb(255, 120, 120),
        !stage_line(f, k).marked ==> stage_line(f, k).shade == severity(
            f.stage_us()[k] as int,
            stage_bounds()[k].0,
            stage_bounds()[k].1,
        ),
        0 < stage_bounds()[k].0 < stage_bounds()[k].1,
{
    let s = f.stage_us();
    assert(s.len() == 13);
    if f.is_heaviest(k) {
        assert forall|i: int| #![trigger f.stage_us()[i]] 0 <= i < 13 implies f.stage_us()[i]
            < f.stage_us()[k] || f.stage_us()[i] == f.stage_us()[k] && i <= k by {
            assert(s[i] <= s[k]);
        }
    }
}

/// The bounds of the stages in microseconds: making and meshing chunks may
/// take 5000 and 15000, uploads and the world 2000 and 5000, sky and the upload of
/// light 1000 and 3000, the spread of light 1000 and 4000, the block in hand 200 and
/// 1000, and every other stage 500 and 2000.
pub proof fn law_stage_bounds(k: int)
    requires
        0 <= k < 13,
    ensures
        stage_bounds().len() == 13,
        k <= 1 ==> stage_bounds()[k] == (5_000int, 15_000int),
        k == 2 || k == 6 ==> stage_bounds()[k] == (2_000int, 5_000int),
        k == 3 || k == 4 ==> stage_bounds()[k] == (1_000int, 3_000int),
        k == 5 ==> stage_bounds()[k] == (1_000int, 4_000int),
        k == 10 ==> stage_bounds()[k] == (200int, 1_000int),
        7 <= k <= 9 || 11 <= k ==> stage_bounds()[k] == (500int, 2_000int),
{
}

/// The lines of the phases: each shows its own time, none is marked, and each
/// is shaded by its own bounds. Waiting for a picture is red above 10000
/// microseconds and yellow above 5000.
pub proof fn law_phase_lines(f: ProfilerFrame, k: int)
    requires
        0 <= k < 6,
    ensures
        ({
            let p = phase_lines_spec(f);
            &&& p.len() == 6
            &&& !p[k].marked
            &&& p[0].us == f.get_texture_us && p[1].us == f.update_us && p[2].us == f.egui_build_us
            &&& p[3].us == f.frame_total_us && p[4].us == f.egui_render_us && p[5].us
                == f.submit_present_us
            &&& p[0].shade is Red <==> f.get_texture_us > 10_000
            &&& p[0].shade is Yellow <==> 5_000 < f.get_texture_us <= 10_000
            &&& f.get_texture_us <= 5_000 ==> p[0].shade == Shade::Rgb(255, 220, 120)
            &&& p[1].shade is Red <==> f.update_us >= 5_000
            &&& p[1].shade is Green <==> f.update_us < 2_000
            &&& p[2].shade is Red <==> f.egui_build_us >= 5_000
            &&& p[2].shade is Green <==> f.egui_build_us < 2_000
            &&& p[3].shade is Red <==> f.frame_total_us >= 8_000
            &&& p[3].shade is Green <==> f.frame_total_us < 2_000
            &&& p[4].shade is Red <==> f.egui_render_us >= 3_000
            &&& p[4].shade is Green <==> f.egui_render_us < 1_000
            &&& p[5].shade is Red <==> f.submit_present_us >= 2_000
            &&& p[5].shade is Green <==> f.submit_present_us < 500
            &&& k > 0 && !(p[k].shade is Red) && !(p[k].shade is Green) ==> p[k].shade is Yellow
        }),
{
}

/// Only the first three stages have a note, which counts what they did.
pub proof fn law_stage_notes(f: ProfilerFrame, k: int)
    ensures
        k == 0 ==> stage_note_text(f, k) == "  ("@ + text::decimal(f.gen_count as nat) + " chunks)"@,
        k == 1 ==> stage_note_text(f, k) == "  ("@ + text::decimal(f.dirty_count as nat)
            + " dirty)"@,
        k == 2 ==> stage_note_text(f, k) == "  "@ + text::decimal(f.upload_count as nat)
            + " bufs"@,
        k < 0 || k > 2 ==> stage_note_text(f, k).len() == 0,
{
}

/// The frame rates at which the colour changes are 60 and 30 frames a second,
/// and the frame times 33.3 and 16.6 milliseconds, as the bits of
/// double-precision numbers. A rate below 30 is never green, and one that is green
/// is at least 60.
pub proof fn law_frame_bounds(bits: u64)
    ensures
        at_least(bits, F64_60) <==> 0x404E_0000_0000_0000 <= bits <= 0x7FF0_0000_0000_0000,
        at_least(bits, F64_30) <==> 0x403E_0000_0000_0000 <= bits <= 0x7FF0_0000_0000_0000,
        at_least(bits, F64_33_3) <==> 0x4040_A666_6666_6666 <= bits <= 0x7FF0_0000_0000_0000,
        at_least(bits, F64_16_6) <==> 0x4030_9999_9999_999A <= bits <= 0x7FF0_0000_0000_0000,
        at_least(bits, F64_60) ==> at_least(bits, F64_30),
        at_least(bits, F64_33_3) ==> at_least(bits, F64_16_6),
{
}

} // verus!
