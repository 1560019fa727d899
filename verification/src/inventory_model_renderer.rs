//! Which models are drawn into which slots, and where their uniforms lie.
use crate::inventory::SlotRect;
use crate::previews;
use crate::previews::Viewport;
use crate::table::Table;
use vstd::prelude::*;
use vstd::string::*;

verus! {

/// Most slots that are drawn in one frame.
pub const MAX_SLOTS: usize = 256;

/// Distance to which the offset of a slot's uniforms is rounded, in bytes.
pub const DYNAMIC_ALIGN: u64 = 256;

/// Bytes of the uniforms of one slot.
pub const PREVIEW_UNIFORM_SIZE: u64 = 176;

/// A slot in which a model is to be drawn.
#[derive(Debug)]
pub struct ModelPreviewSlot {
    pub model_id: String,
    pub rect: SlotRect,
}

/// A slot in which a model is to be drawn, in pixels.
#[derive(Debug)]
pub struct PixelSlot {
    pub model_id: String,
    pub x: u32,
    pub y: u32,
    pub width: u32,
    pub height: u32,
}

/// A model that is drawn: the number of its slot, where, from which offset its
/// uniforms are read, and how many indices it has.
#[derive(Debug, Clone, Copy, PartialEq, Eq, Structural)]
pub struct PreviewDraw {
    pub slot: usize,
    pub viewport: Viewport,
    pub offset: u32,
    pub index_count: u32,
}

/// What is drawn in a frame, and whether the depth picture has to be made anew
/// before.
#[derive(Debug)]
pub struct PreviewPlan {
    pub new_depth: bool,
    pub draws: Vec<PreviewDraw>,
}

/// The known models, each with its number of indices, and the size of the
/// depth picture.
pub struct InventoryModelRenderer {
    models: Table<String, u32>,
    depth_size: (u32, u32),
}

/// The known models and the size of the depth picture as a mathematical value.
#[verifier::ext_equal]
pub struct PreviewModels {
    pub models: Map<Seq<char>, u32>,
    pub depth_size: (u32, u32),
}

impl View for InventoryModelRenderer {
    type V = PreviewModels;

    closed spec fn view(&self) -> PreviewModels {
        PreviewModels { models: self.models@, depth_size: self.depth_size }
    }
}

/// The least multiple of `step` that is not below `n`.
pub open spec fn rounded_up(n: int, step: int) -> int {
    if n % step == 0 {
        n
    } else {
        n + step - n % step
    }
}

/// Distance between the uniforms of two slots, in bytes.
pub fn aligned_uniform_size() -> (r: u64)
    ensures
        r == rounded_up(PREVIEW_UNIFORM_SIZE as int, DYNAMIC_ALIGN as int),
        r == 256,
{
    let rest: u64 = PREVIEW_UNIFORM_SIZE % DYNAMIC_ALIGN;
    if rest == 0 {
        PREVIEW_UNIFORM_SIZE
    } else {
        PREVIEW_UNIFORM_SIZE + (DYNAMIC_ALIGN - rest)
    }
}

impl PreviewModels {
    /// A slot is drawn where its model is known and it has pixels.
    pub open spec fn drawable(self, s: PixelSlot) -> bool {
        self.models.dom().contains(s.model_id@) && s.width != 0 && s.height != 0
    }

    /// Slot `i` is drawn as `d`.
    pub open spec fn is_draw(
        self,
        slots: Seq<PixelSlot>,
        i: int,
        fb_width: u32,
        fb_height: u32,
        d: PreviewDraw,
    ) -> bool {
        let s = slots[i];
        &&& d.slot == i
        &&& d.index_count == self.models[s.model_id@]
        &&& d.offset == i * 256
        &&& d.viewport.x == previews::clamped_start(s.x as int, fb_width as int)
        &&& d.viewport.y == previews::clamped_start(s.y as int, fb_height as int)
        &&& d.viewport.width == previews::clamped_length(
            s.width as int,
            d.viewport.x as int,
            fb_width as int,
        )
        &&& d.viewport.height == previews::clamped_length(
            s.height as int,
            d.viewport.y as int,
            fb_height as int,
        )
    }

    /// The numbers of the drawable slots among the first `n`.
    pub open spec fn drawn_slots(self, slots: Seq<PixelSlot>, n: int) -> Seq<int>
        decreases n,
    {
        if n <= 0 {
            Seq::empty()
        } else if self.drawable(slots[n - 1]) {
            self.drawn_slots(slots, n - 1).push(n - 1)
        } else {
            self.drawn_slots(slots, n - 1)
        }
    }
}

/// The number of slots that are looked at.
pub open spec fn considered(n: nat) -> int {
    if n <= MAX_SLOTS {
        n as int
    } else {
        MAX_SLOTS as int
    }
}

impl InventoryModelRenderer {
    /// The table of models is in order.
    pub closed spec fn wf(&self) -> bool {
        self.models.wf()
    }

    /// No models, and a depth picture of one pixel.
    pub fn new() -> (r: InventoryModelRenderer)
        ensures
            r.wf(),
            r@ == (PreviewModels { models: Map::empty(), depth_size: (1, 1) }),
    {
        InventoryModelRenderer { models: Table::new(), depth_size: (1, 1) }
    }

    /// Takes a model in, unless one of that name is known. Says whether it was
    /// taken in.
    pub fn register_model(&mut self, model_id: String, index_count: u32) -> (taken: bool)
        requires
            old(self).wf(),
        ensures
            final(self).wf(),
            taken == !old(self)@.models.dom().contains(model_id@),
            final(self)@ == (if taken {
                PreviewModels {
                    models: old(self)@.models.insert(model_id@, index_count),
                    ..old(self)@
                }
            } else {
                old(self)@
            }),
    {
        self.models.insert_new(model_id, index_count)
    }

    /// Whether a model of that name is known.
    pub fn is_registered(&self, model_id: &String) -> (r: bool)
        requires
            self.wf(),
        ensures
            r == self@.models.dom().contains(model_id@),
    {
        self.models.contains_key(model_id)
    }

    /// What is drawn into the slots of a frame. Without slots nothing happens;
    /// else the depth picture takes the size of the frame, and each slot with a
    /// known model is drawn, up to the greatest number of slots.
    pub fn plan_previews(&mut self, slots: &Vec<PixelSlot>, fb_width: u32, fb_height: u32) -> (r:
        PreviewPlan)
        requires
            old(self).wf(),
        ensures
            final(self).wf(),
            final(self)@.models == old(self)@.models,
            final(self)@.depth_size == (if slots@.len() == 0 {
                old(self)@.depth_size
            } else {
                (fb_width, fb_height)
            }),
            r.new_depth == (final(self)@.depth_size != old(self)@.depth_size),
            r.draws@.len() == old(self)@.drawn_slots(slots@, considered(slots@.len())).len(),
            forall|k: int|
                #![trigger r.draws@[k]]
                0 <= k < r.draws@.len() ==> old(self)@.is_draw(
                    slots@,
                    old(self)@.drawn_slots(slots@, considered(slots@.len()))[k],
                    fb_width,
                    fb_height,
                    r.draws@[k],
                ),
    {
        let mut draws: Vec<PreviewDraw> = Vec::new();
        if slots.len() == 0 {
            return PreviewPlan { new_depth: false, draws };
        }
        let new_depth: bool = self.depth_size.0 != fb_width || self.depth_size.1 != fb_height;
        self.depth_size = (fb_width, fb_height);
        let ghost m = old(self)@;
        let step: u64 = aligned_uniform_size();
        let mut i: usize = 0;
        while i < slots.len() && i < MAX_SLOTS
            invariant
                i <= slots@.len(),
                i <= MAX_SLOTS,
                step == 256,
                self.wf(),
                self@.models == m.models,
                draws@.len() == m.drawn_slots(slots@, i as int).len(),
                forall|k: int|
                    #![trigger draws@[k]]
                    0 <= k < draws@.len() ==> m.is_draw(
                        slots@,
                        m.drawn_slots(slots@, i as int)[k],
                        fb_width,
                        fb_height,
                        draws@[k],
                    ),
            decreases slots@.len() - i,
        {
            let s: &PixelSlot = &slots[i];
            if let Some(index_count) = self.models.get(&s.model_id) {
                if let Some(viewport) = previews::clamp_viewport(
                    s.x,
                    s.y,
                    s.width,
                    s.height,
                    fb_width,
                    fb_height,
                ) {
                    let offset: u32 = (i as u64 * step) as u32;
                    draws.push(
                        PreviewDraw { slot: i, viewport, offset, index_count: *index_count },
                    );
                }
            }
            i += 1;
        }
        PreviewPlan { new_depth, draws }
    }
}

/// The uniforms of two slots that are drawn do not overlap, and all of them lie
/// in a buffer with room for the greatest number of slots.
pub proof fn law_uniforms_disjoint(
    m: PreviewModels,
    slots: Seq<PixelSlot>,
    fb_width: u32,
    fb_height: u32,
    i: int,
    j: int,
    a: PreviewDraw,
    b: PreviewDraw,
)
    requires
        0 <= i < j < considered(slots.len()),
        m.is_draw(slots, i, fb_width, fb_height, a),
        m.is_draw(slots, j, fb_width, fb_height, b),
    ensures
        a.offset + PREVIEW_UNIFORM_SIZE <= b.offset,
        b.offset + PREVIEW_UNIFORM_SIZE <= MAX_SLOTS * DYNAMIC_ALIGN,
        a.offset % 256 == 0,
{
}

/// The slots that are drawn are the drawable ones among those looked at, each
/// once and in their order.
pub proof fn law_draws_in_order(m: PreviewModels, slots: Seq<PixelSlot>, n: int)
    requires
        0 <= n <= slots.len(),
    ensures
        forall|i: int, j: int|
            #![trigger m.drawn_slots(slots, n)[i], m.drawn_slots(slots, n)[j]]
            0 <= i < j < m.drawn_slots(slots, n).len() ==> m.drawn_slots(slots, n)[i]
                < m.drawn_slots(slots, n)[j],
        forall|s: int|
            #![trigger m.drawn_slots(slots, n).contains(s)]
            m.drawn_slots(slots, n).contains(s) <==> 0 <= s < n && m.drawable(slots[s]),
    decreases n,
{
    if n > 0 {
        law_draws_in_order(m, slots, n - 1);
        let before = m.drawn_slots(slots, n - 1);
        let after = m.drawn_slots(slots, n);
        assert forall|i: int| #![trigger before[i]] 0 <= i < before.len() implies before[i] < n
            - 1 by {
            assert(before.contains(before[i]));
        }
        assert forall|s: int| #![trigger after.contains(s)] after.contains(s) <==> 0 <= s < n
            && m.drawable(slots[s]) by {
            if after.contains(s) {
                let k = choose|k: int| #![trigger after[k]] 0 <= k < after.len() && after[k] == s;
                if k < before.len() {
                    assert(before[k] == s);
                    assert(before.contains(s));
                }
            }
            if before.contains(s) {
                let k = choose|k: int|
                    #![trigger before[k]]
                    0 <= k < before.len() && before[k] == s;
                assert(after[k] == s);
            }
            if s == n - 1 && m.drawable(slots[s]) {
                assert(after[before.len() as int] == s);
            }
        }
    }
}

/// Rounding up gives the smallest multiple of a step that is not less.
pub proof fn law_rounded_up(n: int, step: int)
    requires
        step > 0,
    ensures
        rounded_up(n, step) % step == 0,
        n <= rounded_up(n, step) < n + step,
{
    vstd::arithmetic::div_mod::lemma_mod_bound(n, step);
    if n % step != 0 {
        vstd::arithmetic::div_mod::lemma_fundamental_div_mod(n, step);
        let q = n / step;
        assert(rounded_up(n, step) == step * q + step);
        assert(step * q + step == (q + 1) * step) by (nonlinear_arith);
        vstd::arithmetic::div_mod::lemma_mod_multiples_basic(q + 1, step);
    }
}

/// Of the slots up to 256 are looked at; one is drawn where its model is
/// registered and it has an area. It is drawn with its model's indices, from the
/// uniforms at its own place, into a view inside the picture.
pub proof fn law_preview_draws(
    m: PreviewModels,
    slots: Seq<PixelSlot>,
    n: nat,
    i: int,
    fb_width: u32,
    fb_height: u32,
    d: PreviewDraw,
)
    requires
        0 <= i < slots.len(),
        m.is_draw(slots, i, fb_width, fb_height, d),
    ensures
        n <= 256 ==> considered(n) == n,
        n > 256 ==> considered(n) == 256,
        m.drawable(slots[i]) <==> m.models.dom().contains(slots[i].model_id@) && slots[i].width > 0
            && slots[i].height > 0,
        d.slot == i,
        d.offset == 256 * i,
        d.index_count == m.models[slots[i].model_id@],
        slots[i].width > 0 && slots[i].height > 0 && fb_width > 0 && fb_height > 0 ==> {
            &&& d.viewport.x + d.viewport.width <= fb_width
            &&& d.viewport.y + d.viewport.height <= fb_height
            &&& slots[i].x + slots[i].width <= fb_width ==> d.viewport.x == slots[i].x
                && d.viewport.width == slots[i].width
            &&& slots[i].y + slots[i].height <= fb_height ==> d.viewport.y == slots[i].y
                && d.viewport.height == slots[i].height
        },
{
    let s = slots[i];
    if s.width > 0 && s.height > 0 && fb_width > 0 && fb_height > 0 {
        previews::law_viewport_inside(s.x as int, s.width as int, fb_width as int);
        previews::law_viewport_inside(s.y as int, s.height as int, fb_height as int);
    }
}

} // verus!
