//! Previews of blocks and entities: where they are drawn, what has to be
//! loaded anew, and how the parts of a model are put together.
use crate::inventory_ui::texts;
use crate::text;
use vstd::prelude::*;
use vstd::string::*;

verus! {

/// A rectangle of pixels to draw into.
#[derive(Debug, Clone, Copy, PartialEq, Eq, Structural)]
pub struct Viewport {
    pub x: u32,
    pub y: u32,
    pub width: u32,
    pub height: u32,
}

/// The lesser of two numbers.
pub open spec fn lesser(a: int, b: int) -> int {
    if a <= b {
        a
    } else {
        b
    }
}

/// The first pixel of a stretch, moved into a picture of size `n`.
pub open spec fn clamped_start(start: int, n: int) -> int {
    lesser(
        start,
        if n >= 1 {
            n - 1
        } else {
            0
        },
    )
}

/// The length of a stretch from `start` on, cut at the end of a picture of
/// size `n`, but at least one pixel.
pub open spec fn clamped_length(length: int, start: int, n: int) -> int {
    let room = if n >= start {
        n - start
    } else {
        0
    };
    let l = lesser(length, room);
    if l >= 1 {
        l
    } else {
        1
    }
}

/// The part of a rectangle that lies in a picture. A rectangle without pixels
/// has none.
pub fn clamp_viewport(x: u32, y: u32, w: u32, h: u32, fb_width: u32, fb_height: u32) -> (r: Option<
    Viewport,
>)
    ensures
        r is None <==> w == 0 || h == 0,
        r matches Some(v) ==> {
            &&& v.x == clamped_start(x as int, fb_width as int)
            &&& v.y == clamped_start(y as int, fb_height as int)
            &&& v.width == clamped_length(w as int, v.x as int, fb_width as int)
            &&& v.height == clamped_length(h as int, v.y as int, fb_height as int)
        },
{
    if w == 0 || h == 0 {
        return None;
    }
    let last_x: u32 = fb_width.saturating_sub(1);
    let last_y: u32 = fb_height.saturating_sub(1);
    let vx: u32 = if x <= last_x {
        x
    } else {
        last_x
    };
    let vy: u32 = if y <= last_y {
        y
    } else {
        last_y
    };
    let room_x: u32 = fb_width.saturating_sub(vx);
    let room_y: u32 = fb_height.saturating_sub(vy);
    let cut_w: u32 = if w <= room_x {
        w
    } else {
        room_x
    };
    let cut_h: u32 = if h <= room_y {
        h
    } else {
        room_y
    };
    Some(
        Viewport {
            x: vx,
            y: vy,
            width: if cut_w >= 1 {
                cut_w
            } else {
                1
            },
            height: if cut_h >= 1 {
                cut_h
            } else {
                1
            },
        },
    )
}

/// What is drawn into lies in the picture, where the picture has any pixels.
pub proof fn law_viewport_inside(start: int, length: int, n: int)
    requires
        start >= 0,
        length >= 1,
        n >= 1,
    ensures
        0 <= clamped_start(start, n) < n,
        1 <= clamped_length(length, clamped_start(start, n), n),
        clamped_start(start, n) + clamped_length(length, clamped_start(start, n), n) <= n,
        start + length <= n ==> clamped_start(start, n) == start && clamped_length(
            length,
            start,
            n,
        ) == length,
{
}

/// The texts one behind the other, with a plus sign before each.
pub open spec fn plus_joined(layers: Seq<Seq<char>>) -> Seq<char>
    decreases layers.len(),
{
    if layers.len() == 0 {
        seq![]
    } else {
        plus_joined(layers.drop_last()) + "+"@ + layers.last()
    }
}

/// The key of a texture with layers: the base and the layers, with plus signs
/// between them.
pub fn layer_combo_key(base: &str, layers: &Vec<String>) -> (r: String)
    ensures
        r@ == base@ + plus_joined(texts(layers@)),
{
    let mut s: String = base.to_string();
    let mut i: usize = 0;
    assert(base@ + plus_joined(texts(layers@).take(0)) =~= base@);
    while i < layers.len()
        invariant
            i <= layers@.len(),
            s@ == base@ + plus_joined(texts(layers@).take(i as int)),
        decreases layers@.len() - i,
    {
        let ghost before = s@;
        s.append("+");
        s.append(layers[i].as_str());
        proof {
            let next = texts(layers@).take(i as int + 1);
            assert(next.drop_last() =~= texts(layers@).take(i as int));
            assert(next.last() == layers@[i as int]@);
            assert(s@ =~= base@ + (plus_joined(texts(layers@).take(i as int)) + "+"@
                + layers@[i as int]@));
        }
        i += 1;
    }
    assert(texts(layers@).take(layers@.len() as int) =~= texts(layers@));
    s
}

/// The textures of a side: base and layers.
#[derive(Debug)]
pub struct FaceTextures {
    pub base: String,
    pub layers: Vec<String>,
}

/// The key of a side's textures; empty without any.
pub open spec fn face_key(face: Option<FaceTextures>) -> Seq<char> {
    match face {
        None => seq![],
        Some(f) => f.base@ + plus_joined(texts(f.layers@)),
    }
}

/// The key of a side's textures.
pub fn face_combo_key(face: &Option<FaceTextures>) -> (r: String)
    ensures
        r@ == face_key(*face),
{
    match face {
        None => String::new(),
        Some(f) => layer_combo_key(f.base.as_str(), &f.layers),
    }
}

/// The keys of the textures that a preview shows.
#[derive(Debug)]
pub struct TexKeys {
    pub top: String,
    pub bottom: String,
    pub side: String,
}

/// Which textures of a preview have to be loaded anew.
#[derive(Debug, Clone, Copy, PartialEq, Eq, Structural)]
pub struct FaceReload {
    pub top: bool,
    pub bottom: bool,
    pub side: bool,
}

impl TexKeys {
    /// No textures.
    pub fn new() -> (r: TexKeys)
        ensures
            r.top@ == Seq::<char>::empty(),
            r.bottom@ == Seq::<char>::empty(),
            r.side@ == Seq::<char>::empty(),
    {
        TexKeys { top: String::new(), bottom: String::new(), side: String::new() }
    }

    /// Takes the textures of a block down: top, bottom and side. Those whose
    /// key changed have to be loaded anew.
    pub fn sync_textures(
        &mut self,
        top: &Option<FaceTextures>,
        bottom: &Option<FaceTextures>,
        side: &Option<FaceTextures>,
    ) -> (r: FaceReload)
        ensures
            r.top == (old(self).top@ != face_key(*top)),
            r.bottom == (old(self).bottom@ != face_key(*bottom)),
            r.side == (old(self).side@ != face_key(*side)),
            final(self).top@ == face_key(*top),
            final(self).bottom@ == face_key(*bottom),
            final(self).side@ == face_key(*side),
    {
        let new_top: String = face_combo_key(top);
        let new_bottom: String = face_combo_key(bottom);
        let new_side: String = face_combo_key(side);
        let r: FaceReload = FaceReload {
            top: new_top != self.top,
            bottom: new_bottom != self.bottom,
            side: new_side != self.side,
        };
        self.top = new_top;
        self.bottom = new_bottom;
        self.side = new_side;
        r
    }
}

/// What a preview of an entity has loaded.
#[derive(Debug)]
pub struct LoadedEntity {
    pub model: String,
    pub skin: String,
}

impl LoadedEntity {
    /// Nothing.
    pub fn new() -> (r: LoadedEntity)
        ensures
            r.model@ == Seq::<char>::empty(),
            r.skin@ == Seq::<char>::empty(),
    {
        LoadedEntity { model: String::new(), skin: String::new() }
    }

    /// Takes the files of an entity down. Returns whether the model and whether
    /// the skin have to be loaded anew; an empty path means to do without.
    pub fn sync(&mut self, model_path: &String, skin_path: &Option<String>) -> (r: (bool, bool))
        ensures
            r.0 == (old(self).model@ != model_path@),
            r.1 == (old(self).skin@ != (match *skin_path {
                Some(p) => p@,
                None => Seq::empty(),
            })),
            final(self).model@ == model_path@,
            final(self).skin@ == (match *skin_path {
                Some(p) => p@,
                None => Seq::empty(),
            }),
    {
        let skin: String = match skin_path {
            Some(p) => p.clone(),
            None => String::new(),
        };
        let r: (bool, bool) = (self.model != *model_path, self.skin != skin);
        self.model = model_path.clone();
        self.skin = skin;
        r
    }
}

/// The mesh of a bone: how many vertices it has, and its indices.
#[derive(Debug)]
pub struct BoneMesh {
    pub name: String,
    pub vertex_count: u32,
    pub indices: Vec<u32>,
}

/// The bones of a model put together.
#[derive(Debug)]
pub struct MergedModel {
    /// The places of the bones in the order of their names; their vertices
    /// follow each other in this order.
    pub order: Vec<usize>,
    pub indices: Vec<u32>,
}

/// The number of vertices of all bones.
pub open spec fn vertex_total(bones: Seq<BoneMesh>) -> int
    decreases bones.len(),
{
    if bones.len() == 0 {
        0
    } else {
        vertex_total(bones.drop_last()) + bones.last().vertex_count
    }
}

/// The number of vertices of the bones at the first `n` places of an order.
pub open spec fn vertices_before(bones: Seq<BoneMesh>, order: Seq<usize>, n: int) -> int
    decreases n,
{
    if n <= 0 {
        0
    } else {
        vertices_before(bones, order, n - 1) + bones[order[n - 1] as int].vertex_count
    }
}

/// The indices of the bones at the first `n` places of an order, each moved
/// behind the vertices of the bones before it.
pub open spec fn merged_indices(bones: Seq<BoneMesh>, order: Seq<usize>, n: int) -> Seq<int>
    decreases n,
{
    if n <= 0 {
        seq![]
    } else {
        let base = vertices_before(bones, order, n - 1);
        merged_indices(bones, order, n - 1) + bones[order[n - 1] as int].indices@.map_values(
            |i: u32| i + base,
        )
    }
}

/// The places of the first `n` bones in ascending order of their names.
pub open spec fn is_name_order(order: Seq<usize>, bones: Seq<BoneMesh>, n: int) -> bool {
    &&& order.len() == n
    &&& forall|i: int| #![trigger order[i]] 0 <= i < n ==> order[i] < n
    &&& forall|i: int, j: int|
        #![trigger order[i], order[j]]
        0 <= i < j < n ==> text::text_less(
            bones[order[i] as int].name@,
            bones[order[j] as int].name@,
        )
}

/// No two bones have the same name.
pub open spec fn distinct_names(bones: Seq<BoneMesh>) -> bool {
    forall|i: int, j: int|
        #![trigger bones[i], bones[j]]
        0 <= i < j < bones.len() ==> bones[i].name@ != bones[j].name@
}

fn name_order(bones: &Vec<BoneMesh>) -> (r: Vec<usize>)
    requires
        distinct_names(bones@),
    ensures
        is_name_order(r@, bones@, bones@.len() as int),
{
    let mut order: Vec<usize> = Vec::new();
    let mut k: usize = 0;
    while k < bones.len()
        invariant
            k <= bones@.len(),
            distinct_names(bones@),
            is_name_order(order@, bones@, k as int),
        decreases bones@.len() - k,
    {
        let ghost before = order@;
        let ghost name = bones@[k as int].name@;
        let mut p: usize = 0;
        while p < order.len() && text::less_text(
            bones[order[p]].name.as_str(),
            bones[k].name.as_str(),
        )
            invariant
                p <= order@.len(),
                order@ == before,
                k < bones@.len(),
                name == bones@[k as int].name@,
                is_name_order(before, bones@, k as int),
                forall|i: int|
                    #![trigger before[i]]
                    0 <= i < p ==> text::text_less(bones@[before[i] as int].name@, name),
            decreases order@.len() - p,
        {
            assert(before[p as int] < k);
            p += 1;
        }
        order.insert(p, k);
        proof {
            let after = order@;
            assert(after =~= before.insert(p as int, k));
            assert forall|i: int| #![trigger after[i]] 0 <= i < k + 1 implies after[i] < k + 1 by {
                if i < p {
                    assert(after[i] == before[i]);
                } else if i > p {
                    assert(after[i] == before[i - 1]);
                }
            }
            assert forall|i: int, j: int| #![trigger after[i], after[j]] 0 <= i < j < k + 1 implies text::text_less(
                bones@[after[i] as int].name@,
                bones@[after[j] as int].name@,
            ) by {
                if j == p {
                    assert(after[i] == before[i]);
                } else if i == p {
                    assert(after[j] == before[j - 1]);
                    assert(before[p as int] < k);
                    assert(bones@[before[p as int] as int].name@ != name);
                    text::lemma_text_less_total(bones@[before[p as int] as int].name@, name);
                    if j - 1 > p {
                        assert(text::text_less(
                            bones@[before[p as int] as int].name@,
                            bones@[before[j - 1] as int].name@,
                        ));
                        text::lemma_text_less_transitive(
                            name,
                            bones@[before[p as int] as int].name@,
                            bones@[before[j - 1] as int].name@,
                        );
                    }
                } else {
                    let i2 = if i < p { i } else { i - 1 };
                    let j2 = if j < p { j } else { j - 1 };
                    assert(after[i] == before[i2] && after[j] == before[j2]);
                }
            }
        }
        k += 1;
    }
    order
}

proof fn lemma_total_without(bones: Seq<BoneMesh>, order: Seq<usize>, n: int)
    requires
        is_name_order(order, bones, bones.len() as int),
        0 <= n <= bones.len(),
    ensures
        0 <= vertices_before(bones, order, n) <= vertex_total(bones),
        n < bones.len() ==> vertices_before(bones, order, n) + bones[order[n] as int].vertex_count
            <= vertex_total(bones),
        n == bones.len() ==> vertices_before(bones, order, n) == vertex_total(bones),
    decreases bones.len() - n,
{
    lemma_order_total(bones, order);
    lemma_before_grows(bones, order, n, bones.len() as int);
    lemma_before_grows(bones, order, 0, n);
    if n < bones.len() {
        lemma_before_grows(bones, order, n + 1, bones.len() as int);
    }
}

proof fn lemma_before_grows(bones: Seq<BoneMesh>, order: Seq<usize>, n: int, m: int)
    requires
        0 <= n <= m,
    ensures
        vertices_before(bones, order, n) <= vertices_before(bones, order, m),
    decreases m - n,
{
    if n < m {
        lemma_before_grows(bones, order, n, m - 1);
    }
}

/// The counts of the bones at the places of an order.
spec fn counts(bones: Seq<BoneMesh>, order: Seq<usize>) -> Seq<int> {
    order.map_values(|i: usize| bones[i as int].vertex_count as int)
}

spec fn sum(s: Seq<int>) -> int
    decreases s.len(),
{
    if s.len() == 0 {
        0
    } else {
        sum(s.drop_last()) + s.last()
    }
}

proof fn lemma_sum_remove(s: Seq<int>, i: int)
    requires
        0 <= i < s.len(),
    ensures
        sum(s.remove(i)) == sum(s) - s[i],
    decreases s.len(),
{
    if i == s.len() - 1 {
        assert(s.remove(i) =~= s.drop_last());
    } else {
        lemma_sum_remove(s.drop_last(), i);
        assert(s.remove(i).drop_last() =~= s.drop_last().remove(i));
    }
}

proof fn lemma_before_is_sum(bones: Seq<BoneMesh>, order: Seq<usize>, n: int)
    requires
        0 <= n <= order.len(),
    ensures
        vertices_before(bones, order, n) == sum(counts(bones, order.take(n))),
    decreases n,
{
    if n > 0 {
        lemma_before_is_sum(bones, order, n - 1);
        assert(counts(bones, order.take(n)).drop_last() =~= counts(bones, order.take(n - 1)));
    }
}

/// An order that names each of `n` bones once counts every vertex once.
proof fn lemma_permutation_total(bones: Seq<BoneMesh>, order: Seq<usize>, n: int)
    requires
        0 <= n <= bones.len(),
        order.len() == n,
        order.no_duplicates(),
        forall|i: int| #![trigger order[i]] 0 <= i < n ==> order[i] < n,
    ensures
        sum(counts(bones, order)) == vertex_total(bones.take(n)),
    decreases n,
{
    if n > 0 {
        lemma_pigeonhole(order, n);
        let p = choose|p: int| 0 <= p < n && order[p] == n - 1;
        let rest = order.remove(p);
        assert forall|i: int| #![trigger rest[i]] 0 <= i < n - 1 implies rest[i] < n - 1 by {
            let i2 = if i < p { i } else { i + 1 };
            assert(rest[i] == order[i2]);
            assert(order[i2] != order[p]);
            assert(order[i2] < n);
        }
        assert forall|i: int, j: int| 0 <= i < rest.len() && 0 <= j < rest.len() && i
            != j implies rest[i] != rest[j] by {
            let i2 = if i < p { i } else { i + 1 };
            let j2 = if j < p { j } else { j + 1 };
            assert(rest[i] == order[i2] && rest[j] == order[j2]);
        }
        lemma_permutation_total(bones, rest, n - 1);
        lemma_sum_remove(counts(bones, order), p);
        assert(counts(bones, order).remove(p) =~= counts(bones, rest));
        assert(bones.take(n).drop_last() =~= bones.take(n - 1));
    } else {
        assert(bones.take(0) =~= Seq::empty());
    }
}

/// Among `n` different numbers below `n` each one occurs, the last too.
proof fn lemma_pigeonhole(order: Seq<usize>, n: int)
    requires
        n > 0,
        order.len() == n,
        order.no_duplicates(),
        forall|i: int| #![trigger order[i]] 0 <= i < n ==> order[i] < n,
    ensures
        exists|p: int| 0 <= p < n && order[p] == n - 1,
{
    if !exists|p: int| 0 <= p < n && order[p] == n - 1 {
        let s = order.to_set();
        order.unique_seq_to_set();
        let bound = vstd::set_lib::set_int_range(0, n - 1);
        vstd::set_lib::lemma_int_range(0, n - 1);
        let t = s.map(|x: usize| x as int);
        vstd::set_lib::lemma_map_size(s, t, |x: usize| x as int);
        assert(t.subset_of(bound)) by {
            assert forall|x: int| t.contains(x) implies bound.contains(x) by {
                let y = choose|y: usize| s.contains(y) && x == y as int;
                let i = choose|i: int| 0 <= i < order.len() && order[i] == y;
                assert(order[i] < n);
            }
        }
        vstd::set_lib::lemma_len_subset(t, bound);
        assert(false);
    }
}

proof fn lemma_order_total(bones: Seq<BoneMesh>, order: Seq<usize>)
    requires
        is_name_order(order, bones, bones.len() as int),
    ensures
        vertices_before(bones, order, bones.len() as int) == vertex_total(bones),
{
    assert forall|i: int, j: int| 0 <= i < order.len() && 0 <= j < order.len() && i
        != j implies order[i] != order[j] by {
        let a = if i < j { i } else { j };
        let b = if i < j { j } else { i };
        assert(text::text_less(bones[order[a] as int].name@, bones[order[b] as int].name@));
        text::lemma_text_less_total(bones[order[a] as int].name@, bones[order[b] as int].name@);
    }
    lemma_permutation_total(bones, order, bones.len() as int);
    lemma_before_is_sum(bones, order, bones.len() as int);
    assert(order.take(bones.len() as int) =~= order);
    assert(bones.take(bones.len() as int) =~= bones);
}

/// Every index of the bones can be moved behind the vertices of the bones
/// before its own.
pub open spec fn indices_fit(bones: Seq<BoneMesh>) -> bool {
    forall|order: Seq<usize>, k: int, j: int|
        #![trigger is_name_order(order, bones, bones.len() as int), bones[order[k] as int].indices@[j]]
        is_name_order(order, bones, bones.len() as int) && 0 <= k < bones.len() && 0 <= j
            < bones[order[k] as int].indices@.len() ==> bones[order[k] as int].indices@[j]
            + vertices_before(bones, order, k) <= u32::MAX
}

/// Where the indices of each bone name vertices of that bone and all vertices
/// can be counted, every index can be moved.
pub proof fn law_valid_indices_fit(bones: Seq<BoneMesh>)
    requires
        vertex_total(bones) <= u32::MAX,
        forall|k: int, j: int|
            #![trigger bones[k].indices@[j]]
            0 <= k < bones.len() && 0 <= j < bones[k].indices@.len() ==> bones[k].indices@[j]
                < bones[k].vertex_count,
    ensures
        indices_fit(bones),
{
    assert forall|order: Seq<usize>, k: int, j: int|
        #![trigger is_name_order(order, bones, bones.len() as int), bones[order[k] as int].indices@[j]]
        is_name_order(order, bones, bones.len() as int) && 0 <= k < bones.len() && 0 <= j
            < bones[order[k] as int].indices@.len() implies bones[order[k] as int].indices@[j]
        + vertices_before(bones, order, k) <= u32::MAX by {
        lemma_total_without(bones, order, k);
        assert(order[k] < bones.len());
    }
}

/// Puts the bones of a model together, in the order of their names. A model
/// without vertices comes to nothing.
pub fn merge_bones(bones: &Vec<BoneMesh>) -> (r: Option<MergedModel>)
    requires
        distinct_names(bones@),
        vertex_total(bones@) <= u32::MAX,
        indices_fit(bones@),
    ensures
        r is None <==> vertex_total(bones@) == 0,
        r matches Some(m) ==> {
            &&& is_name_order(m.order@, bones@, bones@.len() as int)
            &&& m.indices@.map_values(|i: u32| i as int) == merged_indices(
                bones@,
                m.order@,
                bones@.len() as int,
            )
        },
{
    let order: Vec<usize> = name_order(bones);
    let mut indices: Vec<u32> = Vec::new();
    let mut base: u32 = 0;
    let mut k: usize = 0;
    let ghost as_int = |i: u32| i as int;
    assert(indices@.map_values(as_int) =~= merged_indices(bones@, order@, 0));
    while k < order.len()
        invariant
            k <= order@.len(),
            as_int == (|i: u32| i as int),
            is_name_order(order@, bones@, bones@.len() as int),
            vertex_total(bones@) <= u32::MAX,
            indices_fit(bones@),
            base == vertices_before(bones@, order@, k as int),
            indices@.map_values(as_int) == merged_indices(bones@, order@, k as int),
        decreases order@.len() - k,
    {
        let at: usize = order[k];
        let ghost before = indices@;
        proof {
            lemma_total_without(bones@, order@, k as int);
        }
        let bone: &BoneMesh = &bones[at];
        let ghost part = bone.indices@.map_values(|i: u32| i + base);
        let mut j: usize = 0;
        assert(indices@.map_values(as_int) =~= before.map_values(as_int) + part.take(0));
        while j < bone.indices.len()
            invariant
                j <= bone.indices@.len(),
                at < bones@.len(),
                *bone == bones@[at as int],
                as_int == (|i: u32| i as int),
                at == order@[k as int],
                k < order@.len(),
                is_name_order(order@, bones@, bones@.len() as int),
                indices_fit(bones@),
                base == vertices_before(bones@, order@, k as int),
                part == bone.indices@.map_values(|i: u32| i + base),
                indices@.map_values(as_int) == before.map_values(as_int) + part.take(j as int),
            decreases bone.indices@.len() - j,
        {
            let ghost step = indices@;
            assert(bones@[order@[k as int] as int].indices@[j as int] + base <= u32::MAX);
            let i: u32 = bone.indices[j] + base;
            indices.push(i);
            assert(indices@.map_values(as_int) =~= step.map_values(as_int).push(i as int));
            assert(part.take(j as int + 1) =~= part.take(j as int).push(part[j as int]));
            assert(before.map_values(as_int) + part.take(j as int + 1) =~= (before.map_values(
                as_int,
            ) + part.take(j as int)).push(part[j as int]));
            j += 1;
        }
        assert(part.take(part.len() as int) =~= part);
        base = base + bone.vertex_count;
        k += 1;
    }
    proof {
        lemma_total_without(bones@, order@, bones@.len() as int);
    }
    if base == 0 {
        None
    } else {
        Some(MergedModel { order, indices })
    }
}

/// Where the indices of each bone name vertices of that bone, those of the
/// whole model name vertices of the model.
pub proof fn law_merged_indices_valid(bones: Seq<BoneMesh>, order: Seq<usize>, n: int)
    requires
        0 <= n <= order.len(),
        forall|i: int| #![trigger order[i]] 0 <= i < order.len() ==> order[i] < bones.len(),
        forall|k: int, j: int|
            #![trigger bones[k].indices@[j]]
            0 <= k < bones.len() && 0 <= j < bones[k].indices@.len() ==> bones[k].indices@[j]
                < bones[k].vertex_count,
    ensures
        forall|i: int|
            #![trigger merged_indices(bones, order, n)[i]]
            0 <= i < merged_indices(bones, order, n).len() ==> 0 <= merged_indices(
                bones,
                order,
                n,
            )[i] < vertices_before(bones, order, n),
    decreases n,
{
    if n > 0 {
        law_merged_indices_valid(bones, order, n - 1);
        lemma_before_grows(bones, order, 0, n - 1);
        let all = merged_indices(bones, order, n);
        let head = merged_indices(bones, order, n - 1);
        let at = order[n - 1] as int;
        let base = vertices_before(bones, order, n - 1);
        assert(order[n - 1] < bones.len());
        assert forall|i: int| #![trigger all[i]] 0 <= i < all.len() implies 0 <= all[i]
            < vertices_before(bones, order, n) by {
            if i < head.len() {
                assert(all[i] == head[i]);
            } else {
                let j = i - head.len();
                assert(all[i] == bones[at].indices@[j] + base);
                assert(bones[at].indices@[j] < bones[at].vertex_count);
            }
        }
    }
}

/// The lists of vertices that the first `n` bones of an order bring, bone by
/// bone.
spec fn brought<A>(vertices: Seq<Seq<A>>, order: Seq<usize>, n: int) -> Seq<Seq<A>> {
    Seq::new(n as nat, |i: int| vertices[order[i] as int])
}

proof fn lemma_brought<A>(vertices: Seq<Seq<A>>, order: Seq<usize>, n: int)
    requires
        n > 0,
    ensures
        brought(vertices, order, n).flatten_alt() == brought(vertices, order, n - 1).flatten_alt()
            + vertices[order[n - 1] as int],
{
    assert(brought(vertices, order, n).drop_last() =~= brought(vertices, order, n - 1));
}

/// What the first bones bring is found again at the same places in what more of
/// them bring.
proof fn lemma_brought_prefix<A>(vertices: Seq<Seq<A>>, order: Seq<usize>, k: int, n: int)
    requires
        0 <= k <= n,
    ensures
        brought(vertices, order, k).flatten_alt().len() <= brought(vertices, order, n).flatten_alt().len(),
        forall|p: int|
            #![trigger brought(vertices, order, n).flatten_alt()[p]]
            0 <= p < brought(vertices, order, k).flatten_alt().len() ==> brought(
                vertices,
                order,
                n,
            ).flatten_alt()[p] == brought(vertices, order, k).flatten_alt()[p],
    decreases n,
{
    if k < n {
        lemma_brought(vertices, order, n);
        lemma_brought_prefix(vertices, order, k, n - 1);
    }
}

proof fn lemma_merged_layout(
    bones: Seq<BoneMesh>,
    order: Seq<usize>,
    vertices: Seq<Seq<int>>,
    n: int,
)
    requires
        0 <= n <= order.len(),
        forall|i: int| #![trigger order[i]] 0 <= i < order.len() ==> order[i] < bones.len(),
        vertices.len() == bones.len(),
        forall|b: int|
            #![trigger vertices[b]]
            0 <= b < bones.len() ==> vertices[b].len() == bones[b].vertex_count,
    ensures
        vertices_before(bones, order, n) == brought(vertices, order, n).flatten_alt().len(),
        merged_indices(bones, order, n).len() == brought(
            bones.map_values(|b: BoneMesh| b.indices@),
            order,
            n,
        ).flatten_alt().len(),
    decreases n,
{
    let own = bones.map_values(|b: BoneMesh| b.indices@);
    if n > 0 {
        lemma_merged_layout(bones, order, vertices, n - 1);
        lemma_brought(vertices, order, n);
        lemma_brought(own, order, n);
        assert(vertices[order[n - 1] as int].len() == bones[order[n - 1] as int].vertex_count);
    }
}

proof fn lemma_merged_prefix(bones: Seq<BoneMesh>, order: Seq<usize>, k: int, n: int)
    requires
        0 <= k <= n,
    ensures
        merged_indices(bones, order, k).len() <= merged_indices(bones, order, n).len(),
        forall|p: int|
            #![trigger merged_indices(bones, order, n)[p]]
            0 <= p < merged_indices(bones, order, k).len() ==> merged_indices(bones, order, n)[p]
                == merged_indices(bones, order, k)[p],
    decreases n,
{
    if k < n {
        lemma_merged_prefix(bones, order, k, n - 1);
    }
}

/// Lay the bones' vertices one after the other in the order of the result.
/// Then the index that stands for index `j` of the bone at place `k` is that
/// index plus the number of all vertices of all bones before place `k`. Where the
/// bone's own index is one of its own vertices, the merged index names that very
/// vertex.
pub proof fn law_merged_indices_name_own_vertices(
    bones: Seq<BoneMesh>,
    order: Seq<usize>,
    vertices: Seq<Seq<int>>,
    n: int,
    k: int,
    j: int,
)
    requires
        0 <= k < n <= order.len(),
        forall|i: int| #![trigger order[i]] 0 <= i < order.len() ==> order[i] < bones.len(),
        vertices.len() == bones.len(),
        forall|b: int|
            #![trigger vertices[b]]
            0 <= b < bones.len() ==> vertices[b].len() == bones[b].vertex_count,
        0 <= j < bones[order[k] as int].indices@.len(),
    ensures
        ({
            let laid = Seq::new(n as nat, |i: int| vertices[order[i] as int]).flatten();
            let before = Seq::new(k as nat, |i: int| vertices[order[i] as int]).flatten().len();
            let at = Seq::new(k as nat, |i: int| bones[order[i] as int].indices@).flatten().len() + j;
            let own = bones[order[k] as int].indices@[j];
            let m = merged_indices(bones, order, n);
            &&& m.len() == Seq::new(n as nat, |i: int| bones[order[i] as int].indices@).flatten().len()
            &&& at < m.len()
            &&& m[at as int] == own + before
            &&& own < bones[order[k] as int].vertex_count ==> {
                &&& m[at as int] < laid.len()
                &&& laid[m[at as int]] == vertices[order[k] as int][own as int]
            }
        }),
{
    let own = bones.map_values(|b: BoneMesh| b.indices@);
    assert(Seq::new(n as nat, |i: int| vertices[order[i] as int]) =~= brought(vertices, order, n));
    assert(Seq::new(k as nat, |i: int| vertices[order[i] as int]) =~= brought(vertices, order, k));
    assert(Seq::new(n as nat, |i: int| bones[order[i] as int].indices@) =~= brought(own, order, n));
    assert(Seq::new(k as nat, |i: int| bones[order[i] as int].indices@) =~= brought(own, order, k));
    brought(vertices, order, n).lemma_flatten_and_flatten_alt_are_equivalent();
    brought(vertices, order, k).lemma_flatten_and_flatten_alt_are_equivalent();
    brought(own, order, n).lemma_flatten_and_flatten_alt_are_equivalent();
    brought(own, order, k).lemma_flatten_and_flatten_alt_are_equivalent();
    lemma_merged_layout(bones, order, vertices, n);
    lemma_merged_layout(bones, order, vertices, k);
    lemma_merged_layout(bones, order, vertices, k + 1);
    lemma_merged_prefix(bones, order, k + 1, n);
    lemma_brought(vertices, order, k + 1);
    lemma_brought(own, order, k + 1);
    lemma_brought_prefix(vertices, order, k + 1, n);
    let at = merged_indices(bones, order, k).len() + j;
    let before = vertices_before(bones, order, k);
    let part = bones[order[k] as int].indices@.map_values(|i: u32| i + before);
    assert(merged_indices(bones, order, k + 1) == merged_indices(bones, order, k) + part);
    assert(merged_indices(bones, order, k + 1)[at] == part[j]);
    assert(vertices[order[k] as int].len() == bones[order[k] as int].vertex_count);
}

/// Where every bone's indices are its own vertices, no index of one bone
/// names a vertex that an index of a later bone names: the earlier bone's are
/// the smaller ones.
pub proof fn law_merged_bones_apart(
    bones: Seq<BoneMesh>,
    order: Seq<usize>,
    n: int,
    k: int,
    j: int,
    l: int,
    i: int,
)
    requires
        0 <= k < l < n <= order.len(),
        forall|i: int| #![trigger order[i]] 0 <= i < order.len() ==> order[i] < bones.len(),
        0 <= j < bones[order[k] as int].indices@.len(),
        0 <= i < bones[order[l] as int].indices@.len(),
        bones[order[k] as int].indices@[j] < bones[order[k] as int].vertex_count,
    ensures
        ({
            let m = merged_indices(bones, order, n);
            let a = Seq::new(k as nat, |p: int| bones[order[p] as int].indices@).flatten().len() + j;
            let b = Seq::new(l as nat, |p: int| bones[order[p] as int].indices@).flatten().len() + i;
            m[a as int] < m[b as int]
        }),
{
    let vertices = Seq::new(
        bones.len(),
        |b: int| Seq::new(bones[b].vertex_count as nat, |v: int| 0int),
    );
    law_merged_indices_name_own_vertices(bones, order, vertices, n, k, j);
    law_merged_indices_name_own_vertices(bones, order, vertices, n, l, i);
    assert(Seq::new(l as nat, |i: int| vertices[order[i] as int]) =~= brought(vertices, order, l));
    assert(Seq::new(k as nat, |i: int| vertices[order[i] as int]) =~= brought(vertices, order, k));
    brought(vertices, order, l).lemma_flatten_and_flatten_alt_are_equivalent();
    brought(vertices, order, k).lemma_flatten_and_flatten_alt_are_equivalent();
    lemma_brought(vertices, order, k + 1);
    lemma_brought_prefix(vertices, order, k + 1, l);
}

/// The number of vertices of a model is that of the bones' vertices laid
/// one after the other, whatever the order of the bones that it is summed in.
pub proof fn law_vertex_total(bones: Seq<BoneMesh>, vertices: Seq<Seq<int>>, order: Seq<usize>)
    requires
        vertices.len() == bones.len(),
        forall|b: int|
            #![trigger vertices[b]]
            0 <= b < bones.len() ==> vertices[b].len() == bones[b].vertex_count,
    ensures
        vertex_total(bones) == vertices.flatten().len(),
        is_name_order(order, bones, bones.len() as int)
            ==> Seq::new(bones.len(), |i: int| vertices[order[i] as int]).flatten().len()
            == vertices.flatten().len(),
{
    lemma_total_is_laid(bones, vertices);
    vertices.lemma_flatten_and_flatten_alt_are_equivalent();
    if is_name_order(order, bones, bones.len() as int) {
        lemma_order_total(bones, order);
        lemma_merged_layout(bones, order, vertices, bones.len() as int);
        let n = bones.len() as int;
        assert(Seq::new(bones.len(), |i: int| vertices[order[i] as int]) =~= brought(vertices, order, n));
        brought(vertices, order, n).lemma_flatten_and_flatten_alt_are_equivalent();
    }
}

proof fn lemma_total_is_laid(bones: Seq<BoneMesh>, vertices: Seq<Seq<int>>)
    requires
        vertices.len() == bones.len(),
        forall|b: int|
            #![trigger vertices[b]]
            0 <= b < bones.len() ==> vertices[b].len() == bones[b].vertex_count,
    ensures
        vertex_total(bones) == vertices.flatten_alt().len(),
    decreases bones.len(),
{
    if bones.len() > 0 {
        let n = bones.len() - 1;
        assert forall|b: int| #![trigger vertices.drop_last()[b]] 0 <= b < n implies vertices.drop_last()[b].len()
            == bones.drop_last()[b].vertex_count by {
            assert(vertices[b].len() == bones[b].vertex_count);
        }
        lemma_total_is_laid(bones.drop_last(), vertices.drop_last());
        assert(vertices[n].len() == bones[n].vertex_count);
    }
}

/// In the order of a merged model every bone stands at exactly one place, and
/// of two bones the one with the smaller name stands first.
pub proof fn law_bones_by_name(bones: Seq<BoneMesh>, order: Seq<usize>, b: int)
    requires
        is_name_order(order, bones, bones.len() as int),
        0 <= b < bones.len(),
    ensures
        exists|k: int| #![trigger order[k]] 0 <= k < order.len() && order[k] == b,
        forall|k: int, l: int|
            #![trigger order[k], order[l]]
            0 <= k < order.len() && 0 <= l < order.len() && order[k] == order[l] ==> k == l,
        forall|k: int, l: int|
            #![trigger order[k], order[l]]
            0 <= k < order.len() && 0 <= l < order.len() && text::text_less(
                bones[order[k] as int].name@,
                bones[order[l] as int].name@,
            ) ==> k < l,
{
    let n = bones.len() as int;
    assert forall|k: int, l: int|
        #![trigger order[k], order[l]]
        0 <= k < order.len() && 0 <= l < order.len() && order[k] == order[l] implies k == l by {
        if k != l {
            text::lemma_text_less_total(bones[order[k] as int].name@, bones[order[l] as int].name@);
        }
    }
    assert forall|k: int, l: int|
        #![trigger order[k], order[l]]
        0 <= k < order.len() && 0 <= l < order.len() && text::text_less(
            bones[order[k] as int].name@,
            bones[order[l] as int].name@,
        ) implies k < l by {
        text::lemma_text_less_total(bones[order[k] as int].name@, bones[order[l] as int].name@);
        text::lemma_text_less_total(bones[order[l] as int].name@, bones[order[k] as int].name@);
    }
    lemma_each_occurs(order, n, b);
}

/// Among `n` different numbers below `n` each one occurs.
proof fn lemma_each_occurs(order: Seq<usize>, n: int, b: int)
    requires
        0 <= b < n,
        order.len() == n,
        forall|i: int, j: int|
            #![trigger order[i], order[j]]
            0 <= i < n && 0 <= j < n && order[i] == order[j] ==> i == j,
        forall|i: int| #![trigger order[i]] 0 <= i < n ==> order[i] < n,
    ensures
        exists|p: int| #![trigger order[p]] 0 <= p < n && order[p] == b,
{
    if !exists|p: int| #![trigger order[p]] 0 <= p < n && order[p] == b {
        assert(order.no_duplicates());
        let s = order.to_set();
        order.unique_seq_to_set();
        let all = vstd::set_lib::set_int_range(0, n);
        vstd::set_lib::lemma_int_range(0, n);
        let bound = all.remove(b);
        let t = s.map(|x: usize| x as int);
        vstd::set_lib::lemma_map_size(s, t, |x: usize| x as int);
        assert(t.subset_of(bound)) by {
            assert forall|x: int| t.contains(x) implies bound.contains(x) by {
                let y = choose|y: usize| s.contains(y) && x == y as int;
                let i = choose|i: int| 0 <= i < order.len() && order[i] == y;
                assert(order[i] < n);
            }
        }
        vstd::set_lib::lemma_len_subset(t, bound);
        assert(false);
    }
}

/// A view kept inside a picture is never longer than it was asked to be
/// and starts no later, and it is moved or cut only as far as it must be: a start
/// inside the picture stays, and the length stays or the view reaches the far
/// edge.
pub proof fn law_viewport_tight(start: int, length: int, n: int)
    requires
        start >= 0,
        length >= 1,
        n >= 1,
    ensures
        clamped_start(start, n) <= start,
        clamped_length(length, clamped_start(start, n), n) <= length,
        start < n ==> clamped_start(start, n) == start,
        start >= n ==> clamped_start(start, n) == n - 1,
        clamped_length(length, clamped_start(start, n), n) == length || clamped_start(start, n)
            + clamped_length(length, clamped_start(start, n), n) == n,
{
}

/// The key of a face is its picture's name and then each layer's name in
/// turn, each led by one plus sign; a face without a picture has an empty
/// key.
pub proof fn law_face_key(layers: Seq<Seq<char>>, next: Seq<char>, face: Option<FaceTextures>)
    ensures
        plus_joined(Seq::empty()).len() == 0,
        plus_joined(layers.push(next)) == plus_joined(layers).push('+') + next,
        face is None ==> face_key(face).len() == 0,
        face matches Some(f) ==> f.base@.is_prefix_of(face_key(face)) && face_key(face).skip(
            f.base@.len() as int,
        ) == plus_joined(texts(f.layers@)),
{
    reveal_strlit("+");
    assert(layers.push(next).drop_last() =~= layers);
    assert("+"@ =~= seq!['+']);
    assert(plus_joined(layers) + "+"@ =~= plus_joined(layers).push('+'));
    if let Some(f) = face {
        assert(face_key(face).skip(f.base@.len() as int) =~= plus_joined(texts(f.layers@)));
        assert(face_key(face).take(f.base@.len() as int) =~= f.base@);
    }
}

} // verus!
