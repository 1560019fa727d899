//! Blocks with models of their own: which models are known, where instances of
//! them stand, and how they are turned.
use crate::table::Table;
use crate::table::TableKey;
use vstd::prelude::*;
use vstd::string::*;

verus! {

/// Position of a block.
pub type BlockPos = (i32, i32, i32);

/// An instance of a model in the world.
#[derive(Debug)]
pub struct BlockInstance {
    pub model_id: String,
    pub rotation: u8,
}

/// The known models, each with its number of indices, and their instances.
pub struct BlockModelRenderer {
    models: Table<String, u32>,
    instances: Table<(i32, i32, i32), BlockInstance>,
}

/// Models and instances as a mathematical value.
#[verifier::ext_equal]
pub struct BlockModels {
    pub models: Map<Seq<char>, u32>,
    pub instances: Map<BlockPos, BlockInstance>,
}

impl View for BlockModelRenderer {
    type V = BlockModels;

    closed spec fn view(&self) -> BlockModels {
        BlockModels { models: self.models@, instances: self.instances@ }
    }
}

/// The chunk in which a block lies.
pub open spec fn chunk_of(pos: BlockPos, sx: int, sy: int, sz: int) -> (int, int, int) {
    (pos.0 as int / sx, pos.1 as int / sy, pos.2 as int / sz)
}

/// One of the chunks is the given one.
pub open spec fn lists_chunk(keys: Seq<(i32, i32, i32)>, c: (int, int, int)) -> bool {
    exists|i: int|
        #![trigger keys[i]]
        0 <= i < keys.len() && keys[i].0 == c.0 && keys[i].1 == c.1 && keys[i].2 == c.2
}

impl BlockModels {
    /// What is left once the instances in some chunks are gone.
    pub open spec fn without_chunks(
        self,
        keys: Seq<(i32, i32, i32)>,
        sx: int,
        sy: int,
        sz: int,
    ) -> BlockModels {
        BlockModels {
            instances: self.instances.remove_keys(
                Set::new(|p: BlockPos| lists_chunk(keys, chunk_of(p, sx, sy, sz))),
            ),
            ..self
        }
    }
}

fn listed(keys: &Vec<(i32, i32, i32)>, c: (i32, i32, i32)) -> (r: bool)
    ensures
        r == lists_chunk(keys@, (c.0 as int, c.1 as int, c.2 as int)),
{
    let mut i: usize = 0;
    while i < keys.len()
        invariant
            i <= keys@.len(),
            forall|j: int| #![trigger keys@[j]] 0 <= j < i ==> keys@[j] != c,
        decreases keys@.len() - i,
    {
        if keys[i].same_key(&c) {
            assert(keys@[i as int] == c);
            return true;
        }
        i += 1;
    }
    false
}

/// The chunk number of a coordinate, rounded down.
pub fn chunk_coordinate(w: i32, size: i32) -> (r: i32)
    requires
        size > 0,
    ensures
        r as int == w as int / size as int,
{
    proof {
        let q = w as int / size as int;
        let m = w as int % size as int;
        vstd::arithmetic::div_mod::lemma_fundamental_div_mod(w as int, size as int);
        vstd::arithmetic::div_mod::lemma_mod_bound(w as int, size as int);
        assert(i32::MIN <= q <= i32::MAX) by (nonlinear_arith)
            requires
                w as int == size as int * q + m,
                0 <= m,
                m < size,
                size > 0,
        ;
    }
    match w.checked_div_euclid(size) {
        Some(q) => q,
        None => 0,
    }
}

impl BlockModelRenderer {
    /// The tables are in order, and each instance is of a known model.
    pub closed spec fn wf(&self) -> bool {
        &&& self.models.wf()
        &&& self.instances.wf()
        &&& forall|p: BlockPos|
            #![trigger self.instances@.dom().contains(p)]
            self.instances@.dom().contains(p) ==> self.models@.dom().contains(
                self.instances@[p].model_id@,
            )
    }

    /// The model of each instance is known.
    pub proof fn law_instances_have_models(&self, p: BlockPos)
        requires
            self.wf(),
            self@.instances.dom().contains(p),
        ensures
            self@.models.dom().contains(self@.instances[p].model_id@),
    {
    }

    /// No models and no instances.
    pub fn new() -> (r: BlockModelRenderer)
        ensures
            r.wf(),
            r@ == (BlockModels { models: Map::empty(), instances: Map::empty() }),
    {
        BlockModelRenderer { models: Table::new(), instances: Table::new() }
    }

    /// Takes a model in. One that is known already stays as it is.
    pub fn register_model(&mut self, model_id: String, index_count: u32) -> (r: bool)
        requires
            old(self).wf(),
        ensures
            final(self).wf(),
            r == !old(self)@.models.dom().contains(model_id@),
            final(self)@ == (if r {
                BlockModels {
                    models: old(self)@.models.insert(model_id@, index_count),
                    ..old(self)@
                }
            } else {
                old(self)@
            }),
    {
        self.models.insert_new(model_id, index_count)
    }

    /// Whether a model is known.
    pub fn is_registered(&self, model_id: &String) -> (r: bool)
        requires
            self.wf(),
        ensures
            r == self@.models.dom().contains(model_id@),
    {
        self.models.contains_key(model_id)
    }

    /// Places an instance of a known model, unless there is one at the position
    /// already. Says whether one was placed.
    pub fn spawn(&mut self, pos: (i32, i32, i32), model_id: String, rotation: u8) -> (r: bool)
        requires
            old(self).wf(),
        ensures
            final(self).wf(),
            r == (!old(self)@.instances.dom().contains(pos) && old(self)@.models.dom().contains(
                model_id@,
            )),
            final(self)@ == (if r {
                BlockModels {
                    instances: old(self)@.instances.insert(
                        pos,
                        (BlockInstance { model_id, rotation }),
                    ),
                    ..old(self)@
                }
            } else {
                old(self)@
            }),
    {
        if self.instances.contains_key(&pos) {
            return false;
        }
        if !self.models.contains_key(&model_id) {
            return false;
        }
        self.instances.insert(pos, BlockInstance { model_id, rotation });
        true
    }

    /// Takes the instance at a position away.
    pub fn despawn(&mut self, pos: (i32, i32, i32))
        requires
            old(self).wf(),
        ensures
            final(self).wf(),
            final(self)@ == (BlockModels {
                instances: old(self)@.instances.remove(pos),
                ..old(self)@
            }),
    {
        self.instances.remove(&pos);
    }

    /// Takes all instances in some chunks away and returns their positions.
    pub fn despawn_in_chunks(
        &mut self,
        chunk_keys: &Vec<(i32, i32, i32)>,
        sx: i32,
        sy: i32,
        sz: i32,
    ) -> (r: Vec<(i32, i32, i32)>)
        requires
            old(self).wf(),
            sx > 0,
            sy > 0,
            sz > 0,
        ensures
            final(self).wf(),
            final(self)@ == old(self)@.without_chunks(
                chunk_keys@,
                sx as int,
                sy as int,
                sz as int,
            ),
            forall|p: BlockPos|
                #![trigger r@.contains(p)]
                r@.contains(p) <==> old(self)@.instances.dom().contains(p) && lists_chunk(
                    chunk_keys@,
                    chunk_of(p, sx as int, sy as int, sz as int),
                ),
    {
        let mut gone: Vec<(i32, i32, i32)> = Vec::new();
        let mut i: usize = 0;
        proof {
            self.instances.lemma_wf();
        }
        // The entries before `i` stay; those from `i` on are the last ones of
        // the list at the start.
        while i < self.instances.len()
            invariant
                self.wf(),
                sx > 0,
                sy > 0,
                sz > 0,
                i <= self.instances.entries().len(),
                self@.models == old(self)@.models,
                forall|p: BlockPos|
                    #![trigger self@.instances.dom().contains(p)]
                    self@.instances.dom().contains(p) <==> old(self)@.instances.dom().contains(p)
                        && !gone@.contains(p),
                forall|p: BlockPos|
                    #![trigger self@.instances[p]]
                    self@.instances.dom().contains(p) ==> self@.instances[p]
                        == old(self)@.instances[p],
                forall|p: BlockPos|
                    #![trigger gone@.contains(p)]
                    gone@.contains(p) ==> old(self)@.instances.dom().contains(p) && lists_chunk(
                        chunk_keys@,
                        chunk_of(p, sx as int, sy as int, sz as int),
                    ),
                forall|k: int|
                    #![trigger self.instances.entries()[k]]
                    0 <= k < i ==> !lists_chunk(
                        chunk_keys@,
                        chunk_of(
                            self.instances.entries()[k].0,
                            sx as int,
                            sy as int,
                            sz as int,
                        ),
                    ),
            decreases self.instances.entries().len() - i,
        {
            let ghost before = self.instances.entries();
            let ghost map_before = self@.instances;
            let ghost gone_before = gone@;
            let p: (i32, i32, i32) = *self.instances.key_at(i);
            let c: (i32, i32, i32) = (
                chunk_coordinate(p.0, sx),
                chunk_coordinate(p.1, sy),
                chunk_coordinate(p.2, sz),
            );
            proof {
                self.instances.lemma_wf();
                crate::table::lemma_entry(before, i as int);
            }
            if listed(chunk_keys, c) {
                self.instances.remove_at(i);
                gone.push(p);
                assert(forall|k: int|
                    #![trigger self.instances.entries()[k]]
                    0 <= k < i ==> self.instances.entries()[k] == before[k]);
                assert forall|q: BlockPos| #![trigger gone@.contains(q)] gone@.contains(q)
                    <==> gone_before.contains(q) || q == p by {
                    if gone_before.contains(q) {
                        let k = choose|k: int| 0 <= k < gone_before.len() && gone_before[k] == q;
                        assert(gone@[k] == q);
                    }
                    if q == p {
                        assert(gone@[gone_before.len() as int] == q);
                    }
                    if gone@.contains(q) {
                        let k = choose|k: int| 0 <= k < gone@.len() && gone@[k] == q;
                        if k < gone_before.len() {
                            assert(gone_before[k] == q);
                        }
                    }
                }
            } else {
                i += 1;
            }
        }
        proof {
            let goal = old(self)@.without_chunks(chunk_keys@, sx as int, sy as int, sz as int);
            self.instances.lemma_wf();
            assert forall|p: BlockPos|
                #![trigger self@.instances.dom().contains(p)]
                self@.instances.dom().contains(p) == goal.instances.dom().contains(p) by {
                if self@.instances.dom().contains(p) {
                    let k = crate::table::lemma_position(self.instances.entries(), p);
                    assert(self.instances.entries()[k].0 == p);
                }
            }
            assert(self@.instances.dom() =~= goal.instances.dom());
            assert(self@.instances =~= goal.instances);
            assert forall|p: BlockPos| #![trigger gone@.contains(p)] gone@.contains(p) <==> old(
                self,
            )@.instances.dom().contains(p) && lists_chunk(
                chunk_keys@,
                chunk_of(p, sx as int, sy as int, sz as int),
            ) by {
                assert(self@.instances.dom().contains(p) == goal.instances.dom().contains(p));
            }
        }
        gone
    }

    /// Whether there is an instance at a position.
    pub fn has_instance(&self, pos: (i32, i32, i32)) -> (r: bool)
        requires
            self.wf(),
        ensures
            r == self@.instances.dom().contains(pos),
    {
        self.instances.contains_key(&pos)
    }

    /// The instances in the order in which they are drawn.
    pub closed spec fn instance_list(&self) -> Seq<(BlockPos, BlockInstance)> {
        self.instances.entries()
    }

    /// The list holds each instance once.
    pub proof fn law_instance_list(&self)
        requires
            self.wf(),
        ensures
            crate::table::distinct(self.instance_list()),
            crate::table::map_of(self.instance_list()) == self@.instances,
    {
        self.instances.lemma_wf();
    }

    /// The number of instances.
    pub fn instance_count(&self) -> (r: usize)
        ensures
            r as int == self.instance_list().len(),
    {
        self.instances.len()
    }

    /// Position, model and rotation of the instance at place `i` of the
    /// drawing order.
    pub fn instance_at(&self, i: usize) -> (r: Option<((i32, i32, i32), &String, u8)>)
        ensures
            r is Some <==> i < self.instance_list().len(),
            r matches Some(t) ==> {
                &&& t.0 == self.instance_list()[i as int].0
                &&& *t.1 == self.instance_list()[i as int].1.model_id
                &&& t.2 == self.instance_list()[i as int].1.rotation
            },
    {
        if i < self.instances.len() {
            let inst: &BlockInstance = self.instances.value_at(i);
            Some((*self.instances.key_at(i), &inst.model_id, inst.rotation))
        } else {
            None
        }
    }

    /// The rotation of the instance at a position, or zero.
    pub fn get_instance_rotation(&self, pos: (i32, i32, i32)) -> (r: u8)
        requires
            self.wf(),
        ensures
            r == (if self@.instances.dom().contains(pos) {
                self@.instances[pos].rotation
            } else {
                0
            }),
    {
        match self.instances.get(&pos) {
            Some(i) => i.rotation,
            None => 0,
        }
    }
}

/// An axis of space.
#[derive(Debug, Clone, Copy, PartialEq, Eq, Structural)]
pub enum Axis {
    X,
    Y,
    Z,
}

/// The angle of a turn.
#[derive(Debug, Clone, Copy, PartialEq, Eq, Structural)]
pub enum Angle {
    Quarter,
    Half,
    MinusQuarter,
}

/// A turn round an axis.
#[derive(Debug, Clone, Copy, PartialEq, Eq, Structural)]
pub struct Turn {
    pub axis: Axis,
    pub angle: Angle,
}

/// A vector of whole numbers.
pub type IntVec = (int, int, int);

/// A vector after one right angle round an axis, counted so that it takes the
/// next axis to the one behind it.
pub open spec fn quarter_turned(axis: Axis, v: IntVec) -> IntVec {
    match axis {
        Axis::X => (v.0, -v.2, v.1),
        Axis::Y => (v.2, v.1, -v.0),
        Axis::Z => (-v.1, v.0, v.2),
    }
}

/// A vector after a turn.
pub open spec fn turned(t: Turn, v: IntVec) -> IntVec {
    match t.angle {
        Angle::Quarter => quarter_turned(t.axis, v),
        Angle::Half => quarter_turned(t.axis, quarter_turned(t.axis, v)),
        Angle::MinusQuarter => quarter_turned(
            t.axis,
            quarter_turned(t.axis, quarter_turned(t.axis, v)),
        ),
    }
}

/// A vector after some turns, the last of the list first.
pub open spec fn turned_all(ts: Seq<Turn>, v: IntVec) -> IntVec
    decreases ts.len(),
{
    if ts.len() == 0 {
        v
    } else {
        turned_all(ts.drop_last(), turned(ts.last(), v))
    }
}

/// The turns of a rotation number, as factors from left to right.
pub open spec fn rotation_turns(rot: u8) -> Seq<Turn> {
    match rot {
        1 => seq![Turn { axis: Axis::Y, angle: Angle::Half }],
        3 => seq![Turn { axis: Axis::Y, angle: Angle::Quarter }],
        4 => seq![Turn { axis: Axis::Y, angle: Angle::MinusQuarter }],
        5 | 11 => seq![Turn { axis: Axis::X, angle: Angle::Half }],
        6 => seq![Turn { axis: Axis::X, angle: Angle::MinusQuarter }],
        7 | 15 => seq![Turn { axis: Axis::X, angle: Angle::Quarter }],
        8 | 14 => seq![Turn { axis: Axis::Z, angle: Angle::MinusQuarter }],
        9 => seq![Turn { axis: Axis::Z, angle: Angle::Quarter }],
        10 => seq![Turn { axis: Axis::Z, angle: Angle::Half }],
        12 => seq![Turn { axis: Axis::X, angle: Angle::Half }, Turn { axis: Axis::Y, angle: Angle::Quarter }],
        13 => seq![Turn { axis: Axis::X, angle: Angle::Half }, Turn { axis: Axis::Y, angle: Angle::MinusQuarter }],
        _ => seq![],
    }
}

/// The turns of a block's rotation number. Models and outlines both use them.
pub fn block_rotation(rot: u8) -> (r: Vec<Turn>)
    ensures
        r@ == rotation_turns(rot),
{
    let mut r: Vec<Turn> = Vec::new();
    if rot == 1 {
        r.push(Turn { axis: Axis::Y, angle: Angle::Half });
    } else if rot == 3 {
        r.push(Turn { axis: Axis::Y, angle: Angle::Quarter });
    } else if rot == 4 {
        r.push(Turn { axis: Axis::Y, angle: Angle::MinusQuarter });
    } else if rot == 5 || rot == 11 {
        r.push(Turn { axis: Axis::X, angle: Angle::Half });
    } else if rot == 6 {
        r.push(Turn { axis: Axis::X, angle: Angle::MinusQuarter });
    } else if rot == 7 || rot == 15 {
        r.push(Turn { axis: Axis::X, angle: Angle::Quarter });
    } else if rot == 8 || rot == 14 {
        r.push(Turn { axis: Axis::Z, angle: Angle::MinusQuarter });
    } else if rot == 9 {
        r.push(Turn { axis: Axis::Z, angle: Angle::Quarter });
    } else if rot == 10 {
        r.push(Turn { axis: Axis::Z, angle: Angle::Half });
    } else if rot == 12 {
        r.push(Turn { axis: Axis::X, angle: Angle::Half });
        r.push(Turn { axis: Axis::Y, angle: Angle::Quarter });
    } else if rot == 13 {
        r.push(Turn { axis: Axis::X, angle: Angle::Half });
        r.push(Turn { axis: Axis::Y, angle: Angle::MinusQuarter });
    }
    assert(r@ =~= rotation_turns(rot));
    r
}

/// The square of the length of a vector.
pub open spec fn square(v: IntVec) -> int {
    v.0 * v.0 + v.1 * v.1 + v.2 * v.2
}

proof fn lemma_quarter_square(axis: Axis, v: IntVec)
    ensures
        square(quarter_turned(axis, v)) == square(v),
{
    assert((-v.0) * (-v.0) == v.0 * v.0) by (nonlinear_arith);
    assert((-v.1) * (-v.1) == v.1 * v.1) by (nonlinear_arith);
    assert((-v.2) * (-v.2) == v.2 * v.2) by (nonlinear_arith);
}

/// Turning a model changes the length of no vector.
pub proof fn law_rotation_keeps_length(rot: u8, v: IntVec)
    ensures
        square(turned_all(rotation_turns(rot), v)) == square(v),
{
    lemma_turns_keep_length(rotation_turns(rot), v);
}

proof fn lemma_turns_keep_length(ts: Seq<Turn>, v: IntVec)
    ensures
        square(turned_all(ts, v)) == square(v),
    decreases ts.len(),
{
    if ts.len() > 0 {
        let t = ts.last();
        lemma_quarter_square(t.axis, v);
        lemma_quarter_square(t.axis, quarter_turned(t.axis, v));
        lemma_quarter_square(t.axis, quarter_turned(t.axis, quarter_turned(t.axis, v)));
        lemma_turns_keep_length(ts.drop_last(), turned(t, v));
    }
}

/// A turn and the turn back cancel out.
pub proof fn law_turn_back(axis: Axis, v: IntVec)
    ensures
        turned(Turn { axis, angle: Angle::MinusQuarter }, turned(Turn { axis, angle: Angle::Quarter }, v)) == v,
        turned(Turn { axis, angle: Angle::Half }, turned(Turn { axis, angle: Angle::Half }, v)) == v,
{
}

/// Taking the instances of some chunks away takes exactly those whose block
/// lies in one of them.
pub proof fn law_despawn_by_chunk(
    m: BlockModels,
    keys: Seq<(i32, i32, i32)>,
    sx: int,
    sy: int,
    sz: int,
    p: BlockPos,
)
    requires
        sx > 0,
        sy > 0,
        sz > 0,
    ensures
        m.without_chunks(keys, sx, sy, sz).instances.dom().contains(p)
            <==> m.instances.dom().contains(p) && !lists_chunk(keys, chunk_of(p, sx, sy, sz)),
        ({
            let c = chunk_of(p, sx, sy, sz);
            &&& c.0 * sx <= p.0 < c.0 * sx + sx
            &&& c.1 * sy <= p.1 < c.1 * sy + sy
            &&& c.2 * sz <= p.2 < c.2 * sz + sz
        }),
{
    vstd::arithmetic::div_mod::lemma_fundamental_div_mod(p.0 as int, sx);
    vstd::arithmetic::div_mod::lemma_fundamental_div_mod(p.1 as int, sy);
    vstd::arithmetic::div_mod::lemma_fundamental_div_mod(p.2 as int, sz);
    vstd::arithmetic::div_mod::lemma_mod_bound(p.0 as int, sx);
    vstd::arithmetic::div_mod::lemma_mod_bound(p.1 as int, sy);
    vstd::arithmetic::div_mod::lemma_mod_bound(p.2 as int, sz);
    vstd::arithmetic::mul::lemma_mul_is_commutative(sx, p.0 as int / sx);
    vstd::arithmetic::mul::lemma_mul_is_commutative(sy, p.1 as int / sy);
    vstd::arithmetic::mul::lemma_mul_is_commutative(sz, p.2 as int / sz);
}

/// A quarter turn follows the right hand: it carries a vector `v` to the cross
/// product of the axis and `v`, plus the part of `v` along the axis. So `+y`
/// goes to `+z` round x, `+z` to `+x` round y, and `+x` to `+y` round z.
pub proof fn law_quarter_turn(axis: Axis, v: IntVec)
    ensures
        ({
            let u: IntVec = (
                if axis == Axis::X { 1int } else { 0 },
                if axis == Axis::Y { 1int } else { 0 },
                if axis == Axis::Z { 1int } else { 0 },
            );
            let along = u.0 * v.0 + u.1 * v.1 + u.2 * v.2;
            let r = turned(Turn { axis, angle: Angle::Quarter }, v);
            &&& r.0 == u.1 * v.2 - u.2 * v.1 + along * u.0
            &&& r.1 == u.2 * v.0 - u.0 * v.2 + along * u.1
            &&& r.2 == u.0 * v.1 - u.1 * v.0 + along * u.2
        }),
        turned(Turn { axis, angle: Angle::Half }, v) == turned(
            Turn { axis, angle: Angle::Quarter },
            turned(Turn { axis, angle: Angle::Quarter }, v),
        ),
        turned(Turn { axis, angle: Angle::Quarter }, turned(Turn { axis, angle: Angle::MinusQuarter }, v)) == v,
{
    match axis {
        Axis::X => {},
        Axis::Y => {},
        Axis::Z => {},
    }
}

/// A list of turns acts as a product of matrices: no turn keeps the vector, one
/// turn is that turn, and of two lists one after the other the later one acts
/// first.
pub proof fn law_turns_compose(ts: Seq<Turn>, us: Seq<Turn>, t: Turn, v: IntVec)
    ensures
        turned_all(Seq::empty(), v) == v,
        turned_all(seq![t], v) == turned(t, v),
        turned_all(ts + us, v) == turned_all(ts, turned_all(us, v)),
    decreases us.len(),
{
    assert(seq![t].drop_last() =~= Seq::empty());
    reveal_with_fuel(turned_all, 2);
    if us.len() == 0 {
        assert(ts + us =~= ts);
    } else {
        assert((ts + us).drop_last() =~= ts + us.drop_last());
        assert((ts + us).last() == us.last());
        law_turns_compose(ts, us.drop_last(), t, turned(us.last(), v));
    }
}

/// Where each rotation takes a vector. Rotations 0 and 2, and every number
/// past the last, keep it. Rotation 1 faces it about; 3 takes `+z` to `+x` and 4
/// takes it to `-x`, both keeping `+y`. Rotations 5 and 11 put it head down about
/// x, 10 about z. The four walls take `+y` outward: 6 to `-z` (north), 7 to `+z`
/// (south), 8 to `+x` (east), 9 to `-x` (west). Rotations 12 and 13 are 3 and 4
/// put head down, and 14 and 15 lay `+y` along x and along z.
pub proof fn law_rotation_directions(rot: u8, x: int, y: int, z: int)
    ensures
        rot == 0 || rot == 2 || rot > 15 ==> turned_all(rotation_turns(rot), (x, y, z)) == (x, y, z),
        rot == 1 ==> turned_all(rotation_turns(rot), (x, y, z)) == (-x, y, -z),
        rot == 3 ==> turned_all(rotation_turns(rot), (x, y, z)) == (z, y, -x),
        rot == 4 ==> turned_all(rotation_turns(rot), (x, y, z)) == (-z, y, x),
        rot == 5 || rot == 11 ==> turned_all(rotation_turns(rot), (x, y, z)) == (x, -y, -z),
        rot == 6 ==> turned_all(rotation_turns(rot), (x, y, z)) == (x, z, -y),
        rot == 7 || rot == 15 ==> turned_all(rotation_turns(rot), (x, y, z)) == (x, -z, y),
        rot == 8 || rot == 14 ==> turned_all(rotation_turns(rot), (x, y, z)) == (y, -x, z),
        rot == 9 ==> turned_all(rotation_turns(rot), (x, y, z)) == (-y, x, z),
        rot == 10 ==> turned_all(rotation_turns(rot), (x, y, z)) == (-x, -y, z),
        rot == 12 ==> turned_all(rotation_turns(rot), (x, y, z)) == (z, -y, x),
        rot == 13 ==> turned_all(rotation_turns(rot), (x, y, z)) == (-z, -y, -x),
{
    let ts = rotation_turns(rot);
    let v: IntVec = (x, y, z);
    if ts.len() == 1 {
        assert(ts =~= seq![ts[0]]);
        law_turns_compose(seq![], seq![], ts[0], v);
    } else if ts.len() == 2 {
        assert(ts =~= seq![ts[0]] + seq![ts[1]]);
        law_turns_compose(seq![ts[0]], seq![ts[1]], ts[1], v);
        law_turns_compose(seq![], seq![], ts[0], turned(ts[1], v));
    } else {
        assert(ts =~= seq![]);
    }
}

/// Two different rotations out of the upright, the two sideways, the four
/// walls, the head-down and the back-facing one are told apart by some vector, and no
/// rotation but 0 and 2 is like the upright one.
pub proof fn law_rotations_differ(a: u8, b: u8)
    requires
        a < b <= 15,
        !(a == 0 && b == 2),
        !(a == 5 && b == 11),
        !(a == 7 && b == 15),
        !(a == 8 && b == 14),
    ensures
        exists|v: IntVec|
            #![trigger turned_all(rotation_turns(a), v)]
            turned_all(rotation_turns(a), v) != turned_all(rotation_turns(b), v),
{
    law_rotation_directions(a, 1, 2, 3);
    law_rotation_directions(b, 1, 2, 3);
    let v: IntVec = (1, 2, 3);
    assert(turned_all(rotation_turns(a), v) != turned_all(rotation_turns(b), v));
}

/// Taking the instances of chunks away keeps the models and leaves every
/// instance that stays as it was. An instance goes exactly where one of the
/// chunks named holds its block: where the block's offset from that chunk's lowest
/// corner lies within the chunk's size on all three axes.
pub proof fn law_despawn_keeps_the_rest(
    m: BlockModels,
    keys: Seq<(i32, i32, i32)>,
    sx: int,
    sy: int,
    sz: int,
    p: BlockPos,
)
    requires
        sx > 0,
        sy > 0,
        sz > 0,
    ensures
        ({
            let r = m.without_chunks(keys, sx, sy, sz);
            &&& r.models == m.models
            &&& r.instances.dom().contains(p) ==> r.instances[p] == m.instances[p]
            &&& r.instances.dom().contains(p) <==> m.instances.dom().contains(p) && !exists|i: int|
                #![trigger keys[i]]
                0 <= i < keys.len() && 0 <= p.0 - keys[i].0 * sx < sx && 0 <= p.1 - keys[i].1 * sy
                    < sy && 0 <= p.2 - keys[i].2 * sz < sz
        }),
{
    law_despawn_by_chunk(m, keys, sx, sy, sz, p);
    let c = chunk_of(p, sx, sy, sz);
    assert forall|i: int|
        #![trigger keys[i]]
        0 <= i < keys.len() implies (keys[i].0 == c.0 && keys[i].1 == c.1 && keys[i].2 == c.2) == (0
        <= p.0 - keys[i].0 * sx < sx && 0 <= p.1 - keys[i].1 * sy < sy && 0 <= p.2 - keys[i].2 * sz
        < sz) by {
        lemma_one_multiple(p.0 as int, sx, keys[i].0 as int, c.0);
        lemma_one_multiple(p.1 as int, sy, keys[i].1 as int, c.1);
        lemma_one_multiple(p.2 as int, sz, keys[i].2 as int, c.2);
    }
    let r = m.without_chunks(keys, sx, sy, sz);
    if lists_chunk(keys, c) {
        let i = choose|i: int|
            #![trigger keys[i]]
            0 <= i < keys.len() && keys[i].0 == c.0 && keys[i].1 == c.1 && keys[i].2 == c.2;
        assert(0 <= p.0 - keys[i].0 * sx < sx && 0 <= p.1 - keys[i].1 * sy < sy && 0 <= p.2
            - keys[i].2 * sz < sz);
    }
}

/// A coordinate lies in one cell of the size given only.
proof fn lemma_one_multiple(w: int, size: int, a: int, b: int)
    requires
        size > 0,
        b * size <= w < b * size + size,
    ensures
        (a == b) == (0 <= w - a * size < size),
{
    if a < b {
        assert(a * size + size <= b * size) by (nonlinear_arith)
            requires
                a + 1 <= b,
                size > 0,
        ;
    } else if a > b {
        assert(b * size + size <= a * size) by (nonlinear_arith)
            requires
                b + 1 <= a,
                size > 0,
        ;
    }
}

} // verus!
