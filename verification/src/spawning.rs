//! Natural spawning: where animals appear on fresh ground, and which of them
//! go when their chunk goes.
use crate::inventory_ui::texts;
use crate::single;
use crate::table::Table;
use crate::table::TableKey;
use crate::text;
use vstd::prelude::*;
use vstd::string::*;

verus! {

/// Position of a chunk, in chunks.
pub type ChunkKey = (i32, i32, i32);

/// When and where an entity spawns by itself.
#[derive(Debug)]
pub struct SpawnRule {
    pub enabled: bool,
    /// Most entities of the kind at a time.
    pub max_alive: u32,
    /// Most entities that appear in a chunk at once.
    pub max_per_chunk: u32,
    pub min_y: i32,
    pub max_y: i32,
    /// The blocks on which it spawns; any block where the list is empty.
    pub spawn_on_blocks: Vec<String>,
    /// Share of places at which it spawns, as the bits of a single-precision
    /// number.
    pub rarity: u32,
}

/// An entity of the registry and its rule, if it has one.
#[derive(Debug)]
pub struct SpawnEntry {
    pub key: String,
    pub rule: Option<SpawnRule>,
}

/// A block at the surface of a chunk.
#[derive(Debug, Clone, Copy, PartialEq, Eq, Structural)]
pub struct SurfaceSample {
    pub x: i32,
    pub y: i32,
    pub z: i32,
    pub block: u8,
}

/// A chunk that was just made, with blocks at its surface.
#[derive(Debug)]
pub struct FreshChunk {
    pub key: (i32, i32, i32),
    pub samples: Vec<SurfaceSample>,
}

/// A sheep that is to appear: its chunk and the block on which it will stand.
#[derive(Debug, Clone, Copy)]
pub struct QueuedSpawn {
    pub chunk: (i32, i32, i32),
    pub x: i32,
    pub y: i32,
    pub z: i32,
}

impl QueuedSpawn {
    /// The block in which the sheep will be: the one above that on which it
    /// stands.
    pub fn feet(&self) -> (r: (i32, i64, i32))
        ensures
            r == (self.x, (self.y + 1) as i64, self.z),
    {
        (self.x, self.y as i64 + 1, self.z)
    }
}

/// A position and a salt, mixed into one number.
pub open spec fn seed_of(x: i32, y: i32, z: i32, salt: u64) -> u64 {
    0xCBF2_9CE4_8422_2325u64 ^ (x as i64 as u64).wrapping_mul(0x0100_0000_01B3) ^ (y as i64
        as u64).wrapping_mul(0x9E37_79B9_7F4A_7C15) ^ (z as i64 as u64).wrapping_mul(
        0xBF58_476D_1CE4_E5B9,
    ) ^ salt.wrapping_mul(0x94D0_49BB_1331_11EB)
}

/// A number folded onto itself `shift` bits further down.
pub open spec fn folded(h: u64, shift: u64) -> u64 {
    h ^ (h >> shift)
}

/// The upper 24 bits of the shuffled mixture of a position and a salt.
pub open spec fn roll_of(x: i32, y: i32, z: i32, salt: u64) -> u64 {
    let a = folded(seed_of(x, y, z, salt), 30).wrapping_mul(0xBF58_476D_1CE4_E5B9);
    let b = folded(a, 27).wrapping_mul(0x94D0_49BB_1331_11EB);
    folded(b, 31) >> 40
}

/// Salt of the rolls of places. It is the same on every run.
pub const ROLL_SALT: u64 = 0;

/// The roll of a position: one of `2^24` numbers, the same on every run.
pub fn position_hash(x: i32, y: i32, z: i32, salt: u64) -> (r: u32)
    ensures
        r == roll_of(x, y, z, salt),
        r < 0x100_0000,
{
    let mut h: u64 = 0xCBF2_9CE4_8422_2325u64 ^ (x as i64 as u64).wrapping_mul(0x0100_0000_01B3)
        ^ (y as i64 as u64).wrapping_mul(0x9E37_79B9_7F4A_7C15) ^ (z as i64 as u64).wrapping_mul(
        0xBF58_476D_1CE4_E5B9,
    ) ^ salt.wrapping_mul(0x94D0_49BB_1331_11EB);
    h = (h ^ (h >> 30u64)).wrapping_mul(0xBF58_476D_1CE4_E5B9);
    h = (h ^ (h >> 27u64)).wrapping_mul(0x94D0_49BB_1331_11EB);
    h = h ^ (h >> 31u64);
    assert(h >> 40u64 < 0x100_0000u64) by (bit_vector);
    (h >> 40u64) as u32
}

/// The blocks that a rule names, as far as they are known.
pub open spec fn known_blocks(names: Seq<Seq<char>>, ids: Map<Seq<char>, u8>) -> Seq<u8>
    decreases names.len(),
{
    if names.len() == 0 {
        Seq::empty()
    } else if ids.dom().contains(names.last()) {
        known_blocks(names.drop_last(), ids).push(ids[names.last()])
    } else {
        known_blocks(names.drop_last(), ids)
    }
}

/// The numbers of the blocks that a rule names; unknown names are left out.
pub fn allowed_blocks(names: &Vec<String>, ids: &Table<String, u8>) -> (r: Vec<u8>)
    requires
        ids.wf(),
    ensures
        r@ == known_blocks(texts(names@), ids@),
{
    let mut r: Vec<u8> = Vec::new();
    let mut i: usize = 0;
    assert(texts(names@).take(0) =~= Seq::<Seq<char>>::empty());
    while i < names.len()
        invariant
            i <= names@.len(),
            ids.wf(),
            r@ == known_blocks(texts(names@).take(i as int), ids@),
        decreases names@.len() - i,
    {
        proof {
            let next = texts(names@).take(i as int + 1);
            assert(next.drop_last() =~= texts(names@).take(i as int));
            assert(next.last() == names@[i as int]@);
        }
        match ids.get(&names[i]) {
            Some(id) => {
                r.push(*id);
            },
            None => {},
        }
        i += 1;
    }
    assert(texts(names@).take(names@.len() as int) =~= texts(names@));
    r
}

/// What is queued, and how many places were accepted so far.
#[verifier::ext_equal]
pub struct SpawnState {
    pub pending: Seq<QueuedSpawn>,
    pub counter: u64,
}

/// The seed of sheep `i` of those that appear together: the seed of the world,
/// mixed with the number of places that were accepted, counted back.
pub open spec fn own_seed(world_seed: u64, counter: u64, i: u64) -> u64 {
    world_seed ^ counter.wrapping_sub(i)
}

/// Sheep that appear together act by different seeds.
pub proof fn law_seeds_differ(world_seed: u64, counter: u64, i: u64, j: u64)
    requires
        i != j,
    ensures
        own_seed(world_seed, counter, i) != own_seed(world_seed, counter, j),
{
    let a = counter.wrapping_sub(i);
    let b = counter.wrapping_sub(j);
    assert(a != b);
    assert(a != b ==> world_seed ^ a != world_seed ^ b) by (bit_vector);
}

/// A place where an entity may spawn: the height and the block are right, and
/// the roll of the place is below the rarity. What was made before does not
/// enter.
pub open spec fn is_spawn_place(rule: SpawnRule, allowed: Seq<u8>, s: SurfaceSample) -> bool {
    &&& rule.min_y <= s.y <= rule.max_y
    &&& allowed.len() == 0 || allowed.contains(s.block)
    &&& single::is_fraction_below(roll_of(s.x, s.y, s.z, ROLL_SALT) as int, rule.rarity)
}

impl SpawnState {
    /// There is room for one more: of sheep there are, with `living` in the
    /// world and those that are queued, fewer than the greatest number.
    pub open spec fn has_room(self, rule: SpawnRule, is_sheep: bool, living: nat) -> bool {
        is_sheep ==> living + self.pending.len() < rule.max_alive
    }

    /// The state after the first `n` places of a chunk, and how many sheep were
    /// queued for it. Once the chunk has its number of sheep, or the world has,
    /// no place counts.
    pub open spec fn after_samples(
        self,
        rule: SpawnRule,
        allowed: Seq<u8>,
        is_sheep: bool,
        living: nat,
        chunk: ChunkKey,
        samples: Seq<SurfaceSample>,
        n: int,
    ) -> (SpawnState, int)
        decreases n,
    {
        if n <= 0 {
            (self, 0)
        } else {
            let (st, k) = self.after_samples(
                rule,
                allowed,
                is_sheep,
                living,
                chunk,
                samples,
                n - 1,
            );
            let s = samples[n - 1];
            if k < rule.max_per_chunk && st.has_room(rule, is_sheep, living) && is_spawn_place(
                rule,
                allowed,
                s,
            ) {
                (
                    SpawnState {
                        counter: st.counter.wrapping_add(1),
                        pending: if is_sheep {
                            st.pending.push(QueuedSpawn { chunk, x: s.x, y: s.y, z: s.z })
                        } else {
                            st.pending
                        },
                    },
                    if is_sheep {
                        k + 1
                    } else {
                        k
                    },
                )
            } else {
                (st, k)
            }
        }
    }

    /// The state after the first `n` chunks.
    pub open spec fn after_chunks(
        self,
        rule: SpawnRule,
        allowed: Seq<u8>,
        is_sheep: bool,
        living: nat,
        chunks: Seq<FreshChunk>,
        n: int,
    ) -> SpawnState
        decreases n,
    {
        if n <= 0 {
            self
        } else {
            let st = self.after_chunks(rule, allowed, is_sheep, living, chunks, n - 1);
            let c = chunks[n - 1];
            st.after_samples(
                rule,
                allowed,
                is_sheep,
                living,
                c.key,
                c.samples@,
                c.samples@.len() as int,
            ).0
        }
    }

    /// The state after the first `n` entities of the registry, with `living`
    /// sheep in the world.
    pub open spec fn after_entries(
        self,
        entries: Seq<SpawnEntry>,
        ids: Map<Seq<char>, u8>,
        living: nat,
        chunks: Seq<FreshChunk>,
        n: int,
    ) -> SpawnState
        decreases n,
    {
        if n <= 0 {
            self
        } else {
            let st = self.after_entries(entries, ids, living, chunks, n - 1);
            let e = entries[n - 1];
            if applies(e) {
                let rule = e.rule->Some_0;
                st.after_chunks(
                    rule,
                    known_blocks(texts(rule.spawn_on_blocks@), ids),
                    e.key@ == "sheep"@,
                    living,
                    chunks,
                    chunks.len() as int,
                )
            } else {
                st
            }
        }
    }
}

/// The entity has a rule that is enabled.
pub open spec fn applies(e: SpawnEntry) -> bool {
    e.rule matches Some(rule) && rule.enabled
}

fn has_block(allowed: &Vec<u8>, block: u8) -> (r: bool)
    ensures
        r == allowed@.contains(block),
{
    let mut i: usize = 0;
    while i < allowed.len()
        invariant
            i <= allowed@.len(),
            forall|j: int| #![trigger allowed@[j]] 0 <= j < i ==> allowed@[j] != block,
        decreases allowed@.len() - i,
    {
        if allowed[i] == block {
            assert(allowed@[i as int] == block);
            return true;
        }
        i += 1;
    }
    false
}

/// The sheep of the world by their numbers, the sheep that are to appear, and
/// how many places were accepted so far.
pub struct Herd {
    sheep: Table<u64, (i32, i32, i32)>,
    chunk_entities: Table<(i32, i32, i32), Vec<u64>>,
    pending: Vec<QueuedSpawn>,
    counter: u64,
}

/// The sheep as a mathematical value.
#[verifier::ext_equal]
pub struct HerdModel {
    /// The chunk of each sheep.
    pub sheep: Map<u64, ChunkKey>,
    /// The sheep of each chunk, in the order in which they appeared.
    pub chunks: Map<ChunkKey, Seq<u64>>,
    pub state: SpawnState,
}

/// The lists of a table as sequences.
pub open spec fn lists_of(m: Map<ChunkKey, Vec<u64>>) -> Map<ChunkKey, Seq<u64>> {
    m.map_values(|v: Vec<u64>| v@)
}

impl View for Herd {
    type V = HerdModel;

    closed spec fn view(&self) -> HerdModel {
        HerdModel {
            sheep: self.sheep@,
            chunks: lists_of(self.chunk_entities@),
            state: SpawnState { pending: self.pending@, counter: self.counter },
        }
    }
}

impl HerdModel {
    /// Each chunk lists its own sheep, each of them once, and each sheep is
    /// listed.
    pub open spec fn consistent(self) -> bool {
        &&& forall|c: ChunkKey, i: int|
            #![trigger self.chunks[c][i]]
            self.chunks.dom().contains(c) && 0 <= i < self.chunks[c].len() ==> {
                &&& self.sheep.dom().contains(self.chunks[c][i])
                &&& self.sheep[self.chunks[c][i]] == c
            }
        &&& forall|id: u64|
            #![trigger self.sheep.dom().contains(id)]
            self.sheep.dom().contains(id) ==> self.chunks.dom().contains(self.sheep[id])
                && self.chunks[self.sheep[id]].contains(id)
    }

    /// The herd after sheep `id` appeared in a chunk.
    pub open spec fn spawned(self, chunk: ChunkKey, id: u64) -> HerdModel {
        HerdModel {
            sheep: self.sheep.insert(id, chunk),
            chunks: self.chunks.insert(
                chunk,
                (if self.chunks.dom().contains(chunk) {
                    self.chunks[chunk]
                } else {
                    Seq::empty()
                }).push(id),
            ),
            ..self
        }
    }

    /// The sheep of a chunk.
    pub open spec fn listed(self, chunk: ChunkKey) -> Seq<u64> {
        if self.chunks.dom().contains(chunk) {
            self.chunks[chunk]
        } else {
            Seq::empty()
        }
    }

    /// The herd after the sheep of a chunk are gone.
    pub open spec fn without_chunk(self, chunk: ChunkKey) -> HerdModel {
        HerdModel {
            sheep: without_ids(self.sheep, self.listed(chunk)),
            chunks: self.chunks.remove(chunk),
            state: SpawnState {
                pending: without_spawns(self.state.pending, chunk),
                ..self.state
            },
        }
    }

    /// The herd after the sheep of some chunks are gone.
    pub open spec fn without_chunks(self, keys: Seq<ChunkKey>) -> HerdModel
        decreases keys.len(),
    {
        if keys.len() == 0 {
            self
        } else {
            self.without_chunks(keys.drop_last()).without_chunk(keys.last())
        }
    }

    /// The sheep that go with some chunks, in order.
    pub open spec fn gone_with(self, keys: Seq<ChunkKey>) -> Seq<u64>
        decreases keys.len(),
    {
        if keys.len() == 0 {
            Seq::empty()
        } else {
            self.gone_with(keys.drop_last()) + self.without_chunks(keys.drop_last()).listed(
                keys.last(),
            )
        }
    }
}

/// A map without some keys.
pub open spec fn without_ids(m: Map<u64, ChunkKey>, ids: Seq<u64>) -> Map<u64, ChunkKey>
    decreases ids.len(),
{
    if ids.len() == 0 {
        m
    } else {
        without_ids(m, ids.drop_last()).remove(ids.last())
    }
}

/// What is queued for other chunks than the given one.
pub open spec fn without_spawns(s: Seq<QueuedSpawn>, chunk: ChunkKey) -> Seq<QueuedSpawn>
    decreases s.len(),
{
    if s.len() == 0 {
        s
    } else if s.last().chunk == chunk {
        without_spawns(s.drop_last(), chunk)
    } else {
        without_spawns(s.drop_last(), chunk).push(s.last())
    }
}

impl Herd {
    /// The tables are in order, and the chunks list the sheep.
    pub closed spec fn wf(&self) -> bool {
        &&& self.sheep.wf()
        &&& self.chunk_entities.wf()
        &&& self@.consistent()
    }

    /// The chunks of a herd list its sheep.
    pub proof fn law_consistent(&self)
        requires
            self.wf(),
        ensures
            self@.consistent(),
    {
    }

    /// No sheep.
    pub fn new() -> (r: Herd)
        ensures
            r.wf(),
            r@ == (HerdModel {
                sheep: Map::empty(),
                chunks: Map::empty(),
                state: SpawnState { pending: Seq::empty(), counter: 0 },
            }),
    {
        let r: Herd = Herd {
            sheep: Table::new(),
            chunk_entities: Table::new(),
            pending: Vec::new(),
            counter: 0,
        };
        assert(r@.chunks =~= Map::empty());
        r
    }

    /// The number of sheep.
    pub fn sheep_count(&self) -> (r: usize)
        requires
            self.wf(),
        ensures
            r == self@.sheep.dom().len(),
    {
        proof {
            self.sheep.lemma_len();
        }
        self.sheep.len()
    }

    /// Whether `id` is a sheep.
    pub fn is_sheep(&self, id: u64) -> (r: bool)
        requires
            self.wf(),
        ensures
            r == self@.sheep.dom().contains(id),
    {
        self.sheep.contains_key(&id)
    }

    /// How many sheep are to appear.
    pub fn pending_count(&self) -> (r: usize)
        ensures
            r == self@.state.pending.len(),
    {
        self.pending.len()
    }

    /// The seed by which sheep `i` of those that appear together acts.
    pub fn sheep_seed(&self, world_seed: u64, i: u64) -> (r: u64)
        ensures
            r == own_seed(world_seed, self@.state.counter, i),
    {
        world_seed ^ self.counter.wrapping_sub(i)
    }

    fn has_room(&self, rule: &SpawnRule, is_sheep: bool) -> (r: bool)
        requires
            self.wf(),
        ensures
            r == self@.state.has_room(*rule, is_sheep, self@.sheep.dom().len()),
    {
        !is_sheep || self.sheep_count() as u128 + (self.pending.len() as u128)
            < rule.max_alive as u128
    }

    fn take_samples(
        &mut self,
        rule: &SpawnRule,
        allowed: &Vec<u8>,
        is_sheep: bool,
        chunk: &FreshChunk,
    )
        requires
            old(self).wf(),
        ensures
            final(self).wf(),
            final(self)@ == (HerdModel {
                state: old(self)@.state.after_samples(
                    *rule,
                    allowed@,
                    is_sheep,
                    old(self)@.sheep.dom().len(),
                    chunk.key,
                    chunk.samples@,
                    chunk.samples@.len() as int,
                ).0,
                ..old(self)@
            }),
    {
        let mut spawned: u32 = 0;
        let mut i: usize = 0;
        while i < chunk.samples.len()
            invariant
                i <= chunk.samples@.len(),
                spawned <= rule.max_per_chunk,
                old(self).wf(),
                self.wf(),
                self.sheep == old(self).sheep,
                self.chunk_entities == old(self).chunk_entities,
                (self@.state, spawned as int) == old(self)@.state.after_samples(
                    *rule,
                    allowed@,
                    is_sheep,
                    old(self)@.sheep.dom().len(),
                    chunk.key,
                    chunk.samples@,
                    i as int,
                ),
            decreases chunk.samples@.len() - i,
        {
            let s: SurfaceSample = chunk.samples[i];
            let right_place: bool = rule.min_y <= s.y && s.y <= rule.max_y && (allowed.len() == 0
                || has_block(allowed, s.block));
            if right_place && spawned < rule.max_per_chunk && self.has_room(rule, is_sheep) {
                let roll: u32 = position_hash(s.x, s.y, s.z, ROLL_SALT);
                if single::fraction_below(roll, rule.rarity) {
                    self.counter = self.counter.wrapping_add(1);
                    if is_sheep {
                        self.pending.push(QueuedSpawn { chunk: chunk.key, x: s.x, y: s.y, z: s.z });
                        spawned = spawned + 1;
                    }
                }
            }
            assert(self@ == (HerdModel { state: self@.state, ..old(self)@ }));
            i += 1;
        }
        assert(self@ == (HerdModel { state: self@.state, ..old(self)@ }));
    }

    fn take_chunks(
        &mut self,
        rule: &SpawnRule,
        allowed: &Vec<u8>,
        is_sheep: bool,
        chunks: &Vec<FreshChunk>,
    )
        requires
            old(self).wf(),
        ensures
            final(self).wf(),
            final(self)@ == (HerdModel {
                state: old(self)@.state.after_chunks(
                    *rule,
                    allowed@,
                    is_sheep,
                    old(self)@.sheep.dom().len(),
                    chunks@,
                    chunks@.len() as int,
                ),
                ..old(self)@
            }),
    {
        let mut i: usize = 0;
        while i < chunks.len()
            invariant
                i <= chunks@.len(),
                self.wf(),
                self@ == (HerdModel {
                    state: old(self)@.state.after_chunks(
                        *rule,
                        allowed@,
                        is_sheep,
                        old(self)@.sheep.dom().len(),
                        chunks@,
                        i as int,
                    ),
                    ..old(self)@
                }),
            decreases chunks@.len() - i,
        {
            self.take_samples(rule, allowed, is_sheep, &chunks[i]);
            i += 1;
        }
    }

    /// Holds fresh ground against the rules of all entities: sheep are queued
    /// where they spawn, as long as there are fewer than the greatest number
    /// of them.
    pub fn process_entity_spawn_candidates(
        &mut self,
        entries: &Vec<SpawnEntry>,
        ids: &Table<String, u8>,
        chunks: &Vec<FreshChunk>,
    )
        requires
            old(self).wf(),
            ids.wf(),
        ensures
            final(self).wf(),
            final(self)@ == (HerdModel {
                state: old(self)@.state.after_entries(
                    entries@,
                    ids@,
                    old(self)@.sheep.dom().len(),
                    chunks@,
                    entries@.len() as int,
                ),
                ..old(self)@
            }),
    {
        let mut i: usize = 0;
        while i < entries.len()
            invariant
                i <= entries@.len(),
                ids.wf(),
                self.wf(),
                self@ == (HerdModel {
                    state: old(self)@.state.after_entries(
                        entries@,
                        ids@,
                        old(self)@.sheep.dom().len(),
                        chunks@,
                        i as int,
                    ),
                    ..old(self)@
                }),
            decreases entries@.len() - i,
        {
            let is_sheep: bool = text::same_text(entries[i].key.as_str(), "sheep");
            match &entries[i].rule {
                Some(rule) => {
                    if rule.enabled {
                        let allowed: Vec<u8> = allowed_blocks(&rule.spawn_on_blocks, ids);
                        self.take_chunks(rule, &allowed, is_sheep, chunks);
                    }
                },
                None => {},
            }
            i += 1;
        }
    }

    /// Hands out the sheep that are to appear.
    pub fn take_pending(&mut self) -> (r: Vec<QueuedSpawn>)
        requires
            old(self).wf(),
        ensures
            final(self).wf(),
            r@ == old(self)@.state.pending,
            final(self)@ == (HerdModel {
                state: SpawnState { pending: Seq::empty(), ..old(self)@.state },
                ..old(self)@
            }),
    {
        let mut r: Vec<QueuedSpawn> = Vec::new();
        std::mem::swap(&mut r, &mut self.pending);
        assert(self@.sheep == old(self)@.sheep && self@.chunks == old(self)@.chunks);
        r
    }

    /// Takes down that a sheep appeared in a chunk.
    pub fn sheep_spawned(&mut self, chunk: (i32, i32, i32), id: u64)
        requires
            old(self).wf(),
            !old(self)@.sheep.dom().contains(id),
        ensures
            final(self).wf(),
            final(self)@ == old(self)@.spawned(chunk, id),
    {
        self.sheep.insert(id, chunk);
        let mut list: Vec<u64> = match self.chunk_entities.remove(&chunk) {
            Some(l) => l,
            None => Vec::new(),
        };
        list.push(id);
        self.chunk_entities.insert(chunk, list);
        proof {
            let m = old(self)@;
            let w = m.spawned(chunk, id);
            assert(self@.chunks.dom() =~= w.chunks.dom());
            assert(self@.chunks =~= w.chunks);
            assert(self@ == w);
            lemma_spawned_consistent(m, chunk, id);
        }
    }

    /// Takes the sheep of some chunks away, and what is queued for them.
    /// Returns the sheep that go.
    pub fn despawn_entities_in_chunks(&mut self, chunks: &Vec<(i32, i32, i32)>) -> (r: Vec<u64>)
        requires
            old(self).wf(),
        ensures
            final(self).wf(),
            final(self)@ == old(self)@.without_chunks(chunks@),
            r@ == old(self)@.gone_with(chunks@),
    {
        let mut gone: Vec<u64> = Vec::new();
        let mut i: usize = 0;
        assert(chunks@.take(0) =~= Seq::<ChunkKey>::empty());
        while i < chunks.len()
            invariant
                i <= chunks@.len(),
                self.wf(),
                self@ == old(self)@.without_chunks(chunks@.take(i as int)),
                gone@ == old(self)@.gone_with(chunks@.take(i as int)),
            decreases chunks@.len() - i,
        {
            proof {
                let next = chunks@.take(i as int + 1);
                assert(next.drop_last() =~= chunks@.take(i as int));
                assert(next.last() == chunks@[i as int]);
            }
            let mut ids: Vec<u64> = self.drop_chunk(chunks[i]);
            gone.append(&mut ids);
            i += 1;
        }
        assert(chunks@.take(chunks@.len() as int) =~= chunks@);
        gone
    }

    fn drop_chunk(&mut self, chunk: (i32, i32, i32)) -> (r: Vec<u64>)
        requires
            old(self).wf(),
        ensures
            final(self).wf(),
            final(self)@ == old(self)@.without_chunk(chunk),
            r@ == old(self)@.listed(chunk),
    {
        let ids: Vec<u64> = match self.chunk_entities.remove(&chunk) {
            Some(l) => l,
            None => Vec::new(),
        };
        assert(ids@ == old(self)@.listed(chunk));
        let mut k: usize = 0;
        assert(ids@.take(0) =~= Seq::<u64>::empty());
        while k < ids.len()
            invariant
                k <= ids@.len(),
                self.sheep.wf(),
                self.sheep@ == without_ids(old(self).sheep@, ids@.take(k as int)),
                self.pending == old(self).pending,
                self.counter == old(self).counter,
                self.chunk_entities.wf(),
                self.chunk_entities@ == old(self).chunk_entities@.remove(chunk),
            decreases ids@.len() - k,
        {
            proof {
                let next = ids@.take(k as int + 1);
                assert(next.drop_last() =~= ids@.take(k as int));
                assert(next.last() == ids@[k as int]);
            }
            self.sheep.remove(&ids[k]);
            k += 1;
        }
        assert(ids@.take(ids@.len() as int) =~= ids@);
        self.pending = kept_spawns(&self.pending, chunk);
        proof {
            let m = old(self)@;
            let w = m.without_chunk(chunk);
            assert(self@.chunks.dom() =~= w.chunks.dom());
            assert(self@.chunks =~= w.chunks);
            assert(self@ == w);
            lemma_without_chunk_consistent(m, chunk);
        }
        ids
    }
}

fn kept_spawns(s: &Vec<QueuedSpawn>, chunk: (i32, i32, i32)) -> (r: Vec<QueuedSpawn>)
    ensures
        r@ == without_spawns(s@, chunk),
{
    let mut r: Vec<QueuedSpawn> = Vec::new();
    let mut i: usize = 0;
    assert(s@.take(0) =~= Seq::<QueuedSpawn>::empty());
    while i < s.len()
        invariant
            i <= s@.len(),
            r@ == without_spawns(s@.take(i as int), chunk),
        decreases s@.len() - i,
    {
        proof {
            let next = s@.take(i as int + 1);
            assert(next.drop_last() =~= s@.take(i as int));
            assert(next.last() == s@[i as int]);
        }
        let q: QueuedSpawn = s[i];
        if !q.chunk.same_key(&chunk) {
            r.push(q);
        }
        i += 1;
    }
    assert(s@.take(s@.len() as int) =~= s@);
    r
}

proof fn lemma_without_ids(m: Map<u64, ChunkKey>, ids: Seq<u64>, id: u64)
    ensures
        without_ids(m, ids).dom().contains(id) <==> m.dom().contains(id) && !ids.contains(id),
        without_ids(m, ids).dom().contains(id) ==> without_ids(m, ids)[id] == m[id],
    decreases ids.len(),
{
    if ids.len() > 0 {
        let before = ids.drop_last();
        lemma_without_ids(m, before, id);
        if before.contains(id) {
            let i = choose|i: int| #![trigger before[i]] 0 <= i < before.len() && before[i] == id;
            assert(ids[i] == id);
        }
        if ids.contains(id) && !before.contains(id) {
            let i = choose|i: int| #![trigger ids[i]] 0 <= i < ids.len() && ids[i] == id;
            if i < before.len() {
                assert(before[i] == id);
            }
            assert(ids.last() == id);
        }
        if ids.last() == id {
            assert(ids[ids.len() - 1] == id);
        }
    }
}

proof fn lemma_spawned_consistent(m: HerdModel, chunk: ChunkKey, id: u64)
    requires
        m.consistent(),
        !m.sheep.dom().contains(id),
    ensures
        m.spawned(chunk, id).consistent(),
{
    let w = m.spawned(chunk, id);
    assert forall|c: ChunkKey, i: int|
        #![trigger w.chunks[c][i]]
        w.chunks.dom().contains(c) && 0 <= i < w.chunks[c].len() implies w.sheep.dom().contains(
        w.chunks[c][i],
    ) && w.sheep[w.chunks[c][i]] == c by {
        if m.chunks.dom().contains(c) && i < m.chunks[c].len() {
            assert(w.chunks[c][i] == m.chunks[c][i]);
            assert(m.sheep.dom().contains(m.chunks[c][i]));
        }
    }
    assert forall|k: u64| #![trigger w.sheep.dom().contains(k)] w.sheep.dom().contains(k) implies (
    w.chunks.dom().contains(w.sheep[k]) && w.chunks[w.sheep[k]].contains(k)) by {
        if k == id {
            let l = w.chunks[chunk];
            assert(l[l.len() - 1] == id);
        } else {
            assert(m.sheep.dom().contains(k));
            let c = m.sheep[k];
            let i = choose|i: int|
                #![trigger m.chunks[c][i]]
                0 <= i < m.chunks[c].len() && m.chunks[c][i] == k;
            assert(w.chunks[c][i] == k);
        }
    }
}

proof fn lemma_without_chunk_consistent(m: HerdModel, chunk: ChunkKey)
    requires
        m.consistent(),
    ensures
        m.without_chunk(chunk).consistent(),
        forall|id: u64|
            #![trigger m.without_chunk(chunk).sheep.dom().contains(id)]
            m.without_chunk(chunk).sheep.dom().contains(id) <==> m.sheep.dom().contains(id)
                && m.sheep[id] != chunk,
        forall|id: u64|
            #![trigger m.without_chunk(chunk).sheep[id]]
            m.without_chunk(chunk).sheep.dom().contains(id) ==> m.without_chunk(chunk).sheep[id]
                == m.sheep[id],
{
    let w = m.without_chunk(chunk);
    let gone = m.listed(chunk);
    assert forall|id: u64| #![trigger w.sheep.dom().contains(id)] (w.sheep.dom().contains(id) <==> (
    m.sheep.dom().contains(id) && m.sheep[id] != chunk)) && (w.sheep.dom().contains(id)
        ==> w.sheep[id] == m.sheep[id]) by {
        lemma_without_ids(m.sheep, gone, id);
        if gone.contains(id) {
            let i = choose|i: int| #![trigger gone[i]] 0 <= i < gone.len() && gone[i] == id;
            assert(m.chunks[chunk][i] == id);
        }
    }
    assert forall|id: u64| #![trigger w.sheep[id]] w.sheep.dom().contains(id) implies w.sheep[id]
        == m.sheep[id] by {
        assert(w.sheep.dom().contains(id));
    }
    assert forall|c: ChunkKey, i: int|
        #![trigger w.chunks[c][i]]
        w.chunks.dom().contains(c) && 0 <= i < w.chunks[c].len() implies w.sheep.dom().contains(
        w.chunks[c][i],
    ) && w.sheep[w.chunks[c][i]] == c by {
        let id = m.chunks[c][i];
        assert(w.chunks[c][i] == id);
        assert(m.sheep.dom().contains(id) && m.sheep[id] == c);
        assert(w.sheep.dom().contains(id));
    }
    assert forall|k: u64| #![trigger w.sheep.dom().contains(k)] w.sheep.dom().contains(k) implies (
    w.chunks.dom().contains(w.sheep[k]) && w.chunks[w.sheep[k]].contains(k)) by {
        assert(m.sheep.dom().contains(k));
    }
}

/// Once chunks go, no sheep of theirs is left and nothing is queued for them;
/// all other sheep stay where they are.
pub proof fn law_despawn(m: HerdModel, keys: Seq<ChunkKey>, id: u64)
    requires
        m.consistent(),
    ensures
        m.without_chunks(keys).consistent(),
        m.without_chunks(keys).sheep.dom().contains(id) <==> m.sheep.dom().contains(id)
            && !keys.contains(m.sheep[id]),
        m.without_chunks(keys).sheep.dom().contains(id) ==> m.without_chunks(keys).sheep[id]
            == m.sheep[id],
        m.gone_with(keys).contains(id) <==> m.sheep.dom().contains(id) && keys.contains(
            m.sheep[id],
        ),
        forall|q: QueuedSpawn|
            #![trigger m.without_chunks(keys).state.pending.contains(q)]
            m.without_chunks(keys).state.pending.contains(q) <==> m.state.pending.contains(q)
                && !keys.contains(q.chunk),
    decreases keys.len(),
{
    if keys.len() > 0 {
        let before = keys.drop_last();
        let last = keys.last();
        let b = m.without_chunks(before);
        let w = m.without_chunks(keys);
        law_despawn(m, before, id);
        lemma_without_chunk_consistent(b, last);
        assert(forall|c: ChunkKey|
            #![trigger keys.contains(c)]
            keys.contains(c) <==> before.contains(c) || c == last) by {
            assert forall|c: ChunkKey|
                #![trigger keys.contains(c)]
                keys.contains(c) <==> before.contains(c) || c == last by {
                assert(keys =~= before.push(last));
                if before.contains(c) {
                    let i = choose|i: int|
                        #![trigger before[i]]
                        0 <= i < before.len() && before[i] == c;
                    assert(keys[i] == c);
                }
                if keys.contains(c) && c != last {
                    let i = choose|i: int| #![trigger keys[i]] 0 <= i < keys.len() && keys[i] == c;
                    assert(before[i] == c);
                }
                assert(keys[keys.len() - 1] == last);
            }
        }
        assert(w.sheep.dom().contains(id) <==> b.sheep.dom().contains(id) && b.sheep[id] != last);
        let add = b.listed(last);
        let g = m.gone_with(before);
        assert(m.gone_with(keys) =~= g + add);
        assert((g + add).contains(id) <==> g.contains(id) || add.contains(id)) by {
            if g.contains(id) {
                let i = choose|i: int| #![trigger g[i]] 0 <= i < g.len() && g[i] == id;
                assert((g + add)[i] == id);
            }
            if add.contains(id) {
                let i = choose|i: int| #![trigger add[i]] 0 <= i < add.len() && add[i] == id;
                assert((g + add)[g.len() + i] == id);
            }
            if (g + add).contains(id) {
                let i = choose|i: int|
                    #![trigger (g + add)[i]]
                    0 <= i < (g + add).len() && (g + add)[i] == id;
                if i < g.len() {
                    assert(g[i] == id);
                } else {
                    assert(add[i - g.len()] == id);
                }
            }
        }
        assert(add.contains(id) <==> b.sheep.dom().contains(id) && b.sheep[id] == last) by {
            if add.contains(id) {
                let i = choose|i: int| #![trigger add[i]] 0 <= i < add.len() && add[i] == id;
                assert(b.chunks[last][i] == id);
            }
        }
        assert forall|q: QueuedSpawn|
            #![trigger w.state.pending.contains(q)]
            w.state.pending.contains(q) <==> m.state.pending.contains(q) && !keys.contains(
                q.chunk,
            ) by {
            lemma_without_spawns(b.state.pending, last, q);
            assert(b.state.pending.contains(q) <==> m.state.pending.contains(q)
                && !before.contains(q.chunk));
        }
    }
}

proof fn lemma_without_spawns(s: Seq<QueuedSpawn>, chunk: ChunkKey, q: QueuedSpawn)
    ensures
        without_spawns(s, chunk).contains(q) <==> s.contains(q) && q.chunk != chunk,
    decreases s.len(),
{
    if s.len() > 0 {
        let before = s.drop_last();
        let w = without_spawns(before, chunk);
        let a = without_spawns(s, chunk);
        lemma_without_spawns(before, chunk, q);
        assert(s =~= before.push(s.last()));
        if s.contains(q) {
            let i = choose|i: int| #![trigger s[i]] 0 <= i < s.len() && s[i] == q;
            if i < before.len() {
                assert(before[i] == q);
            }
        }
        if before.contains(q) {
            let i = choose|i: int| #![trigger before[i]] 0 <= i < before.len() && before[i] == q;
            assert(s[i] == q);
        }
        assert(s[s.len() - 1] == s.last());
        if s.last().chunk != chunk {
            assert(a[a.len() - 1] == s.last());
            if w.contains(q) {
                let i = choose|i: int| #![trigger w[i]] 0 <= i < w.len() && w[i] == q;
                assert(a[i] == q);
            }
            if a.contains(q) {
                let i = choose|i: int| #![trigger a[i]] 0 <= i < a.len() && a[i] == q;
                if i < w.len() {
                    assert(w[i] == q);
                }
            }
        }
    }
}

/// A chunk gets no more sheep at once than its rule allows, and as many places
/// are accepted as sheep are queued, where the entity is the sheep.
pub proof fn law_chunk_cap(
    st: SpawnState,
    rule: SpawnRule,
    allowed: Seq<u8>,
    living: nat,
    chunk: ChunkKey,
    samples: Seq<SurfaceSample>,
    n: int,
)
    ensures
        ({
            let (after, k) = st.after_samples(rule, allowed, true, living, chunk, samples, n);
            &&& 0 <= k <= rule.max_per_chunk
            &&& after.pending.len() == st.pending.len() + k
            &&& after.pending.take(st.pending.len() as int) == st.pending
            &&& forall|i: int|
                #![trigger after.pending[i]]
                st.pending.len() <= i < after.pending.len() ==> after.pending[i].chunk == chunk
                    && rule.min_y <= after.pending[i].y <= rule.max_y
        }),
    decreases n,
{
    if n <= 0 {
        assert(st.pending.take(st.pending.len() as int) =~= st.pending);
    } else {
        law_chunk_cap(st, rule, allowed, living, chunk, samples, n - 1);
        let (before, k) = st.after_samples(rule, allowed, true, living, chunk, samples, n - 1);
        let (after, l) = st.after_samples(rule, allowed, true, living, chunk, samples, n);
        assert(after.pending.take(st.pending.len() as int) =~= before.pending.take(
            st.pending.len() as int,
        ));
    }
}

/// The sheep that spawn at the first `n` places of a chunk, where nothing but
/// the number for a chunk keeps them away.
pub open spec fn chunk_spawns(
    rule: SpawnRule,
    allowed: Seq<u8>,
    chunk: ChunkKey,
    samples: Seq<SurfaceSample>,
    n: int,
) -> Seq<QueuedSpawn>
    decreases n,
{
    if n <= 0 {
        Seq::empty()
    } else {
        let before = chunk_spawns(rule, allowed, chunk, samples, n - 1);
        let s = samples[n - 1];
        if before.len() < rule.max_per_chunk && is_spawn_place(rule, allowed, s) {
            before.push(QueuedSpawn { chunk, x: s.x, y: s.y, z: s.z })
        } else {
            before
        }
    }
}

/// The sheep of a chunk are the same whenever the chunk is made: as long as
/// there is room for them, they depend on the rule and the ground alone.
pub proof fn law_chunk_spawns_stable(
    st: SpawnState,
    rule: SpawnRule,
    allowed: Seq<u8>,
    living: nat,
    chunk: ChunkKey,
    samples: Seq<SurfaceSample>,
    n: int,
)
    requires
        living + st.pending.len() + chunk_spawns(rule, allowed, chunk, samples, n).len()
            <= rule.max_alive,
    ensures
        st.after_samples(rule, allowed, true, living, chunk, samples, n).0.pending == st.pending
            + chunk_spawns(rule, allowed, chunk, samples, n),
        st.after_samples(rule, allowed, true, living, chunk, samples, n).1 == chunk_spawns(
            rule,
            allowed,
            chunk,
            samples,
            n,
        ).len(),
    decreases n,
{
    let all = chunk_spawns(rule, allowed, chunk, samples, n);
    if n <= 0 {
        assert(st.pending + all =~= st.pending);
    } else {
        law_chunk_spawns_stable(st, rule, allowed, living, chunk, samples, n - 1);
        let before = chunk_spawns(rule, allowed, chunk, samples, n - 1);
        let after = st.after_samples(rule, allowed, true, living, chunk, samples, n).0;
        if all.len() > before.len() {
            assert(st.pending + all =~= (st.pending + before).push(all.last()));
        }
    }
}

/// A herd keeps to its cap: where no rule for sheep allows more than `cap` of
/// them and there are no more, in the world and queued, there are no more
/// after fresh ground was looked at.
pub proof fn law_sheep_cap(
    m: HerdModel,
    entries: Seq<SpawnEntry>,
    ids: Map<Seq<char>, u8>,
    chunks: Seq<FreshChunk>,
    n: int,
    cap: u32,
)
    requires
        0 <= n <= entries.len(),
        forall|i: int|
            #![trigger entries[i]]
            0 <= i < entries.len() && entries[i].key@ == "sheep"@ && applies(entries[i])
                ==> entries[i].rule->Some_0.max_alive <= cap,
        m.sheep.dom().len() + m.state.pending.len() <= cap,
    ensures
        m.sheep.dom().len() + m.state.after_entries(
            entries,
            ids,
            m.sheep.dom().len(),
            chunks,
            n,
        ).pending.len() <= cap,
    decreases n,
{
    if n > 0 {
        let living = m.sheep.dom().len();
        law_sheep_cap(m, entries, ids, chunks, n - 1, cap);
        let e = entries[n - 1];
        if applies(e) {
            let rule = e.rule->Some_0;
            lemma_chunks_cap(
                m.state.after_entries(entries, ids, living, chunks, n - 1),
                rule,
                known_blocks(texts(rule.spawn_on_blocks@), ids),
                e.key@ == "sheep"@,
                living,
                chunks,
                chunks.len() as int,
            );
        }
    }
}

/// What is queued over the first `n` chunks stays within the greatest number
/// of sheep, unless it was beyond it before; other entities queue nothing.
proof fn lemma_chunks_cap(
    st: SpawnState,
    rule: SpawnRule,
    allowed: Seq<u8>,
    is_sheep: bool,
    living: nat,
    chunks: Seq<FreshChunk>,
    n: int,
)
    ensures
        ({
            let after = st.after_chunks(rule, allowed, is_sheep, living, chunks, n);
            ||| after.pending == st.pending
            ||| is_sheep && living + after.pending.len() <= rule.max_alive
        }),
    decreases n,
{
    if n > 0 {
        lemma_chunks_cap(st, rule, allowed, is_sheep, living, chunks, n - 1);
        let before = st.after_chunks(rule, allowed, is_sheep, living, chunks, n - 1);
        let c = chunks[n - 1];
        lemma_samples_cap(
            before,
            rule,
            allowed,
            is_sheep,
            living,
            c.key,
            c.samples@,
            c.samples@.len() as int,
        );
    }
}

proof fn lemma_samples_cap(
    st: SpawnState,
    rule: SpawnRule,
    allowed: Seq<u8>,
    is_sheep: bool,
    living: nat,
    chunk: ChunkKey,
    samples: Seq<SurfaceSample>,
    n: int,
)
    ensures
        ({
            let after = st.after_samples(rule, allowed, is_sheep, living, chunk, samples, n).0;
            ||| after.pending == st.pending
            ||| is_sheep && living + after.pending.len() <= rule.max_alive
        }),
    decreases n,
{
    if n > 0 {
        lemma_samples_cap(st, rule, allowed, is_sheep, living, chunk, samples, n - 1);
    }
}

/// While there are as many sheep as every rule for sheep allows, no sheep is
/// queued.
pub proof fn law_no_sheep_beyond_cap(
    st: SpawnState,
    entries: Seq<SpawnEntry>,
    ids: Map<Seq<char>, u8>,
    living: nat,
    chunks: Seq<FreshChunk>,
    n: int,
)
    requires
        0 <= n <= entries.len(),
        forall|i: int|
            #![trigger entries[i]]
            0 <= i < entries.len() && entries[i].key@ == "sheep"@ && entries[i].rule is Some
                ==> living + st.pending.len() >= entries[i].rule->Some_0.max_alive,
    ensures
        st.after_entries(entries, ids, living, chunks, n).pending == st.pending,
    decreases n,
{
    if n > 0 {
        law_no_sheep_beyond_cap(st, entries, ids, living, chunks, n - 1);
        let e = entries[n - 1];
        let before = st.after_entries(entries, ids, living, chunks, n - 1);
        if applies(e) {
            let rule = e.rule->Some_0;
            lemma_full_queues_nothing(
                before,
                rule,
                known_blocks(texts(rule.spawn_on_blocks@), ids),
                e.key@ == "sheep"@,
                living,
                chunks,
                chunks.len() as int,
            );
        }
    }
}

proof fn lemma_full_queues_nothing(
    st: SpawnState,
    rule: SpawnRule,
    allowed: Seq<u8>,
    is_sheep: bool,
    living: nat,
    chunks: Seq<FreshChunk>,
    n: int,
)
    requires
        is_sheep ==> living + st.pending.len() >= rule.max_alive,
    ensures
        st.after_chunks(rule, allowed, is_sheep, living, chunks, n).pending == st.pending,
    decreases n,
{
    if n > 0 {
        lemma_full_queues_nothing(st, rule, allowed, is_sheep, living, chunks, n - 1);
        let before = st.after_chunks(rule, allowed, is_sheep, living, chunks, n - 1);
        let c = chunks[n - 1];
        lemma_full_queues_nothing_in_chunk(
            before,
            rule,
            allowed,
            is_sheep,
            living,
            c.key,
            c.samples@,
            c.samples@.len() as int,
        );
    }
}

proof fn lemma_full_queues_nothing_in_chunk(
    st: SpawnState,
    rule: SpawnRule,
    allowed: Seq<u8>,
    is_sheep: bool,
    living: nat,
    chunk: ChunkKey,
    samples: Seq<SurfaceSample>,
    n: int,
)
    requires
        is_sheep ==> living + st.pending.len() >= rule.max_alive,
    ensures
        st.after_samples(rule, allowed, is_sheep, living, chunk, samples, n).0.pending
            == st.pending,
    decreases n,
{
    if n > 0 {
        lemma_full_queues_nothing_in_chunk(
            st,
            rule,
            allowed,
            is_sheep,
            living,
            chunk,
            samples,
            n - 1,
        );
    }
}

/// The seed of a place: at the origin without a salt it is one fixed number,
/// and each coordinate and the salt changes the bits of its own product, whatever
/// the others are.
pub proof fn law_seed_of(x: i32, y: i32, z: i32, salt: u64)
    ensures
        seed_of(0, 0, 0, 0) == 0xCBF2_9CE4_8422_2325u64,
        seed_of(x, y, z, salt) ^ seed_of(0, y, z, salt) == (x as i64 as u64) * 0x0100_0000_01B3
            % 0x1_0000_0000_0000_0000,
        seed_of(x, y, z, salt) ^ seed_of(x, 0, z, salt) == (y as i64 as u64) * 0x9E37_79B9_7F4A_7C15
            % 0x1_0000_0000_0000_0000,
        seed_of(x, y, z, salt) ^ seed_of(x, y, 0, salt) == (z as i64 as u64) * 0xBF58_476D_1CE4_E5B9
            % 0x1_0000_0000_0000_0000,
        seed_of(x, y, z, salt) ^ seed_of(x, y, z, 0) == salt * 0x94D0_49BB_1331_11EB
            % 0x1_0000_0000_0000_0000,
{
    let k = 0xCBF2_9CE4_8422_2325u64;
    let a = (x as i64 as u64).wrapping_mul(0x0100_0000_01B3);
    let b = (y as i64 as u64).wrapping_mul(0x9E37_79B9_7F4A_7C15);
    let c = (z as i64 as u64).wrapping_mul(0xBF58_476D_1CE4_E5B9);
    let d = salt.wrapping_mul(0x94D0_49BB_1331_11EB);
    assert(0u64.wrapping_mul(0x0100_0000_01B3) == 0);
    assert(0u64.wrapping_mul(0x9E37_79B9_7F4A_7C15) == 0);
    assert(0u64.wrapping_mul(0xBF58_476D_1CE4_E5B9) == 0);
    assert(0u64.wrapping_mul(0x94D0_49BB_1331_11EB) == 0);
    assert(0i32 as i64 as u64 == 0u64);
    assert(k ^ 0 ^ 0 ^ 0 ^ 0 == k && (k ^ a ^ b ^ c ^ d) ^ (k ^ 0 ^ b ^ c ^ d) == a && (k ^ a ^ b ^ c
        ^ d) ^ (k ^ a ^ 0 ^ c ^ d) == b && (k ^ a ^ b ^ c ^ d) ^ (k ^ a ^ b ^ 0 ^ d) == c && (k ^ a
        ^ b ^ c ^ d) ^ (k ^ a ^ b ^ c ^ 0) == d) by (bit_vector);
}

/// The roll of a place is made of its seed alone, by three foldings with a
/// multiplication between each two, and is the top 24 bits of the last. Folding
/// changes a number by its own upper bits only.
pub proof fn law_roll(x: i32, y: i32, z: i32, salt: u64, h: u64)
    ensures
        folded(h, 30) ^ h == h / 0x4000_0000,
        folded(h, 27) ^ h == h / 0x800_0000,
        folded(h, 31) ^ h == h / 0x8000_0000,
        ({
            let a = folded(seed_of(x, y, z, salt), 30) * 0xBF58_476D_1CE4_E5B9
                % 0x1_0000_0000_0000_0000;
            let b = folded(a as u64, 27) * 0x94D0_49BB_1331_11EB % 0x1_0000_0000_0000_0000;
            roll_of(x, y, z, salt) == folded(b as u64, 31) / 0x100_0000_0000
        }),
        roll_of(x, y, z, salt) < 0x100_0000,
{
    assert((h ^ (h >> 30u64)) ^ h == h / 0x4000_0000 && (h ^ (h >> 27u64)) ^ h == h / 0x800_0000 && (
    h ^ (h >> 31u64)) ^ h == h / 0x8000_0000) by (bit_vector);
    let a = folded(seed_of(x, y, z, salt), 30).wrapping_mul(0xBF58_476D_1CE4_E5B9);
    let b = folded(a, 27).wrapping_mul(0x94D0_49BB_1331_11EB);
    let c = folded(b, 31);
    assert(c >> 40u64 == c / 0x100_0000_0000 && c >> 40u64 < 0x100_0000u64) by (bit_vector);
}

/// The blocks that are known of some names are theirs, in order; a name that
/// is not registered gives none.
pub proof fn law_known_blocks(
    a: Seq<Seq<char>>,
    b: Seq<Seq<char>>,
    name: Seq<char>,
    ids: Map<Seq<char>, u8>,
)
    ensures
        known_blocks(Seq::empty(), ids).len() == 0,
        ids.dom().contains(name) ==> known_blocks(seq![name], ids) == seq![ids[name]],
        !ids.dom().contains(name) ==> known_blocks(seq![name], ids).len() == 0,
        known_blocks(a + b, ids) == known_blocks(a, ids) + known_blocks(b, ids),
    decreases b.len(),
{
    reveal_with_fuel(known_blocks, 2);
    assert(seq![name].drop_last() =~= Seq::empty());
    if ids.dom().contains(name) {
        assert(known_blocks(seq![name], ids) =~= seq![ids[name]]);
    }
    if b.len() == 0 {
        assert(a + b =~= a);
        assert(known_blocks(a, ids) + known_blocks(b, ids) =~= known_blocks(a, ids));
    } else {
        law_known_blocks(a, b.drop_last(), name, ids);
        assert((a + b).drop_last() =~= a + b.drop_last());
        assert(known_blocks(a + b, ids) =~= known_blocks(a, ids) + known_blocks(b, ids));
    }
}

/// An animal's own seed is the world's, changed by how far back its number
/// lies.
pub proof fn law_own_seed(world_seed: u64, counter: u64, i: u64)
    ensures
        i <= counter ==> own_seed(world_seed, counter, i) ^ world_seed == counter - i,
        i > counter ==> own_seed(world_seed, counter, i) ^ world_seed == counter - i
            + 0x1_0000_0000_0000_0000,
        own_seed(0, counter, 0) == counter,
        own_seed(world_seed, counter, counter) == world_seed,
{
    let a = counter.wrapping_sub(i);
    let b = counter.wrapping_sub(0);
    assert((world_seed ^ a) ^ world_seed == a && 0 ^ b == b && world_seed ^ 0 == world_seed) by (bit_vector);
}

/// A place is right for a rule where its height is within the rule's bounds,
/// its block is one of those allowed, all being so where none is named, and its roll
/// falls below the rarity.
pub proof fn law_spawn_place(rule: SpawnRule, allowed: Seq<u8>, s: SurfaceSample)
    ensures
        is_spawn_place(rule, allowed, s) <==> rule.min_y <= s.y && s.y <= rule.max_y && (
        allowed.len() > 0 ==> allowed.contains(s.block)) && single::is_fraction_below(
            roll_of(s.x, s.y, s.z, 0) as int,
            rule.rarity,
        ),
{
}

/// What one more sample does. It counts where its place is right, its chunk
/// has not brought as many as it may, and, for a sheep, there is room among those that
/// live and those that wait. A sheep that counts is queued behind the others, at the
/// sample's place in the sample's chunk; anything else is only counted.
pub proof fn law_one_sample(
    st: SpawnState,
    rule: SpawnRule,
    allowed: Seq<u8>,
    is_sheep: bool,
    living: nat,
    chunk: ChunkKey,
    samples: Seq<SurfaceSample>,
    n: int,
)
    requires
        0 <= n < samples.len(),
    ensures
        st.after_samples(rule, allowed, is_sheep, living, chunk, samples, 0) == (st, 0int),
        ({
            let (a, k) = st.after_samples(rule, allowed, is_sheep, living, chunk, samples, n);
            let (b, l) = st.after_samples(rule, allowed, is_sheep, living, chunk, samples, n + 1);
            let s = samples[n];
            let counts = k < rule.max_per_chunk && (!is_sheep || living + a.pending.len()
                < rule.max_alive) && is_spawn_place(rule, allowed, s);
            &&& !counts ==> b == a && l == k
            &&& counts ==> b.counter == (if a.counter == u64::MAX { 0 } else { a.counter + 1 })
            &&& counts && is_sheep ==> l == k + 1 && b.pending.len() == a.pending.len() + 1
                && b.pending.drop_last() == a.pending && b.pending.last().chunk == chunk
                && b.pending.last().x == s.x && b.pending.last().y == s.y && b.pending.last().z
                == s.z
            &&& counts && !is_sheep ==> l == k && b.pending == a.pending
        }),
{
    let a = st.after_samples(rule, allowed, is_sheep, living, chunk, samples, n).0;
    let s = samples[n];
    assert(a.pending.push(QueuedSpawn { chunk, x: s.x, y: s.y, z: s.z }).drop_last() =~= a.pending);
}

/// Chunks and entries are gone through in turn: each chunk with all its
/// samples, counted anew, and each entry that has a rule which is on with all
/// chunks, the sheep as sheep.
pub proof fn law_chunks_and_entries_in_turn(
    st: SpawnState,
    rule: SpawnRule,
    allowed: Seq<u8>,
    is_sheep: bool,
    living: nat,
    chunks: Seq<FreshChunk>,
    n: int,
    entries: Seq<SpawnEntry>,
    ids: Map<Seq<char>, u8>,
    m: int,
)
    requires
        0 <= n < chunks.len(),
        0 <= m < entries.len(),
    ensures
        st.after_chunks(rule, allowed, is_sheep, living, chunks, 0) == st,
        st.after_chunks(rule, allowed, is_sheep, living, chunks, n + 1) == st.after_chunks(
            rule,
            allowed,
            is_sheep,
            living,
            chunks,
            n,
        ).after_samples(
            rule,
            allowed,
            is_sheep,
            living,
            chunks[n].key,
            chunks[n].samples@,
            chunks[n].samples@.len() as int,
        ).0,
        st.after_entries(entries, ids, living, chunks, 0) == st,
        ({
            let a = st.after_entries(entries, ids, living, chunks, m);
            let b = st.after_entries(entries, ids, living, chunks, m + 1);
            match entries[m].rule {
                Some(r) if r.enabled => b == a.after_chunks(
                    r,
                    known_blocks(texts(r.spawn_on_blocks@), ids),
                    entries[m].key@ == "sheep"@,
                    living,
                    chunks,
                    chunks.len() as int,
                ),
                _ => b == a,
            }
        }),
        st.has_room(rule, true, living) <==> living + st.pending.len() < rule.max_alive,
        st.has_room(rule, false, living),
        applies(entries[m]) <==> entries[m].rule is Some && entries[m].rule->Some_0.enabled,
{
}

/// A sheep that appears is known by its chunk and listed there behind the
/// others; no other sheep, no other chunk and nothing that waits changes.
pub proof fn law_spawned(m: HerdModel, chunk: ChunkKey, id: u64, other: u64, c: ChunkKey)
    ensures
        ({
            let r = m.spawned(chunk, id);
            &&& r.sheep.dom().contains(id) && r.sheep[id] == chunk
            &&& other != id ==> (r.sheep.dom().contains(other) <==> m.sheep.dom().contains(other))
                && r.sheep[other] == m.sheep[other]
            &&& r.chunks.dom().contains(chunk) && r.chunks[chunk].last() == id
            &&& r.chunks[chunk].drop_last() == m.listed(chunk)
            &&& r.chunks[chunk].len() == m.listed(chunk).len() + 1
            &&& c != chunk ==> (r.chunks.dom().contains(c) <==> m.chunks.dom().contains(c))
                && r.chunks[c] == m.chunks[c]
            &&& r.state == m.state
            &&& m.chunks.dom().contains(c) ==> m.listed(c) == m.chunks[c]
            &&& !m.chunks.dom().contains(c) ==> m.listed(c).len() == 0
        }),
{
    assert(m.listed(chunk).push(id).drop_last() =~= m.listed(chunk));
}

/// Chunks leave in turn: each takes the sheep listed there, in their order,
/// and what waits there; the other lists, the order of what still waits and the
/// count stay.
pub proof fn law_leave_in_turn(
    m: HerdModel,
    a: Seq<ChunkKey>,
    b: Seq<ChunkKey>,
    k: ChunkKey,
    c: ChunkKey,
    s: Seq<QueuedSpawn>,
    t: Seq<QueuedSpawn>,
    q: QueuedSpawn,
)
    ensures
        m.without_chunks(Seq::empty()) == m,
        m.without_chunks(seq![k]) == m.without_chunk(k),
        m.without_chunks(a + b) == m.without_chunks(a).without_chunks(b),
        m.gone_with(Seq::empty()).len() == 0,
        m.gone_with(seq![k]) == m.listed(k),
        m.gone_with(a + b) == m.gone_with(a) + m.without_chunks(a).gone_with(b),
        m.without_chunk(k).state.counter == m.state.counter,
        !m.without_chunk(k).chunks.dom().contains(k),
        c != k ==> (m.without_chunk(k).chunks.dom().contains(c) <==> m.chunks.dom().contains(c))
            && m.without_chunk(k).chunks[c] == m.chunks[c],
        m.without_chunk(k).state.pending == without_spawns(m.state.pending, k),
        without_spawns(Seq::empty(), k).len() == 0,
        q.chunk == k ==> without_spawns(seq![q], k).len() == 0,
        q.chunk != k ==> without_spawns(seq![q], k) == seq![q],
        without_spawns(s + t, k) == without_spawns(s, k) + without_spawns(t, k),
    decreases b.len() + t.len(),
{
    reveal_with_fuel(HerdModel::without_chunks, 2);
    reveal_with_fuel(HerdModel::gone_with, 2);
    reveal_with_fuel(without_spawns, 2);
    assert(seq![k].drop_last() =~= Seq::empty());
    assert(seq![q].drop_last() =~= Seq::empty());
    assert(m.gone_with(seq![k]) =~= m.listed(k));
    if q.chunk != k {
        assert(without_spawns(seq![q], k) =~= seq![q]);
    }
    if b.len() > 0 {
        law_leave_in_turn(m, a, b.drop_last(), k, c, s, t, q);
        assert((a + b).drop_last() =~= a + b.drop_last());
        assert(m.gone_with(a + b) =~= m.gone_with(a) + m.without_chunks(a).gone_with(b));
    } else {
        assert(a + b =~= a);
        assert(m.gone_with(a + b) =~= m.gone_with(a) + m.without_chunks(a).gone_with(b));
        if t.len() > 0 {
            law_leave_in_turn(m, a, b, k, c, s, t.drop_last(), q);
            assert((s + t).drop_last() =~= s + t.drop_last());
            assert(without_spawns(s + t, k) =~= without_spawns(s, k) + without_spawns(t, k));
        } else {
            assert(s + t =~= s);
            assert(without_spawns(s + t, k) =~= without_spawns(s, k) + without_spawns(t, k));
        }
    }
}

/// Taking sheep out of a book takes exactly those named; in a consistent
/// book each sheep is listed in its own chunk and nowhere else.
pub proof fn law_sheep_book(m: Map<u64, ChunkKey>, ids: Seq<u64>, id: u64, h: HerdModel, c: ChunkKey, i: int)
    ensures
        without_ids(m, ids).dom().contains(id) <==> m.dom().contains(id) && !ids.contains(id),
        without_ids(m, ids).dom().contains(id) ==> without_ids(m, ids)[id] == m[id],
        h.consistent() && h.chunks.dom().contains(c) && 0 <= i < h.chunks[c].len()
            ==> h.sheep.dom().contains(h.chunks[c][i]) && h.sheep[h.chunks[c][i]] == c,
        h.consistent() && h.sheep.dom().contains(id) ==> h.chunks.dom().contains(h.sheep[id])
            && h.chunks[h.sheep[id]].contains(id),
    decreases ids.len(),
{
    if ids.len() > 0 {
        law_sheep_book(m, ids.drop_last(), id, h, c, i);
        let less = ids.drop_last();
        if ids.contains(id) && id != ids.last() {
            let j = choose|j: int| 0 <= j < ids.len() && ids[j] == id;
            assert(less[j] == id);
        }
        if less.contains(id) {
            let j = choose|j: int| 0 <= j < less.len() && less[j] == id;
            assert(ids[j] == id);
        }
        assert(ids[ids.len() - 1] == ids.last());
    }
}

/// The sheep listed for a chunk are those of its list.
pub proof fn law_lists(m: Map<ChunkKey, Vec<u64>>, c: ChunkKey)
    ensures
        lists_of(m).dom().contains(c) <==> m.dom().contains(c),
        m.dom().contains(c) ==> lists_of(m)[c] == m[c]@,
{
}

} // verus!
