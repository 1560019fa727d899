//! Item stacks, slots and the player's inventory.
use crate::table::Table;
use crate::text;
use vstd::prelude::*;
use vstd::string::*;

verus! {

/// The bits of the single-precision number one half.
pub const HALF_BITS: u32 = 0x3f00_0000;

/// A number of equal blocks.
///
/// A colour channel is held as the bits of a single-precision number.
#[derive(Debug)]
pub struct ItemStack {
    pub block_id: String,
    pub display_name: String,
    pub amount: u32,
    pub max_stack: u32,
    pub block_color: [u32; 3],
    pub top_texture: Option<String>,
    pub side_texture: Option<String>,
    /// Creative-mode tab this item belongs to.
    pub inventory_tab: Option<String>,
    /// If this block has a custom 3D model, the model's name.
    pub model_name: Option<String>,
}

/// A copy of an optional text.
pub fn clone_opt_text(s: &Option<String>) -> (r: Option<String>)
    ensures
        r == *s,
{
    match s {
        Some(t) => Some(t.clone()),
        None => None,
    }
}

impl Clone for ItemStack {
    fn clone(&self) -> (r: ItemStack)
        ensures
            r == *self,
    {
        ItemStack {
            block_id: self.block_id.clone(),
            display_name: self.display_name.clone(),
            amount: self.amount,
            max_stack: self.max_stack,
            block_color: self.block_color,
            top_texture: clone_opt_text(&self.top_texture),
            side_texture: clone_opt_text(&self.side_texture),
            inventory_tab: clone_opt_text(&self.inventory_tab),
            model_name: clone_opt_text(&self.model_name),
        }
    }
}

impl ItemStack {
    /// The same item in another number.
    pub open spec fn of_amount(self, n: int) -> ItemStack {
        ItemStack { amount: n as u32, ..self }
    }

    /// The stack holds no more than its limit.
    pub open spec fn fits(self) -> bool {
        self.amount <= self.max_stack
    }

    /// The free places of the stack.
    pub open spec fn space(self) -> int {
        self.max_stack - self.amount
    }

    /// The stack after `other` was put on it, and what did not fit.
    pub open spec fn merged(self, other: ItemStack) -> (ItemStack, Option<ItemStack>) {
        if self.block_id@ != other.block_id@ {
            (self, Some(other))
        } else if other.amount <= self.space() {
            (self.of_amount(self.amount + other.amount), None)
        } else {
            (self.of_amount(self.max_stack as int), Some(other.of_amount(other.amount - self.space())))
        }
    }

    /// A grey stack without textures, tab or model, cut to its limit.
    pub open spec fn plain(block_id: String, display_name: String, amount: u32, max_stack: u32) -> ItemStack {
        ItemStack {
            block_id,
            display_name,
            amount: if amount <= max_stack {
                amount
            } else {
                max_stack
            },
            max_stack,
            block_color: [HALF_BITS, HALF_BITS, HALF_BITS],
            top_texture: None,
            side_texture: None,
            inventory_tab: None,
            model_name: None,
        }
    }

    /// A stack of `amount` blocks, cut to `max_stack`.
    pub fn new(block_id: String, display_name: String, amount: u32, max_stack: u32) -> (r: ItemStack)
        ensures
            r == ItemStack::plain(block_id, display_name, amount, max_stack),
            r.fits(),
    {
        let cut: u32 = if amount <= max_stack {
            amount
        } else {
            max_stack
        };
        ItemStack {
            block_id,
            display_name,
            amount: cut,
            max_stack,
            block_color: [HALF_BITS, HALF_BITS, HALF_BITS],
            top_texture: None,
            side_texture: None,
            inventory_tab: None,
            model_name: None,
        }
    }

    /// The stack with another colour.
    pub fn with_color(self, color: [u32; 3]) -> (r: ItemStack)
        ensures
            r == (ItemStack { block_color: color, ..self }),
    {
        let mut r: ItemStack = self;
        r.block_color = color;
        r
    }

    /// The stack with other textures.
    pub fn with_textures(self, top: Option<String>, side: Option<String>) -> (r: ItemStack)
        ensures
            r == (ItemStack { top_texture: top, side_texture: side, ..self }),
    {
        let mut r: ItemStack = self;
        r.top_texture = top;
        r.side_texture = side;
        r
    }

    /// The stack on another tab.
    pub fn with_tab(self, tab: Option<String>) -> (r: ItemStack)
        ensures
            r == (ItemStack { inventory_tab: tab, ..self }),
    {
        let mut r: ItemStack = self;
        r.inventory_tab = tab;
        r
    }

    /// The stack with another model.
    pub fn with_model(self, model_name: Option<String>) -> (r: ItemStack)
        ensures
            r == (ItemStack { model_name: model_name, ..self }),
    {
        let mut r: ItemStack = self;
        r.model_name = model_name;
        r
    }

    /// A stack of one block.
    pub fn single(block_id: String, display_name: String, max_stack: u32) -> (r: ItemStack)
        ensures
            r == ItemStack::plain(block_id, display_name, 1, max_stack),
            r.fits(),
    {
        ItemStack::new(block_id, display_name, 1, max_stack)
    }

    /// Whether nothing more can be put on the stack.
    pub fn is_full(&self) -> (r: bool)
        ensures
            r == (self.amount >= self.max_stack),
    {
        self.amount >= self.max_stack
    }

    /// Whether the stack holds nothing.
    pub fn is_empty(&self) -> (r: bool)
        ensures
            r == (self.amount == 0),
    {
        self.amount == 0
    }

    /// Whether some of `other` can be put on this stack.
    pub fn can_merge(&self, other: &ItemStack) -> (r: bool)
        ensures
            r == (self.block_id@ == other.block_id@ && self.amount < self.max_stack),
    {
        self.block_id == other.block_id && !self.is_full()
    }

    /// Puts as much of `other` on this stack as there is room for and returns
    /// the rest.
    pub fn merge_from(&mut self, other: ItemStack) -> (r: Option<ItemStack>)
        requires
            old(self).block_id@ == other.block_id@ ==> old(self).fits(),
        ensures
            (*final(self), r) == old(self).merged(other),
    {
        if self.block_id != other.block_id {
            return Some(other);
        }
        let space: u32 = self.max_stack - self.amount;
        if other.amount <= space {
            self.amount = self.amount + other.amount;
            None
        } else {
            self.amount = self.max_stack;
            let remainder: u32 = other.amount - space;
            let mut rest: ItemStack = other;
            rest.amount = remainder;
            Some(rest)
        }
    }

    /// Splits the stack: it keeps the smaller half, the larger is returned.
    pub fn split_half(&mut self) -> (r: Option<ItemStack>)
        ensures
            old(self).amount <= 1 ==> r is None && *final(self) == *old(self),
            old(self).amount > 1 ==> {
                &&& *final(self) == old(self).of_amount(old(self).amount as int / 2)
                &&& r == Some(old(self).of_amount(old(self).amount - old(self).amount as int / 2))
            },
    {
        if self.amount <= 1 {
            return None;
        }
        let half: u32 = self.amount / 2;
        let other_half: u32 = self.amount - half;
        self.amount = half;
        let mut rest: ItemStack = self.clone();
        rest.amount = other_half;
        Some(rest)
    }

    /// Takes `count` blocks off the stack, if it holds that many.
    pub fn consume(&mut self, count: u32) -> (r: bool)
        ensures
            r == (old(self).amount >= count),
            r ==> *final(self) == old(self).of_amount(old(self).amount - count),
            !r ==> *final(self) == *old(self),
    {
        if self.amount < count {
            return false;
        }
        self.amount = self.amount - count;
        true
    }
}

/// A place for one stack.
#[derive(Debug)]
pub enum InventorySlot {
    Empty,
    Occupied(ItemStack),
}

impl Clone for InventorySlot {
    fn clone(&self) -> (r: InventorySlot)
        ensures
            r == *self,
    {
        match self {
            InventorySlot::Empty => InventorySlot::Empty,
            InventorySlot::Occupied(i) => InventorySlot::Occupied(i.clone()),
        }
    }
}

impl Default for InventorySlot {
    fn default() -> (r: InventorySlot)
        ensures
            r is Empty,
    {
        InventorySlot::Empty
    }
}

impl InventorySlot {
    /// What the slot holds.
    pub open spec fn content(self) -> Option<ItemStack> {
        match self {
            InventorySlot::Empty => None,
            InventorySlot::Occupied(i) => Some(i),
        }
    }

    /// What the slot holds is within its limit.
    pub open spec fn fits(self) -> bool {
        self matches InventorySlot::Occupied(i) ==> i.fits()
    }

    /// A stack of the block `id` in this slot is within its limit.
    pub open spec fn fits_for(self, id: Seq<char>) -> bool {
        self matches InventorySlot::Occupied(i) ==> i.block_id@ == id ==> i.fits()
    }

    /// The slot after a stack was put into it, and what did not fit.
    pub open spec fn inserted(self, stack: ItemStack) -> (InventorySlot, Option<ItemStack>) {
        match self {
            InventorySlot::Empty => (InventorySlot::Occupied(stack), None),
            InventorySlot::Occupied(i) => (
                InventorySlot::Occupied(i.merged(stack).0),
                i.merged(stack).1,
            ),
        }
    }

    /// The number of blocks `id` in the slot.
    pub open spec fn count(self, id: Seq<char>) -> int {
        match self {
            InventorySlot::Empty => 0,
            InventorySlot::Occupied(i) => stack_count(i, id),
        }
    }

    /// A slot that holds nothing.
    pub fn empty() -> (r: InventorySlot)
        ensures
            r is Empty,
    {
        InventorySlot::Empty
    }

    /// A slot that holds `item`.
    pub fn occupied(item: ItemStack) -> (r: InventorySlot)
        ensures
            r == InventorySlot::Occupied(item),
    {
        InventorySlot::Occupied(item)
    }

    /// Whether the slot holds nothing.
    pub fn is_empty(&self) -> (r: bool)
        ensures
            r == (*self is Empty),
    {
        match self {
            InventorySlot::Empty => true,
            InventorySlot::Occupied(_) => false,
        }
    }

    /// Whether the slot holds a stack.
    pub fn is_occupied(&self) -> (r: bool)
        ensures
            r == (*self is Occupied),
    {
        match self {
            InventorySlot::Empty => false,
            InventorySlot::Occupied(_) => true,
        }
    }

    /// The stack in the slot.
    pub fn item(&self) -> (r: Option<&ItemStack>)
        ensures
            match r {
                Some(i) => *self == InventorySlot::Occupied(*i),
                None => *self is Empty,
            },
    {
        match self {
            InventorySlot::Empty => None,
            InventorySlot::Occupied(i) => Some(i),
        }
    }

    /// Empties the slot and returns what it held.
    pub fn take(&mut self) -> (r: Option<ItemStack>)
        ensures
            r == old(self).content(),
            *final(self) is Empty,
    {
        let mut s: InventorySlot = InventorySlot::Empty;
        std::mem::swap(&mut s, self);
        match s {
            InventorySlot::Empty => None,
            InventorySlot::Occupied(i) => Some(i),
        }
    }

    /// Takes the larger half out of the slot, where it holds at least two.
    pub fn take_half(&mut self) -> (r: Option<ItemStack>)
        ensures
            match *old(self) {
                InventorySlot::Empty => r is None && *final(self) is Empty,
                InventorySlot::Occupied(i) => if i.amount <= 1 {
                    r is None && *final(self) == *old(self)
                } else {
                    &&& *final(self) == InventorySlot::Occupied(i.of_amount(i.amount as int / 2))
                    &&& r == Some(i.of_amount(i.amount - i.amount as int / 2))
                },
            },
    {
        match self {
            InventorySlot::Empty => None,
            InventorySlot::Occupied(i) => i.split_half(),
        }
    }

    /// Puts a stack into the slot and returns what did not fit.
    pub fn insert(&mut self, stack: ItemStack) -> (r: Option<ItemStack>)
        requires
            old(self).fits_for(stack.block_id@),
        ensures
            (*final(self), r) == old(self).inserted(stack),
    {
        match self {
            InventorySlot::Empty => {
                *self = InventorySlot::Occupied(stack);
                None
            },
            InventorySlot::Occupied(exist) => exist.merge_from(stack),
        }
    }

    /// The slot after one block of `item` was put into it, if that is possible.
    pub open spec fn placed_one(self, item: ItemStack) -> Option<InventorySlot> {
        match self {
            InventorySlot::Empty => Some(InventorySlot::Occupied(item.of_amount(1))),
            InventorySlot::Occupied(i) => if i.block_id@ == item.block_id@ && i.amount
                < i.max_stack {
                Some(InventorySlot::Occupied(i.of_amount(i.amount + 1)))
            } else {
                None
            },
        }
    }

    /// Puts one block of `item` into the slot, if it is empty or has room.
    pub fn place_one(&mut self, item: &ItemStack) -> (r: bool)
        ensures
            r == old(self).placed_one(*item) is Some,
            r ==> Some(*final(self)) == old(self).placed_one(*item),
            !r ==> *final(self) == *old(self),
    {
        match self {
            InventorySlot::Empty => {
                let mut one: ItemStack = item.clone();
                one.amount = 1;
                *self = InventorySlot::Occupied(one);
                true
            },
            InventorySlot::Occupied(exist) => {
                if exist.can_merge(item) {
                    exist.amount = exist.amount + 1;
                    true
                } else {
                    false
                }
            },
        }
    }

    /// Exchanges what two slots hold.
    pub fn swap(a: &mut InventorySlot, b: &mut InventorySlot)
        ensures
            *final(a) == *old(b),
            *final(b) == *old(a),
    {
        std::mem::swap(a, b);
    }
}

/// A place that a click can hit.
#[derive(Debug, Clone, Copy, PartialEq, Eq, Structural)]
pub enum SlotTarget {
    Main(usize),
    Hotbar(usize),
    Creative(usize),
    Trash,
}

/// The number of blocks `id` in a stack.
pub open spec fn stack_count(i: ItemStack, id: Seq<char>) -> int {
    if i.block_id@ == id {
        i.amount as int
    } else {
        0
    }
}

/// The number of blocks `id` in what may be a stack.
pub open spec fn opt_count(i: Option<ItemStack>, id: Seq<char>) -> int {
    match i {
        Some(i) => stack_count(i, id),
        None => 0,
    }
}

/// The number of blocks `id` in a row of slots.
pub open spec fn slots_count(s: Seq<InventorySlot>, id: Seq<char>) -> int
    decreases s.len(),
{
    if s.len() == 0 {
        0
    } else {
        slots_count(s.drop_last(), id) + s.last().count(id)
    }
}

/// Changing one slot changes the count of a row by the change of that slot.
pub proof fn lemma_slots_count_update(
    s: Seq<InventorySlot>,
    i: int,
    x: InventorySlot,
    id: Seq<char>,
)
    requires
        0 <= i < s.len(),
    ensures
        slots_count(s.update(i, x), id) == slots_count(s, id) - s[i].count(id) + x.count(id),
    decreases s.len(),
{
    let t = s.update(i, x);
    if i == s.len() - 1 {
        assert(t.drop_last() =~= s.drop_last());
    } else {
        lemma_slots_count_update(s.drop_last(), i, x, id);
        assert(t.drop_last() =~= s.drop_last().update(i, x));
    }
}

/// A row of slots after a stack was put into the slots from `from` on, one
/// after the other, and what did not fit.
pub open spec fn filled(s: Seq<InventorySlot>, stack: ItemStack, from: int) -> (
    Seq<InventorySlot>,
    Option<ItemStack>,
)
    decreases s.len() - from,
{
    if from < 0 || from >= s.len() {
        (s, Some(stack))
    } else {
        let (x, rest) = s[from].inserted(stack);
        let t = s.update(from, x);
        match rest {
            None => (t, None),
            Some(r) => filled(t, r, from + 1),
        }
    }
}

/// Each slot that holds the block `id` is within its limit.
pub open spec fn row_fits_for(s: Seq<InventorySlot>, id: Seq<char>) -> bool {
    forall|i: int| #![trigger s[i]] 0 <= i < s.len() ==> s[i].fits_for(id)
}

/// Each slot of the row is within its limit.
pub open spec fn row_fits(s: Seq<InventorySlot>) -> bool {
    forall|i: int| #![trigger s[i]] 0 <= i < s.len() ==> s[i].fits()
}

/// Puts a stack into the slots of a row, one after the other.
fn fill_row(s: &mut Vec<InventorySlot>, stack: ItemStack) -> (r: Option<ItemStack>)
    requires
        row_fits_for(old(s)@, stack.block_id@),
    ensures
        (final(s)@, r) == filled(old(s)@, stack, 0),
        r matches Some(rest) ==> rest.block_id == stack.block_id,
        final(s)@.len() == old(s)@.len(),
{
    let mut rest: ItemStack = stack;
    let mut i: usize = 0;
    while i < s.len()
        invariant
            i <= s@.len(),
            s@.len() == old(s)@.len(),
            filled(old(s)@, stack, 0) == filled(s@, rest, i as int),
            rest.block_id == stack.block_id,
            forall|j: int| #![trigger s@[j]] i <= j < s@.len() ==> s@[j].fits_for(stack.block_id@),
        decreases s@.len() - i,
    {
        let ghost before = s@;
        let ghost q = rest;
        match s[i].insert(rest) {
            None => {
                return None;
            },
            Some(r) => {
                rest = r;
            },
        }
        assert(s@ == before.update(i as int, before[i as int].inserted(q).0));
        i += 1;
    }
    Some(rest)
}

/// What a player carries.
#[derive(Debug)]
pub struct PlayerInventory {
    pub main_slots: Vec<InventorySlot>,
    pub hotbar_slots: Vec<InventorySlot>,
    pub active_hotbar_index: usize,
    pub dragged_item: Option<ItemStack>,
    pub is_open: bool,
    pub creative_mode: bool,
}

fn clone_slots(v: &Vec<InventorySlot>) -> (r: Vec<InventorySlot>)
    ensures
        r@ == v@,
{
    let mut r: Vec<InventorySlot> = Vec::new();
    let mut i: usize = 0;
    while i < v.len()
        invariant
            i <= v@.len(),
            r@ == v@.take(i as int),
        decreases v@.len() - i,
    {
        r.push(v[i].clone());
        assert(r@ =~= v@.take(i as int + 1));
        i += 1;
    }
    assert(r@ =~= v@);
    r
}

impl Clone for PlayerInventory {
    fn clone(&self) -> (r: PlayerInventory)
        ensures
            r@ == self@,
    {
        PlayerInventory {
            main_slots: clone_slots(&self.main_slots),
            hotbar_slots: clone_slots(&self.hotbar_slots),
            active_hotbar_index: self.active_hotbar_index,
            dragged_item: match &self.dragged_item {
                Some(i) => Some(i.clone()),
                None => None,
            },
            is_open: self.is_open,
            creative_mode: self.creative_mode,
        }
    }
}

/// An inventory as a mathematical value.
#[verifier::ext_equal]
pub struct InventoryModel {
    pub main: Seq<InventorySlot>,
    pub hotbar: Seq<InventorySlot>,
    pub active: int,
    pub dragged: Option<ItemStack>,
    pub open: bool,
    pub creative: bool,
}

impl View for PlayerInventory {
    type V = InventoryModel;

    open spec fn view(&self) -> InventoryModel {
        InventoryModel {
            main: self.main_slots@,
            hotbar: self.hotbar_slots@,
            active: self.active_hotbar_index as int,
            dragged: self.dragged_item,
            open: self.is_open,
            creative: self.creative_mode,
        }
    }
}

/// The position on a hotbar of `n` slots that lies `delta` steps behind `i`.
pub open spec fn scrolled(i: int, delta: int, n: int) -> int {
    (i + delta % n) % n
}

impl InventoryModel {
    /// Every stack is within its limit.
    pub open spec fn fits(self) -> bool {
        &&& row_fits(self.main)
        &&& row_fits(self.hotbar)
        &&& (self.dragged matches Some(d) ==> d.fits())
    }

    /// Every stack of the block `id` in a slot is within its limit.
    pub open spec fn fits_for(self, id: Seq<char>) -> bool {
        row_fits_for(self.main, id) && row_fits_for(self.hotbar, id)
    }

    /// The number of blocks `id` in the slots.
    pub open spec fn stored(self, id: Seq<char>) -> int {
        slots_count(self.main, id) + slots_count(self.hotbar, id)
    }

    /// The number of blocks `id` in the slots and at the cursor.
    pub open spec fn total(self, id: Seq<char>) -> int {
        self.stored(id) + opt_count(self.dragged, id)
    }

    /// The slot that a target names.
    pub open spec fn slot(self, target: SlotTarget) -> Option<InventorySlot> {
        match target {
            SlotTarget::Main(i) => if i < self.main.len() {
                Some(self.main[i as int])
            } else {
                None
            },
            SlotTarget::Hotbar(i) => if i < self.hotbar.len() {
                Some(self.hotbar[i as int])
            } else {
                None
            },
            SlotTarget::Creative(_) => None,
            SlotTarget::Trash => None,
        }
    }

    /// The inventory with another content in the slot that a target names.
    pub open spec fn with_slot(self, target: SlotTarget, x: InventorySlot) -> InventoryModel {
        match target {
            SlotTarget::Main(i) => InventoryModel { main: self.main.update(i as int, x), ..self },
            SlotTarget::Hotbar(i) => InventoryModel {
                hotbar: self.hotbar.update(i as int, x),
                ..self
            },
            SlotTarget::Creative(_) => self,
            SlotTarget::Trash => self,
        }
    }

    /// The inventory with another stack at the cursor.
    pub open spec fn with_dragged(self, d: Option<ItemStack>) -> InventoryModel {
        InventoryModel { dragged: d, ..self }
    }

    /// The inventory after a stack was added, and what did not fit: the stack
    /// goes over the hotbar from left to right, then over the main slots.
    pub open spec fn added(self, stack: ItemStack) -> (InventoryModel, Option<ItemStack>) {
        if stack.amount == 0 {
            (self, None)
        } else {
            let (h, rest) = filled(self.hotbar, stack, 0);
            let a = InventoryModel { hotbar: h, ..self };
            match rest {
                None => (a, None),
                Some(r) => {
                    let (m, last) = filled(self.main, r, 0);
                    (InventoryModel { main: m, ..a }, last)
                },
            }
        }
    }

    /// The inventory after it was opened or closed. Closing puts the stack at
    /// the cursor back; what finds no room is lost.
    pub open spec fn toggled(self) -> InventoryModel {
        let a = InventoryModel { open: !self.open, ..self };
        match self.dragged {
            Some(d) => if self.open {
                a.with_dragged(None).added(d).0
            } else {
                a
            },
            None => a,
        }
    }

    /// The stack in the active hotbar slot.
    pub open spec fn active_stack(self) -> Option<ItemStack> {
        if 0 <= self.active < self.hotbar.len() {
            self.hotbar[self.active].content()
        } else {
            None
        }
    }

    /// The inventory after one block of the active stack was placed.
    pub open spec fn used(self) -> InventoryModel {
        match self.active_stack() {
            Some(i) => if self.creative {
                self
            } else if i.amount <= 1 {
                InventoryModel {
                    hotbar: self.hotbar.update(self.active, InventorySlot::Empty),
                    ..self
                }
            } else {
                InventoryModel {
                    hotbar: self.hotbar.update(
                        self.active,
                        InventorySlot::Occupied(i.of_amount(i.amount - 1)),
                    ),
                    ..self
                }
            },
            None => self,
        }
    }
}

/// A row of `n` empty slots.
fn empty_row(n: usize) -> (r: Vec<InventorySlot>)
    ensures
        r@ == Seq::new(n as nat, |i: int| InventorySlot::Empty),
{
    let mut v: Vec<InventorySlot> = Vec::new();
    let mut i: usize = 0;
    while i < n
        invariant
            i <= n,
            v@ == Seq::new(i as nat, |k: int| InventorySlot::Empty),
        decreases n - i,
    {
        v.push(InventorySlot::Empty);
        assert(Seq::new((i + 1) as nat, |k: int| InventorySlot::Empty) =~= Seq::new(
            i as nat,
            |k: int| InventorySlot::Empty,
        ).push(InventorySlot::Empty));
        i += 1;
    }
    v
}

impl PlayerInventory {
    /// An inventory with empty slots, closed and in survival mode.
    pub fn new(main_count: usize, hotbar_count: usize) -> (r: PlayerInventory)
        ensures
            r@ == (InventoryModel {
                main: Seq::new(main_count as nat, |i: int| InventorySlot::Empty),
                hotbar: Seq::new(hotbar_count as nat, |i: int| InventorySlot::Empty),
                active: 0,
                dragged: None,
                open: false,
                creative: false,
            }),
            r@.fits(),
    {
        PlayerInventory {
            main_slots: empty_row(main_count),
            hotbar_slots: empty_row(hotbar_count),
            active_hotbar_index: 0,
            dragged_item: None,
            is_open: false,
            creative_mode: false,
        }
    }

    /// The main slot at `i`.
    pub fn main_slot(&self, i: usize) -> (r: Option<&InventorySlot>)
        ensures
            match r {
                Some(s) => self@.slot(SlotTarget::Main(i)) == Some(*s),
                None => self@.slot(SlotTarget::Main(i)) is None,
            },
    {
        if i < self.main_slots.len() {
            Some(&self.main_slots[i])
        } else {
            None
        }
    }

    /// The main slot at `i`, to be changed.
    pub fn main_slot_mut(&mut self, i: usize) -> (r: Option<&mut InventorySlot>)
        ensures
            match r {
                Some(s) => {
                    &&& old(self)@.slot(SlotTarget::Main(i)) == Some(*s)
                    &&& final(self)@ == old(self)@.with_slot(SlotTarget::Main(i), *final(s))
                },
                None => {
                    &&& old(self)@.slot(SlotTarget::Main(i)) is None
                    &&& final(self)@ == old(self)@
                },
            },
    {
        if i < self.main_slots.len() {
            Some(&mut self.main_slots[i])
        } else {
            None
        }
    }

    /// The hotbar slot at `i`.
    pub fn hotbar_slot(&self, i: usize) -> (r: Option<&InventorySlot>)
        ensures
            match r {
                Some(s) => self@.slot(SlotTarget::Hotbar(i)) == Some(*s),
                None => self@.slot(SlotTarget::Hotbar(i)) is None,
            },
    {
        if i < self.hotbar_slots.len() {
            Some(&self.hotbar_slots[i])
        } else {
            None
        }
    }

    /// The hotbar slot at `i`, to be changed.
    pub fn hotbar_slot_mut(&mut self, i: usize) -> (r: Option<&mut InventorySlot>)
        ensures
            match r {
                Some(s) => {
                    &&& old(self)@.slot(SlotTarget::Hotbar(i)) == Some(*s)
                    &&& final(self)@ == old(self)@.with_slot(SlotTarget::Hotbar(i), *final(s))
                },
                None => {
                    &&& old(self)@.slot(SlotTarget::Hotbar(i)) is None
                    &&& final(self)@ == old(self)@
                },
            },
    {
        if i < self.hotbar_slots.len() {
            Some(&mut self.hotbar_slots[i])
        } else {
            None
        }
    }

    /// The slot that a target names, to be changed. The creative palette and
    /// the trash are no slots.
    pub fn slot_mut_by_target(&mut self, target: SlotTarget) -> (r: Option<&mut InventorySlot>)
        ensures
            match r {
                Some(s) => {
                    &&& old(self)@.slot(target) == Some(*s)
                    &&& final(self)@ == old(self)@.with_slot(target, *final(s))
                },
                None => {
                    &&& old(self)@.slot(target) is None
                    &&& final(self)@ == old(self)@
                },
            },
    {
        match target {
            SlotTarget::Main(i) => self.main_slot_mut(i),
            SlotTarget::Hotbar(i) => self.hotbar_slot_mut(i),
            SlotTarget::Creative(_) => None,
            SlotTarget::Trash => None,
        }
    }

    /// The stack in the active hotbar slot.
    pub fn active_item(&self) -> (r: Option<&ItemStack>)
        ensures
            match r {
                Some(i) => self@.active_stack() == Some(*i),
                None => self@.active_stack() is None,
            },
    {
        match self.hotbar_slot(self.active_hotbar_index) {
            Some(s) => s.item(),
            None => None,
        }
    }

    /// The block of the active stack.
    pub fn active_block_id(&self) -> (r: Option<&str>)
        ensures
            match r {
                Some(s) => self@.active_stack() is Some && s@
                    == self@.active_stack()->Some_0.block_id@,
                None => self@.active_stack() is None,
            },
    {
        match self.active_item() {
            Some(i) => Some(i.block_id.as_str()),
            None => None,
        }
    }

    /// The name of the active stack.
    pub fn active_block_name(&self) -> (r: &str)
        ensures
            r@ == match self@.active_stack() {
                Some(i) => i.display_name@,
                None => "Empty"@,
            },
    {
        match self.active_item() {
            Some(i) => i.display_name.as_str(),
            None => "Empty",
        }
    }

    /// The number of hotbar slots.
    pub fn hotbar_count(&self) -> (r: usize)
        ensures
            r as int == self@.hotbar.len(),
    {
        self.hotbar_slots.len()
    }

    /// Places one block of the active stack: returns its block, its name and
    /// whether a block was consumed, which is so in survival mode only.
    pub fn use_active_block(&mut self) -> (r: Option<(String, String, bool)>)
        ensures
            final(self)@ == old(self)@.used(),
            r is Some <==> old(self)@.active_stack() is Some,
            r matches Some(t) ==> {
                &&& t.0 == old(self)@.active_stack()->Some_0.block_id
                &&& t.1 == old(self)@.active_stack()->Some_0.display_name
                &&& t.2 == !old(self)@.creative
            },
    {
        let idx: usize = self.active_hotbar_index;
        let creative: bool = self.creative_mode;
        if idx >= self.hotbar_slots.len() {
            return None;
        }
        let ghost before = self.hotbar_slots@;
        let slot: &mut InventorySlot = &mut self.hotbar_slots[idx];
        match slot {
            InventorySlot::Empty => None,
            InventorySlot::Occupied(item) => {
                let id: String = item.block_id.clone();
                let name: String = item.display_name.clone();
                if !creative {
                    item.consume(1);
                    if item.is_empty() {
                        *slot = InventorySlot::Empty;
                    }
                    Some((id, name, true))
                } else {
                    Some((id, name, false))
                }
            },
        }
    }

    /// Moves the active position `delta` slots on, round the ends.
    pub fn scroll_hotbar(&mut self, delta: i32)
        requires
            old(self).hotbar_slots@.len() <= i32::MAX,
            old(self).active_hotbar_index + old(self).hotbar_slots@.len() <= usize::MAX,
        ensures
            final(self)@ == (if old(self)@.hotbar.len() == 0 {
                old(self)@
            } else {
                InventoryModel {
                    active: scrolled(
                        old(self)@.active,
                        delta as int,
                        old(self)@.hotbar.len() as int,
                    ),
                    ..old(self)@
                }
            }),
    {
        let n: usize = self.hotbar_slots.len();
        if n == 0 {
            return;
        }
        match delta.checked_rem_euclid(n as i32) {
            Some(d) => {
                self.active_hotbar_index = (self.active_hotbar_index + d as usize) % n;
            },
            None => {},
        }
    }

    /// Makes the slot `index` active, if there is one.
    pub fn set_active_hotbar(&mut self, index: usize)
        ensures
            final(self)@ == (if index < old(self)@.hotbar.len() {
                InventoryModel { active: index as int, ..old(self)@ }
            } else {
                old(self)@
            }),
    {
        if index < self.hotbar_slots.len() {
            self.active_hotbar_index = index;
        }
    }

    /// Empties the hotbar slot `idx`, if there is one.
    pub fn clear_hotbar_slot(&mut self, idx: usize)
        ensures
            final(self)@ == (if idx < old(self)@.hotbar.len() {
                old(self)@.with_slot(SlotTarget::Hotbar(idx), InventorySlot::Empty)
            } else {
                old(self)@
            }),
    {
        match self.hotbar_slot_mut(idx) {
            Some(slot) => {
                *slot = InventorySlot::Empty;
            },
            None => {},
        }
    }

    /// Adds a stack and returns what found no room.
    pub fn add_item(&mut self, stack: ItemStack) -> (r: Option<ItemStack>)
        requires
            old(self)@.fits_for(stack.block_id@),
        ensures
            (final(self)@, r) == old(self)@.added(stack),
    {
        if stack.is_empty() {
            return None;
        }
        match fill_row(&mut self.hotbar_slots, stack) {
            None => None,
            Some(rest) => fill_row(&mut self.main_slots, rest),
        }
    }

    /// Opens or closes the inventory. Closing puts the stack at the cursor
    /// back into the slots.
    pub fn toggle_open(&mut self)
        requires
            old(self)@.open ==> (old(self)@.dragged matches Some(d) ==> old(self)@.fits_for(
                d.block_id@,
            )),
        ensures
            final(self)@ == old(self)@.toggled(),
    {
        self.is_open = !self.is_open;
        if !self.is_open {
            match self.dragged_item.take() {
                Some(item) => {
                    self.add_item(item);
                },
                None => {},
            }
        }
    }

    /// The name of the stack in the hotbar slot `i`.
    pub fn hotbar_slot_name(&self, i: usize) -> (r: &str)
        ensures
            r@ == match self@.slot(SlotTarget::Hotbar(i)) {
                Some(InventorySlot::Occupied(it)) => it.display_name@,
                _ => "Empty"@,
            },
    {
        match self.hotbar_slot(i) {
            Some(s) => match s.item() {
                Some(it) => it.display_name.as_str(),
                None => "Empty",
            },
            None => "Empty",
        }
    }
}

proof fn lemma_filled(s: Seq<InventorySlot>, stack: ItemStack, from: int)
    requires
        0 <= from <= s.len(),
        forall|i: int|
            #![trigger s[i]]
            from <= i < s.len() ==> s[i].fits_for(stack.block_id@),
    ensures
        filled(s, stack, from).0.len() == s.len(),
        filled(s, stack, from).1 matches Some(r) ==> r == stack.of_amount(r.amount as int)
            && r.amount <= stack.amount && (stack.amount > 0 ==> r.amount > 0),
        forall|id: Seq<char>|
            #![trigger slots_count(filled(s, stack, from).0, id)]
            slots_count(filled(s, stack, from).0, id) + opt_count(filled(s, stack, from).1, id)
                == slots_count(s, id) + stack_count(stack, id),
        forall|i: int|
            #![trigger filled(s, stack, from).0[i]]
            0 <= i < s.len() ==> filled(s, stack, from).0[i] == s[i] || i >= from && (s[i] is Empty
                || s[i].content()->Some_0.block_id@ == stack.block_id@),
        filled(s, stack, from).1 is Some ==> forall|i: int|
            #![trigger filled(s, stack, from).0[i]]
            from <= i < s.len() ==> (filled(s, stack, from).0[i] matches InventorySlot::Occupied(x)
                && (x.block_id@ == stack.block_id@ ==> x.amount >= x.max_stack)),
        row_fits(s) && stack.fits() ==> row_fits(filled(s, stack, from).0),
    decreases s.len() - from,
{
    if from < s.len() {
        assert(s[from].fits_for(stack.block_id@));
        let (x, rest) = s[from].inserted(stack);
        let t = s.update(from, x);
        assert forall|id: Seq<char>|
            #![trigger slots_count(t, id)]
            slots_count(t, id) + opt_count(rest, id) == slots_count(s, id) + stack_count(
                stack,
                id,
            ) by {
            lemma_slots_count_update(s, from, x, id);
        }
        if row_fits(s) && stack.fits() {
            assert(s[from].fits());
            assert(row_fits(t));
        }
        match rest {
            None => {},
            Some(r) => {
                assert forall|i: int| #![trigger t[i]] from + 1 <= i < t.len() implies t[i].fits_for(
                    r.block_id@,
                ) by {
                    assert(s[i].fits_for(stack.block_id@));
                }
                lemma_filled(t, r, from + 1);
                let u = filled(t, r, from + 1);
                assert(filled(s, stack, from) == u);
                assert forall|id: Seq<char>|
                    #![trigger slots_count(u.0, id)]
                    slots_count(u.0, id) + opt_count(u.1, id) == slots_count(s, id) + stack_count(
                        stack,
                        id,
                    ) by {
                    assert(slots_count(t, id) + opt_count(rest, id) == slots_count(s, id)
                        + stack_count(stack, id));
                }
                assert forall|i: int| #![trigger u.0[i]] 0 <= i < s.len() implies u.0[i] == s[i]
                    || i >= from && (s[i] is Empty || s[i].content()->Some_0.block_id@
                    == stack.block_id@) by {
                    if i != from {
                        assert(t[i] == s[i]);
                    } else {
                        assert(u.0[from] == t[from]);
                    }
                }
                assert(u.0[from] == t[from]);
            },
        }
    }
}

/// Adding a stack loses no block: what the slots held and the stack together
/// are in the slots afterwards or come back.
pub proof fn law_add_conserves(m: InventoryModel, stack: ItemStack, id: Seq<char>)
    requires
        m.fits_for(stack.block_id@),
    ensures
        m.added(stack).0.stored(id) + opt_count(m.added(stack).1, id) == m.stored(id)
            + stack_count(stack, id),
        m.added(stack).0.dragged == m.dragged,
{
    if stack.amount != 0 {
        lemma_filled(m.hotbar, stack, 0);
        let (h, rest) = filled(m.hotbar, stack, 0);
        assert(slots_count(h, id) + opt_count(rest, id) == slots_count(m.hotbar, id) + stack_count(
            stack,
            id,
        ));
        match rest {
            None => {},
            Some(r) => {
                lemma_filled(m.main, r, 0);
                let (a, last) = filled(m.main, r, 0);
                assert(slots_count(a, id) + opt_count(last, id) == slots_count(m.main, id)
                    + stack_count(r, id));
            },
        }
    }
}

/// Adding a stack keeps every stack within its limit.
pub proof fn law_add_keeps_limits(m: InventoryModel, stack: ItemStack)
    requires
        m.fits(),
        stack.fits(),
    ensures
        m.added(stack).0.fits(),
        m.added(stack).1 matches Some(r) ==> r.fits() && r == stack.of_amount(r.amount as int),
{
    assert(row_fits_for(m.hotbar, stack.block_id@)) by {
        assert forall|i: int| #![trigger m.hotbar[i]] 0 <= i < m.hotbar.len() implies m.hotbar[i].fits_for(
            stack.block_id@,
        ) by {
            assert(m.hotbar[i].fits());
        }
    }
    assert(row_fits_for(m.main, stack.block_id@)) by {
        assert forall|i: int| #![trigger m.main[i]] 0 <= i < m.main.len() implies m.main[i].fits_for(
            stack.block_id@,
        ) by {
            assert(m.main[i].fits());
        }
    }
    lemma_filled(m.hotbar, stack, 0);
    match filled(m.hotbar, stack, 0).1 {
        None => {},
        Some(r) => {
            lemma_filled(m.main, r, 0);
        },
    }
}

/// A stack, or part of it, comes back only where there is no room: no slot is
/// empty then, and each stack of that block is full.
pub proof fn law_add_refuses_only_when_full(m: InventoryModel, stack: ItemStack)
    requires
        m.fits_for(stack.block_id@),
        m.added(stack).1 is Some,
    ensures
        forall|i: int|
            #![trigger m.added(stack).0.hotbar[i]]
            0 <= i < m.hotbar.len() ==> (m.added(stack).0.hotbar[i] matches InventorySlot::Occupied(
                x,
            ) && (x.block_id@ == stack.block_id@ ==> x.amount >= x.max_stack)),
        forall|i: int|
            #![trigger m.added(stack).0.main[i]]
            0 <= i < m.main.len() ==> (m.added(stack).0.main[i] matches InventorySlot::Occupied(x)
                && (x.block_id@ == stack.block_id@ ==> x.amount >= x.max_stack)),
{
    lemma_filled(m.hotbar, stack, 0);
    match filled(m.hotbar, stack, 0).1 {
        None => {},
        Some(r) => {
            lemma_filled(m.main, r, 0);
        },
    }
}

/// Adding a stack changes no slot that holds another block.
pub proof fn law_add_leaves_other_blocks(m: InventoryModel, stack: ItemStack)
    requires
        m.fits_for(stack.block_id@),
    ensures
        m.added(stack).0.hotbar.len() == m.hotbar.len(),
        m.added(stack).0.main.len() == m.main.len(),
        forall|i: int|
            #![trigger m.added(stack).0.hotbar[i]]
            0 <= i < m.hotbar.len() && (m.hotbar[i] matches InventorySlot::Occupied(x)
                && x.block_id@ != stack.block_id@) ==> m.added(stack).0.hotbar[i] == m.hotbar[i],
        forall|i: int|
            #![trigger m.added(stack).0.main[i]]
            0 <= i < m.main.len() && (m.main[i] matches InventorySlot::Occupied(x) && x.block_id@
                != stack.block_id@) ==> m.added(stack).0.main[i] == m.main[i],
{
    lemma_filled(m.hotbar, stack, 0);
    match filled(m.hotbar, stack, 0).1 {
        None => {},
        Some(r) => {
            lemma_filled(m.main, r, 0);
        },
    }
}

/// Closing the inventory leaves nothing at the cursor, and no block gets lost
/// but those for which there is no room.
pub proof fn law_close_returns_dragged(m: InventoryModel, id: Seq<char>)
    requires
        m.open,
        m.dragged matches Some(d) ==> m.fits_for(d.block_id@),
    ensures
        m.toggled().dragged is None,
        !m.toggled().open,
        m.toggled().total(id) == m.total(id) - (match m.dragged {
            Some(d) => opt_count(m.with_dragged(None).added(d).1, id),
            None => 0,
        }),
{
    match m.dragged {
        Some(d) => {
            let a = InventoryModel { open: false, ..m }.with_dragged(None);
            law_add_conserves(a, d, id);
        },
        None => {},
    }
}

/// Opening and closing without a stack at the cursor changes nothing.
pub proof fn law_toggle_twice(m: InventoryModel)
    requires
        m.dragged is None,
    ensures
        m.toggled().toggled() == m,
{
}

/// In survival mode using the active stack consumes exactly one block of it;
/// in creative mode nothing is consumed.
pub proof fn law_use_consumes_one(m: InventoryModel, id: Seq<char>)
    ensures
        m.used().total(id) == m.total(id) - (match m.active_stack() {
            Some(i) => if !m.creative && i.block_id@ == id && i.amount > 0 {
                1int
            } else {
                0int
            },
            None => 0int,
        }),
        m.fits() ==> m.used().fits(),
{
    if m.active_stack() is Some && !m.creative {
        let i = m.active_stack()->Some_0;
        let x = if i.amount <= 1 {
            InventorySlot::Empty
        } else {
            InventorySlot::Occupied(i.of_amount(i.amount - 1))
        };
        lemma_slots_count_update(m.hotbar, m.active, x, id);
        if m.fits() {
            assert(m.hotbar[m.active].fits());
        }
    }
}

/// Scrolling never leaves the hotbar.
pub proof fn law_scroll_stays(i: int, delta: int, n: int)
    requires
        n > 0,
    ensures
        0 <= scrolled(i, delta, n) < n,
{
    vstd::arithmetic::div_mod::lemma_mod_bound(i + delta % n, n);
}

/// Scrolling back undoes scrolling on.
pub proof fn law_scroll_back(i: int, delta: int, n: int)
    requires
        0 <= i < n,
    ensures
        scrolled(scrolled(i, delta, n), -delta, n) == i,
{
    vstd::arithmetic::div_mod::lemma_add_mod_noop_right(i, delta, n);
    let a = (i + delta) % n;
    assert(scrolled(i, delta, n) == a);
    vstd::arithmetic::div_mod::lemma_add_mod_noop_right(a, -delta, n);
    vstd::arithmetic::div_mod::lemma_add_mod_noop(i + delta, -delta, n);
    vstd::arithmetic::div_mod::lemma_add_mod_noop_right(a, -delta, n);
    vstd::arithmetic::div_mod::lemma_small_mod(i as nat, n as nat);
    assert((a + (-delta) % n) % n == (i + delta + (-delta)) % n);
}

/// Scrolling a full round comes back to the same slot.
pub proof fn law_scroll_round(i: int, delta: int, n: int)
    requires
        n > 0,
    ensures
        scrolled(i, delta + n, n) == scrolled(i, delta, n),
{
    vstd::arithmetic::div_mod::lemma_mod_add_multiples_vanish(delta, n);
}

/// Splitting a stack keeps the number of blocks, and the halves differ by one
/// block at most, the larger one being the half that is taken.
pub proof fn law_split_keeps_amount(i: ItemStack)
    requires
        i.amount > 1,
    ensures
        i.of_amount(i.amount as int / 2).amount + i.of_amount(
            i.amount - i.amount as int / 2,
        ).amount == i.amount,
        i.of_amount(i.amount as int / 2).amount <= i.of_amount(
            i.amount - i.amount as int / 2,
        ).amount <= i.of_amount(i.amount as int / 2).amount + 1,
{
}

/// A rectangle on the screen: left, top, right and bottom edge, each as the
/// bits of a single-precision number.
#[derive(Debug, Clone, Copy, PartialEq, Eq, Structural)]
pub struct SlotRect {
    pub min_x: u32,
    pub min_y: u32,
    pub max_x: u32,
    pub max_y: u32,
}

/// A stack that was drawn at a place of the screen.
#[derive(Debug)]
pub struct RenderCommand {
    pub rect: SlotRect,
    pub block_id: String,
    pub count: u32,
}

impl Clone for RenderCommand {
    fn clone(&self) -> (r: RenderCommand)
        ensures
            r == *self,
    {
        RenderCommand { rect: self.rect, block_id: self.block_id.clone(), count: self.count }
    }
}

/// How inventories are laid out and how high blocks stack.
#[derive(Debug)]
pub struct InventoryConfig {
    pub main_slots_count: usize,
    pub hotbar_slots_count: usize,
    pub creative_mode: bool,
    pub default_max_stack: u32,
    pub max_stack_sizes: Table<String, u32>,
}

impl Clone for InventoryConfig {
    fn clone(&self) -> (r: InventoryConfig)
        ensures
            r.main_slots_count == self.main_slots_count,
            r.hotbar_slots_count == self.hotbar_slots_count,
            r.creative_mode == self.creative_mode,
            r.default_max_stack == self.default_max_stack,
            r.max_stack_sizes.entries() == self.max_stack_sizes.entries(),
            r.max_stack_sizes@ == self.max_stack_sizes@,
            r.max_stack_sizes.wf() == self.max_stack_sizes.wf(),
    {
        InventoryConfig {
            main_slots_count: self.main_slots_count,
            hotbar_slots_count: self.hotbar_slots_count,
            creative_mode: self.creative_mode,
            default_max_stack: self.default_max_stack,
            max_stack_sizes: self.max_stack_sizes.clone(),
        }
    }
}

impl Default for InventoryConfig {
    fn default() -> (r: InventoryConfig)
        ensures
            r.main_slots_count == 27,
            r.hotbar_slots_count == 12,
            r.creative_mode,
            r.default_max_stack == 64,
            r.max_stack_sizes.wf(),
            r.max_stack_sizes@ == Map::<Seq<char>, u32>::empty(),
    {
        InventoryConfig {
            main_slots_count: 27,
            hotbar_slots_count: 12,
            creative_mode: true,
            default_max_stack: 64,
            max_stack_sizes: Table::new(),
        }
    }
}

impl InventoryConfig {
    /// How high a block stacks: its own limit where it has one, else the
    /// default.
    pub fn get_max_stack(&self, block_id: &str) -> (r: u32)
        requires
            self.max_stack_sizes.wf(),
        ensures
            r == (if self.max_stack_sizes@.dom().contains(block_id@) {
                self.max_stack_sizes@[block_id@]
            } else {
                self.default_max_stack
            }),
    {
        match self.max_stack_sizes.get(&block_id.to_string()) {
            Some(n) => *n,
            None => self.default_max_stack,
        }
    }
}

/// A new stack is of the block, name and limit given. It holds what was asked
/// for, or its limit where that is less, and it is grey, untextured, on no tab
/// and without a model.
pub proof fn law_new_stack(block_id: String, display_name: String, amount: u32, max_stack: u32)
    ensures
        ({
            let s = ItemStack::plain(block_id, display_name, amount, max_stack);
            &&& s.block_id == block_id
            &&& s.display_name == display_name
            &&& s.max_stack == max_stack
            &&& s.amount <= max_stack
            &&& s.amount <= amount
            &&& s.amount == amount || s.amount == max_stack
            &&& s.block_color == [0x3f00_0000u32, 0x3f00_0000u32, 0x3f00_0000u32]
            &&& s.top_texture is None
            &&& s.side_texture is None
            &&& s.inventory_tab is None
            &&& s.model_name is None
        }),
{
    assert(ItemStack::plain(block_id, display_name, amount, max_stack).block_color@ =~= [
        0x3f00_0000u32,
        0x3f00_0000u32,
        0x3f00_0000u32,
    ]@);
}

/// A stack of another amount is the same stack but for its amount, and a
/// stack fits while it is within its limit.
pub proof fn law_amount(s: ItemStack, n: u32)
    ensures
        s.of_amount(n as int).amount == n,
        s.of_amount(n as int) == (ItemStack { amount: n, ..s }),
        s.fits() <==> s.space() >= 0,
        s.fits() ==> s.amount + s.space() == s.max_stack,
        s.of_amount(s.max_stack as int).space() == 0,
{
}

/// Pouring one stack into another: blocks of another kind do not mix, no
/// block is lost, each stack keeps all but its amount, and something is left over
/// only where the stack that was poured into is full.
pub proof fn law_merge(a: ItemStack, b: ItemStack)
    requires
        a.amount <= a.max_stack,
    ensures
        a.block_id@ != b.block_id@ ==> a.merged(b) == (a, Some(b)),
        a.block_id@ == b.block_id@ ==> {
            let (x, rest) = a.merged(b);
            &&& x == (ItemStack { amount: x.amount, ..a })
            &&& a.amount <= x.amount <= a.max_stack
            &&& match rest {
                None => x.amount == a.amount + b.amount,
                Some(r) => {
                    &&& r == (ItemStack { amount: r.amount, ..b })
                    &&& r.amount > 0
                    &&& x.amount == a.max_stack
                    &&& x.amount + r.amount == a.amount + b.amount
                },
            }
        },
{
}

/// Putting a stack into a slot: an empty slot takes all of it, and one that
/// holds a stack takes what that stack takes.
pub proof fn law_insert(s: InventorySlot, i: ItemStack, stack: ItemStack)
    ensures
        InventorySlot::Empty.inserted(stack) == (InventorySlot::Occupied(stack), None::<ItemStack>),
        InventorySlot::Occupied(i).inserted(stack).0.content() == Some(i.merged(stack).0),
        InventorySlot::Occupied(i).inserted(stack).1 == i.merged(stack).1,
        s.content() is None <==> s == InventorySlot::Empty,
        InventorySlot::Occupied(i).content() == Some(i),
{
}

/// Putting one block into a slot: an empty slot then holds one of it, a stack
/// of the same block with room grows by one and stays as it was otherwise, and
/// any other slot refuses.
pub proof fn law_place_one(i: ItemStack, item: ItemStack)
    ensures
        InventorySlot::Empty.placed_one(item) == Some(
            InventorySlot::Occupied(ItemStack { amount: 1, ..item }),
        ),
        i.block_id@ != item.block_id@ ==> InventorySlot::Occupied(i).placed_one(item) is None,
        i.amount >= i.max_stack ==> InventorySlot::Occupied(i).placed_one(item) is None,
        i.block_id@ == item.block_id@ && i.amount < i.max_stack ==> (InventorySlot::Occupied(
            i,
        ).placed_one(item) matches Some(InventorySlot::Occupied(x)) && x == (ItemStack {
            amount: x.amount,
            ..i
        }) && x.amount == i.amount + 1),
{
}

/// Counting the blocks of a kind: slots one behind the other add up, an empty
/// slot and one with another block count nothing, and a stack of that block
/// counts its amount.
pub proof fn law_count(a: Seq<InventorySlot>, b: Seq<InventorySlot>, i: ItemStack, id: Seq<char>)
    ensures
        slots_count(a + b, id) == slots_count(a, id) + slots_count(b, id),
        slots_count(Seq::empty(), id) == 0,
        slots_count(seq![InventorySlot::Empty], id) == 0,
        i.block_id@ == id ==> slots_count(seq![InventorySlot::Occupied(i)], id) == i.amount,
        i.block_id@ != id ==> slots_count(seq![InventorySlot::Occupied(i)], id) == 0,
        opt_count(None, id) == 0,
        opt_count(Some(i), id) == slots_count(seq![InventorySlot::Occupied(i)], id),
    decreases b.len(),
{
    reveal_with_fuel(slots_count, 2);
    assert(seq![InventorySlot::Empty].drop_last() =~= Seq::empty());
    assert(seq![InventorySlot::Occupied(i)].drop_last() =~= Seq::empty());
    if b.len() == 0 {
        assert(a + b =~= a);
    } else {
        law_count(a, b.drop_last(), i, id);
        assert((a + b).drop_last() =~= a + b.drop_last());
    }
}

/// Whether a slot has no room for a block.
spec fn no_room(s: InventorySlot, id: Seq<char>) -> bool {
    s matches InventorySlot::Occupied(x) && (x.block_id@ == id ==> x.amount >= x.max_stack)
}

/// What became of one slot while a stack was put away: it is as before, or it
/// was empty and holds some of the stack, or it held the same block and holds
/// more of it.
spec fn is_grown(before: InventorySlot, after: InventorySlot, stack: ItemStack) -> bool {
    ||| after == before
    ||| before is Empty && (after matches InventorySlot::Occupied(x) && x == stack.of_amount(
        x.amount as int,
    ))
    ||| before matches InventorySlot::Occupied(i) && after matches InventorySlot::Occupied(x)
        && i.block_id@ == stack.block_id@ && x == i.of_amount(x.amount as int) && i.amount
        <= x.amount <= i.max_stack
}

proof fn lemma_filled_in_order(s: Seq<InventorySlot>, stack: ItemStack, from: int)
    requires
        0 <= from <= s.len(),
        row_fits_for(s, stack.block_id@),
    ensures
        ({
            let (t, rest) = filled(s, stack, from);
            &&& t.len() == s.len()
            &&& forall|i: int| #![trigger t[i]] 0 <= i < from ==> t[i] == s[i]
            &&& forall|i: int| #![trigger t[i]] 0 <= i < s.len() ==> is_grown(s[i], t[i], stack)
            &&& forall|i: int, j: int|
                #![trigger t[i], t[j]]
                from <= i < j < s.len() && t[j] != s[j] ==> no_room(t[i], stack.block_id@)
            &&& rest is Some ==> forall|i: int|
                #![trigger t[i]]
                from <= i < s.len() ==> no_room(t[i], stack.block_id@)
            &&& (rest matches Some(r) ==> r == stack.of_amount(r.amount as int))
        }),
    decreases s.len() - from,
{
    if from < s.len() {
        let (x, rest) = s[from].inserted(stack);
        let t = s.update(from, x);
        assert(s[from].fits_for(stack.block_id@));
        assert(is_grown(s[from], x, stack));
        match rest {
            None => {},
            Some(r) => {
                assert(no_room(x, stack.block_id@));
                assert(r.block_id@ == stack.block_id@);
                assert forall|i: int| #![trigger t[i]] 0 <= i < t.len() implies t[i].fits_for(
                    r.block_id@,
                ) by {
                    if i != from {
                        assert(t[i] == s[i]);
                    }
                }
                lemma_filled_in_order(t, r, from + 1);
                let u = filled(t, r, from + 1).0;
                assert(u[from] == t[from]);
                assert forall|i: int| #![trigger u[i]] 0 <= i < s.len() implies is_grown(
                    s[i],
                    u[i],
                    stack,
                ) by {
                    assert(is_grown(t[i], u[i], r));
                    if i != from {
                        assert(t[i] == s[i]);
                    }
                }
                assert forall|i: int, j: int|
                    #![trigger u[i], u[j]]
                    from <= i < j < s.len() && u[j] != s[j] implies no_room(u[i], stack.block_id@) by {
                    assert(t[j] == s[j]);
                    if i > from {
                        assert(t[i] == s[i]);
                    }
                }
            },
        }
    }
}

/// A stack is put away into the hotbar first and into the main slots after
/// it, and in each row into earlier slots first: a slot is touched only once no
/// slot before it has room left. A slot that is touched was empty and holds some of
/// the stack then, or it held the same block and holds more of it, within its
/// limit. An empty stack touches nothing.
pub proof fn law_add_in_order(m: InventoryModel, stack: ItemStack)
    requires
        m.fits_for(stack.block_id@),
    ensures
        ({
            let r = m.added(stack).0;
            &&& stack.amount == 0 ==> m.added(stack) == (m, None::<ItemStack>)
            &&& r.active == m.active && r.open == m.open && r.creative == m.creative && r.dragged
                == m.dragged
            &&& forall|i: int, j: int|
                #![trigger r.hotbar[i], r.hotbar[j]]
                0 <= i < j < m.hotbar.len() && r.hotbar[j] != m.hotbar[j] ==> (
                r.hotbar[i] matches InventorySlot::Occupied(x) && (x.block_id@ == stack.block_id@
                    ==> x.amount >= x.max_stack))
            &&& forall|i: int, j: int|
                #![trigger r.hotbar[i], r.main[j]]
                0 <= i < m.hotbar.len() && 0 <= j < m.main.len() && r.main[j] != m.main[j] ==> (
                r.hotbar[i] matches InventorySlot::Occupied(x) && (x.block_id@ == stack.block_id@
                    ==> x.amount >= x.max_stack))
            &&& forall|i: int, j: int|
                #![trigger r.main[i], r.main[j]]
                0 <= i < j < m.main.len() && r.main[j] != m.main[j] ==> (
                r.main[i] matches InventorySlot::Occupied(x) && (x.block_id@ == stack.block_id@
                    ==> x.amount >= x.max_stack))
            &&& forall|j: int|
                #![trigger r.hotbar[j]]
                0 <= j < m.hotbar.len() && r.hotbar[j] != m.hotbar[j] ==> (
                r.hotbar[j] matches InventorySlot::Occupied(x) && match m.hotbar[j] {
                    InventorySlot::Empty => x == (ItemStack { amount: x.amount, ..stack }),
                    InventorySlot::Occupied(i) => i.block_id@ == stack.block_id@ && x == (ItemStack {
                        amount: x.amount,
                        ..i
                    }) && i.amount < x.amount <= i.max_stack,
                })
            &&& forall|j: int|
                #![trigger r.main[j]]
                0 <= j < m.main.len() && r.main[j] != m.main[j] ==> (
                r.main[j] matches InventorySlot::Occupied(x) && match m.main[j] {
                    InventorySlot::Empty => x == (ItemStack { amount: x.amount, ..stack }),
                    InventorySlot::Occupied(i) => i.block_id@ == stack.block_id@ && x == (ItemStack {
                        amount: x.amount,
                        ..i
                    }) && i.amount < x.amount <= i.max_stack,
                })
        }),
{
    lemma_filled_in_order(m.hotbar, stack, 0);
    let (h, rest) = filled(m.hotbar, stack, 0);
    let r = m.added(stack).0;
    match rest {
        None => {},
        Some(r) => {
            lemma_filled_in_order(m.main, r, 0);
            let g = filled(m.main, r, 0).0;
            assert forall|j: int| #![trigger g[j]] 0 <= j < m.main.len() implies is_grown(
                m.main[j],
                g[j],
                stack,
            ) by {
                assert(is_grown(m.main[j], g[j], r));
            }
        },
    }
    if stack.amount != 0 {
        assert forall|j: int| #![trigger r.hotbar[j]] 0 <= j < m.hotbar.len() implies is_grown(
            m.hotbar[j],
            r.hotbar[j],
            stack,
        ) by {}
        assert forall|j: int| #![trigger r.main[j]] 0 <= j < m.main.len() implies is_grown(
            m.main[j],
            r.main[j],
            stack,
        ) by {}
    }
}

/// A slot reads back what was put into it, every other slot and everything
/// else stays, and only the main slots and the hotbar can be read or written.
pub proof fn law_slots(m: InventoryModel, target: SlotTarget, other: SlotTarget, x: InventorySlot)
    ensures
        m.slot(target) is Some ==> m.with_slot(target, x).slot(target) == Some(x),
        m.slot(target) is Some && other != target ==> m.with_slot(target, x).slot(other) == m.slot(
            other,
        ),
        m.slot(target) is None <==> match target {
            SlotTarget::Main(i) => i >= m.main.len(),
            SlotTarget::Hotbar(i) => i >= m.hotbar.len(),
            _ => true,
        },
        target matches SlotTarget::Main(i) ==> i < m.main.len() ==> m.slot(target) == Some(
            m.main[i as int],
        ),
        target matches SlotTarget::Hotbar(i) ==> i < m.hotbar.len() ==> m.slot(target) == Some(
            m.hotbar[i as int],
        ),
        m.slot(target) is Some ==> m.with_slot(target, x).main.len() == m.main.len(),
        m.slot(target) is Some ==> m.with_slot(target, x).hotbar.len() == m.hotbar.len(),
        m.with_slot(target, x).active == m.active,
        m.with_slot(target, x).dragged == m.dragged,
        m.with_slot(target, x).open == m.open,
        m.with_slot(target, x).creative == m.creative,
        target is Trash || target is Creative ==> m.with_slot(target, x) == m,
{
}

/// What is at the cursor can be set without touching anything else.
pub proof fn law_dragged(m: InventoryModel, d: Option<ItemStack>)
    ensures
        m.with_dragged(d) == (InventoryModel { dragged: d, ..m }),
{
}

/// Opening the inventory changes nothing else. Closing it puts what was at
/// the cursor away, and changes nothing else.
pub proof fn law_toggle(m: InventoryModel)
    ensures
        m.toggled().open == !m.open,
        m.toggled().active == m.active,
        m.toggled().creative == m.creative,
        !m.open ==> m.toggled() == (InventoryModel { open: true, ..m }),
        m.open && m.dragged is None ==> m.toggled() == (InventoryModel { open: false, ..m }),
        m.open ==> m.toggled().dragged is None,
        m.open ==> (m.dragged matches Some(d) ==> m.toggled().main == m.added(d).0.main
            && m.toggled().hotbar == m.added(d).0.hotbar),
{
}

/// The stack in hand is that of the active slot of the hotbar, if the slot
/// holds one.
pub proof fn law_active(m: InventoryModel, i: ItemStack)
    requires
        0 <= m.active < m.hotbar.len(),
    ensures
        m.active_stack() == Some(i) <==> m.hotbar[m.active] == InventorySlot::Occupied(i),
        m.active_stack() is None <==> m.hotbar[m.active] == InventorySlot::Empty,
        (InventoryModel { active: m.hotbar.len() as int, ..m }).active_stack() is None,
        (InventoryModel { active: -1, ..m }).active_stack() is None,
{
}

/// Using the block in hand touches the active slot alone: in survival mode the
/// stack there shrinks by one, and the last block leaves the slot empty; in
/// creative mode, and with an empty hand, nothing happens.
pub proof fn law_use(m: InventoryModel, i: ItemStack)
    requires
        0 <= m.active < m.hotbar.len(),
        m.hotbar[m.active] == InventorySlot::Occupied(i),
    ensures
        m.creative ==> m.used() == m,
        !m.creative ==> m.used() == (InventoryModel {
            hotbar: m.hotbar.update(m.active, m.used().hotbar[m.active]),
            ..m
        }),
        !m.creative && i.amount <= 1 ==> m.used().hotbar[m.active] == InventorySlot::Empty,
        !m.creative && i.amount > 1 ==> (
        m.used().hotbar[m.active] matches InventorySlot::Occupied(x) && x == (ItemStack {
            amount: x.amount,
            ..i
        }) && x.amount == i.amount - 1),
        (InventoryModel { hotbar: m.hotbar.update(m.active, InventorySlot::Empty), ..m }).used() == (
        InventoryModel { hotbar: m.hotbar.update(m.active, InventorySlot::Empty), ..m }),
        (InventoryModel { active: m.hotbar.len() as int, ..m }).used() == (InventoryModel {
            active: m.hotbar.len() as int,
            ..m
        }),
{
}

/// Scrolling by one step comes to the next slot, and from the last to the
/// first; by one step back to the slot before, and from the first to the last.
/// Scrolling by two amounts in turn is scrolling by their sum.
pub proof fn law_scroll_steps(i: int, a: int, b: int, n: int)
    requires
        0 <= i < n,
    ensures
        i + 1 < n ==> scrolled(i, 1, n) == i + 1,
        scrolled(n - 1, 1, n) == 0,
        i > 0 ==> scrolled(i, -1, n) == i - 1,
        scrolled(0, -1, n) == n - 1,
        scrolled(i, 0, n) == i,
        scrolled(scrolled(i, a, n), b, n) == scrolled(i, a + b, n),
{
    vstd::arithmetic::div_mod::lemma_add_mod_noop_right(i, a, n);
    vstd::arithmetic::div_mod::lemma_add_mod_noop_right(i, a + b, n);
    vstd::arithmetic::div_mod::lemma_add_mod_noop_right(scrolled(i, a, n), b, n);
    vstd::arithmetic::div_mod::lemma_add_mod_noop(i + a, b, n);
    vstd::arithmetic::div_mod::lemma_add_mod_noop_right((i + a) % n, b, n);
    vstd::arithmetic::div_mod::lemma_add_mod_noop_right(i, 1, n);
    vstd::arithmetic::div_mod::lemma_add_mod_noop_right(n - 1, 1, n);
    vstd::arithmetic::div_mod::lemma_add_mod_noop_right(i, -1, n);
    vstd::arithmetic::div_mod::lemma_add_mod_noop_right(0, -1, n);
    vstd::arithmetic::div_mod::lemma_add_mod_noop_right(i, 0, n);
    vstd::arithmetic::div_mod::lemma_small_mod(i as nat, n as nat);
    vstd::arithmetic::div_mod::lemma_mod_self_0(n);
    vstd::arithmetic::div_mod::lemma_mod_add_multiples_vanish(-1, n);
    vstd::arithmetic::div_mod::lemma_small_mod((n - 1) as nat, n as nat);
    if i + 1 < n {
        vstd::arithmetic::div_mod::lemma_small_mod((i + 1) as nat, n as nat);
    }
    if i > 0 {
        vstd::arithmetic::div_mod::lemma_small_mod((i - 1) as nat, n as nat);
    }
    assert(-1 + n == n - 1);
}

/// The inventory as it is seen: its two rows, the active slot, what is at the
/// cursor, and the two switches.
pub proof fn law_inventory_view(p: PlayerInventory)
    ensures
        p@.main == p.main_slots@,
        p@.hotbar == p.hotbar_slots@,
        p@.active == p.active_hotbar_index,
        p@.dragged == p.dragged_item,
        p@.open == p.is_open,
        p@.creative == p.creative_mode,
{
}

/// A slot, and an inventory, is within limits exactly where each stack in it
/// holds no more than it may.
pub proof fn law_limits(m: InventoryModel, i: ItemStack, id: Seq<char>)
    ensures
        InventorySlot::Empty.fits(),
        InventorySlot::Empty.fits_for(id),
        InventorySlot::Occupied(i).fits() <==> i.amount <= i.max_stack,
        InventorySlot::Occupied(i).fits_for(id) <==> i.block_id@ != id || i.amount <= i.max_stack,
        m.fits_for(id) <==> (forall|k: int|
            #![trigger m.main[k]]
            0 <= k < m.main.len() ==> (m.main[k] matches InventorySlot::Occupied(x) ==> x.block_id@
                != id || x.amount <= x.max_stack)) && (forall|k: int|
            #![trigger m.hotbar[k]]
            0 <= k < m.hotbar.len() ==> (m.hotbar[k] matches InventorySlot::Occupied(x)
                ==> x.block_id@ != id || x.amount <= x.max_stack)),
        m.total(id) == slots_count(m.main, id) + slots_count(m.hotbar, id) + opt_count(m.dragged, id),
{
}

/// An inventory is within limits exactly where each of its stacks, and that
/// at the cursor, is.
pub proof fn law_inventory_limits(m: InventoryModel)
    ensures
        m.fits() <==> (forall|k: int|
            #![trigger m.main[k]]
            0 <= k < m.main.len() ==> (m.main[k] matches InventorySlot::Occupied(x) ==> x.amount
                <= x.max_stack)) && (forall|k: int|
            #![trigger m.hotbar[k]]
            0 <= k < m.hotbar.len() ==> (m.hotbar[k] matches InventorySlot::Occupied(x) ==> x.amount
                <= x.max_stack)) && (m.dragged matches Some(d) ==> d.amount <= d.max_stack),
{
}

} // verus!
