//! The inventory as the player sees and handles it: the creative palette with
//! its tabs, clicks on slots, and what the hotbar and the window show.
use crate::inventory::clone_opt_text;
use crate::inventory::InventoryConfig;
use crate::inventory::InventoryModel;
use crate::inventory::InventorySlot;
use crate::inventory::ItemStack;
use crate::inventory::PlayerInventory;
use crate::inventory::RenderCommand;
use crate::inventory::SlotRect;
use crate::inventory::SlotTarget;
use crate::inventory_model_renderer::ModelPreviewSlot;
use crate::table::Table;
use crate::text;
use vstd::prelude::*;
use vstd::string::*;

verus! {

/// The number of columns of the slot grids.
pub const MAIN_COLS: usize = 9;

/// A click that is carried out once the window is drawn.
#[derive(Debug, Clone, Copy, PartialEq, Eq, Structural)]
pub enum PendingClick {
    Left(SlotTarget),
    Right(SlotTarget),
    Delete(SlotTarget),
}

/// A square of pixels that waits to become a texture: rows of red, green,
/// blue and alpha bytes.
#[derive(Debug)]
pub struct TileImage {
    pub width: usize,
    pub height: usize,
    pub rgba: Vec<u8>,
}

/// A square of pixels as a mathematical value.
#[verifier::ext_equal]
pub struct TileModel {
    pub width: int,
    pub height: int,
    pub rgba: Seq<u8>,
}

impl View for TileImage {
    type V = TileModel;

    open spec fn view(&self) -> TileModel {
        TileModel { width: self.width as int, height: self.height as int, rgba: self.rgba@ }
    }
}

/// The squares of a table as mathematical values.
pub open spec fn tile_models(m: Map<Seq<char>, TileImage>) -> Map<Seq<char>, TileModel> {
    m.map_values(|i: TileImage| i@)
}

/// The inventory and the state of its user interface.
pub struct InventoryUI {
    pub inventory: PlayerInventory,
    pub config: InventoryConfig,
    pub creative_items: Vec<ItemStack>,
    pub last_render_commands: Vec<RenderCommand>,
    pub inventory_interacted: bool,
    pub creative_mode: bool,
    pub tile_images: Table<String, TileImage>,
    pub tile_textures: Table<String, bool>,
    pub available_tabs: Vec<String>,
    pub selected_tab: usize,
    pub model_preview_slots: Vec<ModelPreviewSlot>,
}

/// The characters of each text of a list.
pub open spec fn texts(v: Seq<String>) -> Seq<Seq<char>> {
    v.map_values(|s: String| s@)
}

/// A list of texts in strictly ascending order.
pub open spec fn ascending(s: Seq<Seq<char>>) -> bool {
    forall|i: int, j: int|
        #![trigger s[i], s[j]]
        0 <= i < j < s.len() ==> text::text_less(s[i], s[j])
}

/// Some item of the palette is on the tab `t`, and `t` is not blank.
pub open spec fn is_tab(items: Seq<ItemStack>, t: Seq<char>) -> bool {
    !text::is_blank(t) && exists|i: int|
        #![trigger items[i]]
        0 <= i < items.len() && items[i].inventory_tab is Some && items[i].inventory_tab->Some_0@
            == t
}

/// The tab bar of a palette: `All`, then each tab of an item once, in order.
pub open spec fn is_tab_bar(tabs: Seq<Seq<char>>, items: Seq<ItemStack>) -> bool {
    &&& tabs.len() >= 1
    &&& tabs[0] == "All"@
    &&& ascending(tabs.subrange(1, tabs.len() as int))
    &&& forall|t: Seq<char>|
        #![trigger is_tab(items, t)]
        is_tab(items, t) <==> tabs.subrange(1, tabs.len() as int).contains(t)
}

/// Two ascending lists of the same texts are the same list.
pub proof fn lemma_ascending_unique(a: Seq<Seq<char>>, b: Seq<Seq<char>>)
    requires
        ascending(a),
        ascending(b),
        forall|t: Seq<char>| #![trigger a.contains(t)] a.contains(t) <==> b.contains(t),
    ensures
        a == b,
    decreases a.len(),
{
    if a.len() == 0 {
        if b.len() > 0 {
            assert(b.contains(b[0]));
            assert(a.contains(b[0]));
        }
        assert(a =~= b);
    } else {
        assert(a.contains(a[0]));
        assert(b.contains(a[0]));
        assert(b.len() > 0);
        assert(b.contains(b[0]));
        assert(a.contains(b[0]));
        let i = choose|i: int| 0 <= i < b.len() && b[i] == a[0];
        let j = choose|j: int| 0 <= j < a.len() && a[j] == b[0];
        if i > 0 && j > 0 {
            assert(text::text_less(b[0], b[i]));
            assert(text::text_less(a[0], a[j]));
            text::lemma_text_less_total(a[0], b[0]);
        }
        assert(a[0] == b[0]);
        let a2 = a.drop_first();
        let b2 = b.drop_first();
        assert forall|p: int, q: int| #![trigger a2[p], a2[q]] 0 <= p < q < a2.len() implies text::text_less(
            a2[p],
            a2[q],
        ) by {
            assert(text::text_less(a[p + 1], a[q + 1]));
        }
        assert forall|p: int, q: int| #![trigger b2[p], b2[q]] 0 <= p < q < b2.len() implies text::text_less(
            b2[p],
            b2[q],
        ) by {
            assert(text::text_less(b[p + 1], b[q + 1]));
        }
        assert forall|t: Seq<char>| #![trigger a2.contains(t)] a2.contains(t) <==> b2.contains(t) by {
            if a2.contains(t) {
                let k = choose|k: int| 0 <= k < a2.len() && a2[k] == t;
                assert(a[k + 1] == t);
                assert(a.contains(t));
                assert(b.contains(t));
                let m = choose|m: int| 0 <= m < b.len() && b[m] == t;
                if m == 0 {
                    assert(text::text_less(a[0], a[k + 1]));
                    text::lemma_text_less_total(a[0], a[0]);
                }
                assert(b2[m - 1] == t);
            }
            if b2.contains(t) {
                let k = choose|k: int| 0 <= k < b2.len() && b2[k] == t;
                assert(b[k + 1] == t);
                assert(b.contains(t));
                assert(a.contains(t));
                let m = choose|m: int| 0 <= m < a.len() && a[m] == t;
                if m == 0 {
                    assert(text::text_less(b[0], b[k + 1]));
                    text::lemma_text_less_total(b[0], b[0]);
                }
                assert(a2[m - 1] == t);
            }
        }
        lemma_ascending_unique(a2, b2);
        assert(a =~= seq![a[0]] + a2);
        assert(b =~= seq![b[0]] + b2);
    }
}

/// A palette has one tab bar only.
pub proof fn law_tab_bar_unique(a: Seq<Seq<char>>, b: Seq<Seq<char>>, items: Seq<ItemStack>)
    requires
        is_tab_bar(a, items),
        is_tab_bar(b, items),
    ensures
        a == b,
{
    let a2 = a.subrange(1, a.len() as int);
    let b2 = b.subrange(1, b.len() as int);
    assert forall|t: Seq<char>| #![trigger a2.contains(t)] a2.contains(t) <==> b2.contains(t) by {
        assert(is_tab(items, t) <==> a2.contains(t));
        assert(is_tab(items, t) <==> b2.contains(t));
    }
    lemma_ascending_unique(a2, b2);
    assert(a =~= seq![a[0]] + a2);
    assert(b =~= seq![b[0]] + b2);
}

/// Puts a text into an ascending list, unless the list holds it already.
pub fn insert_sorted(v: &mut Vec<String>, t: String)
    requires
        ascending(texts(old(v)@)),
    ensures
        ascending(texts(final(v)@)),
        forall|x: Seq<char>|
            #![trigger texts(final(v)@).contains(x)]
            texts(final(v)@).contains(x) <==> texts(old(v)@).contains(x) || x == t@,
{
    let ghost before = texts(v@);
    let mut i: usize = 0;
    while i < v.len() && text::less_text(v[i].as_str(), t.as_str())
        invariant
            i <= v@.len(),
            v@ == old(v)@,
            forall|k: int| #![trigger v@[k]] 0 <= k < i ==> text::text_less(v@[k]@, t@),
        decreases v@.len() - i,
    {
        i += 1;
    }
    if i < v.len() && v[i] == t {
        proof {
            assert(before[i as int] == t@);
            assert(before.contains(t@));
        }
        return;
    }
    v.insert(i, t);
    proof {
        let after = texts(v@);
        assert(after =~= before.insert(i as int, t@));
        assert forall|p: int, q: int| #![trigger after[p], after[q]] 0 <= p < q < after.len() implies text::text_less(
            after[p],
            after[q],
        ) by {
            if q == i {
                assert(before[p] == old(v)@[p]@);
                assert(text::text_less(old(v)@[p]@, t@));
            } else if p == i {
                assert(after[q] == before[q - 1]);
                text::lemma_text_less_total(before[i as int], t@);
                assert(text::text_less(t@, before[i as int]));
                if q - 1 > i {
                    assert(text::text_less(before[i as int], before[q - 1]));
                    text::lemma_text_less_transitive(t@, before[i as int], before[q - 1]);
                }
            } else {
                let p2 = if p < i { p } else { p - 1 };
                let q2 = if q < i { q } else { q - 1 };
                assert(after[p] == before[p2] && after[q] == before[q2]);
                assert(text::text_less(before[p2], before[q2]));
            }
        }
        assert forall|x: Seq<char>| #![trigger after.contains(x)] after.contains(x)
            <==> before.contains(x) || x == t@ by {
            if before.contains(x) {
                let k = choose|k: int| 0 <= k < before.len() && before[k] == x;
                let k2 = if k < i { k } else { k + 1 };
                assert(after[k2] == x);
            }
            if x == t@ {
                assert(after[i as int] == x);
            }
            if after.contains(x) {
                let k = choose|k: int| 0 <= k < after.len() && after[k] == x;
                if k != i {
                    let k2 = if k < i { k } else { k - 1 };
                    assert(before[k2] == x);
                }
            }
        }
    }
}

/// The tab bar of a palette.
pub fn tabs_of(items: &Vec<ItemStack>) -> (r: Vec<String>)
    ensures
        is_tab_bar(texts(r@), items@),
{
    let mut sorted: Vec<String> = Vec::new();
    let mut i: usize = 0;
    while i < items.len()
        invariant
            i <= items@.len(),
            ascending(texts(sorted@)),
            forall|t: Seq<char>|
                #![trigger texts(sorted@).contains(t)]
                texts(sorted@).contains(t) <==> is_tab(items@.take(i as int), t),
        decreases items@.len() - i,
    {
        let ghost before = texts(sorted@);
        match &items[i].inventory_tab {
            Some(tab) => {
                if !text::blank(tab.as_str()) {
                    insert_sorted(&mut sorted, tab.clone());
                }
            },
            None => {},
        }
        proof {
            let a = items@.take(i as int);
            let b = items@.take(i as int + 1);
            assert forall|t: Seq<char>| #![trigger texts(sorted@).contains(t)] texts(
                sorted@,
            ).contains(t) <==> is_tab(b, t) by {
                assert(before.contains(t) <==> is_tab(a, t));
                if is_tab(a, t) {
                    let k = choose|k: int|
                        #![trigger a[k]]
                        0 <= k < a.len() && a[k].inventory_tab is Some
                            && a[k].inventory_tab->Some_0@ == t;
                    assert(b[k] == a[k]);
                    assert(is_tab(b, t));
                }
                if is_tab(b, t) {
                    let k = choose|k: int|
                        #![trigger b[k]]
                        0 <= k < b.len() && b[k].inventory_tab is Some
                            && b[k].inventory_tab->Some_0@ == t;
                    if k < i {
                        assert(a[k] == b[k]);
                        assert(is_tab(a, t));
                    } else {
                        assert(b[k] == items@[i as int]);
                    }
                }
                if items@[i as int].inventory_tab is Some && items@[i as int].inventory_tab->Some_0@
                    == t && !text::is_blank(t) {
                    assert(b[i as int] == items@[i as int]);
                    assert(is_tab(b, t));
                }
            }
        }
        i += 1;
    }
    let mut r: Vec<String> = Vec::new();
    r.push("All".to_string());
    let ghost tail = texts(sorted@);
    r.append(&mut sorted);
    proof {
        assert(items@.take(items@.len() as int) =~= items@);
        let all = texts(r@);
        assert(all[0] == "All"@);
        assert(all.subrange(1, all.len() as int) =~= tail);
        assert forall|t: Seq<char>| #![trigger is_tab(items@, t)] is_tab(items@, t)
            <==> all.subrange(1, all.len() as int).contains(t) by {
            assert(tail.contains(t) <==> is_tab(items@, t));
        }
    }
    r
}

/// What a click on a palette entry puts into the active slot: the entry in the
/// given number, without its model.
pub open spec fn picked(tpl: ItemStack, amount: int) -> ItemStack {
    ItemStack { amount: amount as u32, model_name: None, ..tpl }
}

/// The inventory after `x` was put into the active hotbar slot, if there is one.
pub open spec fn with_active(m: InventoryModel, x: ItemStack) -> InventoryModel {
    if 0 <= m.active < m.hotbar.len() {
        InventoryModel { hotbar: m.hotbar.update(m.active, InventorySlot::Occupied(x)), ..m }
    } else {
        m
    }
}

/// The inventory after a left click. On a slot it picks up, puts down, merges
/// or exchanges; on the palette it fills the active slot; on the trash it
/// drops what is at the cursor.
pub open spec fn left_clicked(
    m: InventoryModel,
    items: Seq<ItemStack>,
    target: SlotTarget,
) -> InventoryModel {
    match target {
        SlotTarget::Creative(idx) => if idx < items.len() {
            with_active(
                m.with_dragged(None),
                picked(items[idx as int], items[idx as int].max_stack as int),
            )
        } else {
            m.with_dragged(None)
        },
        SlotTarget::Trash => m.with_dragged(None),
        _ => match m.slot(target) {
            None => m,
            Some(s) => match m.dragged {
                None => m.with_slot(target, InventorySlot::Empty).with_dragged(s.content()),
                Some(d) => {
                    let (x, rest) = s.inserted(d);
                    match rest {
                        None => m.with_slot(target, x).with_dragged(None),
                        Some(r) => m.with_slot(target, InventorySlot::Occupied(r)).with_dragged(
                            x.content(),
                        ),
                    }
                },
            },
        },
    }
}

/// The inventory after a right click. On a slot it takes half or puts one
/// block down; on the palette it puts a single block into the active slot; on
/// the trash it drops what is at the cursor.
pub open spec fn right_clicked(
    m: InventoryModel,
    items: Seq<ItemStack>,
    target: SlotTarget,
) -> InventoryModel {
    match target {
        SlotTarget::Creative(idx) => if idx < items.len() {
            with_active(
                m.with_dragged(None),
                picked(
                    items[idx as int],
                    if items[idx as int].max_stack >= 1 {
                        1
                    } else {
                        0
                    },
                ),
            )
        } else {
            m.with_dragged(None)
        },
        SlotTarget::Trash => m.with_dragged(None),
        _ => match m.slot(target) {
            None => m,
            Some(s) => match m.dragged {
                None => match s {
                    InventorySlot::Occupied(i) => if i.amount > 1 {
                        m.with_slot(
                            target,
                            InventorySlot::Occupied(i.of_amount(i.amount as int / 2)),
                        ).with_dragged(Some(i.of_amount(i.amount - i.amount as int / 2)))
                    } else {
                        m
                    },
                    InventorySlot::Empty => m,
                },
                Some(d) => match s.placed_one(
                    ItemStack::plain(d.block_id, d.display_name, 1, d.max_stack),
                ) {
                    Some(x) => m.with_slot(target, x).with_dragged(
                        if d.amount <= 1 {
                            None
                        } else {
                            Some(d.of_amount(d.amount - 1))
                        },
                    ),
                    None => m,
                },
            },
        },
    }
}

/// The inventory after a request to delete: a slot is emptied, the trash
/// drops what is at the cursor, the palette stays.
pub open spec fn deleted(m: InventoryModel, target: SlotTarget) -> InventoryModel {
    match target {
        SlotTarget::Trash => m.with_dragged(None),
        SlotTarget::Creative(_) => m,
        _ => if m.slot(target) is Some {
            m.with_slot(target, InventorySlot::Empty)
        } else {
            m
        },
    }
}

/// The inventory after one click.
pub open spec fn clicked(m: InventoryModel, items: Seq<ItemStack>, click: PendingClick) -> InventoryModel {
    match click {
        PendingClick::Left(t) => left_clicked(m, items, t),
        PendingClick::Right(t) => right_clicked(m, items, t),
        PendingClick::Delete(t) => deleted(m, t),
    }
}

/// The inventory after a number of clicks, one after the other.
pub open spec fn clicked_all(
    m: InventoryModel,
    items: Seq<ItemStack>,
    clicks: Seq<PendingClick>,
) -> InventoryModel
    decreases clicks.len(),
{
    if clicks.len() == 0 {
        m
    } else {
        clicked(clicked_all(m, items, clicks.drop_last()), items, clicks.last())
    }
}

/// A click finds the stack on which it would put others within its limit.
pub open spec fn click_fits(m: InventoryModel, click: PendingClick) -> bool {
    click matches PendingClick::Left(t) ==> m.slot(t) matches Some(s) ==> m.dragged matches Some(d)
        ==> s.fits_for(d.block_id@)
}

/// Each of some clicks, one after the other, finds the stack within its limit.
pub open spec fn clicks_fit(
    m: InventoryModel,
    items: Seq<ItemStack>,
    clicks: Seq<PendingClick>,
) -> bool
    decreases clicks.len(),
{
    clicks.len() > 0 ==> clicks_fit(m, items, clicks.drop_last()) && click_fits(
        clicked_all(m, items, clicks.drop_last()),
        clicks.last(),
    )
}

proof fn lemma_first_clicks_fit(
    m: InventoryModel,
    items: Seq<ItemStack>,
    clicks: Seq<PendingClick>,
    n: int,
)
    requires
        clicks_fit(m, items, clicks),
        0 <= n <= clicks.len(),
    ensures
        clicks_fit(m, items, clicks.take(n)),
    decreases clicks.len(),
{
    if n == clicks.len() {
        assert(clicks.take(n) =~= clicks);
    } else {
        assert(clicks.drop_last().take(n) =~= clicks.take(n));
        lemma_first_clicks_fit(m, items, clicks.drop_last(), n);
    }
}

/// A stack within its limit, which allows one block at least.
pub open spec fn sound_stack(i: ItemStack) -> bool {
    i.fits() && i.max_stack >= 1
}

/// A slot whose stack is sound.
pub open spec fn sound_slot(s: InventorySlot) -> bool {
    s matches InventorySlot::Occupied(i) ==> sound_stack(i)
}

/// Every stack of the inventory is sound.
pub open spec fn sound(m: InventoryModel) -> bool {
    &&& forall|i: int| #![trigger m.main[i]] 0 <= i < m.main.len() ==> sound_slot(m.main[i])
    &&& forall|i: int| #![trigger m.hotbar[i]] 0 <= i < m.hotbar.len() ==> sound_slot(m.hotbar[i])
    &&& (m.dragged matches Some(d) ==> sound_stack(d))
}

/// Every entry of the palette stacks at least one high.
pub open spec fn sound_palette(items: Seq<ItemStack>) -> bool {
    forall|i: int| #![trigger items[i]] 0 <= i < items.len() ==> items[i].max_stack >= 1
}

/// A click keeps every stack sound.
pub proof fn law_click_keeps_sound(m: InventoryModel, items: Seq<ItemStack>, click: PendingClick)
    requires
        sound(m),
        sound_palette(items),
    ensures
        sound(clicked(m, items, click)),
{
    let n = clicked(m, items, click);
    let target = match click {
        PendingClick::Left(t) => t,
        PendingClick::Right(t) => t,
        PendingClick::Delete(t) => t,
    };
    match m.slot(target) {
        Some(s) => {
            assert(sound_slot(s)) by {
                match target {
                    SlotTarget::Main(i) => {
                        assert(sound_slot(m.main[i as int]));
                    },
                    SlotTarget::Hotbar(i) => {
                        assert(sound_slot(m.hotbar[i as int]));
                    },
                    _ => {},
                }
            }
        },
        None => {},
    }
    match target {
        SlotTarget::Creative(idx) => {
            if idx < items.len() {
                assert(items[idx as int].max_stack >= 1);
            }
        },
        _ => {},
    }
    assert forall|i: int| #![trigger n.main[i]] 0 <= i < n.main.len() implies sound_slot(n.main[i]) by {
        if n.main[i] == m.main[i] {
            assert(sound_slot(m.main[i]));
        }
    }
    assert forall|i: int| #![trigger n.hotbar[i]] 0 <= i < n.hotbar.len() implies sound_slot(
        n.hotbar[i],
    ) by {
        if n.hotbar[i] == m.hotbar[i] {
            assert(sound_slot(m.hotbar[i]));
        }
    }
}

/// Any number of clicks keeps every stack sound.
pub proof fn law_clicks_keep_sound(
    m: InventoryModel,
    items: Seq<ItemStack>,
    clicks: Seq<PendingClick>,
)
    requires
        sound(m),
        sound_palette(items),
    ensures
        sound(clicked_all(m, items, clicks)),
    decreases clicks.len(),
{
    if clicks.len() > 0 {
        law_clicks_keep_sound(m, items, clicks.drop_last());
        law_click_keeps_sound(clicked_all(m, items, clicks.drop_last()), items, clicks.last());
    }
}

/// Clicks can always be carried out where every stack is sound.
pub proof fn law_sound_clicks_fit(
    m: InventoryModel,
    items: Seq<ItemStack>,
    clicks: Seq<PendingClick>,
)
    requires
        sound(m),
        sound_palette(items),
    ensures
        clicks_fit(m, items, clicks),
    decreases clicks.len(),
{
    if clicks.len() > 0 {
        law_sound_clicks_fit(m, items, clicks.drop_last());
        law_clicks_keep_sound(m, items, clicks.drop_last());
        let a = clicked_all(m, items, clicks.drop_last());
        match clicks.last() {
            PendingClick::Left(SlotTarget::Main(k)) => {
                assert(k < a.main.len() ==> sound_slot(a.main[k as int]));
            },
            PendingClick::Left(SlotTarget::Hotbar(k)) => {
                assert(k < a.hotbar.len() ==> sound_slot(a.hotbar[k as int]));
            },
            _ => {},
        }
    }
}

proof fn lemma_with_slot_total(m: InventoryModel, target: SlotTarget, x: InventorySlot, id: Seq<char>)
    requires
        m.slot(target) is Some,
    ensures
        m.with_slot(target, x).stored(id) == m.stored(id) - m.slot(target)->Some_0.count(id)
            + x.count(id),
{
    match target {
        SlotTarget::Main(i) => {
            crate::inventory::lemma_slots_count_update(m.main, i as int, x, id);
        },
        SlotTarget::Hotbar(i) => {
            crate::inventory::lemma_slots_count_update(m.hotbar, i as int, x, id);
        },
        _ => {},
    }
}

/// A left click on a slot neither makes nor loses a block.
pub proof fn law_left_click_conserves(
    m: InventoryModel,
    items: Seq<ItemStack>,
    target: SlotTarget,
    id: Seq<char>,
)
    requires
        target is Main || target is Hotbar,
        m.slot(target) matches Some(s) ==> m.dragged matches Some(d) ==> s.fits_for(d.block_id@),
    ensures
        left_clicked(m, items, target).total(id) == m.total(id),
{
    match m.slot(target) {
        None => {},
        Some(s) => match m.dragged {
            None => {
                lemma_with_slot_total(m, target, InventorySlot::Empty, id);
            },
            Some(d) => {
                let (x, rest) = s.inserted(d);
                match rest {
                    None => {
                        lemma_with_slot_total(m, target, x, id);
                    },
                    Some(r) => {
                        lemma_with_slot_total(m, target, InventorySlot::Occupied(r), id);
                    },
                }
            },
        },
    }
}

/// A right click on a slot neither makes nor loses a block, unless an empty
/// stack is at the cursor.
pub proof fn law_right_click_conserves(
    m: InventoryModel,
    items: Seq<ItemStack>,
    target: SlotTarget,
    id: Seq<char>,
)
    requires
        target is Main || target is Hotbar,
        m.dragged matches Some(d) ==> d.amount >= 1,
    ensures
        right_clicked(m, items, target).total(id) == m.total(id),
{
    match m.slot(target) {
        None => {},
        Some(s) => match m.dragged {
            None => match s {
                InventorySlot::Occupied(i) => {
                    if i.amount > 1 {
                        lemma_with_slot_total(
                            m,
                            target,
                            InventorySlot::Occupied(i.of_amount(i.amount as int / 2)),
                            id,
                        );
                    }
                },
                InventorySlot::Empty => {},
            },
            Some(d) => match s.placed_one(
                ItemStack::plain(d.block_id, d.display_name, 1, d.max_stack),
            ) {
                Some(x) => {
                    lemma_with_slot_total(m, target, x, id);
                },
                None => {},
            },
        },
    }
}

/// Picking a stack up and putting it down in the same slot changes nothing.
pub proof fn law_left_click_twice(m: InventoryModel, items: Seq<ItemStack>, target: SlotTarget)
    requires
        target is Main || target is Hotbar,
        m.dragged is None,
    ensures
        left_clicked(left_clicked(m, items, target), items, target) == m,
{
    match m.slot(target) {
        None => {},
        Some(s) => {
            let a = left_clicked(m, items, target);
            assert(a.slot(target) == Some(InventorySlot::Empty));
            let b = left_clicked(a, items, target);
            assert(b.main =~= m.main);
            assert(b.hotbar =~= m.hotbar);
        },
    }
}

/// Clicking a stack of another block exchanges it with the one at the cursor.
pub proof fn law_left_click_exchanges(
    m: InventoryModel,
    items: Seq<ItemStack>,
    target: SlotTarget,
    i: ItemStack,
    d: ItemStack,
)
    requires
        m.slot(target) == Some(InventorySlot::Occupied(i)),
        m.dragged == Some(d),
        i.block_id@ != d.block_id@,
    ensures
        left_clicked(m, items, target).slot(target) == Some(InventorySlot::Occupied(d)),
        left_clicked(m, items, target).dragged == Some(i),
{
}

/// The user interface of an inventory as a mathematical value.
#[verifier::ext_equal]
pub struct InventoryUiModel {
    pub inventory: InventoryModel,
    pub config: InventoryConfig,
    pub items: Seq<ItemStack>,
    pub commands: Seq<RenderCommand>,
    pub interacted: bool,
    pub creative: bool,
    pub images: Map<Seq<char>, TileModel>,
    pub textures: Set<Seq<char>>,
    pub tabs: Seq<Seq<char>>,
    pub selected: int,
    pub previews: Seq<ModelPreviewSlot>,
}

/// The interface of an empty inventory.
pub open spec fn fresh_ui(config: InventoryConfig) -> InventoryUiModel {
    InventoryUiModel {
        inventory: InventoryModel {
            main: Seq::new(config.main_slots_count as nat, |i: int| InventorySlot::Empty),
            hotbar: Seq::new(config.hotbar_slots_count as nat, |i: int| InventorySlot::Empty),
            active: 0,
            dragged: None,
            open: false,
            creative: config.creative_mode,
        },
        config,
        items: Seq::empty(),
        commands: Seq::empty(),
        interacted: false,
        creative: config.creative_mode,
        images: Map::empty(),
        textures: Set::empty(),
        tabs: seq!["All"@],
        selected: 0,
        previews: Seq::empty(),
    }
}

impl View for InventoryUI {
    type V = InventoryUiModel;

    open spec fn view(&self) -> InventoryUiModel {
        InventoryUiModel {
            inventory: self.inventory@,
            config: self.config,
            items: self.creative_items@,
            commands: self.last_render_commands@,
            interacted: self.inventory_interacted,
            creative: self.creative_mode,
            images: tile_models(self.tile_images@),
            textures: self.tile_textures@.dom(),
            tabs: texts(self.available_tabs@),
            selected: self.selected_tab as int,
            previews: self.model_preview_slots@,
        }
    }
}

/// The texture names of a stack: top, then side.
pub open spec fn texture_names(i: ItemStack) -> Seq<Seq<char>> {
    (match i.top_texture {
        Some(t) => seq![t@],
        None => seq![],
    }) + (match i.side_texture {
        Some(t) => seq![t@],
        None => seq![],
    })
}

/// The texture names of what may be a stack.
pub open spec fn opt_texture_names(i: Option<ItemStack>) -> Seq<Seq<char>> {
    match i {
        Some(i) => texture_names(i),
        None => seq![],
    }
}

/// The texture names of a row of slots, from left to right.
pub open spec fn row_texture_names(s: Seq<InventorySlot>) -> Seq<Seq<char>>
    decreases s.len(),
{
    if s.len() == 0 {
        seq![]
    } else {
        row_texture_names(s.drop_last()) + opt_texture_names(s.last().content())
    }
}

/// The texture names of a list of stacks.
pub open spec fn list_texture_names(s: Seq<ItemStack>) -> Seq<Seq<char>>
    decreases s.len(),
{
    if s.len() == 0 {
        seq![]
    } else {
        list_texture_names(s.drop_last()) + texture_names(s.last())
    }
}

/// What is noted of a stack that is drawn at a place of the screen.
pub open spec fn command_of(i: ItemStack, rect: SlotRect) -> RenderCommand {
    RenderCommand { rect, block_id: i.block_id, count: i.amount }
}

/// What is noted of a row of slots: each stack at the rectangle of its slot,
/// from left to right.
pub open spec fn row_commands(s: Seq<InventorySlot>, rects: Seq<SlotRect>) -> Seq<RenderCommand>
    decreases s.len(),
{
    if s.len() == 0 {
        seq![]
    } else {
        let before = row_commands(s.drop_last(), rects);
        match s.last().content() {
            Some(i) => before.push(command_of(i, rects[s.len() - 1])),
            None => before,
        }
    }
}

/// The palette positions below `n` that the tab bar lets through: all of them
/// on the first tab, else those of the tab's name.
pub open spec fn visible(items: Seq<ItemStack>, n: int, all: bool, tab: Seq<char>) -> Seq<int>
    decreases n,
{
    if n <= 0 {
        seq![]
    } else {
        let before = visible(items, n - 1, all, tab);
        if all || on_tab(items[n - 1], tab) {
            before.push(n - 1)
        } else {
            before
        }
    }
}

/// The stack is on the tab.
pub open spec fn on_tab(i: ItemStack, tab: Seq<char>) -> bool {
    i.inventory_tab matches Some(t) && t@ == tab
}

/// The name of the selected tab.
pub open spec fn selected_name(m: InventoryUiModel) -> Seq<char> {
    if 0 <= m.selected < m.tabs.len() {
        m.tabs[m.selected]
    } else {
        seq![]
    }
}

fn push_texture_names(names: &mut Vec<String>, i: &ItemStack)
    ensures
        texts(final(names)@) == texts(old(names)@) + texture_names(*i),
{
    match &i.top_texture {
        Some(t) => {
            names.push(t.clone());
        },
        None => {},
    }
    match &i.side_texture {
        Some(t) => {
            names.push(t.clone());
        },
        None => {},
    }
    assert(texts(names@) =~= texts(old(names)@) + texture_names(*i));
}

fn push_row_texture_names(names: &mut Vec<String>, row: &Vec<InventorySlot>)
    ensures
        texts(final(names)@) == texts(old(names)@) + row_texture_names(row@),
{
    let mut k: usize = 0;
    assert(texts(names@) =~= texts(old(names)@) + row_texture_names(row@.take(0)));
    while k < row.len()
        invariant
            k <= row@.len(),
            texts(names@) == texts(old(names)@) + row_texture_names(row@.take(k as int)),
        decreases row@.len() - k,
    {
        let ghost before = texts(names@);
        match row[k].item() {
            Some(i) => {
                push_texture_names(names, i);
            },
            None => {},
        }
        proof {
            let a = row@.take(k as int + 1);
            assert(a.drop_last() =~= row@.take(k as int));
            assert(a.last() == row@[k as int]);
            assert(texts(names@) =~= before + opt_texture_names(row@[k as int].content()));
            assert(texts(old(names)@) + row_texture_names(a) =~= texts(old(names)@)
                + row_texture_names(row@.take(k as int)) + opt_texture_names(
                row@[k as int].content(),
            ));
        }
        k += 1;
    }
    assert(row@.take(row@.len() as int) =~= row@);
}

/// What a cell of a slot grid shows.
#[derive(Debug)]
pub struct Cell {
    pub target: SlotTarget,
    pub item: Option<ItemStack>,
    pub active: bool,
}

impl Cell {
    /// Whether a block is drawn in the cell: it holds a stack whose block has
    /// a name.
    pub open spec fn drawn(self) -> bool {
        self.item matches Some(i) && i.block_id@.len() > 0
    }

    /// Whether a block is drawn in the cell.
    pub fn is_drawn(&self) -> (r: bool)
        ensures
            r == self.drawn(),
    {
        match &self.item {
            Some(i) => {
                let empty: bool = text::same_text(i.block_id.as_str(), "");
                proof {
                    reveal_strlit("");
                    assert(empty ==> i.block_id@.len() == 0);
                    assert(i.block_id@.len() == 0 ==> i.block_id@ =~= ""@);
                }
                !empty
            },
            None => false,
        }
    }
}

/// The number shown in the corner of a stack: only above one.
pub fn count_label(amount: u32) -> (r: Option<String>)
    ensures
        r is Some <==> amount > 1,
        r matches Some(t) ==> t@ == text::decimal(amount as nat),
{
    if amount > 1 {
        Some(text::decimal_text(amount as u64))
    } else {
        None
    }
}

/// The cells of a row of slots, with empty cells behind its end.
pub open spec fn are_cells(
    cells: Seq<Cell>,
    row: Seq<InventorySlot>,
    n: int,
    hotbar: bool,
    active: int,
) -> bool {
    &&& cells.len() == n
    &&& forall|i: int|
        #![trigger cells[i]]
        0 <= i < n ==> {
            &&& cells[i].target == if hotbar {
                SlotTarget::Hotbar(i as usize)
            } else {
                SlotTarget::Main(i as usize)
            }
            &&& cells[i].item == if i < row.len() {
                row[i].content()
            } else {
                None
            }
            &&& cells[i].active == (hotbar && i == active)
        }
}

/// The number of grid rows that `n` slots take.
pub open spec fn grid_rows(n: int) -> int {
    (n + MAIN_COLS - 1) / (MAIN_COLS as int)
}

/// What the inventory window shows.
#[derive(Debug)]
pub struct WindowView {
    pub title: String,
    pub creative: bool,
    pub main_cells: Vec<Cell>,
    pub tabs: Vec<String>,
    pub selected_tab: usize,
    pub palette: Vec<usize>,
    pub palette_shown: bool,
    pub hotbar_cells: Vec<Cell>,
    pub trash_shown: bool,
}

impl InventoryUI {
    /// The lists behind the interface are in order, and the tab bar is the one
    /// of the palette.
    pub open spec fn wf(&self) -> bool {
        &&& self.tile_images.wf()
        &&& self.tile_textures.wf()
        &&& is_tab_bar(texts(self.available_tabs@), self.creative_items@)
    }

    /// The tab bar belongs to the palette.
    pub proof fn law_tab_bar_of_palette(&self)
        requires
            self.wf(),
        ensures
            is_tab_bar(self@.tabs, self@.items),
    {
    }

    /// The inventory and the layout that can be read are those that the
    /// contracts speak of.
    pub proof fn law_fields(&self)
        ensures
            self@.inventory == self.inventory@,
            self@.config == self.config,
    {
    }

    /// The number of the active slot is not negative.
    pub proof fn lemma_active(&self)
        ensures
            self@.inventory.active >= 0,
    {
    }

    /// The interface of an empty inventory.
    pub fn new(config: InventoryConfig) -> (r: InventoryUI)
        ensures
            r.wf(),
            r@ == fresh_ui(config),
    {
        let creative: bool = config.creative_mode;
        let mut inventory: PlayerInventory = PlayerInventory::new(
            config.main_slots_count,
            config.hotbar_slots_count,
        );
        inventory.creative_mode = creative;
        let items: Vec<ItemStack> = Vec::new();
        let mut tabs: Vec<String> = Vec::new();
        tabs.push("All".to_string());
        let r: InventoryUI = InventoryUI {
            inventory,
            config,
            creative_items: items,
            last_render_commands: Vec::new(),
            inventory_interacted: false,
            creative_mode: creative,
            tile_images: Table::new(),
            tile_textures: Table::new(),
            available_tabs: tabs,
            selected_tab: 0,
            model_preview_slots: Vec::new(),
        };
        proof {
            let t = texts(r.available_tabs@);
            assert(t =~= seq!["All"@]);
            let tail = t.subrange(1, t.len() as int);
            assert(tail.len() == 0);
            assert forall|x: Seq<char>| #![trigger is_tab(r.creative_items@, x)] is_tab(
                r.creative_items@,
                x,
            ) <==> tail.contains(x) by {}
            assert(r.tile_textures@.dom() =~= Set::<Seq<char>>::empty());
            assert(r@.images =~= Map::<Seq<char>, TileModel>::empty());
        }
        r
    }

    /// Keeps an image for the texture `name`, unless there is one already.
    pub fn add_tile_image(&mut self, name: String, image: TileImage)
        requires
            old(self).wf(),
        ensures
            final(self).wf(),
            final(self)@ == (InventoryUiModel {
                images: if old(self)@.images.dom().contains(name@) {
                    old(self)@.images
                } else {
                    old(self)@.images.insert(name@, image@)
                },
                ..old(self)@
            }),
    {
        self.tile_images.insert_new(name, image);
        assert(self@.images =~= if old(self)@.images.dom().contains(name@) {
            old(self)@.images
        } else {
            old(self)@.images.insert(name@, image@)
        });
    }

    /// Hands the image of a texture out when it is needed for the first time;
    /// from then on the texture counts as loaded.
    pub fn ensure_tile_texture(&mut self, name: &String) -> (r: Option<TileImage>)
        requires
            old(self).wf(),
        ensures
            final(self).wf(),
            r is Some <==> !old(self)@.textures.contains(name@)
                && old(self)@.images.dom().contains(name@),
            r matches Some(image) ==> image@ == old(self)@.images[name@] && final(self)@ == (
            InventoryUiModel {
                images: old(self)@.images.remove(name@),
                textures: old(self)@.textures.insert(name@),
                ..old(self)@
            }),
            r is None ==> final(self)@ == old(self)@,
    {
        if self.tile_textures.contains_key(name) {
            return None;
        }
        match self.tile_images.remove(name) {
            Some(image) => {
                self.tile_textures.insert(name.clone(), true);
                assert(self@.textures =~= old(self)@.textures.insert(name@));
                assert(self@.images =~= old(self)@.images.remove(name@));
                Some(image)
            },
            None => None,
        }
    }

    fn rebuild_tabs(&mut self)
        requires
            old(self).tile_images.wf(),
            old(self).tile_textures.wf(),
        ensures
            final(self).wf(),
            final(self)@ == (InventoryUiModel {
                tabs: final(self)@.tabs,
                selected: 0,
                ..old(self)@
            }),
    {
        self.available_tabs = tabs_of(&self.creative_items);
        self.selected_tab = 0;
    }

    /// Replaces the palette; its tab bar is made anew and starts at `All`.
    pub fn set_creative_items(&mut self, items: Vec<ItemStack>)
        requires
            old(self).wf(),
        ensures
            final(self).wf(),
            is_tab_bar(final(self)@.tabs, items@),
            final(self)@ == (InventoryUiModel {
                items: items@,
                tabs: final(self)@.tabs,
                selected: 0,
                ..old(self)@
            }),
    {
        self.creative_items = items;
        self.rebuild_tabs();
    }

    /// Switches between creative and survival mode.
    pub fn toggle_creative(&mut self)
        requires
            old(self).wf(),
        ensures
            final(self).wf(),
            final(self)@ == creative_toggled(old(self)@),
    {
        self.creative_mode = !self.creative_mode;
        self.inventory.creative_mode = self.creative_mode;
    }

    /// Whether the mode is creative.
    pub fn is_creative(&self) -> (r: bool)
        ensures
            r == self@.creative,
    {
        self.creative_mode
    }

    /// Opens or closes the inventory.
    pub fn toggle(&mut self)
        requires
            old(self).wf(),
            old(self)@.inventory.open ==> (old(self)@.inventory.dragged matches Some(d) ==> old(
                self,
            )@.inventory.fits_for(d.block_id@)),
        ensures
            final(self).wf(),
            final(self)@ == (InventoryUiModel {
                inventory: old(self)@.inventory.toggled(),
                ..old(self)@
            }),
    {
        self.inventory.toggle_open();
    }

    /// Whether the inventory is open.
    pub fn is_open(&self) -> (r: bool)
        ensures
            r == self@.inventory.open,
    {
        self.inventory.is_open
    }

    /// Whether a slot was clicked while the interface was drawn last.
    pub fn was_interacted(&self) -> (r: bool)
        ensures
            r == self@.interacted,
    {
        self.inventory_interacted
    }

    /// The block of the active stack.
    pub fn active_block_id(&self) -> (r: Option<&str>)
        ensures
            match r {
                Some(s) => self@.inventory.active_stack() is Some && s@
                    == self@.inventory.active_stack()->Some_0.block_id@,
                None => self@.inventory.active_stack() is None,
            },
    {
        self.inventory.active_block_id()
    }

    /// The name of the active stack.
    pub fn active_block_name(&self) -> (r: &str)
        ensures
            r@ == match self@.inventory.active_stack() {
                Some(i) => i.display_name@,
                None => "Empty"@,
            },
    {
        self.inventory.active_block_name()
    }

    /// The number of hotbar slots.
    pub fn hotbar_count(&self) -> (r: usize)
        ensures
            r as int == self@.inventory.hotbar.len(),
    {
        self.inventory.hotbar_count()
    }

    /// The name of the stack in the hotbar slot `i`.
    pub fn hotbar_slot_name(&self, i: usize) -> (r: &str)
        ensures
            r@ == match self@.inventory.slot(SlotTarget::Hotbar(i)) {
                Some(InventorySlot::Occupied(it)) => it.display_name@,
                _ => "Empty"@,
            },
    {
        self.inventory.hotbar_slot_name(i)
    }

    /// The stacks that were drawn last.
    pub fn render_commands(&self) -> (r: &[RenderCommand])
        ensures
            r@ == self@.commands,
    {
        self.last_render_commands.as_slice()
    }

    /// Hands out the slots in which models are to be drawn.
    pub fn take_model_preview_slots(&mut self) -> (r: Vec<ModelPreviewSlot>)
        requires
            old(self).wf(),
        ensures
            final(self).wf(),
            r@ == old(self)@.previews,
            final(self)@ == (InventoryUiModel { previews: Seq::empty(), ..old(self)@ }),
    {
        let mut r: Vec<ModelPreviewSlot> = Vec::new();
        std::mem::swap(&mut r, &mut self.model_preview_slots);
        r
    }

    /// Places one block of the active stack.
    pub fn use_active_block(&mut self) -> (r: Option<(String, String, bool)>)
        requires
            old(self).wf(),
        ensures
            final(self).wf(),
            final(self)@ == (InventoryUiModel {
                inventory: old(self)@.inventory.used(),
                ..old(self)@
            }),
            r is Some <==> old(self)@.inventory.active_stack() is Some,
            r matches Some(t) ==> {
                &&& t.0 == old(self)@.inventory.active_stack()->Some_0.block_id
                &&& t.1 == old(self)@.inventory.active_stack()->Some_0.display_name
                &&& t.2 == !old(self)@.inventory.creative
            },
    {
        self.inventory.use_active_block()
    }

    /// Scrolls the hotbar, unless the inventory is open.
    pub fn scroll_hotbar(&mut self, delta: i32) -> (r: bool)
        requires
            old(self).wf(),
            old(self)@.inventory.hotbar.len() <= i32::MAX,
            old(self)@.inventory.active + old(self)@.inventory.hotbar.len() <= usize::MAX,
        ensures
            final(self).wf(),
            r == !old(self)@.inventory.open,
            final(self)@ == (if r && old(self)@.inventory.hotbar.len() > 0 {
                InventoryUiModel {
                    inventory: InventoryModel {
                        active: crate::inventory::scrolled(
                            old(self)@.inventory.active,
                            delta as int,
                            old(self)@.inventory.hotbar.len() as int,
                        ),
                        ..old(self)@.inventory
                    },
                    ..old(self)@
                }
            } else {
                old(self)@
            }),
    {
        if self.inventory.is_open {
            return false;
        }
        self.inventory.scroll_hotbar(delta);
        true
    }

    /// Makes a hotbar slot active, unless the inventory is open.
    pub fn select_hotbar(&mut self, index: usize) -> (r: bool)
        requires
            old(self).wf(),
        ensures
            final(self).wf(),
            r == !old(self)@.inventory.open,
            final(self)@ == (if r && index < old(self)@.inventory.hotbar.len() {
                InventoryUiModel {
                    inventory: InventoryModel { active: index as int, ..old(self)@.inventory },
                    ..old(self)@
                }
            } else {
                old(self)@
            }),
    {
        if self.inventory.is_open {
            return false;
        }
        self.inventory.set_active_hotbar(index);
        true
    }

    /// Puts a stack into a hotbar slot, in place of what was there.
    pub fn set_hotbar_slot(&mut self, index: usize, stack: ItemStack)
        requires
            old(self).wf(),
            index < old(self)@.inventory.hotbar.len(),
        ensures
            final(self).wf(),
            final(self)@ == (InventoryUiModel {
                inventory: InventoryModel {
                    hotbar: old(self)@.inventory.hotbar.update(
                        index as int,
                        InventorySlot::Occupied(stack),
                    ),
                    ..old(self)@.inventory
                },
                ..old(self)@
            }),
    {
        self.inventory.hotbar_slots.set(index, InventorySlot::Occupied(stack));
    }

    /// Puts a stack into the active hotbar slot, in place of what was there.
    pub fn set_active_stack(&mut self, stack: ItemStack)
        requires
            old(self).wf(),
            old(self)@.inventory.active < old(self)@.inventory.hotbar.len(),
        ensures
            final(self).wf(),
            final(self)@ == (InventoryUiModel {
                inventory: InventoryModel {
                    hotbar: old(self)@.inventory.hotbar.update(
                        old(self)@.inventory.active,
                        InventorySlot::Occupied(stack),
                    ),
                    ..old(self)@.inventory
                },
                ..old(self)@
            }),
    {
        let index: usize = self.inventory.active_hotbar_index;
        self.set_hotbar_slot(index, stack);
    }

    /// The stack in a hotbar slot.
    pub fn hotbar_item(&self, i: usize) -> (r: Option<&ItemStack>)
        ensures
            r is Some <==> i < self@.inventory.hotbar.len()
                && self@.inventory.hotbar[i as int].content() is Some,
            r matches Some(s) ==> Some(*s) == self@.inventory.hotbar[i as int].content(),
    {
        match self.inventory.hotbar_slot(i) {
            Some(slot) => slot.item(),
            None => None,
        }
    }

    /// Empties the active hotbar slot.
    pub fn clear_active_hotbar_slot(&mut self)
        requires
            old(self).wf(),
        ensures
            final(self).wf(),
            final(self)@ == (if 0 <= old(self)@.inventory.active
                < old(self)@.inventory.hotbar.len() {
                InventoryUiModel {
                    inventory: InventoryModel {
                        hotbar: old(self)@.inventory.hotbar.update(
                            old(self)@.inventory.active,
                            InventorySlot::Empty,
                        ),
                        ..old(self)@.inventory
                    },
                    ..old(self)@
                }
            } else {
                old(self)@
            }),
    {
        let idx: usize = self.inventory.active_hotbar_index;
        self.inventory.clear_hotbar_slot(idx);
    }

    fn pick_from_palette(&mut self, idx: usize, full: bool)
        requires
            old(self).wf(),
        ensures
            final(self).wf(),
            final(self)@ == (InventoryUiModel {
                inventory: if full {
                    left_clicked(
                        old(self)@.inventory,
                        old(self)@.items,
                        SlotTarget::Creative(idx),
                    )
                } else {
                    right_clicked(
                        old(self)@.inventory,
                        old(self)@.items,
                        SlotTarget::Creative(idx),
                    )
                },
                ..old(self)@
            }),
    {
        self.inventory.dragged_item = None;
        if idx < self.creative_items.len() {
            let tpl: &ItemStack = &self.creative_items[idx];
            let amount: u32 = if full {
                tpl.max_stack
            } else {
                1
            };
            let item: ItemStack = ItemStack::new(
                tpl.block_id.clone(),
                tpl.display_name.clone(),
                amount,
                tpl.max_stack,
            ).with_color(tpl.block_color).with_textures(
                clone_opt_text(&tpl.top_texture),
                clone_opt_text(&tpl.side_texture),
            ).with_tab(clone_opt_text(&tpl.inventory_tab));
            let active: usize = self.inventory.active_hotbar_index;
            match self.inventory.hotbar_slot_mut(active) {
                Some(slot) => {
                    *slot = InventorySlot::Occupied(item);
                },
                None => {},
            }
        }
    }

    /// Carries a left click out.
    pub fn handle_left_click(&mut self, target: SlotTarget)
        requires
            old(self).wf(),
            old(self)@.inventory.slot(target) matches Some(s) ==> old(
                self,
            )@.inventory.dragged matches Some(d) ==> s.fits_for(d.block_id@),
        ensures
            final(self).wf(),
            final(self)@ == (InventoryUiModel {
                inventory: left_clicked(old(self)@.inventory, old(self)@.items, target),
                ..old(self)@
            }),
    {
        match target {
            SlotTarget::Creative(idx) => {
                self.pick_from_palette(idx, true);
            },
            SlotTarget::Trash => {
                self.inventory.dragged_item = None;
            },
            _ => {
                match self.inventory.dragged_item.take() {
                    None => {
                        let mut taken: Option<ItemStack> = None;
                        match self.inventory.slot_mut_by_target(target) {
                            Some(slot) => {
                                taken = slot.take();
                            },
                            None => {},
                        }
                        self.inventory.dragged_item = taken;
                    },
                    Some(dragged) => {
                        let mut back: Option<ItemStack> = None;
                        match self.inventory.slot_mut_by_target(target) {
                            Some(slot) => {
                                match slot.insert(dragged) {
                                    None => {},
                                    Some(remainder) => {
                                        back = slot.take();
                                        *slot = InventorySlot::Occupied(remainder);
                                    },
                                }
                            },
                            None => {
                                back = Some(dragged);
                            },
                        }
                        self.inventory.dragged_item = back;
                    },
                }
            },
        }
    }

    /// Carries a right click out.
    pub fn handle_right_click(&mut self, target: SlotTarget)
        requires
            old(self).wf(),
        ensures
            final(self).wf(),
            final(self)@ == (InventoryUiModel {
                inventory: right_clicked(old(self)@.inventory, old(self)@.items, target),
                ..old(self)@
            }),
    {
        match target {
            SlotTarget::Creative(idx) => {
                self.pick_from_palette(idx, false);
            },
            SlotTarget::Trash => {
                self.inventory.dragged_item = None;
            },
            _ => {
                match self.inventory.dragged_item.take() {
                    None => {
                        let mut half: Option<ItemStack> = None;
                        match self.inventory.slot_mut_by_target(target) {
                            Some(slot) => {
                                half = slot.take_half();
                            },
                            None => {},
                        }
                        self.inventory.dragged_item = half;
                    },
                    Some(mut dragged) => {
                        let mut placed: bool = false;
                        match self.inventory.slot_mut_by_target(target) {
                            Some(slot) => {
                                let one: ItemStack = ItemStack::single(
                                    dragged.block_id.clone(),
                                    dragged.display_name.clone(),
                                    dragged.max_stack,
                                );
                                placed = slot.place_one(&one);
                            },
                            None => {},
                        }
                        if placed {
                            dragged.consume(1);
                            if !dragged.is_empty() {
                                self.inventory.dragged_item = Some(dragged);
                            }
                        } else {
                            self.inventory.dragged_item = Some(dragged);
                        }
                    },
                }
            },
        }
    }

    /// Carries a request to delete out.
    pub fn handle_delete(&mut self, target: SlotTarget)
        requires
            old(self).wf(),
        ensures
            final(self).wf(),
            final(self)@ == (InventoryUiModel {
                inventory: deleted(old(self)@.inventory, target),
                ..old(self)@
            }),
    {
        match target {
            SlotTarget::Trash => {
                self.inventory.dragged_item = None;
            },
            _ => {
                match self.inventory.slot_mut_by_target(target) {
                    Some(slot) => {
                        *slot = InventorySlot::Empty;
                    },
                    None => {},
                }
            },
        }
    }

    /// Carries clicks out, one after the other.
    pub fn process_pending_clicks(&mut self, clicks: Vec<PendingClick>)
        requires
            old(self).wf(),
            clicks_fit(old(self)@.inventory, old(self)@.items, clicks@),
        ensures
            final(self).wf(),
            final(self)@ == (InventoryUiModel {
                inventory: clicked_all(old(self)@.inventory, old(self)@.items, clicks@),
                ..old(self)@
            }),
    {
        let mut i: usize = 0;
        assert(clicks@.take(0) =~= Seq::<PendingClick>::empty());
        while i < clicks.len()
            invariant
                i <= clicks@.len(),
                self.wf(),
                clicks_fit(old(self)@.inventory, old(self)@.items, clicks@),
                self@ == (InventoryUiModel {
                    inventory: clicked_all(
                        old(self)@.inventory,
                        old(self)@.items,
                        clicks@.take(i as int),
                    ),
                    ..old(self)@
                }),
            decreases clicks@.len() - i,
        {
            proof {
                let next = clicks@.take(i as int + 1);
                assert(next.drop_last() =~= clicks@.take(i as int));
                assert(next.last() == clicks@[i as int]);
                lemma_first_clicks_fit(
                    old(self)@.inventory,
                    old(self)@.items,
                    clicks@,
                    i as int + 1,
                );
            }
            match clicks[i] {
                PendingClick::Left(t) => {
                    self.handle_left_click(t);
                },
                PendingClick::Right(t) => {
                    self.handle_right_click(t);
                },
                PendingClick::Delete(t) => {
                    self.handle_delete(t);
                },
            }
            i += 1;
        }
        assert(clicks@.take(clicks@.len() as int) =~= clicks@);
    }
}

/// The interface after the mode was switched.
pub open spec fn creative_toggled(m: InventoryUiModel) -> InventoryUiModel {
    InventoryUiModel {
        creative: !m.creative,
        inventory: InventoryModel { creative: !m.creative, ..m.inventory },
        ..m
    }
}

/// Switching the mode twice changes nothing, where interface and inventory
/// agree on it; after one switch they always do.
pub proof fn law_toggle_creative_twice(m: InventoryUiModel)
    ensures
        creative_toggled(m).creative == creative_toggled(m).inventory.creative,
        m.creative == m.inventory.creative ==> creative_toggled(creative_toggled(m)) == m,
{
}

/// The click that a slot's button reports: the left button goes before the
/// right one, and that before the middle one, which deletes. The palette knows
/// no deleting, and the trash takes the left button only, as a request to
/// delete.
pub open spec fn reported_click(target: SlotTarget, left: bool, right: bool, middle: bool) -> Option<
    PendingClick,
> {
    if target is Trash {
        if left {
            Some(PendingClick::Delete(target))
        } else {
            None
        }
    } else if left {
        Some(PendingClick::Left(target))
    } else if right {
        Some(PendingClick::Right(target))
    } else if middle && !(target is Creative) {
        Some(PendingClick::Delete(target))
    } else {
        None
    }
}

/// The cells of a row of slots, up to `n` of them.
fn row_cells(row: &Vec<InventorySlot>, n: usize, hotbar: bool, active: usize) -> (r: Vec<Cell>)
    ensures
        are_cells(r@, row@, n as int, hotbar, active as int),
{
    let mut r: Vec<Cell> = Vec::new();
    let mut i: usize = 0;
    while i < n
        invariant
            i <= n,
            are_cells(r@, row@, i as int, hotbar, active as int),
        decreases n - i,
    {
        let item: Option<ItemStack> = if i < row.len() {
            match row[i].item() {
                Some(it) => Some(it.clone()),
                None => None,
            }
        } else {
            None
        };
        let target: SlotTarget = if hotbar {
            SlotTarget::Hotbar(i)
        } else {
            SlotTarget::Main(i)
        };
        r.push(Cell { target, item, active: hotbar && i == active });
        i += 1;
    }
    r
}

/// The positions of a list as mathematical numbers.
pub open spec fn positions(v: Seq<usize>) -> Seq<int> {
    v.map_values(|i: usize| i as int)
}

impl InventoryUI {
    /// Starts drawing: forgets what was drawn before.
    pub fn begin_ui(&mut self)
        requires
            old(self).wf(),
        ensures
            final(self).wf(),
            final(self)@ == (InventoryUiModel {
                commands: Seq::empty(),
                interacted: false,
                previews: Seq::empty(),
                ..old(self)@
            }),
    {
        self.last_render_commands = Vec::new();
        self.inventory_interacted = false;
        self.model_preview_slots = Vec::new();
    }

    /// Ends drawing: hands out what was drawn.
    pub fn finish_ui(&mut self) -> (r: Vec<RenderCommand>)
        requires
            old(self).wf(),
        ensures
            final(self).wf(),
            r@ == old(self)@.commands,
            final(self)@ == (InventoryUiModel { commands: Seq::empty(), ..old(self)@ }),
    {
        let mut r: Vec<RenderCommand> = Vec::new();
        std::mem::swap(&mut r, &mut self.last_render_commands);
        r
    }

    /// Notes a block that is drawn in a slot. Where it has a model, the slot is
    /// kept for the model and a placeholder is to be drawn.
    pub fn draw_slot_block(&mut self, rect: SlotRect, model_name: Option<&String>) -> (placeholder: bool)
        requires
            old(self).wf(),
        ensures
            final(self).wf(),
            placeholder == (model_name is Some),
            match model_name {
                Some(m) => final(self)@ == (InventoryUiModel {
                    previews: old(self)@.previews.push(
                        (ModelPreviewSlot { model_id: *m, rect }),
                    ),
                    ..old(self)@
                }),
                None => final(self)@ == old(self)@,
            },
    {
        match model_name {
            Some(m) => {
                self.model_preview_slots.push(ModelPreviewSlot { model_id: m.clone(), rect });
                true
            },
            None => false,
        }
    }

    /// Notes a stack that is drawn at a place of the screen.
    pub fn push_render_command(&mut self, rect: SlotRect, block_id: String, count: u32)
        requires
            old(self).wf(),
        ensures
            final(self).wf(),
            final(self)@ == (InventoryUiModel {
                commands: old(self)@.commands.push((RenderCommand { rect, block_id, count })),
                ..old(self)@
            }),
    {
        self.last_render_commands.push(RenderCommand { rect, block_id, count });
    }

    /// Notes the stacks of the hotbar, each at the rectangle of its slot.
    pub fn note_hotbar(&mut self, rects: &Vec<SlotRect>)
        requires
            old(self).wf(),
            rects@.len() == old(self)@.inventory.hotbar.len(),
        ensures
            final(self).wf(),
            final(self)@ == (InventoryUiModel {
                commands: old(self)@.commands + row_commands(old(self)@.inventory.hotbar, rects@),
                ..old(self)@
            }),
    {
        let ghost row = self.inventory.hotbar_slots@;
        let ghost start = self.last_render_commands@;
        let mut i: usize = 0;
        assert(row.take(0) =~= Seq::<InventorySlot>::empty());
        assert(start + row_commands(row.take(0), rects@) =~= start);
        while i < self.inventory.hotbar_slots.len()
            invariant
                i <= row.len(),
                row.len() == rects@.len(),
                row == self.inventory.hotbar_slots@,
                self.wf(),
                start == old(self)@.commands,
                self@ == (InventoryUiModel {
                    commands: start + row_commands(row.take(i as int), rects@),
                    ..old(self)@
                }),
            decreases row.len() - i,
        {
            proof {
                let next = row.take(i as int + 1);
                assert(next.drop_last() =~= row.take(i as int));
                assert(next.last() == row[i as int]);
            }
            let ghost before = self.last_render_commands@;
            match self.inventory.hotbar_slots[i].item() {
                Some(it) => {
                    let c: RenderCommand = RenderCommand {
                        rect: rects[i],
                        block_id: it.block_id.clone(),
                        count: it.amount,
                    };
                    self.last_render_commands.push(c);
                    assert(self.last_render_commands@ =~= before.push(
                        command_of(row[i as int].content()->Some_0, rects@[i as int]),
                    ));
                },
                None => {},
            }
            assert(self.last_render_commands@ =~= start + row_commands(
                row.take(i as int + 1),
                rects@,
            ));
            i += 1;
        }
        assert(row.take(row.len() as int) =~= row);
    }

    /// The label of the mode.
    pub fn mode_text(&self) -> (r: &str)
        ensures
            r@ == if self@.creative {
                "CREATIVE"@
            } else {
                "SURVIVAL"@
            },
    {
        if self.creative_mode {
            "CREATIVE"
        } else {
            "SURVIVAL"
        }
    }

    /// The cells of the hotbar.
    pub fn hotbar_cells(&self) -> (r: Vec<Cell>)
        ensures
            are_cells(
                r@,
                self@.inventory.hotbar,
                self@.inventory.hotbar.len() as int,
                true,
                self@.inventory.active,
            ),
    {
        row_cells(
            &self.inventory.hotbar_slots,
            self.inventory.hotbar_slots.len(),
            true,
            self.inventory.active_hotbar_index,
        )
    }

    /// The textures that the hotbar needs.
    pub fn hotbar_textures(&self) -> (r: Vec<String>)
        ensures
            texts(r@) == row_texture_names(self@.inventory.hotbar),
    {
        let mut names: Vec<String> = Vec::new();
        push_row_texture_names(&mut names, &self.inventory.hotbar_slots);
        assert(texts(names@) =~= row_texture_names(self@.inventory.hotbar));
        names
    }

    /// The textures that the window needs: of the main slots, the hotbar, the
    /// palette and the stack at the cursor.
    pub fn window_textures(&self) -> (r: Vec<String>)
        ensures
            texts(r@) == row_texture_names(self@.inventory.main) + row_texture_names(
                self@.inventory.hotbar,
            ) + list_texture_names(self@.items) + opt_texture_names(self@.inventory.dragged),
    {
        let mut names: Vec<String> = Vec::new();
        push_row_texture_names(&mut names, &self.inventory.main_slots);
        push_row_texture_names(&mut names, &self.inventory.hotbar_slots);
        let ghost base = texts(names@);
        assert(base =~= row_texture_names(self@.inventory.main) + row_texture_names(
            self@.inventory.hotbar,
        ));
        let mut k: usize = 0;
        assert(texts(names@) =~= base + list_texture_names(self.creative_items@.take(0)));
        while k < self.creative_items.len()
            invariant
                k <= self.creative_items@.len(),
                texts(names@) == base + list_texture_names(self.creative_items@.take(k as int)),
            decreases self.creative_items@.len() - k,
        {
            let ghost before = texts(names@);
            push_texture_names(&mut names, &self.creative_items[k]);
            proof {
                let a = self.creative_items@.take(k as int + 1);
                assert(a.drop_last() =~= self.creative_items@.take(k as int));
                assert(a.last() == self.creative_items@[k as int]);
                assert(base + list_texture_names(a) =~= before + texture_names(
                    self.creative_items@[k as int],
                ));
            }
            k += 1;
        }
        assert(self.creative_items@.take(self.creative_items@.len() as int)
            =~= self.creative_items@);
        match &self.inventory.dragged_item {
            Some(d) => {
                push_texture_names(&mut names, d);
            },
            None => {
                assert(texts(names@) =~= texts(names@) + opt_texture_names(None));
            },
        }
        names
    }

    /// The palette entry at position `i`.
    pub fn palette_item(&self, i: usize) -> (r: Option<&ItemStack>)
        ensures
            r is Some <==> i < self@.items.len(),
            r matches Some(it) ==> *it == self@.items[i as int],
    {
        if i < self.creative_items.len() {
            Some(&self.creative_items[i])
        } else {
            None
        }
    }

    /// The positions of the palette entries on the selected tab.
    pub fn visible_palette(&self) -> (r: Vec<usize>)
        ensures
            positions(r@) == visible(
                self@.items,
                self@.items.len() as int,
                self@.selected == 0,
                selected_name(self@),
            ),
    {
        let all: bool = self.selected_tab == 0;
        let tab: String = if self.selected_tab < self.available_tabs.len() {
            self.available_tabs[self.selected_tab].clone()
        } else {
            String::new()
        };
        let ghost name = selected_name(self@);
        assert(tab@ =~= name);
        let mut r: Vec<usize> = Vec::new();
        let mut i: usize = 0;
        assert(positions(r@) =~= visible(self@.items, 0, all, name));
        while i < self.creative_items.len()
            invariant
                i <= self.creative_items@.len(),
                self@.items == self.creative_items@,
                tab@ == name,
                positions(r@) == visible(self@.items, i as int, all, name),
            decreases self.creative_items@.len() - i,
        {
            let ghost before = r@;
            let shown: bool = if all {
                true
            } else {
                match &self.creative_items[i].inventory_tab {
                    Some(t) => *t == tab,
                    None => false,
                }
            };
            if shown {
                r.push(i);
                assert(positions(r@) =~= positions(before).push(i as int));
            }
            i += 1;
        }
        r
    }

    /// What the window shows. The main slots are shown in survival mode, in
    /// whole rows; the palette in creative mode, with a tab bar where there is
    /// more than one tab; the trash while a stack is at the cursor.
    pub fn window_view(&self) -> (r: WindowView)
        requires
            self@.inventory.main.len() + 8 <= usize::MAX,
        ensures
            r.title@ == if self@.creative {
                "CREATIVE INVENTORY"@
            } else {
                "INVENTORY"@
            },
            r.creative == self@.creative,
            are_cells(
                r.main_cells@,
                self@.inventory.main,
                if self@.creative {
                    0
                } else {
                    grid_rows(self@.inventory.main.len() as int) * MAIN_COLS
                },
                false,
                0,
            ),
            r.palette_shown == (self@.creative && self@.items.len() > 0),
            texts(r.tabs@) == (if r.palette_shown && self@.tabs.len() > 1 {
                self@.tabs
            } else {
                Seq::empty()
            }),
            r.selected_tab == self@.selected,
            positions(r.palette@) == (if r.palette_shown {
                visible(
                    self@.items,
                    self@.items.len() as int,
                    self@.selected == 0,
                    selected_name(self@),
                )
            } else {
                Seq::empty()
            }),
            are_cells(
                r.hotbar_cells@,
                self@.inventory.hotbar,
                self@.inventory.hotbar.len() as int,
                true,
                self@.inventory.active,
            ),
            r.trash_shown == self@.inventory.dragged is Some,
    {
        let title: String = if self.creative_mode {
            "CREATIVE INVENTORY".to_string()
        } else {
            "INVENTORY".to_string()
        };
        let len: usize = self.inventory.main_slots.len();
        let cells: usize = if self.creative_mode {
            0
        } else {
            (len + (MAIN_COLS - 1)) / MAIN_COLS * MAIN_COLS
        };
        let main_cells: Vec<Cell> = row_cells(&self.inventory.main_slots, cells, false, 0);
        let palette_shown: bool = self.creative_mode && self.creative_items.len() > 0;
        let mut tabs: Vec<String> = Vec::new();
        let mut palette: Vec<usize> = Vec::new();
        if palette_shown {
            if self.available_tabs.len() > 1 {
                let mut i: usize = 0;
                while i < self.available_tabs.len()
                    invariant
                        i <= self.available_tabs@.len(),
                        texts(tabs@) == texts(self.available_tabs@).take(i as int),
                    decreases self.available_tabs@.len() - i,
                {
                    let ghost before = texts(tabs@);
                    tabs.push(self.available_tabs[i].clone());
                    assert(texts(tabs@) =~= before.push(self.available_tabs@[i as int]@));
                    assert(texts(self.available_tabs@).take(i as int + 1) =~= texts(
                        self.available_tabs@,
                    ).take(i as int).push(self.available_tabs@[i as int]@));
                    i += 1;
                }
                assert(texts(tabs@) =~= self@.tabs);
            }
            palette = self.visible_palette();
        }
        assert(Seq::<String>::empty().map_values(|s: String| s@) =~= Seq::<Seq<char>>::empty());
        WindowView {
            title,
            creative: self.creative_mode,
            main_cells,
            tabs,
            selected_tab: self.selected_tab,
            palette,
            palette_shown,
            hotbar_cells: self.hotbar_cells(),
            trash_shown: self.inventory.dragged_item.is_some(),
        }
    }

    /// Takes down what a slot's button reports. A reported click counts as
    /// handling the inventory.
    pub fn report_click(
        &mut self,
        clicks: &mut Vec<PendingClick>,
        target: SlotTarget,
        left: bool,
        right: bool,
        middle: bool,
    )
        requires
            old(self).wf(),
        ensures
            final(self).wf(),
            match reported_click(target, left, right, middle) {
                Some(c) => final(clicks)@ == old(clicks)@.push(c) && final(self)@ == (
                InventoryUiModel { interacted: true, ..old(self)@ }),
                None => final(clicks)@ == old(clicks)@ && final(self)@ == old(self)@,
            },
    {
        let click: Option<PendingClick> = match target {
            SlotTarget::Trash => if left {
                Some(PendingClick::Delete(target))
            } else {
                None
            },
            SlotTarget::Creative(_) => if left {
                Some(PendingClick::Left(target))
            } else if right {
                Some(PendingClick::Right(target))
            } else {
                None
            },
            _ => if left {
                Some(PendingClick::Left(target))
            } else if right {
                Some(PendingClick::Right(target))
            } else if middle {
                Some(PendingClick::Delete(target))
            } else {
                None
            },
        };
        match click {
            Some(c) => {
                clicks.push(c);
                self.inventory_interacted = true;
            },
            None => {},
        }
    }

    /// Ends the window: it may have been closed, another tab selected, slots
    /// clicked. The clicks are carried out last.
    pub fn finish_window(
        &mut self,
        open: bool,
        tab_change: Option<usize>,
        clicks: Vec<PendingClick>,
    )
        requires
            old(self).wf(),
            clicks_fit(
                (InventoryModel { open: old(self)@.inventory.open && open, ..old(self)@.inventory }),
                old(self)@.items,
                clicks@,
            ),
        ensures
            final(self).wf(),
            final(self)@ == (InventoryUiModel {
                inventory: clicked_all(
                    InventoryModel {
                        open: old(self)@.inventory.open && open,
                        ..old(self)@.inventory
                    },
                    old(self)@.items,
                    clicks@,
                ),
                selected: match tab_change {
                    Some(t) => t as int,
                    None => old(self)@.selected,
                },
                ..old(self)@
            }),
    {
        if !open {
            self.inventory.is_open = false;
        }
        match tab_change {
            Some(t) => {
                self.selected_tab = t;
            },
            None => {},
        }
        self.process_pending_clicks(clicks);
    }
}

/// Every palette entry is on the first tab, and each of the other tabs shows
/// exactly the entries of its name, in their order.
pub proof fn law_tabs_filter(items: Seq<ItemStack>, n: int, all: bool, tab: Seq<char>)
    requires
        0 <= n <= items.len(),
    ensures
        forall|i: int|
            #![trigger visible(items, n, all, tab).contains(i)]
            visible(items, n, all, tab).contains(i) <==> 0 <= i < n && (all || on_tab(
                items[i],
                tab,
            )),
        forall|a: int, b: int|
            #![trigger visible(items, n, all, tab)[a], visible(items, n, all, tab)[b]]
            0 <= a < b < visible(items, n, all, tab).len() ==> visible(items, n, all, tab)[a]
                < visible(items, n, all, tab)[b],
    decreases n,
{
    if n > 0 {
        law_tabs_filter(items, n - 1, all, tab);
        let before = visible(items, n - 1, all, tab);
        let now = visible(items, n, all, tab);
        if all || on_tab(items[n - 1], tab) {
            assert(now == before.push(n - 1));
            assert forall|i: int| #![trigger now.contains(i)] now.contains(i) <==> 0 <= i < n && (all
                || on_tab(items[i], tab)) by {
                if now.contains(i) {
                    let k = choose|k: int| 0 <= k < now.len() && now[k] == i;
                    if k < before.len() {
                        assert(before[k] == i);
                        assert(before.contains(i));
                    }
                }
                if 0 <= i < n && (all || on_tab(items[i], tab)) {
                    if i == n - 1 {
                        assert(now[before.len() as int] == i);
                    } else {
                        assert(before.contains(i));
                        let k = choose|k: int| 0 <= k < before.len() && before[k] == i;
                        assert(now[k] == i);
                    }
                }
            }
            assert forall|a: int, b: int| #![trigger now[a], now[b]] 0 <= a < b < now.len() implies now[a]
                < now[b] by {
                if b == before.len() {
                    assert(before.contains(before[a]));
                } else {
                    assert(before[a] < before[b]);
                }
            }
        } else {
            assert(now == before);
        }
    }
}

/// Picking an entry of the palette puts its block into the active slot of the
/// hotbar: as many as a stack can hold with a left click, one with a right click
/// (none where a stack of it can hold none). The stack there is the entry's in all
/// but its amount and its model, of which it has none. Nothing is left at the
/// cursor, and every other slot and all else stays.
pub proof fn law_pick_from_palette(m: InventoryModel, items: Seq<ItemStack>, idx: usize)
    requires
        idx < items.len(),
        0 <= m.active < m.hotbar.len(),
    ensures
        ({
            let e = items[idx as int];
            let l = left_clicked(m, items, SlotTarget::Creative(idx));
            let r = right_clicked(m, items, SlotTarget::Creative(idx));
            &&& l.hotbar[m.active] == InventorySlot::Occupied(
                ItemStack { amount: e.max_stack, model_name: None, ..e },
            )
            &&& e.max_stack >= 1 ==> r.hotbar[m.active] == InventorySlot::Occupied(
                ItemStack { amount: 1, model_name: None, ..e },
            )
            &&& e.max_stack == 0 ==> r.hotbar[m.active] == InventorySlot::Occupied(
                ItemStack { amount: 0, model_name: None, ..e },
            )
            &&& l.dragged is None && r.dragged is None
            &&& l.hotbar.len() == m.hotbar.len() && r.hotbar.len() == m.hotbar.len()
            &&& forall|i: int|
                #![trigger m.hotbar[i]]
                0 <= i < m.hotbar.len() && i != m.active ==> l.hotbar[i] == m.hotbar[i] && r.hotbar[i]
                    == m.hotbar[i]
            &&& l == (InventoryModel { hotbar: l.hotbar, dragged: None, ..m })
            &&& r == (InventoryModel { hotbar: r.hotbar, dragged: None, ..m })
        }),
{
}

/// A click on the trash, on a place of the palette that holds no entry, or on
/// any entry while the active slot is not one of the hotbar, only lets go of what is
/// at the cursor. Deleting an entry of the palette does nothing.
pub proof fn law_clicks_beside_slots(m: InventoryModel, items: Seq<ItemStack>, idx: usize)
    ensures
        left_clicked(m, items, SlotTarget::Trash) == (InventoryModel { dragged: None, ..m }),
        right_clicked(m, items, SlotTarget::Trash) == (InventoryModel { dragged: None, ..m }),
        deleted(m, SlotTarget::Trash) == (InventoryModel { dragged: None, ..m }),
        deleted(m, SlotTarget::Creative(idx)) == m,
        idx >= items.len() || m.active < 0 || m.active >= m.hotbar.len() ==> left_clicked(
            m,
            items,
            SlotTarget::Creative(idx),
        ) == (InventoryModel { dragged: None, ..m }) && right_clicked(
            m,
            items,
            SlotTarget::Creative(idx),
        ) == (InventoryModel { dragged: None, ..m }),
{
}

/// A click on a slot touches that slot and the cursor only, and one on a slot
/// that is not there touches nothing. Deleting empties the slot and leaves the
/// cursor.
pub proof fn law_clicks_touch_one_slot(
    m: InventoryModel,
    items: Seq<ItemStack>,
    target: SlotTarget,
    other: SlotTarget,
)
    requires
        target is Main || target is Hotbar,
        other != target,
    ensures
        forall|c: PendingClick|
            #![trigger clicked(m, items, c)]
            c == PendingClick::Left(target) || c == PendingClick::Right(target) || c
                == PendingClick::Delete(target) ==> {
                let r = clicked(m, items, c);
                &&& r.slot(other) == m.slot(other)
                &&& r.slot(target) is Some <==> m.slot(target) is Some
                &&& m.slot(target) is None ==> r == m
                &&& r.active == m.active && r.open == m.open && r.creative == m.creative
                &&& r.main.len() == m.main.len() && r.hotbar.len() == m.hotbar.len()
            },
        m.slot(target) is Some ==> deleted(m, target).slot(target) == Some(InventorySlot::Empty),
        deleted(m, target).dragged == m.dragged,
{
    if m.slot(target) is Some {
        assert forall|x: InventorySlot| #![trigger m.with_slot(target, x)] {
            let r = m.with_slot(target, x);
            &&& r.slot(other) == m.slot(other)
            &&& r.slot(target) is Some
            &&& r.active == m.active && r.open == m.open && r.creative == m.creative
            &&& r.main.len() == m.main.len() && r.hotbar.len() == m.hotbar.len()
        } by {
            crate::inventory::law_slots(m, target, other, x);
        }
    }
}

/// A left click with an empty cursor picks the whole stack up and leaves the
/// slot empty. With a stack at the cursor an empty slot takes all of it; a stack of
/// the same block takes what it has room for, and where that is not all the two
/// change places, so that the cursor holds the full stack and the slot the rest;
/// a stack of another block changes places with that at the cursor.
pub proof fn law_left_click(
    m: InventoryModel,
    items: Seq<ItemStack>,
    target: SlotTarget,
    s: InventorySlot,
)
    requires
        target is Main || target is Hotbar,
        m.slot(target) == Some(s),
        s.fits(),
    ensures
        ({
            let r = left_clicked(m, items, target);
            match (s, m.dragged) {
                (InventorySlot::Empty, None) => r.dragged is None && r.slot(target) == Some(
                    InventorySlot::Empty,
                ),
                (InventorySlot::Occupied(i), None) => r.dragged == Some(i) && r.slot(target) == Some(
                    InventorySlot::Empty,
                ),
                (InventorySlot::Empty, Some(d)) => r.dragged is None && r.slot(target) == Some(
                    InventorySlot::Occupied(d),
                ),
                (InventorySlot::Occupied(i), Some(d)) => if i.block_id@ != d.block_id@ {
                    r.dragged == Some(i) && r.slot(target) == Some(InventorySlot::Occupied(d))
                } else if i.amount + d.amount <= i.max_stack {
                    r.dragged is None && (r.slot(target) matches Some(InventorySlot::Occupied(x)) && x
                        == (ItemStack { amount: x.amount, ..i }) && x.amount == i.amount + d.amount)
                } else {
                    &&& r.dragged matches Some(x)
                    &&& x == (ItemStack { amount: i.max_stack, ..i })
                    &&& r.slot(target) matches Some(InventorySlot::Occupied(y))
                    &&& y == (ItemStack { amount: y.amount, ..d })
                    &&& x.amount + y.amount == i.amount + d.amount
                },
            }
        }),
{
}

/// A right click with an empty cursor splits a stack: the cursor takes half,
/// and the odd block too; a single block and an empty slot stay. With a stack at
/// the cursor exactly one block of it goes down, into an empty slot or onto a stack
/// of the same block that has room; elsewhere nothing happens.
pub proof fn law_right_click(
    m: InventoryModel,
    items: Seq<ItemStack>,
    target: SlotTarget,
    s: InventorySlot,
)
    requires
        target is Main || target is Hotbar,
        m.slot(target) == Some(s),
        m.dragged matches Some(d) ==> d.max_stack >= 1,
    ensures
        ({
            let r = right_clicked(m, items, target);
            match (s, m.dragged) {
                (InventorySlot::Empty, None) => r == m,
                (InventorySlot::Occupied(i), None) => if i.amount <= 1 {
                    r == m
                } else {
                    &&& r.dragged matches Some(x)
                    &&& r.slot(target) matches Some(InventorySlot::Occupied(y))
                    &&& x == (ItemStack { amount: x.amount, ..i })
                    &&& y == (ItemStack { amount: y.amount, ..i })
                    &&& x.amount + y.amount == i.amount
                    &&& x.amount == y.amount || x.amount == y.amount + 1
                },
                (InventorySlot::Empty, Some(d)) => {
                    &&& r.slot(target) matches Some(InventorySlot::Occupied(y))
                    &&& y.block_id == d.block_id && y.display_name == d.display_name
                    &&& y.amount == 1 && y.max_stack == d.max_stack
                    &&& d.amount <= 1 ==> r.dragged is None
                    &&& d.amount > 1 ==> (r.dragged matches Some(x) && x == (ItemStack {
                        amount: x.amount,
                        ..d
                    }) && x.amount + 1 == d.amount)
                },
                (InventorySlot::Occupied(i), Some(d)) => if i.block_id@ == d.block_id@ && i.amount
                    < i.max_stack {
                    &&& r.slot(target) matches Some(InventorySlot::Occupied(y))
                    &&& y == (ItemStack { amount: y.amount, ..i })
                    &&& y.amount == i.amount + 1
                    &&& d.amount <= 1 ==> r.dragged is None
                    &&& d.amount > 1 ==> (r.dragged matches Some(x) && x == (ItemStack {
                        amount: x.amount,
                        ..d
                    }) && x.amount + 1 == d.amount)
                } else {
                    r == m
                },
            }
        }),
{
}

/// The clicks of a frame act in the order in which they came: first the
/// earlier ones, then the later ones on what those left.
pub proof fn law_clicks_in_turn(
    m: InventoryModel,
    items: Seq<ItemStack>,
    a: Seq<PendingClick>,
    b: Seq<PendingClick>,
    t: SlotTarget,
)
    ensures
        clicked_all(m, items, Seq::empty()) == m,
        clicked_all(m, items, seq![PendingClick::Left(t)]) == left_clicked(m, items, t),
        clicked_all(m, items, seq![PendingClick::Right(t)]) == right_clicked(m, items, t),
        clicked_all(m, items, seq![PendingClick::Delete(t)]) == deleted(m, t),
        clicked_all(m, items, a + b) == clicked_all(clicked_all(m, items, a), items, b),
    decreases b.len(),
{
    reveal_with_fuel(clicked_all, 2);
    assert(seq![PendingClick::Left(t)].drop_last() =~= Seq::empty());
    assert(seq![PendingClick::Right(t)].drop_last() =~= Seq::empty());
    assert(seq![PendingClick::Delete(t)].drop_last() =~= Seq::empty());
    if b.len() == 0 {
        assert(a + b =~= a);
    } else {
        law_clicks_in_turn(m, items, a, b.drop_last(), t);
        assert((a + b).drop_last() =~= a + b.drop_last());
    }
}

/// Which click a press is: on a slot or an entry the left button is a left
/// click, the right one alone a right click, and on a slot the middle one alone
/// deletes; on the trash only the left button counts, and deletes. No button is
/// no click.
pub proof fn law_reported_click(i: usize, right: bool, middle: bool, t: SlotTarget)
    ensures
        reported_click(t, false, false, false) is None,
        !(t is Trash) ==> reported_click(t, true, right, middle) == Some(PendingClick::Left(t)),
        !(t is Trash) ==> reported_click(t, false, true, middle) == Some(PendingClick::Right(t)),
        t is Main || t is Hotbar ==> reported_click(t, false, false, true) == Some(
            PendingClick::Delete(t),
        ),
        reported_click(SlotTarget::Creative(i), false, false, middle) is None,
        reported_click(SlotTarget::Trash, true, right, middle) == Some(
            PendingClick::Delete(SlotTarget::Trash),
        ),
        reported_click(SlotTarget::Trash, false, right, middle) is None,
{
}

/// A new window: every slot is empty, the first of the hotbar is active, the
/// window is closed, the palette and all pictures are still to come, and it is
/// in creative mode where the settings say so.
pub proof fn law_fresh_window(c: InventoryConfig, i: int)
    ensures
        fresh_ui(c).inventory.main.len() == c.main_slots_count,
        fresh_ui(c).inventory.hotbar.len() == c.hotbar_slots_count,
        0 <= i < c.main_slots_count ==> fresh_ui(c).inventory.main[i] == InventorySlot::Empty,
        0 <= i < c.hotbar_slots_count ==> fresh_ui(c).inventory.hotbar[i] == InventorySlot::Empty,
        fresh_ui(c).inventory.active == 0,
        fresh_ui(c).inventory.dragged is None,
        !fresh_ui(c).inventory.open,
        fresh_ui(c).inventory.creative == c.creative_mode,
        fresh_ui(c).creative == c.creative_mode,
        fresh_ui(c).config == c,
        fresh_ui(c).items.len() == 0,
        fresh_ui(c).commands.len() == 0,
        !fresh_ui(c).interacted,
        fresh_ui(c).images.dom() == Set::<Seq<char>>::empty(),
        fresh_ui(c).textures == Set::<Seq<char>>::empty(),
        fresh_ui(c).tabs == seq!["All"@],
        fresh_ui(c).selected == 0,
        fresh_ui(c).previews.len() == 0,
{
    assert(fresh_ui(c).images.dom() =~= Set::<Seq<char>>::empty());
}

/// What is seen of a window is what it holds.
pub proof fn law_window_fields(u: InventoryUI, name: Seq<char>)
    ensures
        u@.items == u.creative_items@,
        u@.commands == u.last_render_commands@,
        u@.interacted == u.inventory_interacted,
        u@.creative == u.creative_mode,
        u@.tabs.len() == u.available_tabs@.len(),
        u@.selected == u.selected_tab,
        u@.previews == u.model_preview_slots@,
        u@.textures.contains(name) <==> u.tile_textures@.dom().contains(name),
        u@.images.dom().contains(name) <==> u.tile_images@.dom().contains(name),
        u.tile_images@.dom().contains(name) ==> u@.images[name].width == u.tile_images@[name].width
            && u@.images[name].height == u.tile_images@[name].height && u@.images[name].rgba
            == u.tile_images@[name].rgba@,
{
}

/// Switching creative mode switches it for the window and its inventory
/// alike, and touches nothing else.
pub proof fn law_toggle_creative(m: InventoryUiModel)
    ensures
        creative_toggled(m).creative == !m.creative,
        creative_toggled(m).inventory.creative == !m.creative,
        creative_toggled(m) == (InventoryUiModel {
            creative: !m.creative,
            inventory: InventoryModel { creative: !m.creative, ..m.inventory },
            ..m
        }),
{
}

/// The pictures that a stack asks for: that of its top and then that of its
/// sides, as far as it has them. Rows and lists ask for those of each stack in
/// turn.
pub proof fn law_texture_names(
    i: ItemStack,
    a: Seq<InventorySlot>,
    b: Seq<InventorySlot>,
    p: Seq<ItemStack>,
    q: Seq<ItemStack>,
)
    ensures
        texture_names(i).len() == (if i.top_texture is Some { 1int } else { 0 }) + (
        if i.side_texture is Some { 1int } else { 0 }),
        i.top_texture matches Some(t) ==> texture_names(i)[0] == t@,
        i.side_texture matches Some(t) ==> texture_names(i).last() == t@,
        opt_texture_names(None).len() == 0,
        opt_texture_names(Some(i)) == texture_names(i),
        row_texture_names(Seq::empty()).len() == 0,
        row_texture_names(seq![InventorySlot::Empty]).len() == 0,
        row_texture_names(seq![InventorySlot::Occupied(i)]) == texture_names(i),
        row_texture_names(a + b) == row_texture_names(a) + row_texture_names(b),
        list_texture_names(Seq::empty()).len() == 0,
        list_texture_names(seq![i]) == texture_names(i),
        list_texture_names(p + q) == list_texture_names(p) + list_texture_names(q),
    decreases b.len() + q.len(),
{
    reveal_with_fuel(row_texture_names, 2);
    reveal_with_fuel(list_texture_names, 2);
    assert(seq![InventorySlot::Empty].drop_last() =~= Seq::empty());
    assert(seq![InventorySlot::Occupied(i)].drop_last() =~= Seq::empty());
    assert(seq![i].drop_last() =~= Seq::empty());
    assert(row_texture_names(seq![InventorySlot::Occupied(i)]) =~= texture_names(i));
    assert(list_texture_names(seq![i]) =~= texture_names(i));
    if b.len() > 0 {
        law_texture_names(i, a, b.drop_last(), p, q);
        assert((a + b).drop_last() =~= a + b.drop_last());
        assert(row_texture_names(a + b) =~= row_texture_names(a) + row_texture_names(b));
    } else {
        assert(a + b =~= a);
        assert(row_texture_names(a + b) =~= row_texture_names(a) + row_texture_names(b));
        if q.len() > 0 {
            law_texture_names(i, a, b, p, q.drop_last());
            assert((p + q).drop_last() =~= p + q.drop_last());
            assert(list_texture_names(p + q) =~= list_texture_names(p) + list_texture_names(q));
        } else {
            assert(p + q =~= p);
            assert(list_texture_names(p + q) =~= list_texture_names(p) + list_texture_names(q));
        }
    }
}

/// What is drawn of a row: the stacks in turn, each in its own slot's
/// rectangle with its block and its amount; an empty slot draws nothing.
pub proof fn law_row_commands(s: Seq<InventorySlot>, rects: Seq<SlotRect>, x: InventorySlot)
    ensures
        row_commands(Seq::empty(), rects).len() == 0,
        x is Empty ==> row_commands(s.push(x), rects) == row_commands(s, rects),
        x matches InventorySlot::Occupied(i) ==> {
            let r = row_commands(s.push(x), rects);
            &&& r.drop_last() == row_commands(s, rects)
            &&& r.len() == row_commands(s, rects).len() + 1
            &&& r.last().rect == rects[s.len() as int]
            &&& r.last().block_id == i.block_id
            &&& r.last().count == i.amount
        },
{
    assert(s.push(x).drop_last() =~= s);
    assert(x is Occupied ==> row_commands(s.push(x), rects).drop_last() =~= row_commands(s, rects));
}

/// Which entries of the palette are on a tab, what the tab is called, and
/// which cells are drawn.
pub proof fn law_palette(i: ItemStack, tab: Seq<char>, m: InventoryUiModel, c: Cell)
    ensures
        on_tab(i, tab) <==> i.inventory_tab is Some && i.inventory_tab->Some_0@ == tab,
        0 <= m.selected < m.tabs.len() ==> selected_name(m) == m.tabs[m.selected],
        !(0 <= m.selected < m.tabs.len()) ==> selected_name(m).len() == 0,
        c.drawn() <==> c.item is Some && c.item->Some_0.block_id@.len() != 0,
{
}

/// The main slots are laid out in rows of nine, and in no more rows than they
/// need.
pub proof fn law_grid_rows(n: int)
    requires
        n >= 0,
    ensures
        n <= 9 * grid_rows(n) < n + 9,
{
}

/// Cells stand for the slots of a row: the cell at a place aims at the slot
/// there and shows what it holds; only a cell of the hotbar is marked as active,
/// and only at the active place; a cell past the row is empty.
pub proof fn law_cells(
    cells: Seq<Cell>,
    row: Seq<InventorySlot>,
    n: int,
    hotbar: bool,
    active: int,
    i: int,
)
    requires
        are_cells(cells, row, n, hotbar, active),
        0 <= i < n <= usize::MAX,
    ensures
        cells.len() == n,
        hotbar ==> (cells[i].target matches SlotTarget::Hotbar(k) && k == i),
        !hotbar ==> (cells[i].target matches SlotTarget::Main(k) && k == i),
        i >= row.len() ==> cells[i].item is None,
        i < row.len() ==> (row[i] matches InventorySlot::Occupied(x) ==> cells[i].item == Some(x)),
        i < row.len() && row[i] is Empty ==> cells[i].item is None,
        cells[i].active <==> hotbar && i == active,
{
}

/// The texts of a list are those of its strings, place by place, and a list
/// is ascending where each text comes before every later one.
pub proof fn law_texts(v: Seq<String>, s: Seq<Seq<char>>, i: int, j: int)
    ensures
        texts(v).len() == v.len(),
        0 <= i < v.len() ==> texts(v)[i] == v[i]@,
        ascending(s) && 0 <= i < j < s.len() ==> text::text_less(s[i], s[j]),
        ascending(s) && 0 <= i < s.len() && 0 <= j < s.len() && s[i] == s[j] ==> i == j,
        s.len() == 2 ==> (ascending(s) <==> text::text_less(s[0], s[1])),
{
    if ascending(s) && 0 <= i < s.len() && 0 <= j < s.len() && s[i] == s[j] {
        text::lemma_text_less_total(s[i], s[j]);
        if i < j {
            assert(text::text_less(s[i], s[j]));
        }
        if j < i {
            assert(text::text_less(s[j], s[i]));
        }
    }
}

/// The tabs of a palette: the first shows all, and behind it stands each tab
/// that some entry names, by name, each once. A name of white space is no tab.
pub proof fn law_tab_bar(tabs: Seq<Seq<char>>, items: Seq<ItemStack>, i: int, t: String, k: int)
    requires
        is_tab_bar(tabs, items),
    ensures
        tabs.len() >= 1,
        tabs[0] == "All"@,
        0 <= i < items.len() && items[i].inventory_tab == Some(t) && !text::is_blank(t@)
            ==> tabs.skip(1).contains(t@),
        text::is_blank(t@) ==> !tabs.skip(1).contains(t@),
        1 <= k < tabs.len() ==> exists|j: int|
            #![trigger items[j]]
            0 <= j < items.len() && items[j].inventory_tab is Some
                && items[j].inventory_tab->Some_0@ == tabs[k],
        1 <= k && k + 1 < tabs.len() ==> text::text_less(tabs[k], tabs[k + 1]),
{
    let named = tabs.subrange(1, tabs.len() as int);
    assert(named =~= tabs.skip(1));
    if 0 <= i < items.len() && items[i].inventory_tab == Some(t) && !text::is_blank(t@) {
        assert(items[i].inventory_tab is Some);
        assert(is_tab(items, t@));
    }
    if text::is_blank(t@) {
        assert(!is_tab(items, t@));
    }
    if 1 <= k < tabs.len() {
        assert(named[k - 1] == tabs[k]);
        assert(named.contains(tabs[k]));
        assert(is_tab(items, tabs[k]));
    }
    if 1 <= k && k + 1 < tabs.len() {
        assert(text::text_less(named[k - 1], named[k]));
    }
}

/// The positions of a list are its numbers, place by place.
pub proof fn law_positions(v: Seq<usize>, i: int)
    ensures
        positions(v).len() == v.len(),
        0 <= i < v.len() ==> positions(v)[i] == v[i],
{
}

/// Inventories are sound where every stack in them, and that at the cursor,
/// can hold a block and holds no more than it can; and clicks fit where no left
/// click pours onto a stack of the same block that holds more.
pub proof fn law_sound(
    m: InventoryModel,
    items: Seq<ItemStack>,
    i: ItemStack,
    k: int,
    t: SlotTarget,
    clicks: Seq<PendingClick>,
    c: PendingClick,
)
    ensures
        sound_stack(i) <==> 1 <= i.max_stack && i.amount <= i.max_stack,
        sound(m) && 0 <= k < m.main.len() && m.main[k] == InventorySlot::Occupied(i) ==> sound_stack(
            i,
        ),
        sound(m) && 0 <= k < m.hotbar.len() && m.hotbar[k] == InventorySlot::Occupied(i)
            ==> sound_stack(i),
        sound(m) && m.dragged == Some(i) ==> sound_stack(i),
        sound_palette(items) && 0 <= k < items.len() ==> items[k].max_stack >= 1,
        click_fits(m, PendingClick::Right(t)) && click_fits(m, PendingClick::Delete(t)),
        m.dragged is None ==> click_fits(m, PendingClick::Left(t)),
        clicks_fit(m, items, Seq::empty()),
        clicks_fit(m, items, clicks.push(c)) <==> clicks_fit(m, items, clicks) && click_fits(
            clicked_all(m, items, clicks),
            c,
        ),
{
    assert(clicks.push(c).drop_last() =~= clicks);
}

} // verus!
