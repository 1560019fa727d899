//! What the inventory holds at the start: the hotbar and the creative palette
//! are filled from the known blocks.
use crate::block_definition::PlacementMode;
use crate::inventory::clone_opt_text;
use crate::inventory::InventoryModel;
use crate::inventory::InventorySlot;
use crate::inventory::ItemStack;
use crate::inventory_ui;
use crate::inventory_ui::InventoryUI;
use crate::inventory_ui::InventoryUiModel;
use crate::inventory_ui::TileImage;
use crate::inventory_ui::TileModel;
use crate::pixels;
use crate::table::Table;
use crate::table::TableKey;
use crate::text;
use vstd::prelude::*;
use vstd::string::*;

verus! {

/// Blocks of a stack at the start.
pub const STOCK: u32 = 64;

/// What the inventory needs to know of a kind of block.
#[derive(Debug)]
pub struct BlockInfo {
    /// The name under which the block is registered.
    pub key: Option<String>,
    pub id: String,
    pub display_name: String,
    pub solid: bool,
    pub transparent: bool,
    /// As the bits of single-precision numbers.
    pub color: [u32; 3],
    pub top_texture: Option<String>,
    pub side_texture: Option<String>,
    pub has_model: bool,
    /// Pixels for a block that shows its model, if a texture of the model could
    /// be read.
    pub model_tile: Option<Vec<u8>>,
    pub inventory_tab: Option<String>,
    pub placement_mode: PlacementMode,
    pub default_rotation: u8,
}

/// Where the file of a model's texture may lie.
pub open spec fn path_prefixes() -> Seq<Seq<char>> {
    seq!["assets/textures/modelblocks/"@, "assets/models/textures/"@, "assets/textures/"@]
}

/// The places where the textures of a model may lie: for each file, each folder
/// in turn.
pub fn model_texture_paths(files: &Vec<String>) -> (r: Vec<String>)
    requires
        files@.len() * 3 <= usize::MAX,
    ensures
        r@.len() == files@.len() * 3,
        forall|i: int|
            #![trigger r@[i]]
            0 <= i < r@.len() ==> r@[i]@ == path_prefixes()[i % 3] + files@[i / 3]@,
{
    let mut r: Vec<String> = Vec::new();
    let mut i: usize = 0;
    while i < files.len()
        invariant
            i <= files@.len(),
            files@.len() * 3 <= usize::MAX,
            r@.len() == i * 3,
            forall|k: int|
                #![trigger r@[k]]
                0 <= k < r@.len() ==> r@[k]@ == path_prefixes()[k % 3] + files@[k / 3]@,
        decreases files@.len() - i,
    {
        r.push(text::joined("assets/textures/modelblocks/", files[i].as_str()));
        r.push(text::joined("assets/models/textures/", files[i].as_str()));
        r.push(text::joined("assets/textures/", files[i].as_str()));
        i += 1;
    }
    r
}

/// `k` is the first file that holds a picture with any pixels.
pub open spec fn is_first_picture(files: Seq<Vec<u8>>, k: int) -> bool {
    &&& 0 <= k < files.len()
    &&& has_picture(files[k]@)
    &&& forall|j: int| #![trigger files[j]] 0 <= j < k ==> !has_picture(files[j]@)
}

/// The bytes hold a picture with any pixels.
pub open spec fn has_picture(bytes: Seq<u8>) -> bool {
    pixels::decoded_image(bytes) matches Some(p) && p.0 >= 1 && p.1 >= 1
}

/// A tile of the first file that holds a picture.
pub fn first_tile(files: &Vec<Vec<u8>>) -> (r: Option<Vec<u8>>)
    ensures
        r is Some <==> exists|k: int| #![trigger files@[k]] is_first_picture(files@, k),
        r matches Some(t) ==> exists|k: int|
            #![trigger files@[k]]
            is_first_picture(files@, k) && pixels::shows_tile(
                t@,
                pixels::decoded_image(files@[k]@)->Some_0,
            ),
{
    let mut i: usize = 0;
    while i < files.len()
        invariant
            i <= files@.len(),
            forall|j: int| #![trigger files@[j]] 0 <= j < i ==> !has_picture(files@[j]@),
        decreases files@.len() - i,
    {
        match pixels::tile_of_file(&files[i]) {
            Some(t) => {
                assert(is_first_picture(files@, i as int));
                return Some(t);
            },
            None => {},
        }
        i += 1;
    }
    assert forall|k: int| #![trigger files@[k]] !is_first_picture(files@, k) by {
        if 0 <= k < files@.len() {
            assert(!has_picture(files@[k]@));
        }
    }
    None
}

impl BlockInfo {
    /// The block is shown by the tile of its model.
    pub open spec fn shows_model(self) -> bool {
        self.top_texture is None && self.has_model && self.model_tile is Some
    }

    /// The name that is shown: the display name, or the id where there is none.
    pub open spec fn name(self) -> Seq<char> {
        if self.display_name@.len() == 0 {
            self.id@
        } else {
            self.display_name@
        }
    }
}

/// An optional text is the given one.
pub open spec fn opt_is(t: Option<String>, s: Seq<char>) -> bool {
    t matches Some(x) && x@ == s
}

/// The texture name of a block that is shown by its model.
pub open spec fn tile_key(b: BlockInfo) -> Seq<char> {
    "modelblock/"@ + b.id@
}

/// `s` is a stack of a block as it is put into the inventory at the start.
pub open spec fn is_stock(s: ItemStack, b: BlockInfo) -> bool {
    &&& b.key is Some
    &&& s.block_id == b.key->Some_0
    &&& s.display_name@ == b.name()
    &&& s.amount == STOCK
    &&& s.max_stack == STOCK
    &&& s.block_color == b.color
    &&& if b.shows_model() {
        opt_is(s.top_texture, tile_key(b)) && opt_is(s.side_texture, tile_key(b))
    } else {
        s.top_texture == b.top_texture && s.side_texture == b.side_texture
    }
    &&& s.inventory_tab == b.inventory_tab
    &&& s.model_name is None
}

/// The squares of pixels after one more, unless there is one of that name.
pub open spec fn with_tile(
    images: Map<Seq<char>, TileModel>,
    name: Seq<char>,
    rgba: Seq<u8>,
) -> Map<Seq<char>, TileModel> {
    if images.dom().contains(name) {
        images
    } else {
        images.insert(name, TileModel { width: 16, height: 16, rgba })
    }
}

/// The squares of pixels after that of a texture, if the atlas has one.
pub open spec fn with_texture(
    images: Map<Seq<char>, TileModel>,
    name: Option<String>,
    tiles: Map<Seq<char>, Vec<u8>>,
) -> Map<Seq<char>, TileModel> {
    match name {
        Some(n) if tiles.dom().contains(n@) => with_tile(images, n@, tiles[n@]@),
        _ => images,
    }
}

/// The squares of pixels after those of a block.
pub open spec fn with_block_tiles(
    images: Map<Seq<char>, TileModel>,
    b: BlockInfo,
    tiles: Map<Seq<char>, Vec<u8>>,
) -> Map<Seq<char>, TileModel> {
    let m = with_texture(with_texture(images, b.top_texture, tiles), b.side_texture, tiles);
    if b.shows_model() {
        with_tile(m, tile_key(b), b.model_tile->Some_0@)
    } else {
        m
    }
}

/// The squares of pixels after those of some blocks.
pub open spec fn with_all_tiles(
    images: Map<Seq<char>, TileModel>,
    ids: Seq<u8>,
    blocks: Map<u8, BlockInfo>,
    tiles: Map<Seq<char>, Vec<u8>>,
) -> Map<Seq<char>, TileModel>
    decreases ids.len(),
{
    if ids.len() == 0 {
        images
    } else {
        with_block_tiles(
            with_all_tiles(images, ids.drop_last(), blocks, tiles),
            blocks[ids.last()],
            tiles,
        )
    }
}

/// A block goes into the hotbar where it is solid, and into the palette where
/// it is solid or can be seen through; it has to be registered.
pub open spec fn stocked(b: BlockInfo, palette: bool) -> bool {
    b.key is Some && (b.solid || palette && b.transparent)
}

/// The blocks up to number `n` that are stocked, in order; block zero is air.
pub open spec fn stocked_blocks(blocks: Map<u8, BlockInfo>, palette: bool, n: int) -> Seq<u8>
    decreases n,
{
    if n <= 0 {
        Seq::empty()
    } else if blocks.dom().contains(n as u8) && stocked(blocks[n as u8], palette) {
        stocked_blocks(blocks, palette, n - 1).push(n as u8)
    } else {
        stocked_blocks(blocks, palette, n - 1)
    }
}

/// The blocks of the hotbar: the first ones, as many as there are slots.
pub open spec fn hotbar_blocks(blocks: Map<u8, BlockInfo>, slots: nat) -> Seq<u8> {
    let all = stocked_blocks(blocks, false, 255);
    if all.len() <= slots {
        all
    } else {
        all.take(slots as int)
    }
}

/// `after` is the interface once its hotbar was filled with solid blocks, one in
/// each slot as long as there are any.
pub open spec fn is_hotbar_stocked(
    before: InventoryUiModel,
    after: InventoryUiModel,
    blocks: Map<u8, BlockInfo>,
    tiles: Map<Seq<char>, Vec<u8>>,
) -> bool {
    let ids = hotbar_blocks(blocks, before.inventory.hotbar.len());
    &&& after == (InventoryUiModel {
        images: with_all_tiles(before.images, ids, blocks, tiles),
        inventory: InventoryModel { hotbar: after.inventory.hotbar, ..before.inventory },
        ..before
    })
    &&& after.inventory.hotbar.len() == before.inventory.hotbar.len()
    &&& forall|i: int|
        #![trigger after.inventory.hotbar[i]]
        0 <= i < after.inventory.hotbar.len() ==> if i < ids.len() {
            after.inventory.hotbar[i] matches InventorySlot::Occupied(s) && is_stock(
                s,
                blocks[ids[i]],
            )
        } else {
            after.inventory.hotbar[i] == before.inventory.hotbar[i]
        }
}

/// `after` is the interface once its palette was filled with all blocks that
/// are solid or can be seen through.
pub open spec fn is_palette_stocked(
    before: InventoryUiModel,
    after: InventoryUiModel,
    blocks: Map<u8, BlockInfo>,
    tiles: Map<Seq<char>, Vec<u8>>,
) -> bool {
    let ids = stocked_blocks(blocks, true, 255);
    &&& after == (InventoryUiModel {
        images: with_all_tiles(before.images, ids, blocks, tiles),
        items: after.items,
        tabs: after.tabs,
        selected: 0,
        ..before
    })
    &&& inventory_ui::is_tab_bar(after.tabs, after.items)
    &&& after.items.len() == ids.len()
    &&& forall|i: int|
        #![trigger after.items[i]]
        0 <= i < ids.len() ==> is_stock(after.items[i], blocks[ids[i]])
}

fn add_texture(ui: &mut InventoryUI, name: &Option<String>, tiles: &Table<String, Vec<u8>>)
    requires
        old(ui).wf(),
        tiles.wf(),
    ensures
        final(ui).wf(),
        final(ui)@ == (InventoryUiModel {
            images: with_texture(old(ui)@.images, *name, tiles@),
            ..old(ui)@
        }),
{
    match name {
        Some(n) => {
            match tiles.get(n) {
                Some(rgba) => {
                    let copy: Vec<u8> = rgba.clone();
                    assert(copy@ =~= rgba@);
                    ui.add_tile_image(n.clone(), TileImage { width: 16, height: 16, rgba: copy });
                },
                None => {},
            }
        },
        None => {},
    }
}

/// The stack of a block, and its squares of pixels are kept.
fn stock_block(ui: &mut InventoryUI, b: &BlockInfo, key: &String, tiles: &Table<String, Vec<u8>>) -> (r:
    ItemStack)
    requires
        old(ui).wf(),
        tiles.wf(),
        b.key == Some(*key),
    ensures
        final(ui).wf(),
        final(ui)@ == (InventoryUiModel {
            images: with_block_tiles(old(ui)@.images, *b, tiles@),
            ..old(ui)@
        }),
        is_stock(r, *b),
{
    add_texture(ui, &b.top_texture, tiles);
    add_texture(ui, &b.side_texture, tiles);
    let mut top: Option<String> = clone_opt_text(&b.top_texture);
    let mut side: Option<String> = clone_opt_text(&b.side_texture);
    if b.top_texture.is_none() && b.has_model {
        match &b.model_tile {
            Some(tile) => {
                let name: String = text::joined("modelblock/", b.id.as_str());
                let copy: Vec<u8> = tile.clone();
                assert(copy@ =~= tile@);
                top = Some(name.clone());
                side = Some(name.clone());
                ui.add_tile_image(name, TileImage { width: 16, height: 16, rgba: copy });
            },
            None => {},
        }
    }
    let name: String = if text::same_text(b.display_name.as_str(), "") {
        b.id.clone()
    } else {
        b.display_name.clone()
    };
    proof {
        reveal_strlit("");
        assert(b.display_name@.len() == 0 ==> b.display_name@ =~= ""@);
    }
    ItemStack::new(key.clone(), name, STOCK, STOCK).with_color(b.color).with_textures(
        top,
        side,
    ).with_tab(clone_opt_text(&b.inventory_tab))
}

/// Fills the hotbar with solid blocks, in the order of their numbers.
pub fn stock_hotbar(ui: &mut InventoryUI, blocks: &Table<u8, BlockInfo>, tiles: &Table<String, Vec<u8>>)
    requires
        old(ui).wf(),
        blocks.wf(),
        tiles.wf(),
    ensures
        final(ui).wf(),
        is_hotbar_stocked(old(ui)@, final(ui)@, blocks@, tiles@),
{
    let count: usize = ui.hotbar_count();
    let ghost m = ui@;
    let mut slot: usize = 0;
    let mut b: u8 = 0;
    while b < 255 && slot < count
        invariant
            slot <= count,
            count == m.inventory.hotbar.len(),
            m == old(ui)@,
            ui.wf(),
            blocks.wf(),
            tiles.wf(),
            slot == stocked_blocks(blocks@, false, b as int).len(),
            ui@ == (InventoryUiModel {
                images: with_all_tiles(
                    m.images,
                    stocked_blocks(blocks@, false, b as int),
                    blocks@,
                    tiles@,
                ),
                inventory: InventoryModel { hotbar: ui@.inventory.hotbar, ..m.inventory },
                ..m
            }),
            ui@.inventory.hotbar.len() == m.inventory.hotbar.len(),
            forall|i: int|
                #![trigger ui@.inventory.hotbar[i]]
                0 <= i < ui@.inventory.hotbar.len() ==> if i < slot {
                    ui@.inventory.hotbar[i] matches InventorySlot::Occupied(s) && is_stock(
                        s,
                        blocks@[stocked_blocks(blocks@, false, b as int)[i]],
                    )
                } else {
                    ui@.inventory.hotbar[i] == m.inventory.hotbar[i]
                },
        decreases 255 - b,
    {
        let ghost before = stocked_blocks(blocks@, false, b as int);
        b = b + 1;
        let ghost after = stocked_blocks(blocks@, false, b as int);
        match blocks.get(&b) {
            Some(info) => {
                if info.solid {
                    match &info.key {
                        Some(key) => {
                            assert(after == before.push(b));
                            assert(after.drop_last() =~= before);
                            let stack: ItemStack = stock_block(ui, info, key, tiles);
                            ui.set_hotbar_slot(slot, stack);
                            slot = slot + 1;
                        },
                        None => {},
                    }
                }
            },
            None => {},
        }
    }
    proof {
        let all = stocked_blocks(blocks@, false, 255);
        lemma_stocked_prefix(blocks@, false, b as int, 255);
        let done = stocked_blocks(blocks@, false, b as int);
        let ids = hotbar_blocks(blocks@, count as nat);
        if slot < count {
            assert(b == 255);
            assert(ids == done);
        } else {
            assert(all.take(slot as int) =~= done);
            assert(ids =~= done);
        }
    }
}

proof fn lemma_stocked_prefix(blocks: Map<u8, BlockInfo>, palette: bool, i: int, j: int)
    requires
        0 <= i <= j,
    ensures
        stocked_blocks(blocks, palette, i).len() <= stocked_blocks(blocks, palette, j).len(),
        stocked_blocks(blocks, palette, j).take(stocked_blocks(blocks, palette, i).len() as int)
            == stocked_blocks(blocks, palette, i),
    decreases j,
{
    let a = stocked_blocks(blocks, palette, i);
    let c = stocked_blocks(blocks, palette, j);
    if i == j {
        assert(c.take(a.len() as int) =~= a);
    } else {
        lemma_stocked_prefix(blocks, palette, i, j - 1);
        let b = stocked_blocks(blocks, palette, j - 1);
        assert(c.take(a.len() as int) =~= b.take(a.len() as int));
    }
}

/// Fills the creative palette with all blocks that are solid or can be seen
/// through, in the order of their numbers.
pub fn stock_palette(ui: &mut InventoryUI, blocks: &Table<u8, BlockInfo>, tiles: &Table<String, Vec<u8>>)
    requires
        old(ui).wf(),
        blocks.wf(),
        tiles.wf(),
    ensures
        final(ui).wf(),
        is_palette_stocked(old(ui)@, final(ui)@, blocks@, tiles@),
{
    let ghost m = ui@;
    let mut items: Vec<ItemStack> = Vec::new();
    let mut b: u8 = 0;
    while b < 255
        invariant
            m == old(ui)@,
            ui.wf(),
            blocks.wf(),
            tiles.wf(),
            ui@ == (InventoryUiModel {
                images: with_all_tiles(
                    m.images,
                    stocked_blocks(blocks@, true, b as int),
                    blocks@,
                    tiles@,
                ),
                ..m
            }),
            items@.len() == stocked_blocks(blocks@, true, b as int).len(),
            forall|i: int|
                #![trigger items@[i]]
                0 <= i < items@.len() ==> is_stock(
                    items@[i],
                    blocks@[stocked_blocks(blocks@, true, b as int)[i]],
                ),
        decreases 255 - b,
    {
        let ghost before = stocked_blocks(blocks@, true, b as int);
        b = b + 1;
        let ghost after = stocked_blocks(blocks@, true, b as int);
        match blocks.get(&b) {
            Some(info) => {
                if info.solid || info.transparent {
                    match &info.key {
                        Some(key) => {
                            assert(after == before.push(b));
                            assert(after.drop_last() =~= before);
                            let stack: ItemStack = stock_block(ui, info, key, tiles);
                            items.push(stack);
                        },
                        None => {},
                    }
                }
            },
            None => {},
        }
    }
    ui.set_creative_items(items);
}

/// The stack that picking a registered block puts into the hand.
pub open spec fn picked(b: BlockInfo) -> ItemStack {
    ItemStack {
        block_color: b.color,
        top_texture: b.top_texture,
        side_texture: b.side_texture,
        ..ItemStack::plain(
            b.key->Some_0,
            if b.display_name@.len() == 0 {
                b.id
            } else {
                b.display_name
            },
            STOCK,
            STOCK,
        )
    }
}

/// The stack that picking a block puts into the hand.
pub fn picked_stack(b: &BlockInfo, key: &String) -> (r: ItemStack)
    requires
        b.key == Some(*key),
    ensures
        r == picked(*b),
{
    let name: String = if text::same_text(b.display_name.as_str(), "") {
        b.id.clone()
    } else {
        b.display_name.clone()
    };
    proof {
        reveal_strlit("");
        assert(b.display_name@.len() == 0 ==> b.display_name@ =~= ""@);
    }
    ItemStack::new(key.clone(), name, STOCK, STOCK).with_color(b.color).with_textures(
        clone_opt_text(&b.top_texture),
        clone_opt_text(&b.side_texture),
    )
}

/// The stocked blocks are in the order of their numbers, none occurs twice, and
/// everything that is stocked in the hotbar is stocked in the palette.
pub proof fn law_stocked_blocks(blocks: Map<u8, BlockInfo>, palette: bool, n: int)
    requires
        0 <= n <= 255,
    ensures
        forall|i: int, j: int|
            #![trigger stocked_blocks(blocks, palette, n)[i], stocked_blocks(blocks, palette, n)[j]]
            0 <= i < j < stocked_blocks(blocks, palette, n).len() ==> stocked_blocks(
                blocks,
                palette,
                n,
            )[i] < stocked_blocks(blocks, palette, n)[j],
        forall|b: u8|
            #![trigger stocked_blocks(blocks, palette, n).contains(b)]
            stocked_blocks(blocks, palette, n).contains(b) <==> 1 <= b <= n
                && blocks.dom().contains(b) && stocked(blocks[b], palette),
        forall|b: u8|
            #![trigger stocked_blocks(blocks, true, n).contains(b)]
            stocked_blocks(blocks, false, n).contains(b) ==> stocked_blocks(
                blocks,
                true,
                n,
            ).contains(b),
    decreases n,
{
    lemma_stocked_members(blocks, palette, n);
    lemma_stocked_members(blocks, false, n);
    lemma_stocked_members(blocks, true, n);
}

proof fn lemma_stocked_members(blocks: Map<u8, BlockInfo>, palette: bool, n: int)
    requires
        0 <= n <= 255,
    ensures
        forall|i: int, j: int|
            #![trigger stocked_blocks(blocks, palette, n)[i], stocked_blocks(blocks, palette, n)[j]]
            0 <= i < j < stocked_blocks(blocks, palette, n).len() ==> stocked_blocks(
                blocks,
                palette,
                n,
            )[i] < stocked_blocks(blocks, palette, n)[j],
        forall|b: u8|
            #![trigger stocked_blocks(blocks, palette, n).contains(b)]
            stocked_blocks(blocks, palette, n).contains(b) <==> 1 <= b <= n
                && blocks.dom().contains(b) && stocked(blocks[b], palette),
    decreases n,
{
    if n > 0 {
        lemma_stocked_members(blocks, palette, n - 1);
        let s = stocked_blocks(blocks, palette, n - 1);
        let t = stocked_blocks(blocks, palette, n);
        assert forall|i: int| #![trigger s[i]] 0 <= i < s.len() implies s[i] <= n - 1 by {
            assert(s.contains(s[i]));
        }
        assert forall|b: u8| #![trigger t.contains(b)] t.contains(b) <==> 1 <= b <= n
            && blocks.dom().contains(b) && stocked(blocks[b], palette) by {
            if t.contains(b) {
                let k = choose|k: int| #![trigger t[k]] 0 <= k < t.len() && t[k] == b;
                if k < s.len() {
                    assert(s[k] == b);
                    assert(s.contains(b));
                }
            }
            if s.contains(b) {
                let k = choose|k: int| #![trigger s[k]] 0 <= k < s.len() && s[k] == b;
                assert(t[k] == b);
            }
            if b == n && blocks.dom().contains(b) && stocked(blocks[b], palette) {
                assert(t[s.len() as int] == b);
            }
        }
    }
}

/// Which blocks are given out: those with a registered name that are solid,
/// and to the palette the transparent ones too. A block is called by its name, or
/// by its id where it has no name, and shows a picture of its model where it has
/// no picture for its top but a model with one.
pub proof fn law_block_info(b: BlockInfo)
    ensures
        stocked(b, false) <==> b.key is Some && b.solid,
        stocked(b, true) <==> b.key is Some && (b.solid || b.transparent),
        b.display_name@.len() > 0 ==> b.name() == b.display_name@,
        b.display_name@.len() == 0 ==> b.name() == b.id@,
        b.shows_model() <==> b.top_texture is None && b.has_model && b.model_tile is Some,
        tile_key(b) == "modelblock/"@ + b.id@,
        path_prefixes() == seq![
            "assets/textures/modelblocks/"@,
            "assets/models/textures/"@,
            "assets/textures/"@,
        ],
{
}

/// A stack that is given out is 64 of its block, under the name it is
/// registered by and in its colour and on its tab. It has the block's pictures, or
/// that of the block's model on all sides where the block shows its model.
pub proof fn law_stock(s: ItemStack, b: BlockInfo)
    requires
        is_stock(s, b),
    ensures
        b.key == Some(s.block_id),
        s.amount == 64,
        s.max_stack == 64,
        s.display_name@ == if b.display_name@.len() == 0 { b.id@ } else { b.display_name@ },
        s.block_color == b.color,
        s.inventory_tab == b.inventory_tab,
        s.model_name is None,
        b.top_texture is Some || !b.has_model || b.model_tile is None ==> s.top_texture
            == b.top_texture && s.side_texture == b.side_texture,
        b.top_texture is None && b.has_model && b.model_tile is Some ==> s.top_texture is Some
            && s.top_texture->Some_0@ == "modelblock/"@ + b.id@ && s.side_texture is Some
            && s.side_texture->Some_0@ == "modelblock/"@ + b.id@,
{
}

/// The hotbar is filled from its first slot on with the solid blocks in the
/// order of their numbers, as many as there are slots; slots that are left over,
/// and all but the hotbar and the pictures, stay.
pub proof fn law_hotbar_stocked(
    before: InventoryUiModel,
    after: InventoryUiModel,
    blocks: Map<u8, BlockInfo>,
    tiles: Map<Seq<char>, Vec<u8>>,
    i: int,
    j: int,
)
    requires
        is_hotbar_stocked(before, after, blocks, tiles),
    ensures
        ({
            let ids = stocked_blocks(blocks, false, 255);
            let h = after.inventory.hotbar;
            &&& h.len() == before.inventory.hotbar.len()
            &&& 0 <= i < h.len() && i < ids.len() ==> (h[i] matches InventorySlot::Occupied(s)
                && Some(s.block_id) == blocks[ids[i]].key && s.amount == 64
                && blocks[ids[i]].solid && blocks.dom().contains(ids[i]))
            &&& 0 <= i < j < h.len() && j < ids.len() ==> ids[i] < ids[j]
            &&& ids.len() <= i < h.len() ==> h[i] == before.inventory.hotbar[i]
            &&& after.inventory == (InventoryModel { hotbar: h, ..before.inventory })
            &&& after == (InventoryUiModel {
                images: after.images,
                inventory: after.inventory,
                ..before
            })
        }),
{
    law_stocked_blocks(blocks, false, 255);
    let ids = stocked_blocks(blocks, false, 255);
    let h = after.inventory.hotbar;
    let given = hotbar_blocks(blocks, before.inventory.hotbar.len());
    if 0 <= i < h.len() && i < ids.len() {
        assert(given[i] == ids[i]);
        assert(ids.contains(ids[i]));
        assert(h[i] is Occupied);
    }
    if ids.len() <= i < h.len() {
        assert(h[i] == before.inventory.hotbar[i]);
    }
}

/// The palette has one entry for each block that is given out to it, in the
/// order of their numbers, with the tabs that go with them and the first tab
/// selected; all but the palette and the pictures stays.
pub proof fn law_palette_stocked(
    before: InventoryUiModel,
    after: InventoryUiModel,
    blocks: Map<u8, BlockInfo>,
    tiles: Map<Seq<char>, Vec<u8>>,
    i: int,
)
    requires
        is_palette_stocked(before, after, blocks, tiles),
    ensures
        ({
            let ids = stocked_blocks(blocks, true, 255);
            &&& after.items.len() == ids.len()
            &&& 0 <= i < ids.len() ==> Some(after.items[i].block_id) == blocks[ids[i]].key
                && after.items[i].amount == 64 && after.items[i].inventory_tab
                == blocks[ids[i]].inventory_tab
            &&& inventory_ui::is_tab_bar(after.tabs, after.items)
            &&& after.selected == 0
            &&& after == (InventoryUiModel {
                images: after.images,
                items: after.items,
                tabs: after.tabs,
                selected: 0,
                ..before
            })
        }),
{
    let ids = stocked_blocks(blocks, true, 255);
    if 0 <= i < ids.len() {
        assert(is_stock(after.items[i], blocks[ids[i]]));
    }
}

/// Whether a block brings a picture of a name: one of its own that could be
/// read, or that of its model.
spec fn brings(b: BlockInfo, name: Seq<char>, tiles: Map<Seq<char>, Vec<u8>>) -> bool {
    ||| b.top_texture is Some && b.top_texture->Some_0@ == name && tiles.dom().contains(name)
    ||| b.side_texture is Some && b.side_texture->Some_0@ == name && tiles.dom().contains(name)
    ||| b.shows_model() && tile_key(b) == name
}

/// The pictures that come with blocks: a picture that was there stays as it
/// was, and one is new exactly where some of the blocks brings it. A new one is 16
/// wide and 16 high, and has the pixels read for its name or those of a model.
pub proof fn law_block_pictures(
    images: Map<Seq<char>, TileModel>,
    ids: Seq<u8>,
    blocks: Map<u8, BlockInfo>,
    tiles: Map<Seq<char>, Vec<u8>>,
    name: Seq<char>,
)
    ensures
        ({
            let r = with_all_tiles(images, ids, blocks, tiles);
            &&& images.dom().contains(name) ==> r.dom().contains(name) && r[name] == images[name]
            &&& !images.dom().contains(name) ==> (r.dom().contains(name) <==> exists|k: int|
                #![trigger ids[k]]
                0 <= k < ids.len() && ({
                    let b = blocks[ids[k]];
                    ||| b.top_texture is Some && b.top_texture->Some_0@ == name
                        && tiles.dom().contains(name)
                    ||| b.side_texture is Some && b.side_texture->Some_0@ == name
                        && tiles.dom().contains(name)
                    ||| b.top_texture is None && b.has_model && b.model_tile is Some
                        && "modelblock/"@ + b.id@ == name
                }))
            &&& !images.dom().contains(name) && r.dom().contains(name) ==> r[name].width == 16
                && r[name].height == 16 && (tiles.dom().contains(name) && r[name].rgba
                == tiles[name]@ || exists|k: int|
                #![trigger ids[k]]
                0 <= k < ids.len() && "modelblock/"@ + blocks[ids[k]].id@ == name
                    && blocks[ids[k]].model_tile is Some && r[name].rgba
                    == blocks[ids[k]].model_tile->Some_0@)
        }),
    decreases ids.len(),
{
    if ids.len() > 0 {
        let less = ids.drop_last();
        law_block_pictures(images, less, blocks, tiles, name);
        let a = with_all_tiles(images, less, blocks, tiles);
        let r = with_all_tiles(images, ids, blocks, tiles);
        let n = ids.len() - 1;
        assert(ids[n] == ids.last());
        let b = blocks[ids[n]];
        assert(r == with_block_tiles(a, b, tiles));
        assert forall|k: int| #![trigger less[k]] 0 <= k < less.len() implies ids[k] == less[k] by {}
        assert forall|k: int| #![trigger ids[k]] 0 <= k < n implies ids[k] == less[k] by {}
        if !images.dom().contains(name) && a.dom().contains(name) {
            let k = choose|k: int|
                #![trigger less[k]]
                0 <= k < less.len() && brings(blocks[less[k]], name, tiles);
            assert(brings(blocks[ids[k]], name, tiles));
            assert(r[name] == a[name]);
            if !(tiles.dom().contains(name) && a[name].rgba == tiles[name]@) {
                let k = choose|k: int|
                    #![trigger less[k]]
                    0 <= k < less.len() && "modelblock/"@ + blocks[less[k]].id@ == name
                        && blocks[less[k]].model_tile is Some && a[name].rgba
                        == blocks[less[k]].model_tile->Some_0@;
                assert("modelblock/"@ + blocks[ids[k]].id@ == name);
            }
        } else if !images.dom().contains(name) {
            assert(r.dom().contains(name) <==> brings(b, name, tiles));
            if r.dom().contains(name) {
                assert(brings(blocks[ids[n]], name, tiles));
            } else {
                assert forall|k: int| #![trigger ids[k]] 0 <= k < ids.len() implies !brings(
                    blocks[ids[k]],
                    name,
                    tiles,
                ) by {
                    if k < n {
                        assert(!brings(blocks[less[k]], name, tiles));
                    }
                }
            }
        }
    }
}

/// Of some files the first that is a picture with at least one pixel counts,
/// and there is at most one first.
pub proof fn law_first_picture(files: Seq<Vec<u8>>, a: int, b: int)
    requires
        is_first_picture(files, a),
    ensures
        0 <= a < files.len(),
        is_first_picture(files, b) ==> a == b,
        pixels::decoded_image(files[a]@) is Some,
        pixels::decoded_image(files[a]@)->Some_0.0 >= 1 && pixels::decoded_image(
            files[a]@,
        )->Some_0.1 >= 1,
        0 <= b < a ==> pixels::decoded_image(files[b]@) is None || pixels::decoded_image(
            files[b]@,
        )->Some_0.0 < 1 || pixels::decoded_image(files[b]@)->Some_0.1 < 1,
{
    if is_first_picture(files, b) {
        if a < b {
            assert(!has_picture(files[a]@));
        }
        if b < a {
            assert(!has_picture(files[b]@));
        }
    }
    if 0 <= b < a {
        assert(!has_picture(files[b]@));
    }
}

} // verus!
