//! The editor of block definitions: its list, its edit buffer, its dialog and
//! the steps of saving.
use crate::block_definition::BlockDefModel;
use crate::block_definition::BlockDefaults;
use crate::block_definition::BlockDefinition;
use crate::block_definition::BlockEdit;
use crate::block_definition::BlockLightSource;
use crate::block_definition::FaceColors;
use crate::block_definition::LightKind;
use crate::block_definition::PlacementMode;
use crate::inventory::HALF_BITS;
use crate::inventory_ui::texts;
use crate::json;
use crate::table::Table;
use crate::text;
use vstd::prelude::*;
use vstd::string::*;

verus! {

/// A page of the inspector.
#[derive(Debug, Clone, Copy, PartialEq, Eq, Structural)]
pub enum EditorTab {
    Basic,
    Material,
    Emission,
    Faces,
    Fluid,
    Lights,
}

impl EditorTab {
    /// The name of a page.
    pub open spec fn name(self) -> Seq<char> {
        match self {
            EditorTab::Basic => "Basic"@,
            EditorTab::Material => "Material"@,
            EditorTab::Emission => "Emission"@,
            EditorTab::Faces => "Faces"@,
            EditorTab::Fluid => "Fluid"@,
            EditorTab::Lights => "Lights"@,
        }
    }

    /// The pages in the order of the tab bar.
    pub fn all() -> (r: Vec<EditorTab>)
        ensures
            r@ == seq![
                EditorTab::Basic,
                EditorTab::Material,
                EditorTab::Emission,
                EditorTab::Faces,
                EditorTab::Fluid,
                EditorTab::Lights,
            ],
    {
        let mut r: Vec<EditorTab> = Vec::new();
        r.push(EditorTab::Basic);
        r.push(EditorTab::Material);
        r.push(EditorTab::Emission);
        r.push(EditorTab::Faces);
        r.push(EditorTab::Fluid);
        r.push(EditorTab::Lights);
        r
    }

    /// The name of a page.
    pub fn label(self) -> (r: &'static str)
        ensures
            r@ == self.name(),
    {
        match self {
            EditorTab::Basic => "Basic",
            EditorTab::Material => "Material",
            EditorTab::Emission => "Emission",
            EditorTab::Faces => "Faces",
            EditorTab::Fluid => "Fluid",
            EditorTab::Lights => "Lights",
        }
    }
}

/// The dialog for a new block.
#[derive(Debug)]
pub struct NewBlockDialog {
    pub open: bool,
    pub id: String,
    pub name: String,
    pub err: String,
}

/// The dialog as a mathematical value.
#[verifier::ext_equal]
pub struct DialogModel {
    pub open: bool,
    pub id: Seq<char>,
    pub name: Seq<char>,
    pub err: Seq<char>,
}

impl View for NewBlockDialog {
    type V = DialogModel;

    open spec fn view(&self) -> DialogModel {
        DialogModel { open: self.open, id: self.id@, name: self.name@, err: self.err@ }
    }
}

impl NewBlockDialog {
    /// A closed dialog with empty fields.
    pub fn new() -> (r: NewBlockDialog)
        ensures
            r@ == (DialogModel {
                open: false,
                id: Seq::empty(),
                name: Seq::empty(),
                err: Seq::empty(),
            }),
    {
        NewBlockDialog { open: false, id: String::new(), name: String::new(), err: String::new() }
    }

    /// Opens the dialog with empty fields.
    pub fn open(&mut self)
        ensures
            final(self)@ == (DialogModel {
                open: true,
                id: Seq::empty(),
                name: Seq::empty(),
                err: Seq::empty(),
            }),
    {
        self.id = String::new();
        self.name = String::new();
        self.err = String::new();
        self.open = true;
    }
}

/// A row of the list of blocks.
#[derive(Debug)]
pub struct BlockRow {
    /// Position in the registry, from zero.
    pub index: usize,
    pub key: String,
    pub display: String,
    pub selected: bool,
    /// The colour of the block, where its definition is known.
    pub color: Option<[u32; 3]>,
}

/// Where saving can fail.
#[derive(Debug, Clone, Copy, PartialEq, Eq, Structural)]
pub enum SaveStage {
    Serialize,
    Stringify,
    CreateDir,
    Write,
    Registry,
}

impl SaveStage {
    /// What a failure at this stage is reported as, before its reason.
    pub open spec fn prefix(self) -> Seq<char> {
        match self {
            SaveStage::Serialize => "Serialization error: "@,
            SaveStage::Stringify => "JSON stringify error: "@,
            SaveStage::CreateDir => "Failed to create dir: "@,
            SaveStage::Write => "Write error: "@,
            SaveStage::Registry => "Saved block JSON but registry update failed: "@,
        }
    }

    fn prefix_text(self) -> (r: &'static str)
        ensures
            r@ == self.prefix(),
    {
        match self {
            SaveStage::Serialize => "Serialization error: ",
            SaveStage::Stringify => "JSON stringify error: ",
            SaveStage::CreateDir => "Failed to create dir: ",
            SaveStage::Write => "Write error: ",
            SaveStage::Registry => "Saved block JSON but registry update failed: ",
        }
    }
}

/// The editor.
pub struct BlockEditor {
    pub visible: bool,
    pub registry_order: Vec<String>,
    pub block_defs: Table<String, BlockDefinition>,
    pub selected_key: Option<String>,
    pub edit_def: BlockDefinition,
    pub edit_key: String,
    pub is_new: bool,
    pub dirty: bool,
    pub search: String,
    pub active_tab: EditorTab,
    pub status_msg: String,
    pub status_ok: bool,
    pub new_dlg: NewBlockDialog,
    pub defaults: BlockDefaults,
}

/// The editor as a mathematical value.
#[verifier::ext_equal]
pub struct EditorModel {
    pub visible: bool,
    pub order: Seq<Seq<char>>,
    pub defs: Map<Seq<char>, BlockDefModel>,
    pub selected: Option<Seq<char>>,
    pub def: BlockDefModel,
    pub key: Seq<char>,
    pub is_new: bool,
    pub dirty: bool,
    pub search: Seq<char>,
    pub tab: EditorTab,
    pub status: Seq<char>,
    pub status_ok: bool,
    pub dialog: DialogModel,
    pub defaults: BlockDefaults,
}

/// The definitions of a table, each as a mathematical value.
pub open spec fn def_models(m: Map<Seq<char>, BlockDefinition>) -> Map<Seq<char>, BlockDefModel> {
    m.map_values(|d: BlockDefinition| d@)
}

/// The characters of what may be a text.
pub open spec fn opt_text(s: Option<String>) -> Option<Seq<char>> {
    match s {
        Some(t) => Some(t@),
        None => None,
    }
}

impl View for BlockEditor {
    type V = EditorModel;

    open spec fn view(&self) -> EditorModel {
        EditorModel {
            visible: self.visible,
            order: texts(self.registry_order@),
            defs: def_models(self.block_defs@),
            selected: opt_text(self.selected_key),
            def: self.edit_def@,
            key: self.edit_key@,
            is_new: self.is_new,
            dirty: self.dirty,
            search: self.search@,
            tab: self.active_tab,
            status: self.status_msg@,
            status_ok: self.status_ok,
            dialog: self.new_dlg@,
            defaults: self.defaults,
        }
    }
}

/// A new block: grey, solid, named after its key with spaces for underscores.
pub open spec fn fresh_def(id: Seq<char>, defaults: BlockDefaults) -> BlockDefModel {
    BlockDefModel {
        id,
        display_name: text::replace_spec(id, '_', ' '),
        description: Seq::empty(),
        color: [HALF_BITS, HALF_BITS, HALF_BITS],
        texture: None,
        solid: true,
        fluid: None,
        material: defaults.material,
        emission: defaults.emission,
        faces: FaceColors {
            all: None,
            top: None,
            bottom: None,
            sides: None,
            north: None,
            south: None,
            east: None,
            west: None,
        },
        biome_tint: false,
        placement_mode: PlacementMode::Fixed,
        default_rotation: 0,
        inventory_tab: None,
        lights: Seq::empty(),
        rest: defaults.rest@,
    }
}

/// A new block.
pub fn default_block_def(id: &str, defaults: &BlockDefaults) -> (r: BlockDefinition)
    ensures
        r@ == fresh_def(id@, *defaults),
{
    let r: BlockDefinition = BlockDefinition {
        id: id.to_string(),
        display_name: text::replace_char(id, '_', ' '),
        description: String::new(),
        color: [HALF_BITS, HALF_BITS, HALF_BITS],
        texture: None,
        solid: true,
        fluid: None,
        material: defaults.material,
        emission: defaults.emission,
        faces: FaceColors {
            all: None,
            top: None,
            bottom: None,
            sides: None,
            north: None,
            south: None,
            east: None,
            west: None,
        },
        biome_tint: false,
        placement_mode: PlacementMode::Fixed,
        default_rotation: 0,
        inventory_tab: None,
        light_sources: Vec::new(),
        rest: defaults.rest.clone(),
    };
    assert(r@.lights =~= Seq::<BlockLightSource>::empty());
    r
}

/// Whether the key occurs in the list.
pub fn lists_key(v: &Vec<String>, key: &String) -> (r: bool)
    ensures
        r == texts(v@).contains(key@),
{
    let mut i: usize = 0;
    while i < v.len()
        invariant
            i <= v@.len(),
            forall|j: int| #![trigger v@[j]] 0 <= j < i ==> v@[j]@ != key@,
        decreases v@.len() - i,
    {
        if v[i] == *key {
            assert(texts(v@)[i as int] == key@);
            return true;
        }
        i += 1;
    }
    assert forall|j: int| 0 <= j < texts(v@).len() implies texts(v@)[j] != key@ by {
        assert(v@[j]@ != key@);
    }
    false
}

/// The first position of a text in a list, or the length of the list.
pub open spec fn first_position(v: Seq<Seq<char>>, key: Seq<char>) -> int
    decreases v.len(),
{
    if v.len() == 0 {
        0
    } else if v[0] == key {
        0
    } else {
        1 + first_position(v.drop_first(), key)
    }
}

proof fn lemma_first_position(v: Seq<Seq<char>>, key: Seq<char>, i: int)
    requires
        0 <= i <= v.len(),
        forall|j: int| #![trigger v[j]] 0 <= j < i ==> v[j] != key,
        i < v.len() ==> v[i] == key,
    ensures
        first_position(v, key) == i,
    decreases v.len(),
{
    if v.len() > 0 && i > 0 {
        assert(v[0] != key);
        let t = v.drop_first();
        assert forall|j: int| #![trigger t[j]] 0 <= j < i - 1 implies t[j] != key by {
            assert(v[j + 1] != key);
        }
        lemma_first_position(t, key, i - 1);
    }
}

/// The number of a block: its place in the registry, or `NEW`.
pub open spec fn number_text(order: Seq<Seq<char>>, key: Seq<char>) -> Seq<char> {
    let i = first_position(order, key);
    if i < order.len() {
        text::decimal((i + 1) as nat)
    } else {
        "NEW"@
    }
}

/// The number of a block, as it is shown.
pub fn number_label(order: &Vec<String>, key: &String) -> (r: String)
    ensures
        r@ == number_text(texts(order@), key@),
{
    let mut i: usize = 0;
    while i < order.len() && order[i] != *key
        invariant
            i <= order@.len(),
            forall|j: int| #![trigger order@[j]] 0 <= j < i ==> order@[j]@ != key@,
        decreases order@.len() - i,
    {
        i += 1;
    }
    proof {
        let o = texts(order@);
        assert forall|j: int| #![trigger o[j]] 0 <= j < i implies o[j] != key@ by {
            assert(order@[j]@ != key@);
        }
        lemma_first_position(o, key@, i as int);
    }
    if i < order.len() {
        text::decimal_text(i as u64 + 1)
    } else {
        "NEW".to_string()
    }
}

impl EditorModel {
    /// Something is being edited.
    pub open spec fn editing(self) -> bool {
        self.selected is Some || self.is_new
    }

    /// The name of a block in the list: its own, or its key where its
    /// definition is not known.
    pub open spec fn row_name(self, key: Seq<char>) -> Seq<char> {
        if self.defs.dom().contains(key) {
            self.defs[key].display_name
        } else {
            key
        }
    }

    /// Whether a block is in the filtered list: its key or its name holds the
    /// search text, whatever the case of letters.
    pub open spec fn is_found(self, key: Seq<char>) -> bool {
        let q = text::lowercase(self.search);
        ||| q.len() == 0
        ||| text::is_substring(q, text::lowercase(key))
        ||| self.defs.dom().contains(key) && text::is_substring(
            q,
            text::lowercase(self.defs[key].display_name),
        )
    }

    /// The places of the first `n` blocks that are in the filtered list.
    pub open spec fn found(self, n: int) -> Seq<int>
        decreases n,
    {
        if n <= 0 {
            seq![]
        } else if self.is_found(self.order[n - 1]) {
            self.found(n - 1).push(n - 1)
        } else {
            self.found(n - 1)
        }
    }

    /// A row shows what is known of the block at its place.
    pub open spec fn is_row(self, row: BlockRow, i: int) -> bool {
        &&& row.index == i
        &&& row.key@ == self.order[i]
        &&& row.display@ == self.row_name(self.order[i])
        &&& row.selected == (self.selected == Some(self.order[i]))
        &&& row.color == (if self.defs.dom().contains(self.order[i]) {
            Some(self.defs[self.order[i]].color)
        } else {
            None
        })
    }

    /// The editor after a block was selected; nothing happens where its
    /// definition is not known.
    pub open spec fn after_select(self, key: Seq<char>) -> EditorModel {
        if self.defs.dom().contains(key) {
            EditorModel {
                def: self.defs[key],
                key,
                selected: Some(key),
                is_new: false,
                dirty: false,
                status: Seq::empty(),
                ..self
            }
        } else {
            self
        }
    }

    /// The editor after a change of the inspector.
    pub open spec fn after_edit(self, e: BlockEdit) -> EditorModel {
        EditorModel {
            def: self.def.edited(e, self.defaults),
            key: match e {
                BlockEdit::Id(s) => if self.is_new && s@ != self.def.id {
                    s@
                } else {
                    self.key
                },
                _ => self.key,
            },
            dirty: true,
            ..self
        }
    }

    /// The editor after the dialog was confirmed.
    pub open spec fn after_create(self) -> EditorModel {
        let id = text::trim_spec(self.dialog.id);
        let name = text::trim_spec(self.dialog.name);
        if id.len() == 0 {
            EditorModel {
                dialog: DialogModel { err: "ID cannot be empty."@, ..self.dialog },
                ..self
            }
        } else if self.order.contains(id) {
            EditorModel {
                dialog: DialogModel {
                    err: "Block '"@ + id + "' already exists."@,
                    ..self.dialog
                },
                ..self
            }
        } else {
            EditorModel {
                def: if name.len() == 0 {
                    fresh_def(id, self.defaults)
                } else {
                    BlockDefModel { display_name: name, ..fresh_def(id, self.defaults) }
                },
                key: id,
                selected: None,
                is_new: true,
                dirty: true,
                tab: EditorTab::Basic,
                dialog: DialogModel { open: false, ..self.dialog },
                status: "New block '"@ + id + "' ready — fill in properties and Save."@,
                status_ok: true,
                ..self
            }
        }
    }

    /// The editor after the block was duplicated.
    pub open spec fn after_duplicate(self) -> EditorModel {
        let id = self.def.id + "_copy"@;
        EditorModel {
            def: BlockDefModel {
                id,
                display_name: self.def.display_name + " Copy"@,
                ..self.def
            },
            key: id,
            selected: None,
            is_new: true,
            dirty: true,
            status: "Duplicated as '"@ + id + "' — edit and Save."@,
            status_ok: true,
            ..self
        }
    }

    /// The editor after saving failed.
    pub open spec fn after_failure(self, stage: SaveStage, reason: Seq<char>) -> EditorModel {
        EditorModel { status: stage.prefix() + reason, status_ok: false, ..self }
    }

    /// The editor after the file of the block was written: a new block is in
    /// the registry now.
    pub open spec fn after_written(self) -> EditorModel {
        if self.is_new && !self.order.contains(self.key) {
            EditorModel { order: self.order.push(self.key), ..self }
        } else {
            self
        }
    }

    /// The editor after saving succeeded.
    pub open spec fn after_saved(self, path: Seq<char>) -> EditorModel {
        EditorModel {
            defs: self.defs.insert(self.key, self.def),
            selected: Some(self.key),
            is_new: false,
            dirty: false,
            status: "Saved '"@ + self.key + "'  →  "@ + path,
            status_ok: true,
            ..self
        }
    }
}

impl BlockEditor {
    /// The table of definitions is in order.
    pub open spec fn wf(&self) -> bool {
        self.block_defs.wf()
    }

    /// An editor that knows no blocks yet.
    pub fn new(defaults: BlockDefaults) -> (r: BlockEditor)
        ensures
            r.wf(),
            r@ == (EditorModel {
                visible: false,
                order: Seq::empty(),
                defs: Map::empty(),
                selected: None,
                def: fresh_def("new_block"@, defaults),
                key: Seq::empty(),
                is_new: false,
                dirty: false,
                search: Seq::empty(),
                tab: EditorTab::Basic,
                status: Seq::empty(),
                status_ok: true,
                dialog: DialogModel {
                    open: false,
                    id: Seq::empty(),
                    name: Seq::empty(),
                    err: Seq::empty(),
                },
                defaults,
            }),
    {
        let r: BlockEditor = BlockEditor {
            visible: false,
            registry_order: Vec::new(),
            block_defs: Table::new(),
            selected_key: None,
            edit_def: default_block_def("new_block", &defaults),
            edit_key: String::new(),
            is_new: false,
            dirty: false,
            search: String::new(),
            active_tab: EditorTab::Basic,
            status_msg: String::new(),
            status_ok: true,
            new_dlg: NewBlockDialog::new(),
            defaults,
        };
        assert(r@.order =~= Seq::<Seq<char>>::empty());
        assert(r@.defs =~= Map::<Seq<char>, BlockDefModel>::empty());
        r
    }

    /// Starts loading a registry, given by its text where there is one: forgets
    /// all blocks and takes the keys down. Their definitions are to be loaded
    /// then, in this order.
    pub fn reload_registry(&mut self, content: Option<&str>) -> (r: Vec<String>)
        requires
            old(self).wf(),
        ensures
            final(self).wf(),
            texts(r@) == final(self)@.order,
            final(self)@ == (EditorModel {
                order: match content {
                    Some(t) => json::keys_in(json::listed_strings(t@, "blocks"@)),
                    None => Seq::empty(),
                },
                defs: Map::empty(),
                ..old(self)@
            }),
    {
        self.block_defs = Table::new();
        assert(self@.defs =~= Map::<Seq<char>, BlockDefModel>::empty());
        match content {
            Some(t) => {
                self.registry_order = json::registry_keys(t);
            },
            None => {
                self.registry_order = Vec::new();
                assert(self@.order =~= Seq::<Seq<char>>::empty());
            },
        }
        clone_texts(&self.registry_order)
    }

    /// Takes the definition of a block in.
    pub fn load_block_def(&mut self, key: String, def: BlockDefinition)
        requires
            old(self).wf(),
        ensures
            final(self).wf(),
            final(self)@ == (EditorModel {
                defs: old(self)@.defs.insert(key@, def@),
                ..old(self)@
            }),
    {
        self.block_defs.insert(key, def);
        assert(self@.defs =~= old(self)@.defs.insert(key@, def@));
    }

    /// Starts editing a block of the list.
    pub fn select_block(&mut self, key: &String)
        requires
            old(self).wf(),
        ensures
            final(self).wf(),
            final(self)@ == old(self)@.after_select(key@),
    {
        match self.block_defs.get(key) {
            Some(def) => {
                self.edit_def = def.clone();
                self.edit_key = key.clone();
                self.selected_key = Some(key.clone());
                self.is_new = false;
                self.dirty = false;
                self.status_msg = String::new();
            },
            None => {},
        }
    }

    /// The rows of the list that the search lets through.
    pub fn visible_rows(&self) -> (r: Vec<BlockRow>)
        requires
            self.wf(),
        ensures
            r@.len() == self@.found(self@.order.len() as int).len(),
            forall|j: int|
                #![trigger r@[j]]
                0 <= j < r@.len() ==> self@.is_row(
                    r@[j],
                    self@.found(self@.order.len() as int)[j],
                ),
    {
        let query: String = text::lower(self.search.as_str());
        let all: bool = text::same_text(query.as_str(), "");
        proof {
            reveal_strlit("");
            assert(query@.len() == 0 ==> query@ =~= ""@);
        }
        let mut r: Vec<BlockRow> = Vec::new();
        let mut i: usize = 0;
        let ghost m = self@;
        while i < self.registry_order.len()
            invariant
                i <= self.registry_order@.len(),
                self.wf(),
                m == self@,
                query@ == text::lowercase(m.search),
                all == (query@.len() == 0),
                r@.len() == m.found(i as int).len(),
                forall|j: int|
                    #![trigger r@[j]]
                    0 <= j < r@.len() ==> m.is_row(r@[j], m.found(i as int)[j]),
            decreases self.registry_order@.len() - i,
        {
            let key: &String = &self.registry_order[i];
            assert(m.order[i as int] == key@);
            let def: Option<&BlockDefinition> = self.block_defs.get(key);
            let found: bool = all || text::contains_lowercased(key.as_str(), query.as_str())
                || match def {
                Some(d) => text::contains_lowercased(d.display_name.as_str(), query.as_str()),
                None => false,
            };
            assert(found == m.is_found(key@));
            if found {
                let ghost before = r@;
                let selected: bool = match &self.selected_key {
                    Some(k) => *k == *key,
                    None => false,
                };
                let row: BlockRow = match def {
                    Some(d) => BlockRow {
                        index: i,
                        key: key.clone(),
                        display: d.display_name.clone(),
                        selected,
                        color: Some(d.color),
                    },
                    None => BlockRow {
                        index: i,
                        key: key.clone(),
                        display: key.clone(),
                        selected,
                        color: None,
                    },
                };
                assert(m.is_row(row, i as int));
                r.push(row);
                assert forall|j: int| #![trigger r@[j]] 0 <= j < r@.len() implies m.is_row(
                    r@[j],
                    m.found(i as int + 1)[j],
                ) by {
                    if j < before.len() {
                        assert(r@[j] == before[j]);
                        assert(m.is_row(before[j], m.found(i as int)[j]));
                    }
                }
            }
            i += 1;
        }
        r
    }

    /// Number of blocks in the registry.
    pub fn registered(&self) -> (r: usize)
        ensures
            r as int == self@.order.len(),
    {
        self.registry_order.len()
    }

    /// Key and number of the edited block, as they are shown.
    pub fn caption(&self) -> (r: String)
        ensures
            r@ == self@.key + "  |  #"@ + number_text(self@.order, self@.key),
    {
        let n: String = number_label(&self.registry_order, &self.edit_key);
        text::joined3(self.edit_key.as_str(), "  |  #", n.as_str())
    }

    /// The tags of the edited block that are shown, in order. Whether it is a
    /// fluid is told by the caller.
    pub fn tags(&self, is_fluid: bool) -> (r: Vec<&'static str>)
        ensures
            r@.map_values(|s: &str| s@) == tag_names(
                self@.def.solid,
                is_fluid,
                self@.def.emission.emit_light,
                self@.def.biome_tint,
            ),
    {
        let mut r: Vec<&'static str> = Vec::new();
        if self.edit_def.solid {
            r.push("Solid");
        }
        if is_fluid {
            r.push("Fluid");
        }
        if self.edit_def.emission.emit_light {
            r.push("Emits Light");
        }
        if self.edit_def.biome_tint {
            r.push("Biome Tint");
        }
        assert(r@.map_values(|s: &str| s@) =~= tag_names(
            self@.def.solid,
            is_fluid,
            self@.def.emission.emit_light,
            self@.def.biome_tint,
        ));
        r
    }

    /// Whether something is being edited; saving is offered then.
    pub fn is_editing(&self) -> (r: bool)
        ensures
            r == self@.editing(),
    {
        self.selected_key.is_some() || self.is_new
    }

    /// Whether duplicating is offered: for a block of the list only.
    pub fn can_duplicate(&self) -> (r: bool)
        ensures
            r == (self@.selected is Some && !self@.is_new),
    {
        self.selected_key.is_some() && !self.is_new
    }

    /// Whether there are changes that are not saved.
    pub fn is_dirty(&self) -> (r: bool)
        ensures
            r == self@.dirty,
    {
        self.dirty
    }

    /// The message of the status line, and whether it is good news.
    pub fn status(&self) -> (r: (&str, bool))
        ensures
            r.0@ == self@.status,
            r.1 == self@.status_ok,
    {
        (self.status_msg.as_str(), self.status_ok)
    }

    /// The block being edited.
    pub fn edited_def(&self) -> (r: &BlockDefinition)
        ensures
            r@ == self@.def,
    {
        &self.edit_def
    }

    /// The key under which the edited block is saved.
    pub fn edited_key(&self) -> (r: &str)
        ensures
            r@ == self@.key,
    {
        self.edit_key.as_str()
    }

    /// The keys of the registry, in order.
    pub fn registry_keys(&self) -> (r: Vec<String>)
        ensures
            texts(r@) == self@.order,
    {
        clone_texts(&self.registry_order)
    }

    /// Sets the search text.
    pub fn set_search(&mut self, query: String)
        requires
            old(self).wf(),
        ensures
            final(self).wf(),
            final(self)@ == (EditorModel { search: query@, ..old(self)@ }),
    {
        self.search = query;
    }

    /// The search text.
    pub fn search(&self) -> (r: &str)
        ensures
            r@ == self@.search,
    {
        self.search.as_str()
    }

    /// Turns to a page of the inspector.
    pub fn select_tab(&mut self, tab: EditorTab)
        requires
            old(self).wf(),
        ensures
            final(self).wf(),
            final(self)@ == (EditorModel { tab, ..old(self)@ }),
    {
        self.active_tab = tab;
    }

    /// The page of the inspector.
    pub fn tab(&self) -> (r: EditorTab)
        ensures
            r == self@.tab,
    {
        self.active_tab
    }

    /// Carries a change of the inspector out. The key of a new block follows
    /// its id.
    pub fn edit(&mut self, e: BlockEdit)
        requires
            old(self).wf(),
        ensures
            final(self).wf(),
            final(self)@ == old(self)@.after_edit(e),
    {
        match &e {
            BlockEdit::Id(s) => {
                if self.is_new && *s != self.edit_def.id {
                    self.edit_key = s.clone();
                }
            },
            _ => {},
        }
        self.edit_def.apply(e, &self.defaults);
        self.dirty = true;
    }

    /// Opens the dialog for a new block.
    pub fn open_dialog(&mut self)
        requires
            old(self).wf(),
        ensures
            final(self).wf(),
            final(self)@ == (EditorModel {
                dialog: DialogModel {
                    open: true,
                    id: Seq::empty(),
                    name: Seq::empty(),
                    err: Seq::empty(),
                },
                ..old(self)@
            }),
    {
        self.new_dlg.open();
    }

    /// Closes the dialog.
    pub fn cancel_dialog(&mut self)
        requires
            old(self).wf(),
        ensures
            final(self).wf(),
            final(self)@ == (EditorModel {
                dialog: DialogModel { open: false, ..old(self)@.dialog },
                ..old(self)@
            }),
    {
        self.new_dlg.open = false;
    }

    /// Fills the fields of the dialog in.
    pub fn fill_dialog(&mut self, id: String, name: String)
        requires
            old(self).wf(),
        ensures
            final(self).wf(),
            final(self)@ == (EditorModel {
                dialog: DialogModel { id: id@, name: name@, ..old(self)@.dialog },
                ..old(self)@
            }),
    {
        self.new_dlg.id = id;
        self.new_dlg.name = name;
    }

    /// The dialog.
    pub fn dialog(&self) -> (r: &NewBlockDialog)
        ensures
            r@ == self@.dialog,
    {
        &self.new_dlg
    }

    /// Confirms the dialog: starts a new block, or says in the dialog why not.
    pub fn create_block(&mut self)
        requires
            old(self).wf(),
        ensures
            final(self).wf(),
            final(self)@ == old(self)@.after_create(),
    {
        let id: String = text::trim(self.new_dlg.id.as_str());
        let name: String = text::trim(self.new_dlg.name.as_str());
        let no_id: bool = text::same_text(id.as_str(), "");
        let no_name: bool = text::same_text(name.as_str(), "");
        proof {
            reveal_strlit("");
            assert(id@.len() == 0 ==> id@ =~= ""@);
            assert(name@.len() == 0 ==> name@ =~= ""@);
        }
        if no_id {
            self.new_dlg.err = "ID cannot be empty.".to_string();
        } else if lists_key(&self.registry_order, &id) {
            self.new_dlg.err = text::joined3("Block '", id.as_str(), "' already exists.");
        } else {
            let mut def: BlockDefinition = default_block_def(id.as_str(), &self.defaults);
            if !no_name {
                def.display_name = name;
            }
            self.edit_def = def;
            self.status_msg = text::joined3(
                "New block '",
                id.as_str(),
                "' ready — fill in properties and Save.",
            );
            self.status_ok = true;
            self.edit_key = id;
            self.selected_key = None;
            self.is_new = true;
            self.dirty = true;
            self.active_tab = EditorTab::Basic;
            self.new_dlg.open = false;
        }
    }

    /// Starts a new block from a copy of the edited one.
    pub fn duplicate_current(&mut self)
        requires
            old(self).wf(),
        ensures
            final(self).wf(),
            final(self)@ == old(self)@.after_duplicate(),
    {
        let id: String = text::joined(self.edit_def.id.as_str(), "_copy");
        self.edit_def.display_name = text::joined(self.edit_def.display_name.as_str(), " Copy");
        self.edit_def.id = id.clone();
        self.status_msg = text::joined3("Duplicated as '", id.as_str(), "' — edit and Save.");
        self.edit_key = id;
        self.selected_key = None;
        self.is_new = true;
        self.dirty = true;
        self.status_ok = true;
    }

    /// Whether saving can begin: not without a key, which the status line then
    /// says.
    pub fn begin_save(&mut self) -> (r: bool)
        requires
            old(self).wf(),
        ensures
            final(self).wf(),
            r == (old(self)@.key.len() > 0),
            final(self)@ == (if r {
                old(self)@
            } else {
                EditorModel {
                    status: "No block key set — enter an ID in the Basic tab first."@,
                    status_ok: false,
                    ..old(self)@
                }
            }),
    {
        let empty: bool = text::same_text(self.edit_key.as_str(), "");
        proof {
            reveal_strlit("");
            assert(self.edit_key@.len() == 0 ==> self.edit_key@ =~= ""@);
        }
        if empty {
            self.status_msg =
            "No block key set — enter an ID in the Basic tab first.".to_string();
            self.status_ok = false;
        }
        !empty
    }

    /// Takes down that saving failed, and why.
    pub fn fail_save(&mut self, stage: SaveStage, reason: &str)
        requires
            old(self).wf(),
        ensures
            final(self).wf(),
            final(self)@ == old(self)@.after_failure(stage, reason@),
    {
        self.status_msg = text::joined(stage.prefix_text(), reason);
        self.status_ok = false;
    }

    /// Takes down that the file of the block was written. Says whether the
    /// registry has to be written too, which is so for a new block.
    pub fn block_written(&mut self) -> (r: bool)
        requires
            old(self).wf(),
        ensures
            final(self).wf(),
            r == old(self)@.is_new,
            final(self)@ == old(self)@.after_written(),
    {
        if self.is_new {
            if !lists_key(&self.registry_order, &self.edit_key) {
                self.registry_order.push(self.edit_key.clone());
                assert(self@.order =~= old(self)@.order.push(self.edit_key@));
            }
            true
        } else {
            false
        }
    }

    /// The text of the registry that is to be written.
    pub fn save_registry(&self, older: Option<&str>) -> (r: String)
        ensures
            r@ == json::object_text(
                json::registry_members(
                    match older {
                        Some(t) => Some(t@),
                        None => None,
                    },
                    self@.order,
                ),
            ),
            json::keys_in(json::listed_strings(r@, "blocks"@)) == self@.order,
    {
        json::registry_document(older, &self.registry_order)
    }

    /// Takes down that saving succeeded. `path` is the file's path as it is
    /// shown.
    pub fn finish_save(&mut self, path: &str)
        requires
            old(self).wf(),
        ensures
            final(self).wf(),
            final(self)@ == old(self)@.after_saved(path@),
    {
        let def: BlockDefinition = self.edit_def.clone();
        let ghost d = def@;
        self.block_defs.insert(self.edit_key.clone(), def);
        assert(self@.defs =~= old(self)@.defs.insert(self.edit_key@, d));
        self.selected_key = Some(self.edit_key.clone());
        self.is_new = false;
        self.dirty = false;
        let head: String = text::joined3("Saved '", self.edit_key.as_str(), "'  →  ");
        self.status_msg = text::joined(head.as_str(), path);
        self.status_ok = true;
    }
}

/// A copy of a list of texts.
pub fn clone_texts(v: &Vec<String>) -> (r: Vec<String>)
    ensures
        texts(r@) == texts(v@),
{
    let mut r: Vec<String> = Vec::new();
    let mut i: usize = 0;
    while i < v.len()
        invariant
            i <= v@.len(),
            r@ == v@.take(i as int),
        decreases v@.len() - i,
    {
        r.push(v[i].clone());
        assert(v@.take(i as int + 1) =~= v@.take(i as int).push(v@[i as int]));
        i += 1;
    }
    assert(v@.take(v@.len() as int) =~= v@);
    r
}

/// The names of the tags that hold of a block.
pub open spec fn tag_names(solid: bool, fluid: bool, emits: bool, tinted: bool) -> Seq<Seq<char>> {
    (if solid {
        seq!["Solid"@]
    } else {
        seq![]
    }) + (if fluid {
        seq!["Fluid"@]
    } else {
        seq![]
    }) + (if emits {
        seq!["Emits Light"@]
    } else {
        seq![]
    }) + (if tinted {
        seq!["Biome Tint"@]
    } else {
        seq![]
    })
}

/// The heading of a light in the list of lights.
pub open spec fn light_heading(number: nat, label: Seq<char>, kind: LightKind) -> Seq<char> {
    let k = match kind {
        LightKind::Point => "Point"@,
        LightKind::Directional => "Directional"@,
    };
    if label.len() == 0 {
        "Light #"@ + text::decimal(number) + " ("@ + k + ")"@
    } else {
        "#"@ + text::decimal(number) + " '"@ + label + "' ("@ + k + ")"@
    }
}

/// The heading of the light at place `i`.
pub fn light_header(i: usize, label: &str, kind: LightKind) -> (r: String)
    requires
        i < usize::MAX,
    ensures
        r@ == light_heading((i + 1) as nat, label@, kind),
{
    let k: &str = match kind {
        LightKind::Point => "Point",
        LightKind::Directional => "Directional",
    };
    let n: String = text::decimal_text(i as u64 + 1);
    let empty: bool = text::same_text(label, "");
    proof {
        reveal_strlit("");
        assert(label@.len() == 0 ==> label@ =~= ""@);
    }
    let mut s: String = String::new();
    if empty {
        s.append("Light #");
        s.append(n.as_str());
        s.append(" (");
        s.append(k);
        s.append(")");
    } else {
        s.append("#");
        s.append(n.as_str());
        s.append(" '");
        s.append(label);
        s.append("' (");
        s.append(k);
        s.append(")");
    }
    assert(s@ =~= light_heading((i + 1) as nat, label@, kind));
    s
}

/// Whether lights have no colour in a lighting mode.
pub open spec fn is_mono(gi_mode: u32) -> bool {
    gi_mode == 1 || gi_mode == 2
}

/// How far light may reach in a lighting mode, in blocks, where `free` is the
/// reach without a limit of the mode.
pub open spec fn range_cap(gi_mode: u32, free: u32) -> u32 {
    if gi_mode == 1 {
        16
    } else if gi_mode == 2 || gi_mode == 3 {
        32
    } else {
        free
    }
}

/// Whether lights have no colour in a lighting mode; editing it is off then.
pub fn mono_mode(gi_mode: u32) -> (r: bool)
    ensures
        r == is_mono(gi_mode),
{
    gi_mode == 1 || gi_mode == 2
}

fn capped_range(gi_mode: u32, free: u32) -> (r: u32)
    ensures
        r == range_cap(gi_mode, free),
{
    if gi_mode == 1 {
        16
    } else if gi_mode == 2 || gi_mode == 3 {
        32
    } else {
        free
    }
}

/// The largest reach that a block's emission may be given.
pub fn emission_range_cap(gi_mode: u32) -> (r: u32)
    ensures
        r == range_cap(gi_mode, 128),
{
    capped_range(gi_mode, 128)
}

/// The largest reach that a block's point light may be given.
pub fn light_range_cap(gi_mode: u32) -> (r: u32)
    ensures
        r == range_cap(gi_mode, 64),
{
    capped_range(gi_mode, 64)
}

/// The notice of a mode without colour.
pub fn mono_notice(gi_mode: u32, cap: u32) -> (r: Option<String>)
    ensures
        r is Some <==> is_mono(gi_mode),
        r matches Some(t) ==> t@ == "⚠ "@ + (if gi_mode == 1 {
            "Mono 16"@
        } else {
            "Mono 32"@
        }) + " mode active — color editing disabled, range capped to "@ + text::decimal(
            cap as nat,
        ) + " blocks."@,
{
    if !mono_mode(gi_mode) {
        return None;
    }
    let mut s: String = "⚠ ".to_string();
    s.append(
        if gi_mode == 1 {
            "Mono 16"
        } else {
            "Mono 32"
        },
    );
    s.append(" mode active — color editing disabled, range capped to ");
    let n: String = text::decimal_text(cap as u64);
    s.append(n.as_str());
    s.append(" blocks.");
    Some(s)
}

/// Whether the number with these bits is below a positive bound with those. A
/// value that is no number is below nothing.
pub open spec fn is_below(bits: u32, bound: u32) -> bool {
    if bits >= 0x8000_0000 {
        bits <= 0xff80_0000
    } else {
        bits < bound
    }
}

fn below(bits: u32, bound: u32) -> (r: bool)
    ensures
        r == is_below(bits, bound),
{
    if bits >= 0x8000_0000 {
        bits <= 0xff80_0000
    } else {
        bits < bound
    }
}

/// What a roughness is called: below three tenths, below six tenths, above.
pub fn roughness_label(roughness: u32) -> (r: &'static str)
    ensures
        r@ == if is_below(roughness, 0x3e99_999a) {
            "Mirror-like"@
        } else if is_below(roughness, 0x3f19_999a) {
            "Semi-gloss"@
        } else {
            "Matte"@
        },
{
    if below(roughness, 0x3e99_999a) {
        "Mirror-like"
    } else if below(roughness, 0x3f19_999a) {
        "Semi-gloss"
    } else {
        "Matte"
    }
}

/// What a metalness is called: below two tenths, below six tenths, above.
pub fn metalness_label(metalness: u32) -> (r: &'static str)
    ensures
        r@ == if is_below(metalness, 0x3e4c_cccd) {
            "Dielectric (stone/wood)"@
        } else if is_below(metalness, 0x3f19_999a) {
            "Mixed"@
        } else {
            "Metallic"@
        },
{
    if below(metalness, 0x3e4c_cccd) {
        "Dielectric (stone/wood)"
    } else if below(metalness, 0x3f19_999a) {
        "Mixed"
    } else {
        "Metallic"
    }
}

/// Selecting a block right after it was saved shows what was saved, with
/// nothing left to save.
pub proof fn law_saved_is_selected(m: EditorModel, path: Seq<char>)
    ensures
        m.after_saved(path).selected == Some(m.key),
        !m.after_saved(path).dirty,
        m.after_saved(path).after_select(m.key).def == m.def,
        m.after_saved(path).after_select(m.key).key == m.key,
{
}

/// The key of a new block is its id, however it is edited.
pub proof fn law_new_key_is_id(m: EditorModel, e: BlockEdit)
    ensures
        m.is_new && m.key == m.def.id ==> m.after_edit(e).key == m.after_edit(e).def.id,
        m.after_duplicate().key == m.after_duplicate().def.id,
        m.after_create().is_new && !m.is_new ==> m.after_create().key == m.after_create().def.id,
{
}

/// A block cannot be created under a key that is taken, nor without one.
pub proof fn law_create_needs_free_key(m: EditorModel)
    requires
        m.dialog.open,
    ensures
        m.after_create().dialog.open <==> text::trim_spec(m.dialog.id).len() == 0
            || m.order.contains(text::trim_spec(m.dialog.id)),
        m.after_create().dialog.open ==> m.after_create().def == m.def && m.after_create().key
            == m.key,
        m.after_create().order == m.order,
{
}

/// Saving puts a new block into the registry once, at its end, and keeps the
/// registry free of repetitions.
pub proof fn law_registry_stays_distinct(m: EditorModel)
    requires
        m.order.no_duplicates(),
    ensures
        m.after_written().order.no_duplicates(),
        m.is_new ==> m.after_written().order.contains(m.key),
        m.order.is_prefix_of(m.after_written().order),
{
    let o = m.after_written().order;
    if m.is_new && !m.order.contains(m.key) {
        assert(o == m.order.push(m.key));
        assert forall|i: int, j: int| 0 <= i < o.len() && 0 <= j < o.len() && i != j implies o[i]
            != o[j] by {
            if i == m.order.len() {
                assert(m.order.contains(m.order[j]));
            } else if j == m.order.len() {
                assert(m.order.contains(m.order[i]));
            }
        }
        assert(o[m.order.len() as int] == m.key);
    }
}

/// A new block has the id it was made with and a name that is the id with its
/// underscores as spaces. It is solid, grey, untinted and fixed, has no fluid, no
/// faces, no lights, no tab and no description, and the usual material and
/// emission.
pub proof fn law_fresh_block(id: Seq<char>, defaults: BlockDefaults, i: int)
    ensures
        ({
            let d = fresh_def(id, defaults);
            &&& d.id == id
            &&& d.display_name.len() == id.len()
            &&& 0 <= i < id.len() && id[i] == '_' ==> d.display_name[i] == ' '
            &&& 0 <= i < id.len() && id[i] != '_' ==> d.display_name[i] == id[i]
            &&& d.description.len() == 0
            &&& d.color@ == seq![0x3f00_0000u32, 0x3f00_0000u32, 0x3f00_0000u32]
            &&& d.texture is None && d.fluid is None && d.inventory_tab is None
            &&& d.solid && !d.biome_tint
            &&& d.placement_mode is Fixed && d.default_rotation == 0
            &&& d.material == defaults.material && d.emission == defaults.emission && d.rest
                == defaults.rest@
            &&& d.lights.len() == 0
            &&& d.faces.all is None && d.faces.top is None && d.faces.bottom is None
                && d.faces.sides is None && d.faces.north is None && d.faces.south is None
                && d.faces.east is None && d.faces.west is None
        }),
{
    assert(fresh_def(id, defaults).color@ =~= seq![0x3f00_0000u32, 0x3f00_0000u32, 0x3f00_0000u32]);
}

/// The position of a key is that of its first occurrence, and past the end
/// where it does not occur. The number shown for it counts from one, and a key that
/// is not listed is called new.
pub proof fn law_first_position(v: Seq<Seq<char>>, key: Seq<char>, j: int)
    ensures
        0 <= first_position(v, key) <= v.len(),
        first_position(v, key) < v.len() ==> v[first_position(v, key)] == key,
        0 <= j < v.len() && j < first_position(v, key) ==> v[j] != key,
        v.contains(key) <==> first_position(v, key) < v.len(),
        !v.contains(key) ==> number_text(v, key) == "NEW"@,
        0 <= j < v.len() && v[j] == key && (forall|k: int| #![trigger v[k]] 0 <= k < j ==> v[k] != key)
            ==> number_text(v, key) == text::decimal((j + 1) as nat),
    decreases v.len(),
{
    lemma_position_is_first(v, key);
    let p = first_position(v, key);
    if v.contains(key) {
        let k = choose|k: int| 0 <= k < v.len() && v[k] == key;
        assert(v[k] == key);
    }
    if 0 <= j < v.len() && v[j] == key && (forall|k: int|
        #![trigger v[k]]
        0 <= k < j ==> v[k] != key) {
        assert(p == j);
    }
}

proof fn lemma_position_is_first(v: Seq<Seq<char>>, key: Seq<char>)
    ensures
        0 <= first_position(v, key) <= v.len(),
        first_position(v, key) < v.len() ==> v[first_position(v, key)] == key,
        forall|j: int|
            #![trigger v[j]]
            0 <= j < v.len() && j < first_position(v, key) ==> v[j] != key,
    decreases v.len(),
{
    if v.len() > 0 && v[0] != key {
        lemma_position_is_first(v.drop_first(), key);
        assert forall|j: int|
            #![trigger v[j]]
            0 <= j < v.len() && j < first_position(v, key) implies v[j] != key by {
            if j > 0 {
                assert(v.drop_first()[j - 1] == v[j]);
            }
        }
    }
}

/// A search lists the positions of exactly those keys that it finds, each
/// once and in the order of the registry.
pub proof fn law_search_lists(m: EditorModel, n: int)
    requires
        0 <= n <= m.order.len(),
    ensures
        forall|i: int|
            #![trigger m.found(n).contains(i)]
            m.found(n).contains(i) <==> 0 <= i < n && m.is_found(m.order[i]),
        forall|a: int, b: int|
            #![trigger m.found(n)[a], m.found(n)[b]]
            0 <= a < b < m.found(n).len() ==> m.found(n)[a] < m.found(n)[b],
    decreases n,
{
    if n > 0 {
        law_search_lists(m, n - 1);
        let before = m.found(n - 1);
        assert forall|a: int| #![trigger before[a]] 0 <= a < before.len() implies 0 <= before[a] < n
            - 1 by {
            assert(before.contains(before[a]));
        }
        if m.is_found(m.order[n - 1]) {
            assert forall|i: int|
                #![trigger m.found(n).contains(i)]
                m.found(n).contains(i) <==> 0 <= i < n && m.is_found(m.order[i]) by {
                if m.found(n).contains(i) && i != n - 1 {
                    let a = choose|a: int| 0 <= a < m.found(n).len() && m.found(n)[a] == i;
                    assert(before[a] == i);
                    assert(before.contains(i));
                }
                if i == n - 1 {
                    assert(m.found(n)[before.len() as int] == i);
                }
                if before.contains(i) {
                    let a = choose|a: int| 0 <= a < before.len() && before[a] == i;
                    assert(m.found(n)[a] == i);
                }
            }
        }
    }
}

/// An empty search finds every key; any other finds a key that holds what is
/// searched for, or whose block's name does, without regard to case.
pub proof fn law_search_finds(m: EditorModel, key: Seq<char>, a: Seq<char>, b: Seq<char>)
    ensures
        text::lowercase(m.search).len() == 0 ==> m.is_found(key),
        text::lowercase(key) == a + text::lowercase(m.search) + b ==> m.is_found(key),
        m.defs.dom().contains(key) && text::lowercase(m.defs[key].display_name) == a
            + text::lowercase(m.search) + b ==> m.is_found(key),
        m.is_found(key) ==> text::is_substring(text::lowercase(m.search), text::lowercase(key))
            || m.defs.dom().contains(key) && text::is_substring(
            text::lowercase(m.search),
            text::lowercase(m.defs[key].display_name),
        ),
{
    let q = text::lowercase(m.search);
    text::law_substring(q, text::lowercase(key), a, b);
    text::law_substring(q, text::lowercase(m.defs[key].display_name), a, b);
    if q.len() == 0 {
        assert(q =~= Seq::empty());
    }
}

/// A row shows a place of the registry with its key: the block's name and
/// colour where the block could be read, else the key and no colour. The row of the
/// selected key is marked.
pub proof fn law_row(m: EditorModel, row: BlockRow, i: int)
    requires
        m.is_row(row, i),
    ensures
        row.index == i,
        row.key@ == m.order[i],
        m.defs.dom().contains(row.key@) ==> row.display@ == m.defs[row.key@].display_name
            && row.color == Some(m.defs[row.key@].color),
        !m.defs.dom().contains(row.key@) ==> row.display@ == row.key@ && row.color is None,
        row.selected <==> m.selected == Some(row.key@),
{
}

/// Selecting a block that could be read starts editing it as it is stored,
/// unchanged and with no message; any other key changes nothing. All that is not
/// about the block that is edited stays.
pub proof fn law_select(m: EditorModel, key: Seq<char>)
    ensures
        ({
            let r = m.after_select(key);
            &&& !m.defs.dom().contains(key) ==> r == m
            &&& m.defs.dom().contains(key) ==> r.def == m.defs[key] && r.key == key && r.selected
                == Some(key) && !r.is_new && !r.dirty && r.status.len() == 0
            &&& r == (EditorModel {
                def: r.def,
                key: r.key,
                selected: r.selected,
                is_new: r.is_new,
                dirty: r.dirty,
                status: r.status,
                ..m
            })
            &&& r.editing() <==> m.defs.dom().contains(key) || m.editing()
            &&& m.editing() <==> m.selected is Some || m.is_new
        }),
{
}

/// An edit changes the block that is edited and marks it as changed. The key
/// follows a new id only while the block is new, and nothing else changes.
pub proof fn law_edit(m: EditorModel, e: BlockEdit)
    ensures
        ({
            let r = m.after_edit(e);
            &&& r.dirty
            &&& r.def == m.def.edited(e, m.defaults)
            &&& r == (EditorModel { def: r.def, key: r.key, dirty: true, ..m })
            &&& !m.is_new || !(e is Id) ==> r.key == m.key
            &&& m.is_new && e is Id ==> r.key == if e->Id_0@ == m.def.id {
                m.key
            } else {
                r.def.id
            }
        }),
{
}

/// Making a block needs an id, one that is not taken; else the dialog stays
/// open and says why, and nothing else changes. A block that is made is new and
/// unsaved, is not selected, is shown on the first tab, and has the name given, or one
/// made of its id where none is given.
pub proof fn law_create(m: EditorModel)
    ensures
        ({
            let id = text::trim_spec(m.dialog.id);
            let name = text::trim_spec(m.dialog.name);
            let r = m.after_create();
            let refused = EditorModel {
                dialog: DialogModel { err: r.dialog.err, ..m.dialog },
                ..m
            };
            &&& id.len() == 0 ==> r == refused && r.dialog.err == "ID cannot be empty."@
            &&& id.len() > 0 && m.order.contains(id) ==> r == refused && r.dialog.err == "Block '"@
                + id + "' already exists."@
            &&& id.len() > 0 && !m.order.contains(id) ==> {
                let plain = fresh_def(id, m.defaults);
                &&& r.key == id && r.selected is None && r.is_new && r.dirty
                &&& r.tab == EditorTab::Basic
                &&& r.dialog == (DialogModel { open: false, ..m.dialog })
                &&& r.def == (BlockDefModel { display_name: r.def.display_name, ..plain })
                &&& r.def.display_name == if name.len() == 0 { plain.display_name } else { name }
                &&& r.status_ok
                &&& r.status == "New block '"@ + id + "' ready — fill in properties and Save."@
                &&& r == (EditorModel {
                    def: r.def,
                    key: r.key,
                    selected: None,
                    is_new: true,
                    dirty: true,
                    tab: r.tab,
                    dialog: r.dialog,
                    status: r.status,
                    status_ok: true,
                    ..m
                })
            }
        }),
{
}

/// A copy is a new, unsaved block that is the edited one but for its id, which
/// ends in `_copy`, and its name, which ends in ` Copy`.
pub proof fn law_duplicate(m: EditorModel)
    ensures
        ({
            let r = m.after_duplicate();
            &&& r.def == (BlockDefModel {
                id: r.def.id,
                display_name: r.def.display_name,
                ..m.def
            })
            &&& r.def.id == m.def.id + "_copy"@
            &&& r.def.display_name == m.def.display_name + " Copy"@
            &&& r.key == r.def.id && r.selected is None && r.is_new && r.dirty && r.status_ok
            &&& r.status == "Duplicated as '"@ + r.key + "' — edit and Save."@
            &&& r == (EditorModel {
                def: r.def,
                key: r.key,
                selected: None,
                is_new: true,
                dirty: true,
                status: r.status,
                status_ok: true,
                ..m
            })
        }),
{
}

/// A save that fails only leaves a message, led by what failed.
pub proof fn law_failed_save(m: EditorModel, reason: Seq<char>, stage: SaveStage)
    ensures
        m.after_failure(stage, reason) == (EditorModel {
            status: m.after_failure(stage, reason).status,
            status_ok: false,
            ..m
        }),
        m.after_failure(SaveStage::Serialize, reason).status == "Serialization error: "@ + reason,
        m.after_failure(SaveStage::Stringify, reason).status == "JSON stringify error: "@ + reason,
        m.after_failure(SaveStage::CreateDir, reason).status == "Failed to create dir: "@ + reason,
        m.after_failure(SaveStage::Write, reason).status == "Write error: "@ + reason,
        m.after_failure(SaveStage::Registry, reason).status
            == "Saved block JSON but registry update failed: "@ + reason,
{
}

/// A new block that is written is listed at the end of the registry, once;
/// one that is listed already, or is not new, leaves it. A block that is saved
/// is stored under its key as it was edited, is selected and no longer new or
/// changed, and every other block stays.
pub proof fn law_save(m: EditorModel, path: Seq<char>, other: Seq<char>)
    ensures
        m.is_new && !m.order.contains(m.key) ==> m.after_written().order == m.order.push(m.key),
        !m.is_new || m.order.contains(m.key) ==> m.after_written().order == m.order,
        m.after_written() == (EditorModel { order: m.after_written().order, ..m }),
        ({
            let r = m.after_saved(path);
            &&& r.defs.dom().contains(m.key) && r.defs[m.key] == m.def
            &&& other != m.key ==> (r.defs.dom().contains(other) <==> m.defs.dom().contains(other))
                && r.defs[other] == m.defs[other]
            &&& r.selected == Some(m.key) && !r.is_new && !r.dirty && r.status_ok
            &&& r.status == "Saved '"@ + m.key + "'  →  "@ + path
            &&& r == (EditorModel {
                defs: r.defs,
                selected: r.selected,
                is_new: false,
                dirty: false,
                status: r.status,
                status_ok: true,
                ..m
            })
        }),
{
}

/// The tags of a block: each shows exactly where its property holds, at most
/// once, and always in the same order.
pub proof fn law_tags(solid: bool, fluid: bool, emits: bool, tinted: bool)
    ensures
        ({
            let t = tag_names(solid, fluid, emits, tinted);
            let all = tag_names(true, true, true, true);
            &&& all == seq!["Solid"@, "Fluid"@, "Emits Light"@, "Biome Tint"@]
            &&& t.contains("Solid"@) <==> solid
            &&& t.contains("Fluid"@) <==> fluid
            &&& t.contains("Emits Light"@) <==> emits
            &&& t.contains("Biome Tint"@) <==> tinted
            &&& t.len() == (if solid { 1int } else { 0 }) + (if fluid { 1int } else { 0 }) + (
            if emits { 1int } else { 0 }) + (if tinted { 1int } else { 0 })
            &&& solid ==> t[0] == "Solid"@
            &&& fluid ==> t[if solid { 1int } else { 0 }] == "Fluid"@
            &&& tinted ==> t.last() == "Biome Tint"@
        }),
{
    reveal_strlit("Solid");
    reveal_strlit("Fluid");
    reveal_strlit("Emits Light");
    reveal_strlit("Biome Tint");
    let t = tag_names(solid, fluid, emits, tinted);
    assert("Solid"@[0] != "Fluid"@[0]);
    assert("Solid"@.len() == 5 && "Fluid"@.len() == 5);
    assert("Emits Light"@.len() == 11 && "Biome Tint"@.len() == 10);
    assert(tag_names(true, true, true, true) =~= seq![
        "Solid"@,
        "Fluid"@,
        "Emits Light"@,
        "Biome Tint"@,
    ]);
    if solid {
        assert(t[0] == "Solid"@);
    }
    let f = if solid { 1int } else { 0 };
    if fluid {
        assert(t[f] == "Fluid"@);
    }
    let e = f + if fluid { 1int } else { 0 };
    if emits {
        assert(t[e] == "Emits Light"@);
    }
    let b = e + if emits { 1int } else { 0 };
    if tinted {
        assert(t[b] == "Biome Tint"@);
    }
}

/// The heading of a light names its number and its kind, and its label where
/// it has one.
pub proof fn law_light_heading(number: nat, label: Seq<char>)
    ensures
        label.len() == 0 ==> light_heading(number, label, LightKind::Point) == "Light #"@
            + text::decimal(number) + " ("@ + "Point"@ + ")"@,
        label.len() == 0 ==> light_heading(number, label, LightKind::Directional) == "Light #"@
            + text::decimal(number) + " ("@ + "Directional"@ + ")"@,
        label.len() > 0 ==> light_heading(number, label, LightKind::Point) == "#"@ + text::decimal(
            number,
        ) + " '"@ + label + "' ("@ + "Point"@ + ")"@,
        label.len() > 0 ==> light_heading(number, label, LightKind::Directional) == "#"@
            + text::decimal(number) + " '"@ + label + "' ("@ + "Directional"@ + ")"@,
{
}

/// The two modes of light without colour are 1 and 2. Mode 1 reaches 16
/// blocks, modes 2 and 3 reach 32, and the others as far as the setting is free
/// to go; so no mode without colour reaches farther than 32.
pub proof fn law_light_modes(gi_mode: u32, free: u32)
    ensures
        is_mono(gi_mode) <==> 1 <= gi_mode <= 2,
        gi_mode == 1 ==> range_cap(gi_mode, free) == 16,
        2 <= gi_mode <= 3 ==> range_cap(gi_mode, free) == 32,
        gi_mode == 0 || gi_mode > 3 ==> range_cap(gi_mode, free) == free,
{
}

/// The bits of a number that is not negative order as the numbers do, every
/// negative number is below every bound, and what is no number is below none.
pub proof fn law_below(a: u32, b: u32, bound: u32)
    requires
        0 < bound <= 0x7f80_0000,
    ensures
        a < b < 0x8000_0000 && is_below(b, bound) ==> is_below(a, bound),
        !is_below(bound, bound),
        is_below((bound - 1) as u32, bound),
        0x8000_0000 <= a <= 0xff80_0000 ==> is_below(a, bound),
        a > 0xff80_0000 || 0x7f80_0000 < a < 0x8000_0000 ==> !is_below(a, bound),
{
}

/// The names of the tabs are all different and say what they show.
pub proof fn law_tab_names(a: EditorTab, b: EditorTab)
    ensures
        a != b ==> a.name() != b.name(),
        EditorTab::Basic.name() == "Basic"@,
        EditorTab::Material.name() == "Material"@,
        EditorTab::Emission.name() == "Emission"@,
        EditorTab::Faces.name() == "Faces"@,
        EditorTab::Fluid.name() == "Fluid"@,
        EditorTab::Lights.name() == "Lights"@,
{
    reveal_strlit("Basic");
    reveal_strlit("Material");
    reveal_strlit("Emission");
    reveal_strlit("Faces");
    reveal_strlit("Fluid");
    reveal_strlit("Lights");
    assert("Basic"@.len() == 5 && "Faces"@.len() == 5 && "Fluid"@.len() == 5);
    assert("Material"@.len() == 8 && "Emission"@.len() == 8 && "Lights"@.len() == 6);
    assert("Basic"@[0] == 'B' && "Faces"@[0] == 'F' && "Fluid"@[0] == 'F');
    assert("Faces"@[1] == 'a' && "Fluid"@[1] == 'l');
    assert("Material"@[0] == 'M' && "Emission"@[0] == 'E');
}

/// What is seen of an editor is what it holds.
pub proof fn law_editor_view(e: BlockEditor, key: Seq<char>, i: int)
    ensures
        e@.visible == e.visible && e@.is_new == e.is_new && e@.dirty == e.dirty && e@.tab
            == e.active_tab && e@.status_ok == e.status_ok && e@.defaults == e.defaults,
        e@.order.len() == e.registry_order@.len(),
        0 <= i < e.registry_order@.len() ==> e@.order[i] == e.registry_order@[i]@,
        e@.defs.dom().contains(key) <==> e.block_defs@.dom().contains(key),
        e.block_defs@.dom().contains(key) ==> e@.defs[key] == e.block_defs@[key]@,
        e@.selected is Some <==> e.selected_key is Some,
        e.selected_key matches Some(k) ==> e@.selected == Some(k@),
        e@.def == e.edit_def@ && e@.key == e.edit_key@ && e@.search == e.search@ && e@.status
            == e.status_msg@,
        e@.dialog.open == e.new_dlg.open && e@.dialog.id == e.new_dlg.id@ && e@.dialog.name
            == e.new_dlg.name@ && e@.dialog.err == e.new_dlg.err@,
{
}

} // verus!
