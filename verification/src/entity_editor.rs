//! The editor of entity definitions and their lights.
use crate::block_definition::field_text;
use crate::block_definition::non_empty;
use crate::block_definition::LightKind;
use crate::block_editor;
use crate::block_editor::opt_text;
use crate::inventory::clone_opt_text;
use crate::inventory_ui;
use crate::inventory_ui::texts;
use crate::table::Table;
use crate::text;
use vstd::prelude::*;
use vstd::string::*;

verus! {

/// A page of the inspector.
#[derive(Debug, Clone, Copy, PartialEq, Eq, Structural)]
pub enum EditorTab {
    Basic,
    Lights,
}

impl EditorTab {
    /// The pages in the order of the tab bar.
    pub fn all() -> (r: Vec<EditorTab>)
        ensures
            r@ == seq![EditorTab::Basic, EditorTab::Lights],
    {
        let mut r: Vec<EditorTab> = Vec::new();
        r.push(EditorTab::Basic);
        r.push(EditorTab::Lights);
        r
    }

    /// The name of a page.
    pub fn label(self) -> (r: &'static str)
        ensures
            r@ == match self {
                EditorTab::Basic => "Basic"@,
                EditorTab::Lights => "Lights"@,
            },
    {
        match self {
            EditorTab::Basic => "Basic",
            EditorTab::Lights => "Lights",
        }
    }
}

/// The dialog for a new entity.
#[derive(Debug)]
pub struct NewEntityDialog {
    pub open: bool,
    pub id: String,
    pub name: String,
    pub err: String,
}

impl View for NewEntityDialog {
    type V = block_editor::DialogModel;

    open spec fn view(&self) -> block_editor::DialogModel {
        block_editor::DialogModel {
            open: self.open,
            id: self.id@,
            name: self.name@,
            err: self.err@,
        }
    }
}

/// A dialog with empty fields.
pub open spec fn blank_dialog(open: bool) -> block_editor::DialogModel {
    block_editor::DialogModel {
        open,
        id: Seq::empty(),
        name: Seq::empty(),
        err: Seq::empty(),
    }
}

impl NewEntityDialog {
    /// A closed dialog with empty fields.
    pub fn new() -> (r: NewEntityDialog)
        ensures
            r@ == blank_dialog(false),
    {
        NewEntityDialog {
            open: false,
            id: String::new(),
            name: String::new(),
            err: String::new(),
        }
    }

    /// Opens the dialog with empty fields.
    pub fn open(&mut self)
        ensures
            final(self)@ == blank_dialog(true),
    {
        self.id = String::new();
        self.name = String::new();
        self.err = String::new();
        self.open = true;
    }
}

/// A light of an entity. Numbers with a fraction are held as the bits of
/// single-precision numbers.
#[derive(Debug)]
pub struct EntityLightSource {
    pub label: String,
    /// The bone that carries the light; empty for the entity's origin.
    pub bone: String,
    pub kind: LightKind,
    pub position: [u32; 3],
    pub color: [u32; 3],
    pub intensity: u32,
    pub billboard_radius: u32,
    pub range: u32,
    pub direction: [u32; 3],
    pub focus: u32,
}

impl Clone for EntityLightSource {
    fn clone(&self) -> (r: EntityLightSource)
        ensures
            r == *self,
    {
        EntityLightSource {
            label: self.label.clone(),
            bone: self.bone.clone(),
            kind: self.kind,
            position: self.position,
            color: self.color,
            intensity: self.intensity,
            billboard_radius: self.billboard_radius,
            range: self.range,
            direction: self.direction,
            focus: self.focus,
        }
    }
}

/// The properties of a kind of entity.
#[derive(Debug)]
pub struct EntityDefinition {
    pub id: String,
    pub display_name: String,
    pub description: String,
    pub model_path: String,
    pub skin_path: Option<String>,
    pub default_scale: u32,
    pub light_sources: Vec<EntityLightSource>,
    /// The properties that the editor passes through, as one text.
    pub rest: String,
}

/// The properties of a kind of entity as a mathematical value.
#[verifier::ext_equal]
pub struct EntityDefModel {
    pub id: Seq<char>,
    pub display_name: Seq<char>,
    pub description: Seq<char>,
    pub model_path: Seq<char>,
    pub skin_path: Option<String>,
    pub default_scale: u32,
    pub lights: Seq<EntityLightSource>,
    pub rest: Seq<char>,
}

impl View for EntityDefinition {
    type V = EntityDefModel;

    open spec fn view(&self) -> EntityDefModel {
        EntityDefModel {
            id: self.id@,
            display_name: self.display_name@,
            description: self.description@,
            model_path: self.model_path@,
            skin_path: self.skin_path,
            default_scale: self.default_scale,
            lights: self.light_sources@,
            rest: self.rest@,
        }
    }
}

impl Clone for EntityDefinition {
    fn clone(&self) -> (r: EntityDefinition)
        ensures
            r@ == self@,
    {
        let mut lights: Vec<EntityLightSource> = Vec::new();
        let mut i: usize = 0;
        while i < self.light_sources.len()
            invariant
                i <= self.light_sources@.len(),
                lights@ == self.light_sources@.take(i as int),
            decreases self.light_sources@.len() - i,
        {
            lights.push(self.light_sources[i].clone());
            assert(self.light_sources@.take(i as int + 1) =~= self.light_sources@.take(
                i as int,
            ).push(self.light_sources@[i as int]));
            i += 1;
        }
        assert(self.light_sources@.take(self.light_sources@.len() as int)
            =~= self.light_sources@);
        EntityDefinition {
            id: self.id.clone(),
            display_name: self.display_name.clone(),
            description: self.description.clone(),
            model_path: self.model_path.clone(),
            skin_path: clone_opt_text(&self.skin_path),
            default_scale: self.default_scale,
            light_sources: lights,
            rest: self.rest.clone(),
        }
    }
}

/// A change that the inspector makes to an entity.
#[derive(Debug)]
pub enum EntityEdit {
    Id(String),
    DisplayName(String),
    Description(String),
    ModelPath(String),
    SkinPath(String),
    Scale(u32),
    AddLight(LightKind),
    RemoveLight(usize),
    Light(usize, EntityLightSource),
}

impl EntityDefModel {
    /// The entity after a change.
    pub open spec fn edited(self, e: EntityEdit, fresh: EntityLightSource) -> EntityDefModel {
        match e {
            EntityEdit::Id(s) => EntityDefModel { id: s@, ..self },
            EntityEdit::DisplayName(s) => EntityDefModel { display_name: s@, ..self },
            EntityEdit::Description(s) => EntityDefModel { description: s@, ..self },
            EntityEdit::ModelPath(s) => EntityDefModel { model_path: s@, ..self },
            EntityEdit::SkinPath(s) => EntityDefModel { skin_path: field_text(s), ..self },
            EntityEdit::Scale(n) => EntityDefModel { default_scale: n, ..self },
            EntityEdit::AddLight(kind) => EntityDefModel {
                lights: self.lights.push((EntityLightSource { kind: kind, ..fresh })),
                ..self
            },
            EntityEdit::RemoveLight(i) => if i < self.lights.len() {
                EntityDefModel { lights: self.lights.remove(i as int), ..self }
            } else {
                self
            },
            EntityEdit::Light(i, l) => if i < self.lights.len() {
                EntityDefModel { lights: self.lights.update(i as int, l), ..self }
            } else {
                self
            },
        }
    }
}

impl EntityDefinition {
    /// Carries a change of the inspector out. A change of a light that is not
    /// there is passed over.
    pub fn apply(&mut self, e: EntityEdit, fresh: &EntityLightSource)
        ensures
            final(self)@ == old(self)@.edited(e, *fresh),
    {
        match e {
            EntityEdit::Id(s) => {
                self.id = s;
            },
            EntityEdit::DisplayName(s) => {
                self.display_name = s;
            },
            EntityEdit::Description(s) => {
                self.description = s;
            },
            EntityEdit::ModelPath(s) => {
                self.model_path = s;
            },
            EntityEdit::SkinPath(s) => {
                self.skin_path = non_empty(s);
            },
            EntityEdit::Scale(n) => {
                self.default_scale = n;
            },
            EntityEdit::AddLight(kind) => {
                let mut l: EntityLightSource = fresh.clone();
                l.kind = kind;
                self.light_sources.push(l);
            },
            EntityEdit::RemoveLight(i) => {
                if i < self.light_sources.len() {
                    self.light_sources.remove(i);
                }
            },
            EntityEdit::Light(i, l) => {
                if i < self.light_sources.len() {
                    self.light_sources.set(i, l);
                }
            },
        }
    }
}

/// A row of the list of entities.
#[derive(Debug)]
pub struct EntityRow {
    /// Position in the registry, from zero.
    pub index: usize,
    pub key: String,
    pub display: String,
    pub selected: bool,
    pub has_lights: bool,
}

/// Where saving can fail.
#[derive(Debug, Clone, Copy, PartialEq, Eq, Structural)]
pub enum SaveStage {
    CreateDir,
    Write,
    Registry,
}

impl SaveStage {
    /// What a failure at this stage is reported as, before its reason.
    pub open spec fn prefix(self) -> Seq<char> {
        match self {
            SaveStage::CreateDir => "Cannot create directory: "@,
            SaveStage::Write => "Save failed: "@,
            SaveStage::Registry => "Registry save failed: "@,
        }
    }
}

/// The editor.
pub struct EntityEditor {
    pub visible: bool,
    pub registry_order: Vec<String>,
    pub entity_defs: Table<String, EntityDefinition>,
    pub selected_key: Option<String>,
    pub edit_def: EntityDefinition,
    pub edit_key: String,
    pub is_new: bool,
    pub dirty: bool,
    pub search: String,
    pub active_tab: EditorTab,
    pub status_msg: String,
    pub status_ok: bool,
    pub new_dlg: NewEntityDialog,
    pub cached_bones: Vec<String>,
    pub cached_model_path: String,
    pub fresh_light: EntityLightSource,
}

/// The editor as a mathematical value.
#[verifier::ext_equal]
pub struct EntityEditorModel {
    pub visible: bool,
    pub order: Seq<Seq<char>>,
    pub defs: Map<Seq<char>, EntityDefModel>,
    pub selected: Option<Seq<char>>,
    pub def: EntityDefModel,
    pub key: Seq<char>,
    pub is_new: bool,
    pub dirty: bool,
    pub search: Seq<char>,
    pub tab: EditorTab,
    pub status: Seq<char>,
    pub status_ok: bool,
    pub dialog: block_editor::DialogModel,
    pub bones: Seq<Seq<char>>,
    pub bones_path: Seq<char>,
    pub fresh_light: EntityLightSource,
}

/// An editor that is hidden and knows no entities, with a definition to start from.
pub open spec fn fresh_editor(draft: EntityDefModel, fresh_light: EntityLightSource) -> EntityEditorModel {
    EntityEditorModel {
        visible: false,
        order: Seq::empty(),
        defs: Map::empty(),
        selected: None,
        def: draft,
        key: Seq::empty(),
        is_new: false,
        dirty: false,
        search: Seq::empty(),
        tab: EditorTab::Basic,
        status: Seq::empty(),
        status_ok: true,
        dialog: blank_dialog(false),
        bones: Seq::empty(),
        bones_path: Seq::empty(),
        fresh_light,
    }
}

/// The definitions of a table, each as a mathematical value.
pub open spec fn entity_models(m: Map<Seq<char>, EntityDefinition>) -> Map<
    Seq<char>,
    EntityDefModel,
> {
    m.map_values(|d: EntityDefinition| d@)
}

impl View for EntityEditor {
    type V = EntityEditorModel;

    open spec fn view(&self) -> EntityEditorModel {
        EntityEditorModel {
            visible: self.visible,
            order: texts(self.registry_order@),
            defs: entity_models(self.entity_defs@),
            selected: opt_text(self.selected_key),
            def: self.edit_def@,
            key: self.edit_key@,
            is_new: self.is_new,
            dirty: self.dirty,
            search: self.search@,
            tab: self.active_tab,
            status: self.status_msg@,
            status_ok: self.status_ok,
            dialog: self.new_dlg@,
            bones: texts(self.cached_bones@),
            bones_path: self.cached_model_path@,
            fresh_light: self.fresh_light,
        }
    }
}

/// What confirming the dialog comes to.
pub open spec fn dialog_error(m: EntityEditorModel) -> Option<Seq<char>> {
    let id = text::trim_spec(m.dialog.id);
    if id.len() == 0 {
        Some("ID cannot be empty."@)
    } else if m.defs.dom().contains(id) {
        Some("'"@ + id + "' already exists."@)
    } else {
        None
    }
}

impl EntityEditorModel {
    /// Something is being edited.
    pub open spec fn editing(self) -> bool {
        self.selected is Some || self.is_new
    }

    /// The name of an entity in the list.
    pub open spec fn row_name(self, key: Seq<char>) -> Seq<char> {
        if self.defs.dom().contains(key) {
            self.defs[key].display_name
        } else {
            key
        }
    }

    /// Whether an entity is in the filtered list: its key or its name holds
    /// the search text, whatever the case of letters.
    pub open spec fn is_found(self, key: Seq<char>) -> bool {
        let q = text::lowercase(self.search);
        ||| q.len() == 0
        ||| text::is_substring(q, text::lowercase(key))
        ||| self.defs.dom().contains(key) && text::is_substring(
            q,
            text::lowercase(self.defs[key].display_name),
        )
    }

    /// The places of the first `n` entities that are in the filtered list.
    pub open spec fn found(self, n: int) -> Seq<int>
        decreases n,
    {
        if n <= 0 {
            seq![]
        } else if self.is_found(self.order[n - 1]) {
            self.found(n - 1).push(n - 1)
        } else {
            self.found(n - 1)
        }
    }

    /// A row shows what is known of the entity at its place.
    pub open spec fn is_row(self, row: EntityRow, i: int) -> bool {
        &&& row.index == i
        &&& row.key@ == self.order[i]
        &&& row.display@ == self.row_name(self.order[i])
        &&& row.selected == (self.selected == Some(self.order[i]))
        &&& row.has_lights == (self.defs.dom().contains(self.order[i])
            && self.defs[self.order[i]].lights.len() > 0)
    }

    /// The editor after an entity was selected; nothing happens where its
    /// definition is not known.
    pub open spec fn after_select(self, key: Seq<char>) -> EntityEditorModel {
        if self.defs.dom().contains(key) {
            EntityEditorModel {
                def: self.defs[key],
                key,
                selected: Some(key),
                is_new: false,
                dirty: false,
                status: Seq::empty(),
                ..self
            }
        } else {
            self
        }
    }

    /// The bones have to be read: the model is another one than before.
    pub open spec fn bones_stale(self) -> bool {
        self.def.model_path != self.bones_path
    }

    /// The editor once it has asked for the bones of the model.
    pub open spec fn bones_forgotten(self) -> EntityEditorModel {
        if self.bones_stale() {
            EntityEditorModel { bones: Seq::empty(), bones_path: self.def.model_path, ..self }
        } else {
            self
        }
    }

    /// The editor after a change of the inspector. The id of a saved entity
    /// cannot be changed; another model path makes the bones be read again.
    pub open spec fn after_edit(self, e: EntityEdit) -> EntityEditorModel {
        if e is Id && !self.is_new {
            self
        } else {
            EntityEditorModel {
                def: self.def.edited(e, self.fresh_light),
                dirty: true,
                bones_path: if e is ModelPath {
                    Seq::empty()
                } else {
                    self.bones_path
                },
                ..self
            }
        }
    }

    /// The editor after a new entity was begun.
    pub open spec fn after_create(self, fresh: EntityDefModel) -> EntityEditorModel {
        let name = text::trim_spec(self.dialog.name);
        EntityEditorModel {
            def: if name.len() == 0 {
                fresh
            } else {
                EntityDefModel { display_name: name, ..fresh }
            },
            key: text::trim_spec(self.dialog.id),
            selected: None,
            is_new: true,
            dirty: true,
            dialog: block_editor::DialogModel { open: false, ..self.dialog },
            tab: EditorTab::Basic,
            ..self
        }
    }

    /// The editor after the file of the entity was written: a new entity is
    /// in the registry now.
    pub open spec fn after_written(self) -> EntityEditorModel {
        if self.is_new && !self.order.contains(self.def.id) {
            EntityEditorModel { order: self.order.push(self.def.id), ..self }
        } else {
            self
        }
    }

    /// The editor after saving succeeded.
    pub open spec fn after_saved(self) -> EntityEditorModel {
        EntityEditorModel {
            defs: self.defs.insert(self.def.id, self.def),
            order: if self.order.contains(self.def.id) {
                self.order
            } else {
                self.order.push(self.def.id)
            },
            selected: Some(self.def.id),
            key: self.def.id,
            is_new: false,
            dirty: false,
            status: "Saved."@,
            status_ok: true,
            ..self
        }
    }
}

impl EntityEditor {
    /// The table of definitions is in order.
    pub open spec fn wf(&self) -> bool {
        self.entity_defs.wf()
    }

    /// An editor that knows no entities yet. `draft` is what it starts with,
    /// `fresh_light` what new lights start from.
    pub fn new(draft: EntityDefinition, fresh_light: EntityLightSource) -> (r: EntityEditor)
        ensures
            r.wf(),
            r@ == fresh_editor(draft@, fresh_light),
    {
        let r: EntityEditor = EntityEditor {
            visible: false,
            registry_order: Vec::new(),
            entity_defs: Table::new(),
            selected_key: None,
            edit_def: draft,
            edit_key: String::new(),
            is_new: false,
            dirty: false,
            search: String::new(),
            active_tab: EditorTab::Basic,
            status_msg: String::new(),
            status_ok: true,
            new_dlg: NewEntityDialog::new(),
            cached_bones: Vec::new(),
            cached_model_path: String::new(),
            fresh_light,
        };
        assert(r@.order =~= Seq::<Seq<char>>::empty());
        assert(r@.bones =~= Seq::<Seq<char>>::empty());
        assert(r@.defs =~= Map::<Seq<char>, EntityDefModel>::empty());
        r
    }

    /// Shows the editor.
    pub fn show(&mut self)
        requires
            old(self).wf(),
        ensures
            final(self).wf(),
            final(self)@ == (EntityEditorModel { visible: true, ..old(self)@ }),
    {
        self.visible = true;
    }

    /// Takes a registry in: its keys, in order. The definitions are taken in
    /// one by one then.
    pub fn reload_registry(&mut self, order: Vec<String>)
        requires
            old(self).wf(),
        ensures
            final(self).wf(),
            final(self)@ == (EntityEditorModel {
                order: texts(order@),
                defs: Map::empty(),
                ..old(self)@
            }),
    {
        self.registry_order = order;
        self.entity_defs = Table::new();
        assert(self@.defs =~= Map::<Seq<char>, EntityDefModel>::empty());
    }

    /// Takes the definition of an entity in.
    pub fn load_entity_def(&mut self, key: String, def: EntityDefinition)
        requires
            old(self).wf(),
        ensures
            final(self).wf(),
            final(self)@ == (EntityEditorModel {
                defs: old(self)@.defs.insert(key@, def@),
                ..old(self)@
            }),
    {
        self.entity_defs.insert(key, def);
        assert(self@.defs =~= old(self)@.defs.insert(key@, def@));
    }

    /// Starts editing an entity of the list. Its bones may have to be read
    /// then.
    pub fn select_entity(&mut self, key: &String)
        requires
            old(self).wf(),
        ensures
            final(self).wf(),
            final(self)@ == old(self)@.after_select(key@),
    {
        match self.entity_defs.get(key) {
            Some(def) => {
                self.edit_def = def.clone();
                self.edit_key = key.clone();
                self.selected_key = Some(key.clone());
                self.is_new = false;
                self.dirty = false;
                self.status_msg = String::new();
            },
            None => {},
        }
    }

    /// Forgets the bones where the model is another one than before. Returns
    /// the path of the model whose bones are to be read then, if it has one.
    pub fn refresh_bones_cache(&mut self) -> (r: Option<String>)
        requires
            old(self).wf(),
        ensures
            final(self).wf(),
            final(self)@ == old(self)@.bones_forgotten(),
            r is Some <==> old(self)@.bones_stale() && old(self)@.def.model_path.len() > 0,
            r matches Some(p) ==> p@ == old(self)@.def.model_path,
    {
        if self.edit_def.model_path == self.cached_model_path {
            return None;
        }
        self.cached_bones = Vec::new();
        assert(self@.bones =~= Seq::<Seq<char>>::empty());
        self.cached_model_path = self.edit_def.model_path.clone();
        non_empty(self.edit_def.model_path.clone())
    }

    /// Takes the names of the bones in, in ascending order.
    pub fn bones_loaded(&mut self, names: &Vec<String>)
        requires
            old(self).wf(),
        ensures
            final(self).wf(),
            inventory_ui::ascending(final(self)@.bones),
            forall|t: Seq<char>|
                #![trigger final(self)@.bones.contains(t)]
                final(self)@.bones.contains(t) <==> texts(names@).contains(t),
            final(self)@ == (EntityEditorModel { bones: final(self)@.bones, ..old(self)@ }),
    {
        self.cached_bones = sorted_names(names);
    }

    /// The names of the bones.
    pub fn bones(&self) -> (r: Vec<String>)
        ensures
            texts(r@) == self@.bones,
    {
        block_editor::clone_texts(&self.cached_bones)
    }

    /// The rows of the list that the search lets through.
    pub fn visible_rows(&self) -> (r: Vec<EntityRow>)
        requires
            self.wf(),
        ensures
            r@.len() == self@.found(self@.order.len() as int).len(),
            forall|j: int|
                #![trigger r@[j]]
                0 <= j < r@.len() ==> self@.is_row(
                    r@[j],
                    self@.found(self@.order.len() as int)[j],
                ),
    {
        let query: String = text::lower(self.search.as_str());
        let all: bool = text::same_text(query.as_str(), "");
        proof {
            reveal_strlit("");
            assert(query@.len() == 0 ==> query@ =~= ""@);
        }
        let mut r: Vec<EntityRow> = Vec::new();
        let mut i: usize = 0;
        let ghost m = self@;
        while i < self.registry_order.len()
            invariant
                i <= self.registry_order@.len(),
                self.wf(),
                m == self@,
                query@ == text::lowercase(m.search),
                all == (query@.len() == 0),
                r@.len() == m.found(i as int).len(),
                forall|j: int|
                    #![trigger r@[j]]
                    0 <= j < r@.len() ==> m.is_row(r@[j], m.found(i as int)[j]),
            decreases self.registry_order@.len() - i,
        {
            let key: &String = &self.registry_order[i];
            assert(m.order[i as int] == key@);
            let def: Option<&EntityDefinition> = self.entity_defs.get(key);
            let found: bool = all || text::contains_lowercased(key.as_str(), query.as_str())
                || match def {
                Some(d) => text::contains_lowercased(d.display_name.as_str(), query.as_str()),
                None => false,
            };
            assert(found == m.is_found(key@));
            if found {
                let ghost before = r@;
                let selected: bool = match &self.selected_key {
                    Some(k) => *k == *key,
                    None => false,
                };
                let row: EntityRow = match def {
                    Some(d) => EntityRow {
                        index: i,
                        key: key.clone(),
                        display: d.display_name.clone(),
                        selected,
                        has_lights: d.light_sources.len() > 0,
                    },
                    None => EntityRow {
                        index: i,
                        key: key.clone(),
                        display: key.clone(),
                        selected,
                        has_lights: false,
                    },
                };
                assert(m.is_row(row, i as int));
                r.push(row);
                assert forall|j: int| #![trigger r@[j]] 0 <= j < r@.len() implies m.is_row(
                    r@[j],
                    m.found(i as int + 1)[j],
                ) by {
                    if j < before.len() {
                        assert(r@[j] == before[j]);
                        assert(m.is_row(before[j], m.found(i as int)[j]));
                    }
                }
            }
            i += 1;
        }
        r
    }

    /// Number of entities in the registry.
    pub fn registered(&self) -> (r: usize)
        ensures
            r as int == self@.order.len(),
    {
        self.registry_order.len()
    }

    /// Key and number of the edited entity, as they are shown.
    pub fn caption(&self) -> (r: String)
        ensures
            r@ == self@.key + "  |  #"@ + block_editor::number_text(self@.order, self@.key),
    {
        let n: String = block_editor::number_label(&self.registry_order, &self.edit_key);
        text::joined3(self.edit_key.as_str(), "  |  #", n.as_str())
    }

    /// The tag that tells the number of lights, where there are any.
    pub fn light_tag(&self) -> (r: Option<String>)
        ensures
            r is Some <==> self@.def.lights.len() > 0,
            r matches Some(t) ==> t@ == text::decimal(self@.def.lights.len()) + " light(s)"@,
    {
        let n: usize = self.edit_def.light_sources.len();
        if n == 0 {
            None
        } else {
            let s: String = text::decimal_text(n as u64);
            Some(text::joined(s.as_str(), " light(s)"))
        }
    }

    /// Whether something is being edited; saving is offered then.
    pub fn is_editing(&self) -> (r: bool)
        ensures
            r == self@.editing(),
    {
        self.selected_key.is_some() || self.is_new
    }

    /// Whether the edited entity was never saved; its id can be changed then.
    pub fn is_draft(&self) -> (r: bool)
        ensures
            r == self@.is_new,
    {
        self.is_new
    }

    /// Whether there are changes that are not saved.
    pub fn is_dirty(&self) -> (r: bool)
        ensures
            r == self@.dirty,
    {
        self.dirty
    }

    /// The message of the status line, and whether it is good news.
    pub fn status(&self) -> (r: (&str, bool))
        ensures
            r.0@ == self@.status,
            r.1 == self@.status_ok,
    {
        (self.status_msg.as_str(), self.status_ok)
    }

    /// The entity being edited.
    pub fn edited_def(&self) -> (r: &EntityDefinition)
        ensures
            r@ == self@.def,
    {
        &self.edit_def
    }

    /// The keys of the registry, in order.
    pub fn registry_keys(&self) -> (r: Vec<String>)
        ensures
            texts(r@) == self@.order,
    {
        block_editor::clone_texts(&self.registry_order)
    }

    /// Sets the search text.
    pub fn set_search(&mut self, query: String)
        requires
            old(self).wf(),
        ensures
            final(self).wf(),
            final(self)@ == (EntityEditorModel { search: query@, ..old(self)@ }),
    {
        self.search = query;
    }

    /// The search text.
    pub fn search(&self) -> (r: &str)
        ensures
            r@ == self@.search,
    {
        self.search.as_str()
    }

    /// Turns to a page of the inspector.
    pub fn select_tab(&mut self, tab: EditorTab)
        requires
            old(self).wf(),
        ensures
            final(self).wf(),
            final(self)@ == (EntityEditorModel { tab, ..old(self)@ }),
    {
        self.active_tab = tab;
    }

    /// The page of the inspector.
    pub fn tab(&self) -> (r: EditorTab)
        ensures
            r == self@.tab,
    {
        self.active_tab
    }

    /// Carries a change of the inspector out.
    pub fn edit(&mut self, e: EntityEdit)
        requires
            old(self).wf(),
        ensures
            final(self).wf(),
            final(self)@ == old(self)@.after_edit(e),
    {
        match &e {
            EntityEdit::Id(_) => {
                if !self.is_new {
                    return;
                }
            },
            EntityEdit::ModelPath(_) => {
                self.cached_model_path = String::new();
            },
            _ => {},
        }
        self.edit_def.apply(e, &self.fresh_light);
        self.dirty = true;
    }

    /// Opens the dialog for a new entity.
    pub fn open_dialog(&mut self)
        requires
            old(self).wf(),
        ensures
            final(self).wf(),
            final(self)@ == (EntityEditorModel { dialog: blank_dialog(true), ..old(self)@ }),
    {
        self.new_dlg.open();
    }

    /// Closes the dialog.
    pub fn cancel_dialog(&mut self)
        requires
            old(self).wf(),
        ensures
            final(self).wf(),
            final(self)@ == (EntityEditorModel {
                dialog: block_editor::DialogModel { open: false, ..old(self)@.dialog },
                ..old(self)@
            }),
    {
        self.new_dlg.open = false;
    }

    /// Fills the fields of the dialog in.
    pub fn fill_dialog(&mut self, id: String, name: String)
        requires
            old(self).wf(),
        ensures
            final(self).wf(),
            final(self)@ == (EntityEditorModel {
                dialog: block_editor::DialogModel { id: id@, name: name@, ..old(self)@.dialog },
                ..old(self)@
            }),
    {
        self.new_dlg.id = id;
        self.new_dlg.name = name;
    }

    /// The dialog.
    pub fn dialog(&self) -> (r: &NewEntityDialog)
        ensures
            r@ == self@.dialog,
    {
        &self.new_dlg
    }

    /// Confirms the dialog: returns the id of the entity to begin, or says in
    /// the dialog why there is none.
    pub fn confirm_dialog(&mut self) -> (r: Option<String>)
        requires
            old(self).wf(),
        ensures
            final(self).wf(),
            match dialog_error(old(self)@) {
                Some(e) => r is None && final(self)@ == (EntityEditorModel {
                    dialog: block_editor::DialogModel { err: e, ..old(self)@.dialog },
                    ..old(self)@
                }),
                None => r is Some && r->Some_0@ == text::trim_spec(old(self)@.dialog.id)
                    && final(self)@ == old(self)@,
            },
    {
        let id: String = text::trim(self.new_dlg.id.as_str());
        let no_id: bool = text::same_text(id.as_str(), "");
        proof {
            reveal_strlit("");
            assert(id@.len() == 0 ==> id@ =~= ""@);
        }
        if no_id {
            self.new_dlg.err = "ID cannot be empty.".to_string();
            None
        } else if self.entity_defs.contains_key(&id) {
            self.new_dlg.err = text::joined3("'", id.as_str(), "' already exists.");
            None
        } else {
            Some(id)
        }
    }

    /// Begins a new entity with the properties of `fresh`, after the dialog
    /// was confirmed.
    pub fn create_entity(&mut self, fresh: EntityDefinition)
        requires
            old(self).wf(),
        ensures
            final(self).wf(),
            final(self)@ == old(self)@.after_create(fresh@),
    {
        let name: String = text::trim(self.new_dlg.name.as_str());
        let no_name: bool = text::same_text(name.as_str(), "");
        proof {
            reveal_strlit("");
            assert(name@.len() == 0 ==> name@ =~= ""@);
        }
        let mut def: EntityDefinition = fresh;
        if !no_name {
            def.display_name = name;
        }
        self.edit_def = def;
        self.edit_key = text::trim(self.new_dlg.id.as_str());
        self.selected_key = None;
        self.is_new = true;
        self.dirty = true;
        self.new_dlg.open = false;
        self.active_tab = EditorTab::Basic;
    }

    /// Takes down that saving failed, and why.
    pub fn fail_save(&mut self, stage: SaveStage, reason: &str)
        requires
            old(self).wf(),
        ensures
            final(self).wf(),
            final(self)@ == (EntityEditorModel {
                status: stage.prefix() + reason@,
                status_ok: false,
                ..old(self)@
            }),
    {
        let prefix: &str = match stage {
            SaveStage::CreateDir => "Cannot create directory: ",
            SaveStage::Write => "Save failed: ",
            SaveStage::Registry => "Registry save failed: ",
        };
        self.status_msg = text::joined(prefix, reason);
        self.status_ok = false;
    }

    /// Takes down that the file of the entity was written. Says whether the
    /// registry has to be written too, which is so for a new entity.
    pub fn entity_written(&mut self) -> (r: bool)
        requires
            old(self).wf(),
        ensures
            final(self).wf(),
            r == old(self)@.is_new,
            final(self)@ == old(self)@.after_written(),
    {
        if self.is_new {
            if !block_editor::lists_key(&self.registry_order, &self.edit_def.id) {
                self.registry_order.push(self.edit_def.id.clone());
                assert(self@.order =~= old(self)@.order.push(self.edit_def.id@));
            }
            true
        } else {
            false
        }
    }

    /// Takes down that saving succeeded.
    pub fn finish_save(&mut self)
        requires
            old(self).wf(),
        ensures
            final(self).wf(),
            final(self)@ == old(self)@.after_saved(),
    {
        let def: EntityDefinition = self.edit_def.clone();
        let ghost d = def@;
        let key: String = self.edit_def.id.clone();
        self.entity_defs.insert(key.clone(), def);
        assert(self@.defs =~= old(self)@.defs.insert(key@, d));
        if !block_editor::lists_key(&self.registry_order, &key) {
            self.registry_order.push(key.clone());
            assert(self@.order =~= old(self)@.order.push(key@));
        }
        self.selected_key = Some(key.clone());
        self.edit_key = key;
        self.is_new = false;
        self.dirty = false;
        self.status_msg = "Saved.".to_string();
        self.status_ok = true;
    }
}

/// The names in ascending order, each once.
pub fn sorted_names(names: &Vec<String>) -> (r: Vec<String>)
    ensures
        inventory_ui::ascending(texts(r@)),
        forall|t: Seq<char>|
            #![trigger texts(r@).contains(t)]
            texts(r@).contains(t) <==> texts(names@).contains(t),
{
    let mut r: Vec<String> = Vec::new();
    let mut i: usize = 0;
    while i < names.len()
        invariant
            i <= names@.len(),
            inventory_ui::ascending(texts(r@)),
            forall|t: Seq<char>|
                #![trigger texts(r@).contains(t)]
                texts(r@).contains(t) <==> texts(names@).take(i as int).contains(t),
        decreases names@.len() - i,
    {
        let ghost before = texts(r@);
        inventory_ui::insert_sorted(&mut r, names[i].clone());
        proof {
            let a = texts(names@).take(i as int);
            let b = texts(names@).take(i as int + 1);
            assert forall|t: Seq<char>| #![trigger texts(r@).contains(t)] texts(r@).contains(t)
                <==> b.contains(t) by {
                assert(before.contains(t) <==> a.contains(t));
                if a.contains(t) {
                    let k = choose|k: int| 0 <= k < a.len() && a[k] == t;
                    assert(b[k] == t);
                }
                if t == names@[i as int]@ {
                    assert(b[i as int] == t);
                }
                if b.contains(t) {
                    let k = choose|k: int| 0 <= k < b.len() && b[k] == t;
                    if k < i {
                        assert(a[k] == t);
                    }
                }
            }
        }
        i += 1;
    }
    assert(texts(names@).take(names@.len() as int) =~= texts(names@));
    r
}

/// The name of a bone, as it is shown.
pub open spec fn bone_name(bone: Seq<char>) -> Seq<char> {
    if bone.len() == 0 {
        "(entity origin)"@
    } else {
        bone
    }
}

/// The heading of the light at place `i`: its number, label, kind and bone.
pub fn light_header(i: usize, label: &str, kind: LightKind, bone: &str) -> (r: String)
    requires
        i < usize::MAX,
    ensures
        r@ == block_editor::light_heading((i + 1) as nat, label@, kind) + " @ "@ + bone_name(
            bone@,
        ),
{
    let empty: bool = text::same_text(bone, "");
    proof {
        reveal_strlit("");
        assert(bone@.len() == 0 ==> bone@ =~= ""@);
    }
    let mut s: String = block_editor::light_header(i, label, kind);
    s.append(" @ ");
    if empty {
        s.append("(entity origin)");
    } else {
        s.append(bone);
    }
    s
}

/// Selecting an entity right after it was saved shows what was saved, with
/// nothing left to save.
pub proof fn law_saved_is_selected(m: EntityEditorModel)
    ensures
        m.after_saved().selected == Some(m.def.id),
        !m.after_saved().dirty,
        m.after_saved().after_select(m.def.id).def == m.def,
        m.after_saved().order.contains(m.def.id),
{
    if !m.order.contains(m.def.id) {
        assert(m.after_saved().order[m.order.len() as int] == m.def.id);
    }
}

/// The id of a saved entity never changes.
pub proof fn law_saved_id_is_fixed(m: EntityEditorModel, e: EntityEdit)
    requires
        !m.is_new,
    ensures
        m.after_edit(e).def.id == m.def.id,
{
}

/// Once the bones have been asked for, they are not asked for again until the
/// model changes.
pub proof fn law_bones_asked_once(m: EntityEditorModel)
    ensures
        !m.bones_forgotten().bones_stale(),
        m.bones_forgotten().bones_forgotten() == m.bones_forgotten(),
{
}

/// Removing the light at a place takes that light away: one light fewer is
/// left, those before it stay where they are, those behind it move up by one, and
/// nothing else of the entity changes. A place past the last light changes nothing.
pub proof fn law_remove_light(m: EntityDefModel, i: usize, fresh: EntityLightSource)
    ensures
        ({
            let r = m.edited(EntityEdit::RemoveLight(i), fresh);
            &&& r == (EntityDefModel { lights: r.lights, ..m })
            &&& i >= m.lights.len() ==> r.lights == m.lights
            &&& i < m.lights.len() ==> {
                &&& r.lights.len() == m.lights.len() - 1
                &&& forall|j: int| #![trigger r.lights[j]] 0 <= j < i ==> r.lights[j] == m.lights[j]
                &&& forall|j: int|
                    #![trigger m.lights[j]]
                    i < j < m.lights.len() ==> r.lights[j - 1] == m.lights[j]
            }
        }),
{
}

/// Changing the light at a place changes that light only; adding one puts it
/// behind all others, of the kind asked for and as new lights are otherwise.
pub proof fn law_change_lights(
    m: EntityDefModel,
    i: usize,
    l: EntityLightSource,
    kind: LightKind,
    fresh: EntityLightSource,
)
    ensures
        ({
            let r = m.edited(EntityEdit::Light(i, l), fresh);
            &&& r == (EntityDefModel { lights: r.lights, ..m })
            &&& r.lights.len() == m.lights.len()
            &&& i < m.lights.len() ==> r.lights[i as int] == l
            &&& forall|j: int|
                #![trigger r.lights[j]]
                0 <= j < m.lights.len() && j != i ==> r.lights[j] == m.lights[j]
        }),
        ({
            let r = m.edited(EntityEdit::AddLight(kind), fresh);
            &&& r == (EntityDefModel { lights: r.lights, ..m })
            &&& r.lights.len() == m.lights.len() + 1
            &&& r.lights.drop_last() == m.lights
            &&& r.lights.last() == (EntityLightSource { kind, ..fresh })
        }),
{
    assert(m.edited(EntityEdit::AddLight(kind), fresh).lights.drop_last() =~= m.lights);
}

/// Setting a plain value of an entity sets that value to what was given and
/// leaves all others. A skin without a path is no skin.
pub proof fn law_set_value(m: EntityDefModel, s: String, n: u32, f: EntityLightSource)
    ensures
        m.edited(EntityEdit::Id(s), f) == (EntityDefModel { id: s@, ..m }),
        m.edited(EntityEdit::DisplayName(s), f) == (EntityDefModel { display_name: s@, ..m }),
        m.edited(EntityEdit::Description(s), f) == (EntityDefModel { description: s@, ..m }),
        m.edited(EntityEdit::ModelPath(s), f) == (EntityDefModel { model_path: s@, ..m }),
        m.edited(EntityEdit::Scale(n), f) == (EntityDefModel { default_scale: n, ..m }),
        s@.len() == 0 ==> m.edited(EntityEdit::SkinPath(s), f) == (EntityDefModel {
            skin_path: None,
            ..m
        }),
        s@.len() > 0 ==> m.edited(EntityEdit::SkinPath(s), f) == (EntityDefModel {
            skin_path: Some(s),
            ..m
        }),
{
}

/// A search lists the positions of exactly those keys that it finds, each
/// once and in the order of the registry.
pub proof fn law_search_lists(m: EntityEditorModel, n: int)
    requires
        0 <= n <= m.order.len(),
    ensures
        forall|i: int|
            #![trigger m.found(n).contains(i)]
            m.found(n).contains(i) <==> 0 <= i < n && m.is_found(m.order[i]),
        forall|a: int, b: int|
            #![trigger m.found(n)[a], m.found(n)[b]]
            0 <= a < b < m.found(n).len() ==> m.found(n)[a] < m.found(n)[b],
    decreases n,
{
    if n > 0 {
        law_search_lists(m, n - 1);
        let before = m.found(n - 1);
        assert forall|a: int| #![trigger before[a]] 0 <= a < before.len() implies 0 <= before[a] < n
            - 1 by {
            assert(before.contains(before[a]));
        }
        if m.is_found(m.order[n - 1]) {
            assert forall|i: int|
                #![trigger m.found(n).contains(i)]
                m.found(n).contains(i) <==> 0 <= i < n && m.is_found(m.order[i]) by {
                if m.found(n).contains(i) && i != n - 1 {
                    let a = choose|a: int| 0 <= a < m.found(n).len() && m.found(n)[a] == i;
                    assert(before[a] == i);
                    assert(before.contains(i));
                }
                if i == n - 1 {
                    assert(m.found(n)[before.len() as int] == i);
                }
                if before.contains(i) {
                    let a = choose|a: int| 0 <= a < before.len() && before[a] == i;
                    assert(m.found(n)[a] == i);
                }
            }
        }
    }
}

/// An empty search finds every key; any other finds a key that holds what is
/// searched for, or whose entity's name does, without regard to case.
pub proof fn law_search_finds(m: EntityEditorModel, key: Seq<char>, a: Seq<char>, b: Seq<char>)
    ensures
        text::lowercase(m.search).len() == 0 ==> m.is_found(key),
        text::lowercase(key) == a + text::lowercase(m.search) + b ==> m.is_found(key),
        m.defs.dom().contains(key) && text::lowercase(m.defs[key].display_name) == a
            + text::lowercase(m.search) + b ==> m.is_found(key),
        m.is_found(key) ==> text::is_substring(text::lowercase(m.search), text::lowercase(key))
            || m.defs.dom().contains(key) && text::is_substring(
            text::lowercase(m.search),
            text::lowercase(m.defs[key].display_name),
        ),
{
    let q = text::lowercase(m.search);
    text::law_substring(q, text::lowercase(key), a, b);
    text::law_substring(q, text::lowercase(m.defs[key].display_name), a, b);
    if q.len() == 0 {
        assert(q =~= Seq::empty());
    }
}

/// A row shows a place of the registry with its key: the entity's name and
/// whether it has lights where the entity could be read, else the key and no light.
/// The row of the selected key is marked.
pub proof fn law_row(m: EntityEditorModel, row: EntityRow, i: int)
    requires
        m.is_row(row, i),
    ensures
        row.index == i,
        row.key@ == m.order[i],
        m.defs.dom().contains(row.key@) ==> row.display@ == m.defs[row.key@].display_name && (
        row.has_lights <==> m.defs[row.key@].lights.len() != 0),
        !m.defs.dom().contains(row.key@) ==> row.display@ == row.key@ && !row.has_lights,
        row.selected <==> m.selected == Some(row.key@),
{
}

/// Selecting an entity that could be read starts editing it as it is stored,
/// unchanged and with no message; any other key changes nothing. All that is not
/// about the entity that is edited stays.
pub proof fn law_select(m: EntityEditorModel, key: Seq<char>)
    ensures
        ({
            let r = m.after_select(key);
            &&& !m.defs.dom().contains(key) ==> r == m
            &&& m.defs.dom().contains(key) ==> r.def == m.defs[key] && r.key == key && r.selected
                == Some(key) && !r.is_new && !r.dirty && r.status.len() == 0
            &&& r == (EntityEditorModel {
                def: r.def,
                key: r.key,
                selected: r.selected,
                is_new: r.is_new,
                dirty: r.dirty,
                status: r.status,
                ..m
            })
            &&& m.editing() <==> m.selected is Some || m.is_new
        }),
{
}

/// An edit changes the entity that is edited and marks it as changed; the id
/// of one that is not new cannot be edited. Another model makes the list of bones
/// outdated. Nothing else changes.
pub proof fn law_edit(m: EntityEditorModel, e: EntityEdit)
    ensures
        ({
            let r = m.after_edit(e);
            &&& e is Id && !m.is_new ==> r == m
            &&& !(e is Id) || m.is_new ==> r.dirty && r.def == m.def.edited(e, m.fresh_light)
            &&& e is ModelPath ==> r.bones_path.len() == 0
            &&& !(e is ModelPath) ==> r.bones_path == m.bones_path
            &&& r == (EntityEditorModel {
                def: r.def,
                dirty: r.dirty,
                bones_path: r.bones_path,
                ..m
            })
        }),
{
}

/// The bones listed are those of the model they were read from. Where the
/// entity has another model now they are dropped, and those of that model are
/// awaited; else nothing changes.
pub proof fn law_bones(m: EntityEditorModel)
    ensures
        m.bones_stale() <==> m.def.model_path != m.bones_path,
        m.def.model_path == m.bones_path ==> m.bones_forgotten() == m,
        m.def.model_path != m.bones_path ==> m.bones_forgotten().bones.len() == 0,
        m.bones_forgotten().bones_path == m.def.model_path,
        m.bones_forgotten() == (EntityEditorModel {
            bones: m.bones_forgotten().bones,
            bones_path: m.bones_forgotten().bones_path,
            ..m
        }),
{
}

/// Making an entity needs an id, one that is not taken; the message says
/// which of the two is missing.
pub proof fn law_dialog_error(m: EntityEditorModel)
    ensures
        ({
            let id = text::trim_spec(m.dialog.id);
            &&& dialog_error(m) is None <==> id.len() > 0 && !m.defs.dom().contains(id)
            &&& id.len() == 0 ==> dialog_error(m) == Some("ID cannot be empty."@)
            &&& id.len() > 0 && m.defs.dom().contains(id) ==> dialog_error(m) == Some(
                "'"@ + id + "' already exists."@,
            )
        }),
{
}

/// An entity that is made is new and unsaved under the id that was typed, is
/// not selected, is shown on the first tab, and has the name that was typed, or
/// its own where none was. The dialog closes, and nothing else changes.
pub proof fn law_create(m: EntityEditorModel, fresh: EntityDefModel)
    ensures
        ({
            let name = text::trim_spec(m.dialog.name);
            let r = m.after_create(fresh);
            &&& r.key == text::trim_spec(m.dialog.id)
            &&& r.selected is None && r.is_new && r.dirty && r.tab == EditorTab::Basic
            &&& r.dialog == (block_editor::DialogModel { open: false, ..m.dialog })
            &&& r.def == (EntityDefModel { display_name: r.def.display_name, ..fresh })
            &&& r.def.display_name == if name.len() == 0 { fresh.display_name } else { name }
            &&& r == (EntityEditorModel {
                def: r.def,
                key: r.key,
                selected: None,
                is_new: true,
                dirty: true,
                dialog: r.dialog,
                tab: r.tab,
                ..m
            })
        }),
{
}

/// A new entity that is written is listed at the end of the registry, once. A
/// saved one is listed, is stored under its id as it was edited, is selected and no
/// longer new or changed, and every other entity stays. A failed save only leaves a
/// message.
pub proof fn law_save(m: EntityEditorModel, other: Seq<char>)
    ensures
        ({
            let w = m.after_written();
            &&& m.is_new && !m.order.contains(m.def.id) ==> w.order == m.order.push(m.def.id)
            &&& !m.is_new || m.order.contains(m.def.id) ==> w.order == m.order
            &&& w == (EntityEditorModel { order: w.order, ..m })
        }),
        ({
            let r = m.after_saved();
            &&& m.order.contains(m.def.id) ==> r.order == m.order
            &&& !m.order.contains(m.def.id) ==> r.order == m.order.push(m.def.id)
            &&& r.defs.dom().contains(m.def.id) && r.defs[m.def.id] == m.def
            &&& other != m.def.id ==> (r.defs.dom().contains(other) <==> m.defs.dom().contains(other))
                && r.defs[other] == m.defs[other]
            &&& r.selected == Some(m.def.id) && r.key == m.def.id && !r.is_new && !r.dirty
            &&& r.status == "Saved."@ && r.status_ok
            &&& r == (EntityEditorModel {
                defs: r.defs,
                order: r.order,
                selected: r.selected,
                key: r.key,
                is_new: false,
                dirty: false,
                status: r.status,
                status_ok: true,
                ..m
            })
        }),
        SaveStage::CreateDir.prefix() == "Cannot create directory: "@,
        SaveStage::Write.prefix() == "Save failed: "@,
        SaveStage::Registry.prefix() == "Registry save failed: "@,
{
}

/// A new editor is hidden and knows no entity; its draft is the one given. A
/// fresh dialog is blank.
pub proof fn law_fresh_editor(draft: EntityDefModel, light: EntityLightSource, open: bool, key: Seq<char>)
    ensures
        ({
            let e = fresh_editor(draft, light);
            &&& !e.visible && !e.is_new && !e.dirty && e.status_ok
            &&& e.order.len() == 0 && !e.defs.dom().contains(key) && e.selected is None
            &&& e.def == draft && e.fresh_light == light
            &&& e.key.len() == 0 && e.search.len() == 0 && e.status.len() == 0
            &&& e.bones.len() == 0 && e.bones_path.len() == 0
            &&& e.tab == EditorTab::Basic
            &&& !e.dialog.open && e.dialog.id.len() == 0 && e.dialog.name.len() == 0
                && e.dialog.err.len() == 0
        }),
        blank_dialog(open).open == open,
        blank_dialog(open).id.len() == 0,
        blank_dialog(open).name.len() == 0,
        blank_dialog(open).err.len() == 0,
{
}

/// A light without a bone is at the entity's origin.
pub proof fn law_bone_name(bone: Seq<char>)
    ensures
        bone.len() > 0 ==> bone_name(bone) == bone,
        bone.len() == 0 ==> bone_name(bone) == "(entity origin)"@,
{
}

/// What is seen of an editor, and of an entity, is what they hold.
pub proof fn law_editor_view(e: EntityEditor, d: EntityDefinition, key: Seq<char>, i: int)
    ensures
        e@.visible == e.visible && e@.is_new == e.is_new && e@.dirty == e.dirty && e@.tab
            == e.active_tab && e@.status_ok == e.status_ok && e@.fresh_light == e.fresh_light,
        e@.order.len() == e.registry_order@.len(),
        0 <= i < e.registry_order@.len() ==> e@.order[i] == e.registry_order@[i]@,
        e@.bones.len() == e.cached_bones@.len(),
        0 <= i < e.cached_bones@.len() ==> e@.bones[i] == e.cached_bones@[i]@,
        e@.defs.dom().contains(key) <==> e.entity_defs@.dom().contains(key),
        e.entity_defs@.dom().contains(key) ==> e@.defs[key] == e.entity_defs@[key]@,
        e@.selected is Some <==> e.selected_key is Some,
        e.selected_key matches Some(k) ==> e@.selected == Some(k@),
        e@.def == e.edit_def@ && e@.key == e.edit_key@ && e@.search == e.search@ && e@.status
            == e.status_msg@ && e@.bones_path == e.cached_model_path@,
        e@.dialog.open == e.new_dlg.open && e@.dialog.id == e.new_dlg.id@ && e@.dialog.name
            == e.new_dlg.name@ && e@.dialog.err == e.new_dlg.err@,
        d@.id == d.id@ && d@.display_name == d.display_name@ && d@.description == d.description@,
        d@.model_path == d.model_path@ && d@.skin_path == d.skin_path && d@.default_scale
            == d.default_scale && d@.lights == d.light_sources@ && d@.rest == d.rest@,
{
}

} // verus!
