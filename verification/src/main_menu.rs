//! The main menu with its list of worlds.
use crate::screen::take_action;
use crate::screen::ScreenAction;
use crate::screen::ScreenKind;
use crate::screen::WorldMetadata;
use crate::text;
use vstd::prelude::*;
use vstd::string::*;

verus! {

/// A page of the menu.
#[derive(Debug)]
pub enum MenuView {
    Main,
    WorldList,
    NewWorld,
    /// Asks whether a world is to be deleted.
    DeleteConfirm(String),
}

/// A button of the first page that leads to another screen.
#[derive(Debug, Clone, Copy, PartialEq, Eq, Structural)]
pub enum MenuButton {
    QuickPlay,
    Settings,
    WorldGenEditor,
    BlockEditor,
    EntityEditor,
}

impl MenuButton {
    /// What a button asks for.
    pub open spec fn action(self) -> ScreenAction {
        match self {
            MenuButton::QuickPlay => ScreenAction::Switch(ScreenKind::Game(None)),
            MenuButton::Settings => ScreenAction::Push(ScreenKind::Settings),
            MenuButton::WorldGenEditor => ScreenAction::Push(ScreenKind::WorldGenVisualizer),
            MenuButton::BlockEditor => ScreenAction::Push(ScreenKind::BlockEditor),
            MenuButton::EntityEditor => ScreenAction::Push(ScreenKind::EntityEditor),
        }
    }
}

/// Something the player does on the page of worlds.
#[derive(Debug)]
pub enum WorldAction {
    OpenNew,
    Launch(WorldMetadata),
    ConfirmDelete(String),
    Back,
}

/// The main menu.
#[derive(Debug)]
pub struct MainMenuScreen {
    pub pending_action: ScreenAction,
    pub view: MenuView,
    pub new_world_name: String,
    pub new_world_seed: String,
    pub worlds: Vec<WorldMetadata>,
    pub status_msg: String,
}

/// A page as a mathematical value.
pub enum MenuPage {
    Main,
    WorldList,
    NewWorld,
    DeleteConfirm(Seq<char>),
}

/// The main menu as a mathematical value.
#[verifier::ext_equal]
pub struct MenuModel {
    pub action: ScreenAction,
    pub page: MenuPage,
    pub name: Seq<char>,
    pub seed: Seq<char>,
    pub worlds: Seq<WorldMetadata>,
    pub status: Seq<char>,
}

impl View for MainMenuScreen {
    type V = MenuModel;

    open spec fn view(&self) -> MenuModel {
        MenuModel {
            action: self.pending_action,
            page: match self.view {
                MenuView::Main => MenuPage::Main,
                MenuView::WorldList => MenuPage::WorldList,
                MenuView::NewWorld => MenuPage::NewWorld,
                MenuView::DeleteConfirm(n) => MenuPage::DeleteConfirm(n@),
            },
            name: self.new_world_name@,
            seed: self.new_world_seed@,
            worlds: self.worlds@,
            status: self.status_msg@,
        }
    }
}

/// A world that is to be created: its name, and its seed where the text of
/// the seed is a number.
#[derive(Debug)]
pub struct NewWorld {
    pub name: String,
    pub seed: Option<u64>,
}

impl MenuModel {
    /// The menu on the page of worlds.
    pub open spec fn on_world_list(self, worlds: Seq<WorldMetadata>) -> MenuModel {
        MenuModel { worlds, status: Seq::empty(), page: MenuPage::WorldList, ..self }
    }

    /// The menu on the page for a new world, with the seed filled in.
    pub open spec fn on_new_world(self, seed: u64) -> MenuModel {
        MenuModel {
            name: Seq::empty(),
            seed: text::decimal(seed as nat),
            status: Seq::empty(),
            page: MenuPage::NewWorld,
            ..self
        }
    }

    /// The menu after a world was launched.
    pub open spec fn launched(self, meta: WorldMetadata) -> MenuModel {
        MenuModel { action: ScreenAction::Switch(ScreenKind::Game(Some(meta))), ..self }
    }
}

impl MainMenuScreen {
    /// The menu on its first page.
    pub fn new() -> (r: MainMenuScreen)
        ensures
            r@ == (MenuModel {
                action: ScreenAction::Stay,
                page: MenuPage::Main,
                name: Seq::empty(),
                seed: Seq::empty(),
                worlds: Seq::empty(),
                status: Seq::empty(),
            }),
    {
        MainMenuScreen {
            pending_action: ScreenAction::Stay,
            view: MenuView::Main,
            new_world_name: String::new(),
            new_world_seed: String::new(),
            worlds: Vec::new(),
            status_msg: String::new(),
        }
    }

    /// The name of the screen.
    pub fn name(&self) -> (r: &'static str)
        ensures
            r@ == "MainMenu"@,
    {
        "MainMenu"
    }

    /// Turns to the page of worlds, which shows the given ones.
    pub fn enter_world_list(&mut self, worlds: Vec<WorldMetadata>)
        ensures
            final(self)@ == old(self)@.on_world_list(worlds@),
    {
        self.worlds = worlds;
        self.status_msg = String::new();
        self.view = MenuView::WorldList;
    }

    /// Turns to the page for a new world, with a seed to start from.
    pub fn enter_new_world(&mut self, random_seed: u64)
        ensures
            final(self)@ == old(self)@.on_new_world(random_seed),
    {
        self.new_world_name = String::new();
        self.new_world_seed = text::decimal_text(random_seed);
        self.status_msg = String::new();
        self.view = MenuView::NewWorld;
    }

    /// Asks for the game in a world.
    pub fn launch_game(&mut self, meta: WorldMetadata)
        ensures
            final(self)@ == old(self)@.launched(meta),
    {
        self.pending_action = ScreenAction::Switch(ScreenKind::Game(Some(meta)));
    }

    /// Carries a button of the first page out.
    pub fn press(&mut self, button: MenuButton)
        ensures
            final(self)@ == (MenuModel { action: button.action(), ..old(self)@ }),
    {
        self.pending_action = match button {
            MenuButton::QuickPlay => ScreenAction::Switch(ScreenKind::Game(None)),
            MenuButton::Settings => ScreenAction::Push(ScreenKind::Settings),
            MenuButton::WorldGenEditor => ScreenAction::Push(ScreenKind::WorldGenVisualizer),
            MenuButton::BlockEditor => ScreenAction::Push(ScreenKind::BlockEditor),
            MenuButton::EntityEditor => ScreenAction::Push(ScreenKind::EntityEditor),
        };
    }

    /// Carries out what the player did on the page of worlds. `random_seed` is
    /// filled in where a new world is begun.
    pub fn world_list_action(&mut self, action: WorldAction, random_seed: u64)
        ensures
            final(self)@ == (match action {
                WorldAction::OpenNew => old(self)@.on_new_world(random_seed),
                WorldAction::Launch(meta) => old(self)@.launched(meta),
                WorldAction::ConfirmDelete(n) => MenuModel {
                    page: MenuPage::DeleteConfirm(n@),
                    ..old(self)@
                },
                WorldAction::Back => MenuModel { page: MenuPage::Main, ..old(self)@ },
            }),
    {
        match action {
            WorldAction::OpenNew => {
                self.enter_new_world(random_seed);
            },
            WorldAction::Launch(meta) => {
                self.launch_game(meta);
            },
            WorldAction::ConfirmDelete(n) => {
                self.view = MenuView::DeleteConfirm(n);
            },
            WorldAction::Back => {
                self.view = MenuView::Main;
            },
        }
    }

    /// The world that the form describes, if it has a name; the menu says so
    /// where it has none.
    pub fn new_world(&mut self) -> (r: Option<NewWorld>)
        ensures
            r is None <==> text::trim_spec(old(self)@.name).len() == 0,
            r matches Some(w) ==> {
                &&& final(self)@ == old(self)@
                &&& w.name@ == text::trim_spec(old(self)@.name)
                &&& (w.seed is Some <==> text::is_u64_text(text::trim_spec(old(self)@.seed)))
                &&& (w.seed matches Some(n) ==> n as nat == text::digits_value(
                    text::unsigned_digits(text::trim_spec(old(self)@.seed)),
                ))
            },
            r is None ==> final(self)@ == (MenuModel {
                status: "World name cannot be empty."@,
                ..old(self)@
            }),
    {
        let name: String = text::trim(self.new_world_name.as_str());
        let empty: bool = text::same_text(name.as_str(), "");
        proof {
            reveal_strlit("");
            assert(name@.len() == 0 ==> name@ =~= ""@);
        }
        if empty {
            self.status_msg = "World name cannot be empty.".to_string();
            return None;
        }
        let seed_text: String = text::trim(self.new_world_seed.as_str());
        Some(NewWorld { name, seed: text::parse_u64(seed_text.as_str()) })
    }

    /// Takes down how creating a world came out: it is launched, or the menu
    /// says why not.
    pub fn world_created(&mut self, outcome: Result<WorldMetadata, String>)
        ensures
            final(self)@ == (match outcome {
                Ok(meta) => old(self)@.launched(meta),
                Err(e) => MenuModel { status: "Error: "@ + e@, ..old(self)@ },
            }),
    {
        match outcome {
            Ok(meta) => {
                self.launch_game(meta);
            },
            Err(e) => {
                self.status_msg = text::joined("Error: ", e.as_str());
            },
        }
    }

    /// The name of the world that is asked about on the page for deleting. On
    /// any other page there is none, and the menu turns to the page of worlds.
    pub fn deletion_target(&mut self) -> (r: Option<String>)
        ensures
            match old(self)@.page {
                MenuPage::DeleteConfirm(n) => r is Some && r->Some_0@ == n && final(self)@
                    == old(self)@,
                _ => r is None && final(self)@ == (MenuModel {
                    page: MenuPage::WorldList,
                    ..old(self)@
                }),
            },
    {
        match &self.view {
            MenuView::DeleteConfirm(n) => Some(n.clone()),
            _ => {
                self.view = MenuView::WorldList;
                None
            },
        }
    }

    /// Takes down how deleting a world came out: the menu shows the worlds
    /// that are left, or says why it failed.
    pub fn world_deleted(&mut self, outcome: Result<Vec<WorldMetadata>, String>)
        ensures
            final(self)@ == (match outcome {
                Ok(worlds) => old(self)@.on_world_list(worlds@),
                Err(e) => MenuModel { status: "Delete failed: "@ + e@, ..old(self)@ },
            }),
    {
        match outcome {
            Ok(worlds) => {
                self.enter_world_list(worlds);
            },
            Err(e) => {
                self.status_msg = text::joined("Delete failed: ", e.as_str());
            },
        }
    }

    /// Hands out what the screen asks for and forgets it.
    pub fn poll_action(&mut self) -> (r: ScreenAction)
        ensures
            r == old(self)@.action,
            final(self)@ == (MenuModel { action: ScreenAction::Stay, ..old(self)@ }),
    {
        take_action(&mut self.pending_action)
    }
}

/// The number of bytes that a character takes in UTF-8.
pub open spec fn char_bytes(c: char) -> int {
    if (c as int) < 0x80 {
        1
    } else if (c as int) < 0x800 {
        2
    } else if (c as int) < 0x1_0000 {
        3
    } else {
        4
    }
}

/// The number of bytes that a text takes in UTF-8.
pub open spec fn text_bytes(s: Seq<char>) -> int
    decreases s.len(),
{
    if s.len() == 0 {
        0
    } else {
        text_bytes(s.drop_last()) + char_bytes(s.last())
    }
}

/// `t` is the first ten bytes of `s`, where a character ends there, and else
/// all of `s`.
pub open spec fn is_date_part(t: Seq<char>, s: Seq<char>) -> bool {
    ||| exists|k: int|
        #![trigger s.take(k)]
        0 <= k <= s.len() && text_bytes(s.take(k)) == 10 && t == s.take(k)
    ||| t == s && forall|k: int|
        #![trigger s.take(k)]
        0 <= k <= s.len() ==> text_bytes(s.take(k)) != 10
}

proof fn lemma_text_bytes_grow(s: Seq<char>, i: int, j: int)
    requires
        0 <= i <= j <= s.len(),
    ensures
        text_bytes(s.take(i)) + (j - i) <= text_bytes(s.take(j)),
    decreases j - i,
{
    if i < j {
        lemma_text_bytes_grow(s, i, j - 1);
        assert(s.take(j).drop_last() =~= s.take(j - 1));
    }
}

/// The date of a point in time: the first ten bytes of its text.
pub fn date_part(s: &str) -> (r: String)
    ensures
        is_date_part(r@, s@),
{
    let v: Vec<char> = text::chars_of(s);
    let mut k: usize = 0;
    let mut bytes: u32 = 0;
    while k < v.len() && bytes < 10
        invariant
            k <= v@.len(),
            v@ == s@,
            bytes == text_bytes(s@.take(k as int)),
            bytes <= 13,
            forall|j: int| #![trigger s@.take(j)] 0 <= j < k ==> text_bytes(s@.take(j)) < 10,
        decreases v@.len() - k,
    {
        assert(s@.take(k as int + 1).drop_last() =~= s@.take(k as int));
        let c: u32 = text::code_point(v[k]);
        bytes = bytes + if c < 0x80 {
            1u32
        } else if c < 0x800 {
            2u32
        } else if c < 0x1_0000 {
            3u32
        } else {
            4u32
        };
        k += 1;
    }
    if bytes == 10 {
        let r: String = text::string_of_range(&v, 0, k);
        assert(r@ =~= s@.take(k as int));
        r
    } else {
        proof {
            assert forall|j: int| #![trigger s@.take(j)] 0 <= j <= s@.len() implies text_bytes(
                s@.take(j),
            ) != 10 by {
                if j > k {
                    lemma_text_bytes_grow(s@, k as int, j);
                }
            }
        }
        s.to_string()
    }
}

/// The line below the name of a world: its seed and the date of the last visit.
pub fn world_caption(meta: &WorldMetadata) -> (r: String)
    ensures
        exists|d: Seq<char>|
            #![trigger is_date_part(d, meta.last_played@)]
            is_date_part(d, meta.last_played@) && r@ == "Seed: "@ + text::decimal(
                meta.seed as nat,
            ) + "  |  Last played: "@ + d,
{
    let date: String = date_part(meta.last_played.as_str());
    let seed: String = text::decimal_text(meta.seed);
    let head: String = text::joined3("Seed: ", seed.as_str(), "  |  Last played: ");
    text::joined(head.as_str(), date.as_str())
}

/// A text has one date part only.
pub proof fn law_date_part_unique(a: Seq<char>, b: Seq<char>, s: Seq<char>)
    requires
        is_date_part(a, s),
        is_date_part(b, s),
    ensures
        a == b,
{
    if exists|k: int| #![trigger s.take(k)] 0 <= k <= s.len() && text_bytes(s.take(k)) == 10 {
        let i = choose|k: int|
            #![trigger s.take(k)]
            0 <= k <= s.len() && text_bytes(s.take(k)) == 10 && a == s.take(k);
        let j = choose|k: int|
            #![trigger s.take(k)]
            0 <= k <= s.len() && text_bytes(s.take(k)) == 10 && b == s.take(k);
        if i < j {
            lemma_text_bytes_grow(s, i, j);
        } else if j < i {
            lemma_text_bytes_grow(s, j, i);
        }
    }
}

/// The question on the page for deleting.
pub fn deletion_notice(name: &str) -> (r: String)
    ensures
        r@ == "\""@ + name@ + "\" will be permanently deleted."@,
{
    text::joined3("\"", name, "\" will be permanently deleted.")
}

/// A page shows no message of the page before, and the seed that is filled in
/// is read back as the same number.
pub proof fn law_filled_in_seed(m: MenuModel, seed: u64)
    ensures
        m.on_new_world(seed).status.len() == 0,
        m.on_world_list(m.worlds).status.len() == 0,
        text::is_u64_text(m.on_new_world(seed).seed),
        text::digits_value(text::unsigned_digits(m.on_new_world(seed).seed)) == seed,
{
    text::lemma_decimal(seed as nat);
    let d = text::decimal(seed as nat);
    assert(text::unsigned_digits(d) == d) by {
        assert(text::is_digit(d[0]));
    }
}

/// What each button of the menu does: play starts a game at once, and the
/// others open their own screen on top.
pub proof fn law_buttons()
    ensures
        MenuButton::QuickPlay.action() == ScreenAction::Switch(ScreenKind::Game(None)),
        MenuButton::Settings.action() == ScreenAction::Push(ScreenKind::Settings),
        MenuButton::WorldGenEditor.action() == ScreenAction::Push(ScreenKind::WorldGenVisualizer),
        MenuButton::BlockEditor.action() == ScreenAction::Push(ScreenKind::BlockEditor),
        MenuButton::EntityEditor.action() == ScreenAction::Push(ScreenKind::EntityEditor),
{
}

/// Going to a page shows that page without an old message: the list with
/// the worlds given, the form with no name and a seed filled in. Starting a world
/// asks for a game in that world. Nothing else changes.
pub proof fn law_pages(m: MenuModel, worlds: Seq<WorldMetadata>, seed: u64, meta: WorldMetadata)
    ensures
        ({
            let l = m.on_world_list(worlds);
            let n = m.on_new_world(seed);
            let g = m.launched(meta);
            &&& l.page is WorldList && l.worlds == worlds && l.status.len() == 0
            &&& l == (MenuModel { page: l.page, worlds: l.worlds, status: l.status, ..m })
            &&& n.page is NewWorld && n.name.len() == 0 && n.status.len() == 0
            &&& text::digits_value(n.seed) == seed
            &&& forall|i: int|
                #![trigger n.seed[i]]
                0 <= i < n.seed.len() ==> text::is_digit(n.seed[i])
            &&& n == (MenuModel {
                page: n.page,
                name: n.name,
                seed: n.seed,
                status: n.status,
                ..m
            })
            &&& g.action == ScreenAction::Switch(ScreenKind::Game(Some(meta)))
            &&& g == (MenuModel { action: g.action, ..m })
        }),
{
    text::lemma_decimal(seed as nat);
}

/// A character takes one byte up to code point 7f, two up to 7ff, three up to
/// ffff and four above; a text takes the bytes of its characters.
pub proof fn law_text_bytes(c: char, a: Seq<char>, b: Seq<char>)
    ensures
        char_bytes(c) == 1 <==> c <= '\u{7f}',
        char_bytes(c) == 2 <==> '\u{80}' <= c <= '\u{7ff}',
        char_bytes(c) == 3 <==> '\u{800}' <= c <= '\u{ffff}',
        char_bytes(c) == 4 <==> c >= '\u{10000}',
        text_bytes(Seq::empty()) == 0,
        text_bytes(seq![c]) == char_bytes(c),
        text_bytes(a + b) == text_bytes(a) + text_bytes(b),
    decreases b.len(),
{
    reveal_with_fuel(text_bytes, 2);
    assert(seq![c].drop_last() =~= Seq::empty());
    if b.len() == 0 {
        assert(a + b =~= a);
    } else {
        law_text_bytes(c, a, b.drop_last());
        assert((a + b).drop_last() =~= a + b.drop_last());
    }
}

/// The date of a time is its first ten bytes where they end between two
/// characters, and the whole text else.
pub proof fn law_date_part(s: Seq<char>, date: Seq<char>, time: Seq<char>, t: Seq<char>)
    requires
        is_date_part(t, s),
    ensures
        s == date + time && text_bytes(date) == 10 ==> t == date,
        t != s ==> text_bytes(t) == 10 && t.is_prefix_of(s),
{
    if s == date + time && text_bytes(date) == 10 {
        assert(s.take(date.len() as int) =~= date);
        assert(is_date_part(date, s));
        law_date_part_unique(t, date, s);
    }
}

/// What is seen of the menu is what it holds.
pub proof fn law_menu_view(s: MainMenuScreen)
    ensures
        s@.action == s.pending_action && s@.name == s.new_world_name@ && s@.seed
            == s.new_world_seed@ && s@.worlds == s.worlds@ && s@.status == s.status_msg@,
        s@.page is Main <==> s.view is Main,
        s@.page is WorldList <==> s.view is WorldList,
        s@.page is NewWorld <==> s.view is NewWorld,
        s.view matches MenuView::DeleteConfirm(n) ==> s@.page == MenuPage::DeleteConfirm(n@),
{
}

} // verus!
