//! The screen of the entity editor.
use crate::entity_editor;
use crate::entity_editor::EntityDefinition;
use crate::entity_editor::EntityEditor;
use crate::entity_editor::EntityEditorModel;
use crate::entity_editor::EntityLightSource;
use crate::screen::take_action;
use crate::screen::ScreenAction;
use crate::single;
use vstd::prelude::*;
use vstd::string::*;

verus! {

/// The screen of the entity editor.
pub struct EntityEditorScreen {
    pub editor: EntityEditor,
    pub pending_action: ScreenAction,
}

impl EntityEditorScreen {
    /// The screen with an editor that knows no entities yet.
    pub fn new(draft: EntityDefinition, fresh_light: EntityLightSource) -> (r: EntityEditorScreen)
        ensures
            r.editor.wf(),
            r.editor@ == entity_editor::fresh_editor(draft@, fresh_light),
            r.pending_action == ScreenAction::Stay,
    {
        EntityEditorScreen {
            editor: EntityEditor::new(draft, fresh_light),
            pending_action: ScreenAction::Stay,
        }
    }

    /// The name of the screen.
    pub fn name(&self) -> (r: &'static str)
        ensures
            r@ == "EntityEditor"@,
    {
        "EntityEditor"
    }

    /// Shows the editor.
    pub fn start(&mut self)
        requires
            old(self).editor.wf(),
        ensures
            final(self).editor.wf(),
            final(self).editor@ == (EntityEditorModel { visible: true, ..old(self).editor@ }),
            final(self).pending_action == old(self).pending_action,
    {
        self.editor.show();
    }

    /// Whether the editor is drawn in this frame: not once the escape key was
    /// pressed, which leads back.
    pub fn begin_ui(&mut self, escape_pressed: bool) -> (draw: bool)
        ensures
            draw == !escape_pressed,
            final(self).editor == old(self).editor,
            final(self).pending_action == (if escape_pressed {
                ScreenAction::Pop
            } else {
                old(self).pending_action
            }),
    {
        if escape_pressed {
            self.pending_action = ScreenAction::Pop;
        }
        !escape_pressed
    }

    /// Leads back once the editor's own button was pressed.
    pub fn finish_ui(&mut self, should_pop: bool)
        ensures
            final(self).editor == old(self).editor,
            final(self).pending_action == (if should_pop {
                ScreenAction::Pop
            } else {
                old(self).pending_action
            }),
    {
        if should_pop {
            self.pending_action = ScreenAction::Pop;
        }
    }

    /// Hands out what the screen asks for and forgets it.
    pub fn poll_action(&mut self) -> (r: ScreenAction)
        ensures
            r == old(self).pending_action,
            final(self).pending_action == ScreenAction::Stay,
            final(self).editor == old(self).editor,
    {
        take_action(&mut self.pending_action)
    }
}

/// Bits of 4.
pub const FOUR: u32 = 0x4080_0000;

/// Whether the preview is drawn: it is given a place, wider and higher than
/// four points. The sides are given as the bits of single-precision numbers.
pub fn shows_preview(sides: Option<(u32, u32)>) -> (r: bool)
    ensures
        r == (sides matches Some(s) && single::is_above(s.0, FOUR) && single::is_above(s.1, FOUR)),
        r ==> sides->Some_0.0 > 0x4080_0000 && sides->Some_0.1 > 0x4080_0000,
        sides matches Some(s) ==> 0x4080_0000 < s.0 <= 0x7f80_0000 && 0x4080_0000 < s.1
            <= 0x7f80_0000 ==> r,
{
    match sides {
        Some(s) => single::above(s.0, FOUR) && single::above(s.1, FOUR),
        None => false,
    }
}

} // verus!
