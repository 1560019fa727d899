//! What a screen asks of the program: to go back, or to go on to another
//! screen.
use vstd::prelude::*;
use vstd::string::*;

verus! {

/// What is known of a saved world.
#[derive(Debug)]
pub struct WorldMetadata {
    pub name: String,
    pub seed: u64,
    /// Date and time of the last visit.
    pub last_played: String,
    /// What else is saved with the world, as one text.
    pub data: String,
}

impl Clone for WorldMetadata {
    fn clone(&self) -> (r: WorldMetadata)
        ensures
            r == *self,
    {
        WorldMetadata {
            name: self.name.clone(),
            seed: self.seed,
            last_played: self.last_played.clone(),
            data: self.data.clone(),
        }
    }
}

/// A screen to go to.
#[derive(Debug)]
pub enum ScreenKind {
    /// The game, in a saved world where one is given.
    Game(Option<WorldMetadata>),
    MainMenu,
    Settings,
    WorldGenVisualizer,
    BlockEditor,
    EntityEditor,
}

/// What a screen asks of the program.
#[derive(Debug)]
pub enum ScreenAction {
    /// Nothing.
    Stay,
    Push(ScreenKind),
    Pop,
    Switch(ScreenKind),
}

/// Hands out what a screen asks for and forgets it.
pub fn take_action(pending: &mut ScreenAction) -> (r: ScreenAction)
    ensures
        r == *old(pending),
        *final(pending) == ScreenAction::Stay,
{
    let mut r: ScreenAction = ScreenAction::Stay;
    std::mem::swap(&mut r, pending);
    r
}

} // verus!
