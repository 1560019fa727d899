//! When the models of entities are loaded and entities are put into the world.
//! Entities can be drawn only once their renderer was made, so what asks for
//! one before that waits.
use vstd::prelude::*;

verus! {

/// A place in the world, as the bits of single-precision numbers.
pub type Place = [u32; 3];

/// What is ready for entities, and the test lights.
#[derive(Debug)]
pub struct EntitySetup {
    /// The renderer was made and the player stands in the world.
    pub renderer: bool,
    /// The model of the sheep was tried.
    pub sheep_tried: bool,
    /// Where test lights are to appear.
    pub waiting: Vec<Place>,
    /// The test lights in the world.
    pub lights: Vec<u64>,
}

impl EntitySetup {
    /// Nothing is ready, and nothing waits.
    pub fn new() -> (r: EntitySetup)
        ensures
            !r.renderer,
            !r.sheep_tried,
            r.waiting@ == Seq::<Place>::empty(),
            r.lights@ == Seq::<u64>::empty(),
    {
        EntitySetup { renderer: false, sheep_tried: false, waiting: Vec::new(), lights: Vec::new() }
    }

    /// Whether the renderer is to be made now: once, and not before the model
    /// of the player is known.
    pub fn begin_renderer(&mut self, player_model_known: bool) -> (r: bool)
        ensures
            r == (!old(self).renderer && player_model_known),
            final(self).renderer == (old(self).renderer || player_model_known),
            final(self).sheep_tried == old(self).sheep_tried,
            final(self).waiting == old(self).waiting,
            final(self).lights == old(self).lights,
    {
        if self.renderer || !player_model_known {
            return false;
        }
        self.renderer = true;
        true
    }

    /// Whether the model of the sheep is to be loaded now: once, after the
    /// renderer was made. A model that cannot be read is not tried again.
    pub fn begin_sheep_model(&mut self) -> (r: bool)
        ensures
            r == (old(self).renderer && !old(self).sheep_tried),
            final(self).sheep_tried == (old(self).sheep_tried || old(self).renderer),
            final(self).renderer == old(self).renderer,
            final(self).waiting == old(self).waiting,
            final(self).lights == old(self).lights,
    {
        if self.sheep_tried || !self.renderer {
            return false;
        }
        self.sheep_tried = true;
        true
    }

    /// Whether sheep can be put into the world.
    pub fn takes_sheep(&self) -> (r: bool)
        ensures
            r == (self.renderer && self.sheep_tried),
    {
        self.renderer && self.sheep_tried
    }

    /// Asks for a test light.
    pub fn ask_light(&mut self, at: Place)
        ensures
            final(self).waiting@ == old(self).waiting@.push(at),
            final(self).lights == old(self).lights,
            final(self).renderer == old(self).renderer,
            final(self).sheep_tried == old(self).sheep_tried,
    {
        self.waiting.push(at);
    }

    /// Hands out where test lights are to appear, once they can.
    pub fn take_lights(&mut self) -> (r: Vec<Place>)
        ensures
            r@ == (if old(self).renderer {
                old(self).waiting@
            } else {
                Seq::empty()
            }),
            final(self).waiting@ == (if old(self).renderer {
                Seq::empty()
            } else {
                old(self).waiting@
            }),
            final(self).lights == old(self).lights,
            final(self).renderer == old(self).renderer,
            final(self).sheep_tried == old(self).sheep_tried,
    {
        let mut r: Vec<Place> = Vec::new();
        if self.renderer {
            std::mem::swap(&mut r, &mut self.waiting);
        }
        r
    }

    /// Takes a test light down that appeared.
    pub fn light_appeared(&mut self, id: u64)
        ensures
            final(self).lights@ == old(self).lights@.push(id),
            final(self).waiting == old(self).waiting,
            final(self).renderer == old(self).renderer,
            final(self).sheep_tried == old(self).sheep_tried,
    {
        self.lights.push(id);
    }
}

} // verus!
