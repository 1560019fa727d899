//! The colours of the inventory.
use vstd::prelude::*;

verus! {

/// A colour with its opacity, not multiplied in.
#[derive(Debug, Clone, Copy, PartialEq, Eq, Structural)]
pub struct Rgba {
    pub r: u8,
    pub g: u8,
    pub b: u8,
    pub a: u8,
}

/// A colour.
pub open spec fn rgba(r: u8, g: u8, b: u8, a: u8) -> Rgba {
    Rgba { r, g, b, a }
}

/// A slot.
pub fn slot_bg() -> (c: Rgba)
    ensures
        c == rgba(55, 55, 55, 220),
{
    Rgba { r: 55, g: 55, b: 55, a: 220 }
}

/// The active slot.
pub fn slot_active() -> (c: Rgba)
    ensures
        c == rgba(80, 80, 80, 240),
{
    Rgba { r: 80, g: 80, b: 80, a: 240 }
}

/// The dark border of a slot.
pub fn slot_border_dark() -> (c: Rgba)
    ensures
        c == rgba(20, 20, 20, 255),
{
    Rgba { r: 20, g: 20, b: 20, a: 255 }
}

/// The lit border of a slot.
pub fn slot_border_lit() -> (c: Rgba)
    ensures
        c == rgba(110, 110, 110, 255),
{
    Rgba { r: 110, g: 110, b: 110, a: 255 }
}

/// The window.
pub fn window_bg() -> (c: Rgba)
    ensures
        c == rgba(35, 35, 35, 245),
{
    Rgba { r: 35, g: 35, b: 35, a: 245 }
}

/// The border of the window.
pub fn window_border() -> (c: Rgba)
    ensures
        c == rgba(20, 20, 20, 255),
{
    Rgba { r: 20, g: 20, b: 20, a: 255 }
}

/// Headings.
pub fn text_primary() -> (c: Rgba)
    ensures
        c == rgba(255, 255, 255, 255),
{
    Rgba { r: 255, g: 255, b: 255, a: 255 }
}

/// The number of blocks in a stack.
pub fn text_count() -> (c: Rgba)
    ensures
        c == rgba(255, 255, 255, 255),
{
    Rgba { r: 255, g: 255, b: 255, a: 255 }
}

/// The hotbar.
pub fn hotbar_bg() -> (c: Rgba)
    ensures
        c == rgba(25, 25, 25, 215),
{
    Rgba { r: 25, g: 25, b: 25, a: 215 }
}

/// The creative mode.
pub fn mode_creative() -> (c: Rgba)
    ensures
        c == rgba(100, 220, 255, 255),
{
    Rgba { r: 100, g: 220, b: 255, a: 255 }
}

/// The survival mode.
pub fn mode_survival() -> (c: Rgba)
    ensures
        c == rgba(255, 210, 100, 255),
{
    Rgba { r: 255, g: 210, b: 100, a: 255 }
}

/// The selected tab.
pub fn tab_active_bg() -> (c: Rgba)
    ensures
        c == rgba(50, 90, 130, 240),
{
    Rgba { r: 50, g: 90, b: 130, a: 240 }
}

/// The name of the selected tab.
pub fn tab_active_text() -> (c: Rgba)
    ensures
        c == rgba(120, 220, 255, 255),
{
    Rgba { r: 120, g: 220, b: 255, a: 255 }
}

/// The name of another tab.
pub fn tab_idle_text() -> (c: Rgba)
    ensures
        c == rgba(180, 180, 180, 230),
{
    Rgba { r: 180, g: 180, b: 180, a: 230 }
}

/// The name of a part of the window.
pub fn section_label() -> (c: Rgba)
    ensures
        c == rgba(160, 160, 160, 180),
{
    Rgba { r: 160, g: 160, b: 160, a: 180 }
}

/// A colour has the four parts given, in order.
pub proof fn law_rgba(r: u8, g: u8, b: u8, a: u8)
    ensures
        rgba(r, g, b, a).r == r,
        rgba(r, g, b, a).g == g,
        rgba(r, g, b, a).b == b,
        rgba(r, g, b, a).a == a,
{
}

} // verus!
