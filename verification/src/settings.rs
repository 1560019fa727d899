//! The settings screen.
use crate::screen::take_action;
use crate::screen::ScreenAction;
use vstd::prelude::*;
use vstd::string::*;

verus! {

/// What can be set.
#[derive(Debug, Clone, Copy, PartialEq, Eq, Structural)]
pub struct SettingsValues {
    /// How far the world is drawn, in chunks.
    pub render_distance: i32,
    /// Speed of the camera, as the bits of a single-precision number.
    pub mouse_sensitivity: u32,
    /// Chunk layers below the camera.
    pub vertical_below: i32,
    /// Chunk layers above the camera.
    pub vertical_above: i32,
    pub biome_ambient_tint: bool,
    /// Kind of global illumination.
    pub gi_mode: u32,
    pub shadow_sun: bool,
    pub shadow_block: bool,
    pub halo: bool,
    pub volumetric_rays: bool,
    /// Steps of a shadow ray.
    pub shadow_quality: u32,
}

/// Something the player does on the settings screen.
#[derive(Debug, Clone, Copy, PartialEq, Eq, Structural)]
pub enum SettingsEvent {
    /// The escape key, or the button that leads back.
    Back,
    RenderDistance(i32),
    MouseSensitivity(u32),
    VerticalBelow(i32),
    VerticalAbove(i32),
    BiomeAmbientTint(bool),
    GiMode(u32),
    ShadowSun(bool),
    ShadowBlock(bool),
    Halo(bool),
    VolumetricRays(bool),
    ShadowQuality(u32),
}

impl SettingsValues {
    /// The settings after an event.
    pub open spec fn after(self, e: SettingsEvent) -> SettingsValues {
        match e {
            SettingsEvent::Back => self,
            SettingsEvent::RenderDistance(n) => SettingsValues { render_distance: n, ..self },
            SettingsEvent::MouseSensitivity(n) => SettingsValues { mouse_sensitivity: n, ..self },
            SettingsEvent::VerticalBelow(n) => SettingsValues { vertical_below: n, ..self },
            SettingsEvent::VerticalAbove(n) => SettingsValues { vertical_above: n, ..self },
            SettingsEvent::BiomeAmbientTint(b) => SettingsValues {
                biome_ambient_tint: b,
                ..self
            },
            SettingsEvent::GiMode(n) => SettingsValues { gi_mode: n, ..self },
            SettingsEvent::ShadowSun(b) => SettingsValues { shadow_sun: b, ..self },
            SettingsEvent::ShadowBlock(b) => SettingsValues { shadow_block: b, ..self },
            SettingsEvent::Halo(b) => SettingsValues { halo: b, ..self },
            SettingsEvent::VolumetricRays(b) => SettingsValues { volumetric_rays: b, ..self },
            SettingsEvent::ShadowQuality(n) => SettingsValues { shadow_quality: n, ..self },
        }
    }

    /// Whether an event has to be saved: choosing what is chosen already does
    /// not, moving a slider or a check mark does.
    pub open spec fn saved_by(self, e: SettingsEvent) -> bool {
        match e {
            SettingsEvent::Back => false,
            SettingsEvent::GiMode(n) => n != self.gi_mode,
            SettingsEvent::ShadowQuality(n) => n != self.shadow_quality,
            _ => true,
        }
    }
}

/// The settings screen.
#[derive(Debug)]
pub struct SettingsScreen {
    pub pending_action: ScreenAction,
}

impl SettingsScreen {
    /// A screen that asks for nothing.
    pub fn new() -> (r: SettingsScreen)
        ensures
            r.pending_action == ScreenAction::Stay,
    {
        SettingsScreen { pending_action: ScreenAction::Stay }
    }

    /// The name of the screen.
    pub fn name(&self) -> (r: &'static str)
        ensures
            r@ == "Settings"@,
    {
        "Settings"
    }

    /// Carries out what the player did. Says whether the settings have to be
    /// saved.
    pub fn handle(&mut self, values: &mut SettingsValues, event: SettingsEvent) -> (save: bool)
        ensures
            save == old(values).saved_by(event),
            *final(values) == old(values).after(event),
            final(self).pending_action == (if event == SettingsEvent::Back {
                ScreenAction::Pop
            } else {
                old(self).pending_action
            }),
    {
        match event {
            SettingsEvent::Back => {
                self.pending_action = ScreenAction::Pop;
                return false;
            },
            SettingsEvent::RenderDistance(n) => {
                values.render_distance = n;
            },
            SettingsEvent::MouseSensitivity(n) => {
                values.mouse_sensitivity = n;
            },
            SettingsEvent::VerticalBelow(n) => {
                values.vertical_below = n;
            },
            SettingsEvent::VerticalAbove(n) => {
                values.vertical_above = n;
            },
            SettingsEvent::BiomeAmbientTint(b) => {
                values.biome_ambient_tint = b;
            },
            SettingsEvent::GiMode(n) => {
                if values.gi_mode == n {
                    return false;
                }
                values.gi_mode = n;
            },
            SettingsEvent::ShadowSun(b) => {
                values.shadow_sun = b;
            },
            SettingsEvent::ShadowBlock(b) => {
                values.shadow_block = b;
            },
            SettingsEvent::Halo(b) => {
                values.halo = b;
            },
            SettingsEvent::VolumetricRays(b) => {
                values.volumetric_rays = b;
            },
            SettingsEvent::ShadowQuality(n) => {
                if values.shadow_quality == n {
                    return false;
                }
                values.shadow_quality = n;
            },
        }
        true
    }

    /// Hands out what the screen asks for and forgets it.
    pub fn poll_action(&mut self) -> (r: ScreenAction)
        ensures
            r == old(self).pending_action,
            final(self).pending_action == ScreenAction::Stay,
    {
        take_action(&mut self.pending_action)
    }
}

/// The kinds of global illumination, each with its name.
pub fn gi_modes() -> (r: Vec<(u32, &'static str)>)
    ensures
        r@.map_values(|m: (u32, &str)| (m.0, m.1@)) == seq![
            (0u32, "Off"@),
            (1u32, "Mono 16"@),
            (2u32, "Mono 32"@),
            (3u32, "RGB 32"@),
            (4u32, "Full"@),
        ],
{
    let mut r: Vec<(u32, &'static str)> = Vec::new();
    r.push((0, "Off"));
    r.push((1, "Mono 16"));
    r.push((2, "Mono 32"));
    r.push((3, "RGB 32"));
    r.push((4, "Full"));
    assert(r@.map_values(|m: (u32, &str)| (m.0, m.1@)) =~= seq![
        (0u32, "Off"@),
        (1u32, "Mono 16"@),
        (2u32, "Mono 32"@),
        (3u32, "RGB 32"@),
        (4u32, "Full"@),
    ]);
    r
}

/// What is said of a kind of global illumination.
pub fn gi_description(gi_mode: u32) -> (r: &'static str)
    ensures
        r@ == if gi_mode == 0 {
            "GI off — highest FPS. Block lights still cast DDA shadows."@
        } else if gi_mode == 1 {
            "Mono 16 — 16-step monochromatic flood-fill, ~16 block radius. Minecraft-style."@
        } else if gi_mode == 2 {
            "Mono 32 — 32-step monochromatic flood-fill, ~32 block radius."@
        } else if gi_mode == 3 {
            "RGB 32 — 32-step coloured flood-fill, ~32 block radius."@
        } else {
            "Full — 64-step coloured flood-fill, ~64 block radius. Maximum quality."@
        },
{
    if gi_mode == 0 {
        "GI off — highest FPS. Block lights still cast DDA shadows."
    } else if gi_mode == 1 {
        "Mono 16 — 16-step monochromatic flood-fill, ~16 block radius. Minecraft-style."
    } else if gi_mode == 2 {
        "Mono 32 — 32-step monochromatic flood-fill, ~32 block radius."
    } else if gi_mode == 3 {
        "RGB 32 — 32-step coloured flood-fill, ~32 block radius."
    } else {
        "Full — 64-step coloured flood-fill, ~64 block radius. Maximum quality."
    }
}

/// The levels of shadow quality: steps of a ray, and name.
pub fn shadow_levels() -> (r: Vec<(u32, &'static str)>)
    ensures
        r@.map_values(|m: (u32, &str)| (m.0, m.1@)) == seq![
            (8u32, "Low"@),
            (16u32, "Medium"@),
            (32u32, "High"@),
            (64u32, "Ultra"@),
        ],
{
    let mut r: Vec<(u32, &'static str)> = Vec::new();
    r.push((8, "Low"));
    r.push((16, "Medium"));
    r.push((32, "High"));
    r.push((64, "Ultra"));
    assert(r@.map_values(|m: (u32, &str)| (m.0, m.1@)) =~= seq![
        (8u32, "Low"@),
        (16u32, "Medium"@),
        (32u32, "High"@),
        (64u32, "Ultra"@),
    ]);
    r
}

/// Settings are saved whenever they change, and setting the same thing twice
/// is setting it once.
pub proof fn law_changes_are_saved(v: SettingsValues, e: SettingsEvent)
    ensures
        v.after(e) != v ==> v.saved_by(e),
        v.after(e).after(e) == v.after(e),
{
}

/// An event sets its own value to what was chosen and leaves all others. Every
/// choice is saved, but for a mode of light or a quality of shadows that was chosen
/// already; going back sets and saves nothing.
pub proof fn law_settings_events(v: SettingsValues, e: SettingsEvent)
    ensures
        ({
            let r = v.after(e);
            &&& r.render_distance == (match e {
                SettingsEvent::RenderDistance(n) => n,
                _ => v.render_distance,
            })
            &&& r.mouse_sensitivity == (match e {
                SettingsEvent::MouseSensitivity(n) => n,
                _ => v.mouse_sensitivity,
            })
            &&& r.vertical_below == (match e {
                SettingsEvent::VerticalBelow(n) => n,
                _ => v.vertical_below,
            })
            &&& r.vertical_above == (match e {
                SettingsEvent::VerticalAbove(n) => n,
                _ => v.vertical_above,
            })
            &&& r.biome_ambient_tint == (match e {
                SettingsEvent::BiomeAmbientTint(b) => b,
                _ => v.biome_ambient_tint,
            })
            &&& r.gi_mode == (match e {
                SettingsEvent::GiMode(n) => n,
                _ => v.gi_mode,
            })
            &&& r.shadow_sun == (match e {
                SettingsEvent::ShadowSun(b) => b,
                _ => v.shadow_sun,
            })
            &&& r.shadow_block == (match e {
                SettingsEvent::ShadowBlock(b) => b,
                _ => v.shadow_block,
            })
            &&& r.halo == (match e {
                SettingsEvent::Halo(b) => b,
                _ => v.halo,
            })
            &&& r.volumetric_rays == (match e {
                SettingsEvent::VolumetricRays(b) => b,
                _ => v.volumetric_rays,
            })
            &&& r.shadow_quality == (match e {
                SettingsEvent::ShadowQuality(n) => n,
                _ => v.shadow_quality,
            })
        }),
        v.saved_by(e) <==> !(e is Back) && !(e is GiMode && v.after(e) == v) && !(e is ShadowQuality
            && v.after(e) == v),
{
}

} // verus!
