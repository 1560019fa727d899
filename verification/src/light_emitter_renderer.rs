//! The glow of lights: squares that face the camera, and the buffer that holds
//! them.
use crate::single;
use vstd::prelude::*;

verus! {

/// Vertices of a glow.
pub const GLOW_VERTICES: usize = 6;

/// Size of a vertex of a glow, in bytes.
pub const EMITTER_VERTEX_SIZE: usize = 36;

/// A corner of a glow: whether it lies to the right of the middle, and whether
/// above it. Its place in the texture goes from zero to one the same way.
#[derive(Debug, Clone, Copy, PartialEq, Eq, Structural)]
pub struct GlowCorner {
    pub right: bool,
    pub up: bool,
}

/// A corner to the right or to the left, above or below.
pub open spec fn corner(right: bool, up: bool) -> GlowCorner {
    GlowCorner { right, up }
}

/// The corners of the two triangles of a glow.
pub open spec fn glow_corners() -> Seq<GlowCorner> {
    seq![
        corner(false, true),
        corner(true, true),
        corner(true, false),
        corner(false, true),
        corner(true, false),
        corner(false, false),
    ]
}

/// The corners of the two triangles of a glow, in the order in which they are
/// drawn.
pub fn billboard_corners() -> (r: Vec<GlowCorner>)
    ensures
        r@ == glow_corners(),
{
    let mut r: Vec<GlowCorner> = Vec::new();
    r.push(GlowCorner { right: false, up: true });
    r.push(GlowCorner { right: true, up: true });
    r.push(GlowCorner { right: true, up: false });
    r.push(GlowCorner { right: false, up: true });
    r.push(GlowCorner { right: true, up: false });
    r.push(GlowCorner { right: false, up: false });
    assert(r@ =~= glow_corners());
    r
}

/// Whether a light says how large its glow is; else its brightness does. The
/// radius is given as the bits of a single-precision number.
pub fn has_own_radius(radius_override: u32) -> (r: bool)
    ensures
        r == single::is_above(radius_override, single::ZERO_BITS),
{
    single::above(radius_override, single::ZERO_BITS)
}

/// What is drawn: how many vertices, how many bytes they take, and whether a
/// larger buffer has to be made for them.
#[derive(Debug, Clone, Copy, PartialEq, Eq, Structural)]
pub struct GlowPlan {
    pub vertices: usize,
    pub bytes: usize,
    pub new_buffer: bool,
}

/// The buffer of the glows: how many vertices it holds.
#[derive(Debug, Clone, Copy, PartialEq, Eq, Structural)]
pub struct LightEmitterRenderer {
    pub vb_cap: usize,
}

impl LightEmitterRenderer {
    /// No buffer yet.
    pub fn new() -> (r: LightEmitterRenderer)
        ensures
            r.vb_cap == 0,
    {
        LightEmitterRenderer { vb_cap: 0 }
    }

    /// What is drawn for some lights; nothing for none. The buffer grows where
    /// it is too small and never shrinks.
    pub fn plan(&mut self, emitters: usize) -> (r: Option<GlowPlan>)
        requires
            emitters * GLOW_VERTICES * EMITTER_VERTEX_SIZE <= usize::MAX,
        ensures
            r is Some <==> emitters > 0,
            r matches Some(p) ==> p == (GlowPlan {
                vertices: (emitters * GLOW_VERTICES) as usize,
                bytes: (emitters * GLOW_VERTICES * EMITTER_VERTEX_SIZE) as usize,
                new_buffer: old(self).vb_cap < emitters * GLOW_VERTICES,
            }),
            r matches Some(p) ==> p.vertices == 6 * emitters && p.bytes == 216 * emitters,
            final(self).vb_cap == (if old(self).vb_cap < emitters * GLOW_VERTICES {
                emitters * GLOW_VERTICES
            } else {
                old(self).vb_cap as int
            }),
    {
        if emitters == 0 {
            return None;
        }
        let vertices: usize = emitters * GLOW_VERTICES;
        let new_buffer: bool = self.vb_cap < vertices;
        if new_buffer {
            self.vb_cap = vertices;
        }
        Some(GlowPlan { vertices, bytes: vertices * EMITTER_VERTEX_SIZE, new_buffer })
    }
}

/// The two triangles of a glow share the diagonal from the upper left to the
/// lower right corner and have each corner of the square between them.
pub proof fn law_glow_is_a_square(right: bool, up: bool)
    ensures
        glow_corners().contains(corner(right, up)),
        glow_corners()[0] == glow_corners()[3],
        glow_corners()[2] == glow_corners()[4],
        glow_corners()[1] != glow_corners()[5],
{
    let s = glow_corners();
    assert(s[0] == corner(false, true) && s[1] == corner(true, true) && s[2] == corner(true, false)
        && s[5] == corner(false, false));
}

/// A glow is two triangles that turn the same way, clockwise: the upper right
/// half of the square and its lower left half.
pub proof fn law_glow_triangles(t: int)
    requires
        0 <= t < 2,
    ensures
        glow_corners().len() == 6,
        ({
            let a = glow_corners()[3 * t];
            let b = glow_corners()[3 * t + 1];
            let c = glow_corners()[3 * t + 2];
            let x = |g: GlowCorner| if g.right { 1int } else { -1 };
            let y = |g: GlowCorner| if g.up { 1int } else { -1 };
            (x(b) - x(a)) * (y(c) - y(a)) - (y(b) - y(a)) * (x(c) - x(a)) == -4
        }),
        !glow_corners()[0].right && glow_corners()[0].up,
        glow_corners()[1].right && glow_corners()[1].up,
        !glow_corners()[5].right && !glow_corners()[5].up,
        forall|r: bool, u: bool|
            #![trigger corner(r, u)]
            corner(r, u).right == r && corner(r, u).up == u,
{
    let g = glow_corners();
    assert(g[0] == corner(false, true) && g[1] == corner(true, true) && g[2] == corner(true, false));
    assert(g[3] == corner(false, true) && g[4] == corner(true, false) && g[5] == corner(
        false,
        false,
    ));
    let x = |g: GlowCorner| if g.right { 1int } else { -1 };
    let y = |g: GlowCorner| if g.up { 1int } else { -1 };
    let a = g[3 * t];
    let b = g[3 * t + 1];
    let c = g[3 * t + 2];
    let p = x(b) - x(a);
    let q = y(c) - y(a);
    let r = y(b) - y(a);
    let s = x(c) - x(a);
    if t == 0 {
        assert(a == g[0] && b == g[1] && c == g[2]);
    } else {
        assert(a == g[3] && b == g[4] && c == g[5]);
    }
    assert(p * q - r * s == -4) by (nonlinear_arith)
        requires
            p == 2 && q == -2 && r == 0 || p == 2 && q == -2 && r == -2 && s == 0,
    ;
}

} // verus!
