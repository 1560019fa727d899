//! Vertices and indices of simple bodies.
use vstd::prelude::*;

verus! {

/// The six indices of the two triangles of a quad whose corners stand at
/// `base` and the three places behind it.
pub open spec fn quad(base: int) -> Seq<int> {
    seq![base, base + 1, base + 2, base, base + 2, base + 3]
}

/// The indices of the two triangles of a quad.
pub fn quad_indices(base: u32) -> (r: [u32; 6])
    requires
        base + 3 <= u32::MAX,
    ensures
        forall|k: int| #![trigger r@[k]] 0 <= k < 6 ==> r@[k] == quad(base as int)[k],
{
    [base, base + 1, base + 2, base, base + 2, base + 3]
}

/// A corner of a cube, with texture coordinates and colour. Zero and one stand
/// for the low and the high end of an edge.
#[derive(Debug, Clone, Copy)]
pub struct CubeVertex {
    pub position: [u8; 3],
    pub uv: [u8; 2],
    /// Number of the side: top, bottom, north, south, east, west.
    pub face: u8,
    /// Red, green, blue and alpha, each as the bits of a single-precision
    /// number.
    pub color: [u32; 4],
}

/// The corner `i` of the side `f` of a cube.
pub open spec fn corner(f: int, i: int) -> (int, int, int) {
    if f == 0 {
        // top: y is high
        if i == 0 {
            (0, 1, 1)
        } else if i == 1 {
            (1, 1, 1)
        } else if i == 2 {
            (1, 1, 0)
        } else {
            (0, 1, 0)
        }
    } else if f == 1 {
        // bottom: y is low
        if i == 0 {
            (0, 0, 0)
        } else if i == 1 {
            (1, 0, 0)
        } else if i == 2 {
            (1, 0, 1)
        } else {
            (0, 0, 1)
        }
    } else if f == 2 {
        // north: z is low
        if i == 0 {
            (1, 0, 0)
        } else if i == 1 {
            (0, 0, 0)
        } else if i == 2 {
            (0, 1, 0)
        } else {
            (1, 1, 0)
        }
    } else if f == 3 {
        // south: z is high
        if i == 0 {
            (0, 0, 1)
        } else if i == 1 {
            (1, 0, 1)
        } else if i == 2 {
            (1, 1, 1)
        } else {
            (0, 1, 1)
        }
    } else if f == 4 {
        // east: x is high
        if i == 0 {
            (1, 0, 1)
        } else if i == 1 {
            (1, 0, 0)
        } else if i == 2 {
            (1, 1, 0)
        } else {
            (1, 1, 1)
        }
    } else {
        // west: x is low
        if i == 0 {
            (0, 0, 0)
        } else if i == 1 {
            (0, 0, 1)
        } else if i == 2 {
            (0, 1, 1)
        } else {
            (0, 1, 0)
        }
    }
}

/// The texture coordinates of the corner `i` of the side `f`. The pictures of
/// the four upright sides stand with their first row on top.
pub open spec fn corner_uv(f: int, i: int) -> (int, int) {
    let u: int = if i == 1 || i == 2 {
        1
    } else {
        0
    };
    let v: int = if i >= 2 {
        1
    } else {
        0
    };
    if f < 2 {
        (u, v)
    } else {
        (u, 1 - v)
    }
}

/// The direction in which a side looks.
pub open spec fn outward(f: int) -> (int, int, int) {
    if f == 0 {
        (0, 1, 0)
    } else if f == 1 {
        (0, -1, 0)
    } else if f == 2 {
        (0, 0, -1)
    } else if f == 3 {
        (0, 0, 1)
    } else if f == 4 {
        (1, 0, 0)
    } else {
        (-1, 0, 0)
    }
}

/// A vertex is the corner `i` of the side `f` in the colour.
pub open spec fn is_corner(v: CubeVertex, f: int, i: int, color: [u32; 4]) -> bool {
    &&& v.position@[0] == corner(f, i).0
    &&& v.position@[1] == corner(f, i).1
    &&& v.position@[2] == corner(f, i).2
    &&& v.uv@[0] == corner_uv(f, i).0
    &&& v.uv@[1] == corner_uv(f, i).1
    &&& v.face == f
    &&& v.color == color
}

/// The vertices of the first `n` sides of a cube and their indices.
pub open spec fn is_cube(
    verts: Seq<CubeVertex>,
    indices: Seq<u16>,
    n: int,
    colors: spec_fn(int) -> [u32; 4],
) -> bool {
    &&& verts.len() == 4 * n
    &&& indices.len() == 6 * n
    &&& forall|f: int, i: int|
        #![trigger corner(f, i)]
        0 <= f < n && 0 <= i < 4 ==> is_corner(verts[4 * f + i], f, i, colors(f))
    &&& forall|f: int, k: int|
        #![trigger quad(4 * f)[k]]
        0 <= f < n && 0 <= k < 6 ==> indices[6 * f + k] == quad(4 * f)[k]
}

/// The colour of a side of a cube.
pub open spec fn side_color(f: int, top: [u32; 4], bottom: [u32; 4], side: [u32; 4]) -> [u32; 4] {
    if f == 0 {
        top
    } else if f == 1 {
        bottom
    } else {
        side
    }
}

fn corner_at(f: u8, i: u8) -> (r: [u8; 3])
    requires
        f < 6,
        i < 4,
    ensures
        r@[0] == corner(f as int, i as int).0,
        r@[1] == corner(f as int, i as int).1,
        r@[2] == corner(f as int, i as int).2,
{
    if f == 0 {
        if i == 0 {
            [0, 1, 1]
        } else if i == 1 {
            [1, 1, 1]
        } else if i == 2 {
            [1, 1, 0]
        } else {
            [0, 1, 0]
        }
    } else if f == 1 {
        if i == 0 {
            [0, 0, 0]
        } else if i == 1 {
            [1, 0, 0]
        } else if i == 2 {
            [1, 0, 1]
        } else {
            [0, 0, 1]
        }
    } else if f == 2 {
        if i == 0 {
            [1, 0, 0]
        } else if i == 1 {
            [0, 0, 0]
        } else if i == 2 {
            [0, 1, 0]
        } else {
            [1, 1, 0]
        }
    } else if f == 3 {
        if i == 0 {
            [0, 0, 1]
        } else if i == 1 {
            [1, 0, 1]
        } else if i == 2 {
            [1, 1, 1]
        } else {
            [0, 1, 1]
        }
    } else if f == 4 {
        if i == 0 {
            [1, 0, 1]
        } else if i == 1 {
            [1, 0, 0]
        } else if i == 2 {
            [1, 1, 0]
        } else {
            [1, 1, 1]
        }
    } else {
        if i == 0 {
            [0, 0, 0]
        } else if i == 1 {
            [0, 0, 1]
        } else if i == 2 {
            [0, 1, 1]
        } else {
            [0, 1, 0]
        }
    }
}

fn cube_vertex(f: u8, i: u8, color: [u32; 4]) -> (r: CubeVertex)
    requires
        f < 6,
        i < 4,
    ensures
        is_corner(r, f as int, i as int, color),
{
    let u: u8 = if i == 1 || i == 2 {
        1
    } else {
        0
    };
    let v: u8 = if i >= 2 {
        1
    } else {
        0
    };
    let uv: [u8; 2] = if f < 2 {
        [u, v]
    } else {
        [u, 1 - v]
    };
    CubeVertex { position: corner_at(f, i), uv, face: f, color }
}

/// The vertices and indices of a cube: top, bottom, then the four sides, each
/// with its own four corners.
pub fn build_cube_vertices(top: [u32; 4], bottom: [u32; 4], side: [u32; 4]) -> (r: (
    Vec<CubeVertex>,
    Vec<u16>,
))
    ensures
        is_cube(r.0@, r.1@, 6, |f: int| side_color(f, top, bottom, side)),
{
    let mut verts: Vec<CubeVertex> = Vec::new();
    let mut indices: Vec<u16> = Vec::new();
    let mut f: u8 = 0;
    let ghost colors = |f: int| side_color(f, top, bottom, side);
    while f < 6
        invariant
            f <= 6,
            colors == (|f: int| side_color(f, top, bottom, side)),
            is_cube(verts@, indices@, f as int, colors),
        decreases 6 - f,
    {
        let color: [u32; 4] = if f == 0 {
            top
        } else if f == 1 {
            bottom
        } else {
            side
        };
        let base: u16 = 4 * f as u16;
        let ghost before = verts@;
        let ghost ibefore = indices@;
        verts.push(cube_vertex(f, 0, color));
        verts.push(cube_vertex(f, 1, color));
        verts.push(cube_vertex(f, 2, color));
        verts.push(cube_vertex(f, 3, color));
        indices.push(base);
        indices.push(base + 1);
        indices.push(base + 2);
        indices.push(base);
        indices.push(base + 2);
        indices.push(base + 3);
        proof {
            assert forall|g: int, i: int|
                #![trigger corner(g, i)]
                0 <= g < f + 1 && 0 <= i < 4 implies is_corner(
                verts@[4 * g + i],
                g,
                i,
                colors(g),
            ) by {
                if g < f {
                    assert(verts@[4 * g + i] == before[4 * g + i]);
                    assert(is_corner(before[4 * g + i], g, i, colors(g)));
                } else {
                    assert(i == 0 || i == 1 || i == 2 || i == 3);
                }
            }
            assert forall|g: int, k: int|
                #![trigger quad(4 * g)[k]]
                0 <= g < f + 1 && 0 <= k < 6 implies indices@[6 * g + k] == quad(4 * g)[k] by {
                if g < f {
                    assert(indices@[6 * g + k] == ibefore[6 * g + k]);
                    assert(ibefore[6 * g + k] == quad(4 * g)[k]);
                } else {
                    assert(k == 0 || k == 1 || k == 2 || k == 3 || k == 4 || k == 5);
                }
            }
        }
        f += 1;
    }
    (verts, indices)
}

/// The cross product of the edges from `a` to `b` and from `a` to `c`.
pub open spec fn face_normal(a: (int, int, int), b: (int, int, int), c: (int, int, int)) -> (
    int,
    int,
    int,
) {
    let p = (b.0 - a.0, b.1 - a.1, b.2 - a.2);
    let q = (c.0 - a.0, c.1 - a.1, c.2 - a.2);
    (p.1 * q.2 - p.2 * q.1, p.2 * q.0 - p.0 * q.2, p.0 * q.1 - p.1 * q.0)
}

/// Both triangles of each side of the cube run anticlockwise when seen from
/// outside: their normals look outward.
pub proof fn law_cube_winding(f: int)
    by (nonlinear_arith)
    requires
        0 <= f < 6,
    ensures
        face_normal(corner(f, 0), corner(f, 1), corner(f, 2)) == outward(f),
        face_normal(corner(f, 0), corner(f, 2), corner(f, 3)) == outward(f),
{
    assert(f == 0 || f == 1 || f == 2 || f == 3 || f == 4 || f == 5);
}

/// A vertex of a debug line: position and colour, each number as the bits of a
/// single-precision number.
#[derive(Debug, Clone, Copy)]
pub struct DebugVertex {
    pub pos: [u32; 3],
    pub color: [u32; 4],
}

/// The corner number `k` of a box: along x first, then y, then z.
pub open spec fn box_corner(min: [u32; 3], max: [u32; 3], k: int) -> (u32, u32, u32) {
    (
        if k % 2 == 0 {
            min@[0]
        } else {
            max@[0]
        },
        if k / 2 % 2 == 0 {
            min@[1]
        } else {
            max@[1]
        },
        if k / 4 % 2 == 0 {
            min@[2]
        } else {
            max@[2]
        },
    )
}

/// The corner at which the end `j` of the twelve edges lies, two ends to an
/// edge: four edges along x, four along y, four along z.
pub open spec fn edge_corner(j: int) -> int {
    let e = j / 2;
    let far = j % 2;
    if e < 4 {
        2 * e + far
    } else if e < 8 {
        4 * ((e - 4) / 2) + (e - 4) % 2 + 2 * far
    } else {
        e - 8 + 4 * far
    }
}

/// A vertex stands at a place in a colour.
pub open spec fn stands_at(v: DebugVertex, p: (u32, u32, u32), color: [u32; 4]) -> bool {
    v.pos@[0] == p.0 && v.pos@[1] == p.1 && v.pos@[2] == p.2 && v.color == color
}

/// Adds the twelve edges of a box as pairs of vertices.
pub fn push_aabb(out: &mut Vec<DebugVertex>, min: [u32; 3], max: [u32; 3], color: [u32; 4])
    ensures
        final(out)@.len() == old(out)@.len() + 24,
        final(out)@.take(old(out)@.len() as int) == old(out)@,
        forall|j: int|
            #![trigger edge_corner(j)]
            0 <= j < 24 ==> stands_at(
                final(out)@[old(out)@.len() + j],
                box_corner(min, max, edge_corner(j)),
                color,
            ),
{
    let ghost base = out@;
    let mut j: usize = 0;
    assert(out@.take(base.len() as int) =~= base);
    while j < 24
        invariant
            j <= 24,
            out@.len() == base.len() + j,
            out@.take(base.len() as int) == base,
            forall|i: int|
                #![trigger edge_corner(i)]
                0 <= i < j ==> stands_at(
                    out@[base.len() + i],
                    box_corner(min, max, edge_corner(i)),
                    color,
                ),
        decreases 24 - j,
    {
        let e: usize = j / 2;
        let far: usize = j % 2;
        let k: usize = if e < 4 {
            2 * e + far
        } else if e < 8 {
            4 * ((e - 4) / 2) + (e - 4) % 2 + 2 * far
        } else {
            e - 8 + 4 * far
        };
        let x: u32 = if k % 2 == 0 {
            min[0]
        } else {
            max[0]
        };
        let y: u32 = if k / 2 % 2 == 0 {
            min[1]
        } else {
            max[1]
        };
        let z: u32 = if k / 4 % 2 == 0 {
            min[2]
        } else {
            max[2]
        };
        let ghost before = out@;
        out.push(DebugVertex { pos: [x, y, z], color });
        assert(out@.take(base.len() as int) =~= before.take(base.len() as int));
        assert(forall|i: int| 0 <= i < before.len() ==> out@[i] == before[i]);
        j += 1;
    }
}

/// Each edge of a box joins two corners that differ along one axis only: the
/// first four edges along x, the next four along y, the last four along z.
pub proof fn law_box_edges(e: int)
    requires
        0 <= e < 12,
    ensures
        0 <= edge_corner(2 * e) < 8,
        edge_corner(2 * e + 1) - edge_corner(2 * e) == (if e < 4 {
            1int
        } else if e < 8 {
            2int
        } else {
            4int
        }),
{
}

/// A square of four corners is two triangles, the first three corners and the
/// first, third and fourth, from whatever corner it counts.
pub proof fn law_quad(base: int, k: int)
    requires
        0 <= k < 6,
    ensures
        quad(base).len() == 6,
        quad(base)[k] == base + quad(0)[k],
        quad(0) == seq![0int, 1, 2, 0, 2, 3],
{
}

/// The corners of a cube's faces: those of a face lie on its side of the unit
/// cube and are four different ones. On the sides a picture stands upright, with its
/// top at the top of the cube and its left where a viewer sees the left edge;
/// above its top is to the north, and below to the south.
pub proof fn law_cube_faces(f: int, i: int, j: int)
    requires
        0 <= f < 6,
        0 <= i < 4,
        0 <= j < 4,
    ensures
        ({
            let c = corner(f, i);
            let t = corner_uv(f, i);
            &&& 0 <= c.0 <= 1 && 0 <= c.1 <= 1 && 0 <= c.2 <= 1
            &&& i != j ==> corner(f, i) != corner(f, j)
            &&& f == 0 ==> c.1 == 1 && t == (c.0, 1 - c.2)
            &&& f == 1 ==> c.1 == 0 && t == (c.0, c.2)
            &&& f == 2 ==> c.2 == 0 && t == (1 - c.0, 1 - c.1)
            &&& f == 3 ==> c.2 == 1 && t == (c.0, 1 - c.1)
            &&& f == 4 ==> c.0 == 1 && t == (1 - c.2, 1 - c.1)
            &&& f == 5 ==> c.0 == 0 && t == (c.2, 1 - c.1)
            &&& t.0 == 1 <==> i == 1 || i == 2
            &&& t.0 == 0 || t.0 == 1
            &&& f < 2 ==> (t.1 == 1 <==> i >= 2)
            &&& f >= 2 ==> (t.1 == 1 <==> i < 2)
            &&& t.1 == 0 || t.1 == 1
        }),
{
}

/// Outward of a face is the side of the cube that it is on.
pub proof fn law_outward(f: int, i: int)
    requires
        0 <= f < 6,
        0 <= i < 4,
    ensures
        ({
            let n = outward(f);
            let c = corner(f, i);
            &&& n.0 * n.0 + n.1 * n.1 + n.2 * n.2 == 1
            &&& n.0 != 0 ==> 2 * c.0 - 1 == n.0
            &&& n.1 != 0 ==> 2 * c.1 - 1 == n.1
            &&& n.2 != 0 ==> 2 * c.2 - 1 == n.2
        }),
{
}

/// What a cube's vertices and indices are: four vertices for each face, at
/// its corners and in its colour, and six indices into those four.
pub proof fn law_cube(
    verts: Seq<CubeVertex>,
    indices: Seq<u16>,
    n: int,
    colors: spec_fn(int) -> [u32; 4],
    f: int,
    i: int,
    k: int,
)
    requires
        is_cube(verts, indices, n, colors),
        0 <= f < n,
        0 <= i < 4,
        0 <= k < 6,
    ensures
        verts.len() == 4 * n,
        indices.len() == 6 * n,
        ({
            let v = verts[4 * f + i];
            &&& v.position@[0] == corner(f, i).0
            &&& v.position@[1] == corner(f, i).1
            &&& v.position@[2] == corner(f, i).2
            &&& v.uv@[0] == corner_uv(f, i).0
            &&& v.uv@[1] == corner_uv(f, i).1
            &&& v.face == f
            &&& v.color == colors(f)
        }),
        indices[6 * f + k] == 4 * f + quad(0)[k],
        4 * f <= indices[6 * f + k] < 4 * f + 4,
{
    assert(is_corner(verts[4 * f + i], f, i, colors(f)));
    assert(indices[6 * f + k] == quad(4 * f)[k]);
}

/// The first face has the colour of the top, the second that of the bottom,
/// and all others that of the sides.
pub proof fn law_side_color(f: int, top: [u32; 4], bottom: [u32; 4], side: [u32; 4])
    ensures
        side_color(0, top, bottom, side) == top,
        side_color(1, top, bottom, side) == bottom,
        f != 0 && f != 1 ==> side_color(f, top, bottom, side) == side,
{
}

/// The corners of a box, numbered by which of the three sides are far: the
/// last digit of the number in twos is that of x, the one before it of y, the
/// first of z.
pub proof fn law_box_corners(min: [u32; 3], max: [u32; 3], x: int, y: int, z: int)
    requires
        0 <= x <= 1,
        0 <= y <= 1,
        0 <= z <= 1,
    ensures
        ({
            let c = box_corner(min, max, x + 2 * y + 4 * z);
            &&& c.0 == if x == 0 { min@[0] } else { max@[0] }
            &&& c.1 == if y == 0 { min@[1] } else { max@[1] }
            &&& c.2 == if z == 0 { min@[2] } else { max@[2] }
        }),
{
    let k = x + 2 * y + 4 * z;
    assert(k % 2 == x);
    assert(k / 2 % 2 == y);
    assert(k / 4 % 2 == z);
}

/// The edges of a box: four along x, four along y, four along z, each from a
/// near corner to the far one beside it, and no edge twice.
pub proof fn law_edges_differ(e: int, d: int)
    requires
        0 <= e < d < 12,
    ensures
        edge_corner(2 * e) != edge_corner(2 * d) || edge_corner(2 * e + 1) != edge_corner(2 * d + 1),
        e < 4 ==> edge_corner(2 * e) % 2 == 0,
        4 <= e < 8 ==> edge_corner(2 * e) / 2 % 2 == 0,
        8 <= e ==> edge_corner(2 * e) / 4 == 0,
        0 <= edge_corner(2 * e) < edge_corner(2 * e + 1) < 8,
        e < 4 ==> edge_corner(2 * e + 1) == edge_corner(2 * e) + 1,
        4 <= e < 8 ==> edge_corner(2 * e + 1) == edge_corner(2 * e) + 2,
        8 <= e ==> edge_corner(2 * e + 1) == edge_corner(2 * e) + 4,
{
}

/// A vertex of a line stands at its place in its colour.
pub proof fn law_stands_at(v: DebugVertex, p: (u32, u32, u32), color: [u32; 4])
    ensures
        stands_at(v, p, color) <==> v.pos@ == seq![p.0, p.1, p.2] && v.color == color,
{
    if stands_at(v, p, color) {
        assert(v.pos@ =~= seq![p.0, p.1, p.2]);
    }
}

} // verus!
