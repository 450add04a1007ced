use vstd::prelude::*;

use vstd::seq_lib::lemma_concat_associative;

use crate::voxel::{ComponentVariants, IVec3, Voxel, VoxelType};

verus! {

/// Mesh coordinates are counted in fortieths of a block: a block spans from
/// -20 to 20 on each axis around its centre.
pub const UNITS_PER_BLOCK: i32 = 40;

/// Half the side of a block, in mesh units.
pub const BLOCK_HALF: i32 = 20;

/// Half the thickness of a cable arm (0.3 of a block), in mesh units.
pub const CABLE_HALF: i32 = 6;

/// Half the side of the core of a cable end with at most one connection
/// (0.5 of a block), in mesh units.
pub const END_CORE_HALF: i32 = 10;

/// The texture atlas has one column per face of a block.
pub const ATLAS_COLUMNS: usize = 6;

/// A corner of a tile of the texture atlas: the column edge, in sixths of the
/// atlas width, and the row edge, in rows of the atlas (one row per voxel kind).
#[derive(Clone, Copy, Debug, PartialEq, Eq, Structural)]
pub struct AtlasCorner {
    pub column: usize,
    pub row: usize,
}

/// A box-shaped part of a mesh: its half extents and its centre, in mesh units.
#[derive(Clone, Copy, Debug, PartialEq, Eq, Structural)]
pub struct Cuboid {
    pub half: IVec3,
    pub center: IVec3,
}

/// A triangle mesh: vertex positions (in mesh units), texture corners and
/// face normals (unit axis vectors), one of each per vertex, and the vertex
/// indices of the triangles, three per triangle.
pub struct MeshData {
    pub positions: Vec<IVec3>,
    pub uvs: Vec<AtlasCorner>,
    pub normals: Vec<IVec3>,
    pub indices: Vec<u32>,
}

/// The signs of the two in-plane coordinates of corner `c` of a face, in
/// one of the three corner orders that faces use.
pub open spec fn corner_signs(pattern: int, c: int) -> (bool, bool) {
    if pattern == 0 {
        if c == 0 {
            (false, false)
        } else if c == 1 {
            (false, true)
        } else if c == 2 {
            (true, true)
        } else {
            (true, false)
        }
    } else if pattern == 1 {
        if c == 0 {
            (false, false)
        } else if c == 1 {
            (true, false)
        } else if c == 2 {
            (true, true)
        } else {
            (false, true)
        }
    } else {
        if c == 0 {
            (false, true)
        } else if c == 1 {
            (true, true)
        } else if c == 2 {
            (true, false)
        } else {
            (false, false)
        }
    }
}

/// The coordinate `center` moved by `half` to the positive or the negative side.
pub open spec fn edge(center: i32, half: i32, positive: bool) -> i32 {
    if positive {
        (center + half) as i32
    } else {
        (center - half) as i32
    }
}

/// Corner `c` of the face of `b` that looks along `axis` (0 = x, 1 = y, 2 = z)
/// to the positive side or not. The two other coordinates are taken in the
/// order (y, z), (x, z) or (x, y).
pub open spec fn quad_corner(b: Cuboid, axis: int, positive: bool, pattern: int, c: int) -> IVec3 {
    let (s, t) = corner_signs(pattern, c);
    if axis == 0 {
        IVec3 {
            x: edge(b.center.x, b.half.x, positive),
            y: edge(b.center.y, b.half.y, s),
            z: edge(b.center.z, b.half.z, t),
        }
    } else if axis == 1 {
        IVec3 {
            x: edge(b.center.x, b.half.x, s),
            y: edge(b.center.y, b.half.y, positive),
            z: edge(b.center.z, b.half.z, t),
        }
    } else {
        IVec3 {
            x: edge(b.center.x, b.half.x, s),
            y: edge(b.center.y, b.half.y, t),
            z: edge(b.center.z, b.half.z, positive),
        }
    }
}

/// How face `f` of a part is laid out, for a whole block or for a cable part:
/// the axis it looks along, whether it looks to the positive side, its corner
/// order, its texture-corner order and how it is cut into two triangles.
/// Block faces come in the order +Y, -Y, +X, -X, +Z, -Z; cable faces in the
/// order +Y, -Y, +X, -X, -Z, +Z.
pub open spec fn face_layout(block: bool, f: int) -> (int, bool, int, int, int) {
    if block {
        if f == 0 {
            (1, true, 1, 0, 1)
        } else if f == 1 {
            (1, false, 1, 0, 2)
        } else if f == 2 {
            (0, true, 0, 1, 1)
        } else if f == 3 {
            (0, false, 0, 2, 2)
        } else if f == 4 {
            (2, true, 0, 0, 1)
        } else {
            (2, false, 0, 3, 2)
        }
    } else {
        if f == 0 {
            (1, true, 0, 0, 0)
        } else if f == 1 {
            (1, false, 1, 1, 0)
        } else if f == 2 {
            (0, true, 1, 0, 0)
        } else if f == 3 {
            (0, false, 2, 2, 0)
        } else if f == 4 {
            (2, false, 0, 0, 0)
        } else {
            (2, true, 1, 1, 0)
        }
    }
}

/// Which of the four default tile corners texture corner `c` takes, in one of
/// the four texture-corner orders.
pub open spec fn uv_order(order: int, c: int) -> int {
    if order == 0 {
        c
    } else if order == 1 {
        if c == 0 {
            0
        } else {
            4 - c
        }
    } else if order == 2 {
        if c == 0 {
            3
        } else {
            c - 1
        }
    } else {
        3 - c
    }
}

/// Default corner `k` of the tile in atlas column `column` and row `row`:
/// left-bottom, left-top, right-top, right-bottom.
pub open spec fn tile_corner(column: int, k: int, row: int) -> AtlasCorner {
    if k == 0 {
        AtlasCorner { column: column as usize, row: (row + 1) as usize }
    } else if k == 1 {
        AtlasCorner { column: column as usize, row: row as usize }
    } else if k == 2 {
        AtlasCorner { column: (column + 1) as usize, row: row as usize }
    } else {
        AtlasCorner { column: (column + 1) as usize, row: (row + 1) as usize }
    }
}

/// The face corner that vertex `j` of the two triangles of a face takes, in
/// one of the three ways of cutting a face.
pub open spec fn triangle_corner(cut: int, j: int) -> int {
    if cut == 0 {
        if j < 3 {
            j
        } else if j == 3 {
            0
        } else {
            j - 2
        }
    } else if cut == 1 {
        if j == 0 {
            0
        } else if j == 1 || j == 4 {
            3
        } else if j == 2 || j == 3 {
            1
        } else {
            2
        }
    } else {
        if j == 0 {
            0
        } else if j == 1 || j == 3 {
            1
        } else if j == 2 || j == 5 {
            3
        } else {
            2
        }
    }
}

/// The unit vector along `axis`, to the positive side or not.
pub open spec fn axis_normal(axis: int, positive: bool) -> IVec3 {
    let s: i32 = if positive {
        1
    } else {
        -1i32
    };
    if axis == 0 {
        IVec3 { x: s, y: 0, z: 0 }
    } else if axis == 1 {
        IVec3 { x: 0, y: s, z: 0 }
    } else {
        IVec3 { x: 0, y: 0, z: s }
    }
}

/// The four corner positions of face `f` of `b`.
pub open spec fn face_positions(b: Cuboid, block: bool, f: int) -> Seq<IVec3> {
    let (axis, positive, pattern, _u, _t) = face_layout(block, f);
    seq![
        quad_corner(b, axis, positive, pattern, 0),
        quad_corner(b, axis, positive, pattern, 1),
        quad_corner(b, axis, positive, pattern, 2),
        quad_corner(b, axis, positive, pattern, 3),
    ]
}

/// The four texture corners of face `f`: face `f` takes atlas column `f` of
/// the row of its voxel kind.
pub open spec fn face_uvs(block: bool, f: int, row: int) -> Seq<AtlasCorner> {
    let order = face_layout(block, f).3;
    seq![
        tile_corner(f, uv_order(order, 0), row),
        tile_corner(f, uv_order(order, 1), row),
        tile_corner(f, uv_order(order, 2), row),
        tile_corner(f, uv_order(order, 3), row),
    ]
}

/// The normal of face `f`, once per corner.
pub open spec fn face_normals(block: bool, f: int) -> Seq<IVec3> {
    let n = axis_normal(face_layout(block, f).0, face_layout(block, f).1);
    seq![n, n, n, n]
}

/// The six triangle indices of face `f` of a part whose first vertex is
/// vertex `base`.
pub open spec fn face_indices(block: bool, f: int, base: int) -> Seq<u32> {
    let cut = face_layout(block, f).4;
    Seq::new(6, |j: int| (base + 4 * f + triangle_corner(cut, j)) as u32)
}

/// The 24 vertex positions of part `b`, face by face.
pub open spec fn cuboid_positions(b: Cuboid, block: bool) -> Seq<IVec3> {
    face_positions(b, block, 0) + face_positions(b, block, 1) + face_positions(b, block, 2)
        + face_positions(b, block, 3) + face_positions(b, block, 4) + face_positions(b, block, 5)
}

/// The 24 texture corners of a part.
pub open spec fn cuboid_uvs(block: bool, row: int) -> Seq<AtlasCorner> {
    face_uvs(block, 0, row) + face_uvs(block, 1, row) + face_uvs(block, 2, row) + face_uvs(
        block,
        3,
        row,
    ) + face_uvs(block, 4, row) + face_uvs(block, 5, row)
}

/// The 24 normals of a part.
pub open spec fn cuboid_normals(block: bool) -> Seq<IVec3> {
    face_normals(block, 0) + face_normals(block, 1) + face_normals(block, 2) + face_normals(
        block,
        3,
    ) + face_normals(block, 4) + face_normals(block, 5)
}

/// The 36 triangle indices of a part whose first vertex is vertex `base`.
pub open spec fn cuboid_indices(block: bool, base: int) -> Seq<u32> {
    face_indices(block, 0, base) + face_indices(block, 1, base) + face_indices(block, 2, base)
        + face_indices(block, 3, base) + face_indices(block, 4, base) + face_indices(
        block,
        5,
        base,
    )
}

/// The vertex positions of a mesh made of `parts`, part by part.
pub open spec fn parts_positions(parts: Seq<Cuboid>, block: bool) -> Seq<IVec3>
    decreases parts.len(),
{
    if parts.len() == 0 {
        Seq::empty()
    } else {
        parts_positions(parts.drop_last(), block) + cuboid_positions(parts.last(), block)
    }
}

/// The texture corners of a mesh of `n` parts.
pub open spec fn parts_uvs(n: nat, block: bool, row: int) -> Seq<AtlasCorner>
    decreases n,
{
    if n == 0 {
        Seq::empty()
    } else {
        parts_uvs((n - 1) as nat, block, row) + cuboid_uvs(block, row)
    }
}

/// The normals of a mesh of `n` parts.
pub open spec fn parts_normals(n: nat, block: bool) -> Seq<IVec3>
    decreases n,
{
    if n == 0 {
        Seq::empty()
    } else {
        parts_normals((n - 1) as nat, block) + cuboid_normals(block)
    }
}

/// The triangle indices of a mesh of `n` parts: part `k` starts at vertex `24 k`.
pub open spec fn parts_indices(n: nat, block: bool) -> Seq<u32>
    decreases n,
{
    if n == 0 {
        Seq::empty()
    } else {
        parts_indices((n - 1) as nat, block) + cuboid_indices(block, 24 * (n - 1))
    }
}

/// `m` is the mesh made of `parts`, textured from atlas row `row`.
pub open spec fn mesh_of(m: MeshData, parts: Seq<Cuboid>, block: bool, row: int) -> bool {
    &&& m.positions@ == parts_positions(parts, block)
    &&& m.uvs@ == parts_uvs(parts.len(), block, row)
    &&& m.normals@ == parts_normals(parts.len(), block)
    &&& m.indices@ == parts_indices(parts.len(), block)
}

/// `b` lies inside the block around the origin.
pub open spec fn inside_block(b: Cuboid) -> bool {
    &&& 0 <= b.half.x && 0 <= b.half.y && 0 <= b.half.z
    &&& -BLOCK_HALF <= b.center.x - b.half.x && b.center.x + b.half.x <= BLOCK_HALF
    &&& -BLOCK_HALF <= b.center.y - b.half.y && b.center.y + b.half.y <= BLOCK_HALF
    &&& -BLOCK_HALF <= b.center.z - b.half.z && b.center.z + b.half.z <= BLOCK_HALF
}

/// Exec counterpart of [`corner_signs`].
fn corner_signs_exec(pattern: u8, c: u8) -> (r: (bool, bool))
    requires
        pattern < 3,
        c < 4,
    ensures
        r == corner_signs(pattern as int, c as int),
{
    if pattern == 0 {
        if c == 0 {
            (false, false)
        } else if c == 1 {
            (false, true)
        } else if c == 2 {
            (true, true)
        } else {
            (true, false)
        }
    } else if pattern == 1 {
        if c == 0 {
            (false, false)
        } else if c == 1 {
            (true, false)
        } else if c == 2 {
            (true, true)
        } else {
            (false, true)
        }
    } else {
        if c == 0 {
            (false, true)
        } else if c == 1 {
            (true, true)
        } else if c == 2 {
            (true, false)
        } else {
            (false, false)
        }
    }
}

fn edge_exec(center: i32, half: i32, positive: bool) -> (r: i32)
    requires
        -BLOCK_HALF <= center - half,
        center + half <= BLOCK_HALF,
        0 <= half,
    ensures
        r == edge(center, half, positive),
{
    if positive {
        center + half
    } else {
        center - half
    }
}

fn quad_corner_exec(b: Cuboid, axis: u8, positive: bool, pattern: u8, c: u8) -> (r: IVec3)
    requires
        inside_block(b),
        axis < 3,
        pattern < 3,
        c < 4,
    ensures
        r == quad_corner(b, axis as int, positive, pattern as int, c as int),
{
    let (s, t) = corner_signs_exec(pattern, c);
    if axis == 0 {
        IVec3 {
            x: edge_exec(b.center.x, b.half.x, positive),
            y: edge_exec(b.center.y, b.half.y, s),
            z: edge_exec(b.center.z, b.half.z, t),
        }
    } else if axis == 1 {
        IVec3 {
            x: edge_exec(b.center.x, b.half.x, s),
            y: edge_exec(b.center.y, b.half.y, positive),
            z: edge_exec(b.center.z, b.half.z, t),
        }
    } else {
        IVec3 {
            x: edge_exec(b.center.x, b.half.x, s),
            y: edge_exec(b.center.y, b.half.y, t),
            z: edge_exec(b.center.z, b.half.z, positive),
        }
    }
}

/// Exec counterpart of [`face_layout`].
fn face_layout_exec(block: bool, f: u8) -> (r: (u8, bool, u8, u8, u8))
    requires
        f < 6,
    ensures
        r.0 as int == face_layout(block, f as int).0,
        r.1 == face_layout(block, f as int).1,
        r.2 as int == face_layout(block, f as int).2,
        r.3 as int == face_layout(block, f as int).3,
        r.4 as int == face_layout(block, f as int).4,
        r.0 < 3 && r.2 < 3 && r.3 < 4 && r.4 < 3,
{
    if block {
        if f == 0 {
            (1, true, 1, 0, 1)
        } else if f == 1 {
            (1, false, 1, 0, 2)
        } else if f == 2 {
            (0, true, 0, 1, 1)
        } else if f == 3 {
            (0, false, 0, 2, 2)
        } else if f == 4 {
            (2, true, 0, 0, 1)
        } else {
            (2, false, 0, 3, 2)
        }
    } else {
        if f == 0 {
            (1, true, 0, 0, 0)
        } else if f == 1 {
            (1, false, 1, 1, 0)
        } else if f == 2 {
            (0, true, 1, 0, 0)
        } else if f == 3 {
            (0, false, 2, 2, 0)
        } else if f == 4 {
            (2, false, 0, 0, 0)
        } else {
            (2, true, 1, 1, 0)
        }
    }
}

fn tile_corner_exec(column: usize, order: u8, c: u8, row: usize) -> (r: AtlasCorner)
    requires
        column < ATLAS_COLUMNS,
        order < 4,
        c < 4,
        row < usize::MAX,
    ensures
        r == tile_corner(column as int, uv_order(order as int, c as int), row as int),
{
    let k: u8 = if order == 0 {
        c
    } else if order == 1 {
        if c == 0 {
            0
        } else {
            4 - c
        }
    } else if order == 2 {
        if c == 0 {
            3
        } else {
            c - 1
        }
    } else {
        3 - c
    };
    if k == 0 {
        AtlasCorner { column, row: row + 1 }
    } else if k == 1 {
        AtlasCorner { column, row }
    } else if k == 2 {
        AtlasCorner { column: column + 1, row }
    } else {
        AtlasCorner { column: column + 1, row: row + 1 }
    }
}

fn axis_normal_exec(axis: u8, positive: bool) -> (r: IVec3)
    requires
        axis < 3,
    ensures
        r == axis_normal(axis as int, positive),
{
    let s: i32 = if positive {
        1
    } else {
        -1
    };
    if axis == 0 {
        IVec3 { x: s, y: 0, z: 0 }
    } else if axis == 1 {
        IVec3 { x: 0, y: s, z: 0 }
    } else {
        IVec3 { x: 0, y: 0, z: s }
    }
}

fn triangle_corner_exec(cut: u8, j: u8) -> (r: u32)
    requires
        cut < 3,
        j < 6,
    ensures
        r == triangle_corner(cut as int, j as int),
        r < 4,
{
    if cut == 0 {
        if j < 3 {
            j as u32
        } else if j == 3 {
            0
        } else {
            (j - 2) as u32
        }
    } else if cut == 1 {
        if j == 0 {
            0
        } else if j == 1 || j == 4 {
            3
        } else if j == 2 || j == 3 {
            1
        } else {
            2
        }
    } else {
        if j == 0 {
            0
        } else if j == 1 || j == 3 {
            1
        } else if j == 2 || j == 5 {
            3
        } else {
            2
        }
    }
}

impl MeshData {
    /// A mesh without vertices.
    pub fn empty() -> (r: MeshData)
        ensures
            r.positions@.len() == 0,
            r.uvs@.len() == 0,
            r.normals@.len() == 0,
            r.indices@.len() == 0,
    {
        MeshData { positions: Vec::new(), uvs: Vec::new(), normals: Vec::new(), indices: Vec::new() }
    }
}

/// Appends face `f` of part `b` to `m`; the part's first vertex is `base`.
fn push_face(m: &mut MeshData, b: Cuboid, block: bool, f: u8, base: u32, row: usize)
    requires
        inside_block(b),
        f < 6,
        row < usize::MAX,
        base + 24 <= u32::MAX,
    ensures
        final(m).positions@ == old(m).positions@ + face_positions(b, block, f as int),
        final(m).uvs@ == old(m).uvs@ + face_uvs(block, f as int, row as int),
        final(m).normals@ == old(m).normals@ + face_normals(block, f as int),
        final(m).indices@ == old(m).indices@ + face_indices(block, f as int, base as int),
{
    let (axis, positive, pattern, order, cut) = face_layout_exec(block, f);
    let mut c: u8 = 0;
    while c < 4
        invariant
            c <= 4,
            inside_block(b),
            f < 6,
            row < usize::MAX,
            axis < 3 && pattern < 3 && order < 4,
            axis as int == face_layout(block, f as int).0,
            positive == face_layout(block, f as int).1,
            pattern as int == face_layout(block, f as int).2,
            order as int == face_layout(block, f as int).3,
            m.positions@ == old(m).positions@ + face_positions(b, block, f as int).take(c as int),
            m.uvs@ == old(m).uvs@ + face_uvs(block, f as int, row as int).take(c as int),
            m.normals@ == old(m).normals@ + face_normals(block, f as int).take(c as int),
            m.indices@ == old(m).indices@,
        decreases 4 - c,
    {
        m.positions.push(quad_corner_exec(b, axis, positive, pattern, c));
        m.uvs.push(tile_corner_exec(f as usize, order, c, row));
        m.normals.push(axis_normal_exec(axis, positive));
        assert(face_positions(b, block, f as int).take(c + 1) =~= face_positions(
            b,
            block,
            f as int,
        ).take(c as int).push(quad_corner(b, axis as int, positive, pattern as int, c as int)));
        assert(face_uvs(block, f as int, row as int).take(c + 1) =~= face_uvs(
            block,
            f as int,
            row as int,
        ).take(c as int).push(tile_corner(f as int, uv_order(order as int, c as int), row as int)));
        assert(face_normals(block, f as int).take(c + 1) =~= face_normals(block, f as int).take(
            c as int,
        ).push(axis_normal(axis as int, positive)));
        c = c + 1;
    }
    assert(face_positions(b, block, f as int).take(4) =~= face_positions(b, block, f as int));
    assert(face_uvs(block, f as int, row as int).take(4) =~= face_uvs(block, f as int, row as int));
    assert(face_normals(block, f as int).take(4) =~= face_normals(block, f as int));
    let first = base + 4 * (f as u32);
    let mut j: u8 = 0;
    while j < 6
        invariant
            j <= 6,
            cut < 3,
            cut as int == face_layout(block, f as int).4,
            first == base + 4 * f,
            base + 24 <= u32::MAX,
            f < 6,
            m.positions@ == old(m).positions@ + face_positions(b, block, f as int),
            m.uvs@ == old(m).uvs@ + face_uvs(block, f as int, row as int),
            m.normals@ == old(m).normals@ + face_normals(block, f as int),
            m.indices@ == old(m).indices@ + face_indices(block, f as int, base as int).take(
                j as int,
            ),
        decreases 6 - j,
    {
        let k = triangle_corner_exec(cut, j);
        m.indices.push(first + k);
        assert(face_indices(block, f as int, base as int).take(j + 1) =~= face_indices(
            block,
            f as int,
            base as int,
        ).take(j as int).push((first + k) as u32));
        j = j + 1;
    }
    assert(face_indices(block, f as int, base as int).take(6) =~= face_indices(
        block,
        f as int,
        base as int,
    ));
}

/// Appends part `b` to `m`, six faces of four vertices each.
fn push_cuboid(m: &mut MeshData, b: Cuboid, block: bool, row: usize, Ghost(parts): Ghost<Seq<Cuboid>>)
    requires
        inside_block(b),
        row < usize::MAX,
        mesh_of(*old(m), parts, block, row as int),
        24 * parts.len() + 24 <= u32::MAX,
    ensures
        mesh_of(*final(m), parts.push(b), block, row as int),
{
    proof {
        lemma_parts_positions_len(parts, block);
    }
    let base = m.positions.len() as u32;
    let ghost m0 = *m;
    push_face(m, b, block, 0, base, row);
    push_face(m, b, block, 1, base, row);
    push_face(m, b, block, 2, base, row);
    push_face(m, b, block, 3, base, row);
    push_face(m, b, block, 4, base, row);
    push_face(m, b, block, 5, base, row);
    proof {
        let p = parts.push(b);
        assert(p.drop_last() =~= parts);
        lemma_concat6(
            m0.positions@,
            face_positions(b, block, 0),
            face_positions(b, block, 1),
            face_positions(b, block, 2),
            face_positions(b, block, 3),
            face_positions(b, block, 4),
            face_positions(b, block, 5),
        );
        lemma_concat6(
            m0.uvs@,
            face_uvs(block, 0, row as int),
            face_uvs(block, 1, row as int),
            face_uvs(block, 2, row as int),
            face_uvs(block, 3, row as int),
            face_uvs(block, 4, row as int),
            face_uvs(block, 5, row as int),
        );
        lemma_concat6(
            m0.normals@,
            face_normals(block, 0),
            face_normals(block, 1),
            face_normals(block, 2),
            face_normals(block, 3),
            face_normals(block, 4),
            face_normals(block, 5),
        );
        lemma_concat6(
            m0.indices@,
            face_indices(block, 0, base as int),
            face_indices(block, 1, base as int),
            face_indices(block, 2, base as int),
            face_indices(block, 3, base as int),
            face_indices(block, 4, base as int),
            face_indices(block, 5, base as int),
        );
    }
}

/// Appending six sequences one after the other appends their concatenation.
proof fn lemma_concat6<A>(o: Seq<A>, a: Seq<A>, b: Seq<A>, c: Seq<A>, d: Seq<A>, e: Seq<A>, f: Seq<A>)
    ensures
        o + a + b + c + d + e + f == o + (a + b + c + d + e + f),
{
    lemma_concat_associative(o, a, b);
    lemma_concat_associative(o, a + b, c);
    lemma_concat_associative(o, a + b + c, d);
    lemma_concat_associative(o, a + b + c + d, e);
    lemma_concat_associative(o, a + b + c + d + e, f);
}

/// A mesh of `n` parts has 24 vertices per part.
pub proof fn lemma_parts_positions_len(parts: Seq<Cuboid>, block: bool)
    ensures
        parts_positions(parts, block).len() == 24 * parts.len(),
    decreases parts.len(),
{
    if parts.len() > 0 {
        lemma_parts_positions_len(parts.drop_last(), block);
    }
}

/// A whole block: half side 20 around the origin.
pub open spec fn unit_block() -> Cuboid {
    Cuboid {
        half: IVec3 { x: BLOCK_HALF, y: BLOCK_HALF, z: BLOCK_HALF },
        center: IVec3 { x: 0, y: 0, z: 0 },
    }
}

/// The mesh of a whole block textured from atlas row `tile_row`: one part,
/// the unit block, with faces in the order +Y, -Y, +X, -X, +Z, -Z; face `f`
/// takes atlas column `f`.
pub fn create_voxel_mesh(tile_row: usize) -> (r: MeshData)
    requires
        tile_row < usize::MAX,
    ensures
        mesh_of(r, seq![unit_block()], true, tile_row as int),
        r.indices@.len() == 36,
        forall|t: int| 0 <= t < 12 ==> #[trigger] triangle_faces_out(r.positions@, r.normals@, r.indices@, t),
{
    let mut m = MeshData::empty();
    let b = Cuboid { half: IVec3::new(BLOCK_HALF, BLOCK_HALF, BLOCK_HALF), center: IVec3::new(0, 0, 0) };
    proof {
        assert(m.positions@ =~= parts_positions(Seq::<Cuboid>::empty(), true));
        assert(m.uvs@ =~= parts_uvs(0, true, tile_row as int));
        assert(m.normals@ =~= parts_normals(0, true));
        assert(m.indices@ =~= parts_indices(0, true));
    }
    push_cuboid(&mut m, b, true, tile_row, Ghost(Seq::empty()));
    assert(Seq::<Cuboid>::empty().push(b) =~= seq![unit_block()]);
    proof {
        lemma_block_mesh_faces_outward(m, tile_row as int);
    }
    m
}


/// The number of `true` entries of `s`.
pub open spec fn count_true(s: Seq<bool>) -> nat
    decreases s.len(),
{
    if s.len() == 0 {
        0
    } else {
        count_true(s.drop_last()) + if s.last() {
            1nat
        } else {
            0nat
        }
    }
}

/// Half the side of the core of a cable with the given connections: a cable
/// with at most one connection has a larger core (0.5 of a block) than one
/// that links two or more neighbours (0.3 of a block).
pub open spec fn core_half(connections: Seq<bool>) -> i32 {
    if count_true(connections) <= 1 {
        END_CORE_HALF
    } else {
        CABLE_HALF
    }
}

/// The core of a cable: a cube around the centre of the block.
pub open spec fn cable_core(connections: Seq<bool>) -> Cuboid {
    let h = core_half(connections);
    Cuboid { half: IVec3 { x: h, y: h, z: h }, center: IVec3 { x: 0, y: 0, z: 0 } }
}

/// The mesh-space direction in which the arm for neighbour `d` reaches out.
/// Neighbours are numbered +X, -X, +Y, -Y, +Z, -Z; the mesh is drawn turned
/// half a turn about the vertical axis, so the arms for the X and Z
/// neighbours point the other way in mesh space.
pub open spec fn arm_direction(d: int) -> IVec3 {
    if d == 0 {
        IVec3 { x: -1i32, y: 0, z: 0 }
    } else if d == 1 {
        IVec3 { x: 1, y: 0, z: 0 }
    } else if d == 2 {
        IVec3 { x: 0, y: 1, z: 0 }
    } else if d == 3 {
        IVec3 { x: 0, y: -1i32, z: 0 }
    } else if d == 4 {
        IVec3 { x: 0, y: 0, z: -1i32 }
    } else {
        IVec3 { x: 0, y: 0, z: 1 }
    }
}

/// The arm of a cable towards neighbour `d`: a bar of the cable's thickness
/// from the face of the core to the face of the block.
pub open spec fn cable_arm(connections: Seq<bool>, d: int) -> Cuboid {
    let h = core_half(connections);
    let e = ((BLOCK_HALF - h) / 2) as i32;
    let o = (h + e) as i32;
    let dir = arm_direction(d);
    Cuboid {
        half: IVec3 {
            x: if dir.x != 0 { e } else { CABLE_HALF },
            y: if dir.y != 0 { e } else { CABLE_HALF },
            z: if dir.z != 0 { e } else { CABLE_HALF },
        },
        center: IVec3 { x: toward(dir.x, o), y: toward(dir.y, o), z: toward(dir.z, o) },
    }
}

/// The distance `o` taken along a direction component: forwards, backwards
/// or not at all.
pub open spec fn toward(c: i32, o: i32) -> i32 {
    if c > 0 {
        o
    } else if c < 0 {
        (-o) as i32
    } else {
        0
    }
}

/// The arms for the first `k` neighbours that are connected, in neighbour order.
pub open spec fn cable_arms(connections: Seq<bool>, k: int) -> Seq<Cuboid>
    decreases k,
{
    if k <= 0 {
        Seq::empty()
    } else if connections[k - 1] {
        cable_arms(connections, k - 1).push(cable_arm(connections, k - 1))
    } else {
        cable_arms(connections, k - 1)
    }
}

/// The parts of a cable mesh: the core, then one arm per connected neighbour.
pub open spec fn cable_parts(connections: Seq<bool>) -> Seq<Cuboid> {
    seq![cable_core(connections)] + cable_arms(connections, 6)
}

fn toward_exec(c: i32, o: i32) -> (r: i32)
    requires
        0 <= o <= BLOCK_HALF,
    ensures
        r == toward(c, o),
{
    if c > 0 {
        o
    } else if c < 0 {
        -o
    } else {
        0
    }
}

fn cable_arm_exec(h: i32, d: usize, Ghost(connections): Ghost<Seq<bool>>) -> (r: Cuboid)
    requires
        h == core_half(connections),
        d < 6,
    ensures
        r == cable_arm(connections, d as int),
        inside_block(r),
{
    let e = (BLOCK_HALF - h) / 2;
    let o = h + e;
    let (dx, dy, dz): (i32, i32, i32) = if d == 0 {
        (-1, 0, 0)
    } else if d == 1 {
        (1, 0, 0)
    } else if d == 2 {
        (0, 1, 0)
    } else if d == 3 {
        (0, -1, 0)
    } else if d == 4 {
        (0, 0, -1)
    } else {
        (0, 0, 1)
    };
    Cuboid {
        half: IVec3 {
            x: if dx != 0 { e } else { CABLE_HALF },
            y: if dy != 0 { e } else { CABLE_HALF },
            z: if dz != 0 { e } else { CABLE_HALF },
        },
        center: IVec3 { x: toward_exec(dx, o), y: toward_exec(dy, o), z: toward_exec(dz, o) },
    }
}

/// The mesh of a cable textured from atlas row `tile_row`, linked towards the
/// neighbours flagged in `connections` (in the order +X, -X, +Y, -Y, +Z, -Z):
/// a core, larger when at most one neighbour is linked, and an arm from the
/// core to the face of the block for each linked neighbour.
pub fn create_cable_mesh(tile_row: usize, connections: [bool; 6]) -> (r: MeshData)
    requires
        tile_row < usize::MAX,
    ensures
        mesh_of(r, cable_parts(connections@), false, tile_row as int),
        r.indices@.len() == 36 * cable_parts(connections@).len(),
        forall|t: int|
            0 <= t < r.indices@.len() / 3 ==> #[trigger] triangle_faces_out(r.positions@, r.normals@, r.indices@, t),
{
    let ghost conns = connections@;
    let mut count: usize = 0;
    let mut i: usize = 0;
    while i < 6
        invariant
            i <= 6,
            conns == connections@,
            count == count_true(conns.take(i as int)),
            count <= i,
        decreases 6 - i,
    {
        assert(conns.take(i + 1).drop_last() =~= conns.take(i as int));
        if connections[i] {
            count = count + 1;
        }
        i = i + 1;
    }
    assert(conns.take(6) =~= conns);
    let h: i32 = if count <= 1 {
        END_CORE_HALF
    } else {
        CABLE_HALF
    };
    let mut m = MeshData::empty();
    proof {
        assert(m.positions@ =~= parts_positions(Seq::<Cuboid>::empty(), false));
        assert(m.uvs@ =~= parts_uvs(0, false, tile_row as int));
        assert(m.normals@ =~= parts_normals(0, false));
        assert(m.indices@ =~= parts_indices(0, false));
    }
    let core = Cuboid { half: IVec3::new(h, h, h), center: IVec3::new(0, 0, 0) };
    push_cuboid(&mut m, core, false, tile_row, Ghost(Seq::empty()));
    assert(Seq::<Cuboid>::empty().push(core) =~= seq![cable_core(conns)] + cable_arms(conns, 0));
    let mut d: usize = 0;
    while d < 6
        invariant
            d <= 6,
            conns == connections@,
            h == core_half(conns),
            tile_row < usize::MAX,
            mesh_of(m, seq![cable_core(conns)] + cable_arms(conns, d as int), false, tile_row as int),
            cable_arms(conns, d as int).len() <= d,
        decreases 6 - d,
    {
        if connections[d] {
            let arm = cable_arm_exec(h, d, Ghost(conns));
            push_cuboid(
                &mut m,
                arm,
                false,
                tile_row,
                Ghost(seq![cable_core(conns)] + cable_arms(conns, d as int)),
            );
            assert((seq![cable_core(conns)] + cable_arms(conns, d as int)).push(arm) =~= seq![
                cable_core(conns),
            ] + cable_arms(conns, d + 1));
        } else {
            assert(cable_arms(conns, d + 1) == cable_arms(conns, d as int));
        }
        d = d + 1;
    }
    proof {
        lemma_cable_mesh_faces_outward(m, connections@, tile_row as int);
    }
    m
}

/// The triangles of a mesh of `n` parts only use its vertices: every index
/// is below `24 n`.
pub proof fn lemma_indices_in_range(n: nat, block: bool)
    ensures
        forall|i: int| 0 <= i < parts_indices(n, block).len() ==> #[trigger] parts_indices(n, block)[i] < 24 * n,
        parts_indices(n, block).len() == 36 * n,
    decreases n,
{
    if n > 0 {
        lemma_indices_in_range((n - 1) as nat, block);
        let prev = parts_indices((n - 1) as nat, block);
        let last = cuboid_indices(block, 24 * (n - 1));
        assert forall|i: int| 0 <= i < parts_indices(n, block).len() implies #[trigger] parts_indices(n, block)[i] < 24 * n by {
            if i >= prev.len() {
                let k = i - prev.len();
                let f = k / 6;
                let j = k % 6;
                assert(0 <= f < 6);
                assert(last[k] == face_indices(block, f, 24 * (n - 1))[j]);
            }
        }
    }
}

/// Each arm of a cable runs from the face of the core to the face of the
/// block, along its direction, with the cable's thickness across it.
pub proof fn lemma_arm_spans_core_to_face(connections: Seq<bool>, d: int)
    requires
        0 <= d < 6,
    ensures
        ({
            let a = cable_arm(connections, d);
            let dir = arm_direction(d);
            let h = core_half(connections);
            &&& inside_block(a)
            &&& dir.x > 0 ==> a.center.x + a.half.x == BLOCK_HALF && a.center.x - a.half.x == h
            &&& dir.x < 0 ==> a.center.x - a.half.x == -BLOCK_HALF && a.center.x + a.half.x == -h
            &&& dir.y > 0 ==> a.center.y + a.half.y == BLOCK_HALF && a.center.y - a.half.y == h
            &&& dir.y < 0 ==> a.center.y - a.half.y == -BLOCK_HALF && a.center.y + a.half.y == -h
            &&& dir.z > 0 ==> a.center.z + a.half.z == BLOCK_HALF && a.center.z - a.half.z == h
            &&& dir.z < 0 ==> a.center.z - a.half.z == -BLOCK_HALF && a.center.z + a.half.z == -h
            &&& dir.x == 0 ==> a.center.x == 0 && a.half.x == CABLE_HALF
            &&& dir.y == 0 ==> a.center.y == 0 && a.half.y == CABLE_HALF
            &&& dir.z == 0 ==> a.center.z == 0 && a.half.z == CABLE_HALF
        }),
{
    let h = core_half(connections);
    assert(h == 6 || h == 10);
    let e: i32 = if h == 6 {
        7
    } else {
        5
    };
    assert((BLOCK_HALF - h) / 2 == e);
    let o = h + e;
    assert(o == 13 || o == 15);
}

/// A cable mesh has one part for its core and one per linked neighbour.
pub proof fn lemma_cable_part_count(connections: Seq<bool>)
    requires
        connections.len() == 6,
    ensures
        cable_parts(connections).len() == 1 + count_true(connections),
{
    assert forall|k: int| 0 <= k <= 6 implies #[trigger] cable_arms(connections, k).len() == count_true(connections.take(k)) by {
        lemma_arms_count(connections, k);
    }
    assert(connections.take(6) =~= connections);
}

proof fn lemma_arms_count(connections: Seq<bool>, k: int)
    requires
        0 <= k <= connections.len(),
    ensures
        cable_arms(connections, k).len() == count_true(connections.take(k)),
    decreases k,
{
    if k > 0 {
        lemma_arms_count(connections, k - 1);
        assert(connections.take(k).drop_last() =~= connections.take(k - 1));
    }
}


/// `p` lies in the block around the origin.
pub open spec fn point_in_block(p: IVec3) -> bool {
    &&& -BLOCK_HALF <= p.x <= BLOCK_HALF
    &&& -BLOCK_HALF <= p.y <= BLOCK_HALF
    &&& -BLOCK_HALF <= p.z <= BLOCK_HALF
}

proof fn lemma_face_in_block(b: Cuboid, block: bool, f: int)
    requires
        inside_block(b),
        0 <= f < 6,
    ensures
        forall|i: int| 0 <= i < 4 ==> point_in_block(#[trigger] face_positions(b, block, f)[i]),
{
}

/// Every vertex of a mesh made of parts that lie in the block lies in the
/// block.
pub proof fn lemma_vertices_in_block(parts: Seq<Cuboid>, block: bool)
    requires
        forall|k: int| 0 <= k < parts.len() ==> inside_block(#[trigger] parts[k]),
    ensures
        forall|i: int|
            0 <= i < parts_positions(parts, block).len() ==> point_in_block(
                #[trigger] parts_positions(parts, block)[i],
            ),
    decreases parts.len(),
{
    if parts.len() > 0 {
        let rest = parts.drop_last();
        let b = parts.last();
        lemma_vertices_in_block(rest, block);
        lemma_parts_positions_len(rest, block);
        assert(inside_block(parts[parts.len() - 1]));
        let s0 = face_positions(b, block, 0);
        let s1 = face_positions(b, block, 1);
        let s2 = face_positions(b, block, 2);
        let s3 = face_positions(b, block, 3);
        let s4 = face_positions(b, block, 4);
        let s5 = face_positions(b, block, 5);
        lemma_face_in_block(b, block, 0);
        lemma_face_in_block(b, block, 1);
        lemma_face_in_block(b, block, 2);
        lemma_face_in_block(b, block, 3);
        lemma_face_in_block(b, block, 4);
        lemma_face_in_block(b, block, 5);
        let c = cuboid_positions(b, block);
        assert forall|i: int| 0 <= i < 24 implies point_in_block(#[trigger] c[i]) by {
            if i < 4 {
                assert(c[i] == s0[i]);
            } else if i < 8 {
                assert(c[i] == s1[i - 4]);
            } else if i < 12 {
                assert(c[i] == s2[i - 8]);
            } else if i < 16 {
                assert(c[i] == s3[i - 12]);
            } else if i < 20 {
                assert(c[i] == s4[i - 16]);
            } else {
                assert(c[i] == s5[i - 20]);
            }
        }
        let all = parts_positions(parts, block);
        assert forall|i: int| 0 <= i < all.len() implies point_in_block(#[trigger] all[i]) by {
            let prev = parts_positions(rest, block);
            if i >= prev.len() {
                assert(all[i] == c[i - prev.len()]);
            } else {
                assert(all[i] == prev[i]);
            }
        }
    }
}

/// Every part of a cable mesh lies in the block, so the whole cable does.
pub proof fn lemma_cable_in_block(connections: Seq<bool>)
    requires
        connections.len() == 6,
    ensures
        forall|i: int|
            0 <= i < parts_positions(cable_parts(connections), false).len() ==> point_in_block(
                #[trigger] parts_positions(cable_parts(connections), false)[i],
            ),
{
    lemma_arms_in_block(connections, 6);
    let parts = cable_parts(connections);
    assert forall|k: int| 0 <= k < parts.len() implies inside_block(#[trigger] parts[k]) by {
        if k > 0 {
            assert(parts[k] == cable_arms(connections, 6)[k - 1]);
        }
    }
    lemma_vertices_in_block(parts, false);
}

proof fn lemma_arms_in_block(connections: Seq<bool>, k: int)
    requires
        0 <= k <= 6,
    ensures
        forall|j: int|
            0 <= j < cable_arms(connections, k).len() ==> inside_block(
                #[trigger] cable_arms(connections, k)[j],
            ),
    decreases k,
{
    if k > 0 {
        lemma_arms_in_block(connections, k - 1);
        lemma_arm_spans_core_to_face(connections, k - 1);
        let prev = cable_arms(connections, k - 1);
        let cur = cable_arms(connections, k);
        assert forall|j: int| 0 <= j < cur.len() implies inside_block(#[trigger] cur[j]) by {
            if j < prev.len() {
                assert(cur[j] == prev[j]);
            }
        }
    }
}


/// Whether a voxel of kind `k` is drawn turned to the direction it faces:
/// building blocks and cables are not, other voxels are.
pub open spec fn turns_with_direction(k: VoxelType) -> bool {
    match k {
        VoxelType::Structure(_) => false,
        VoxelType::Wire(_) => false,
        VoxelType::BundledWire => false,
        _ => true,
    }
}

/// How many quarter turns per step of its direction a voxel is drawn turned:
/// 0 for building blocks and cables, 1 for other voxels.
pub fn get_voxel_rotation_factor(voxel: &Voxel) -> (r: u32)
    ensures
        r == if turns_with_direction(voxel.kind) {
            1u32
        } else {
            0u32
        },
{
    match voxel.kind {
        VoxelType::Structure(_) => 0,
        VoxelType::Wire(_) => 0,
        VoxelType::BundledWire => 0,
        _ => 1,
    }
}

/// How strongly a voxel glows.
#[derive(Clone, Copy, Debug, PartialEq, Eq, Structural)]
pub enum Glow {
    Off,
    Dim,
    Bright,
}

/// How strongly a voxel glows: a powered light shines brightly, any other
/// powered voxel glows dimly, an unpowered voxel does not glow.
pub fn glow_of(voxel: &Voxel) -> (r: Glow)
    ensures
        r == if voxel.state.word == 0 {
            Glow::Off
        } else if voxel.kind == VoxelType::Component(ComponentVariants::Light) {
            Glow::Bright
        } else {
            Glow::Dim
        },
{
    if voxel.state.any_set() {
        match voxel.kind {
            VoxelType::Component(ComponentVariants::Light) => Glow::Bright,
            _ => Glow::Dim,
        }
    } else {
        Glow::Off
    }
}

/// The component along `n` of the cross product (p1 - p0) x (p2 - p0): it is
/// positive when the triangle p0 p1 p2 turns counter-clockwise seen from the
/// side `n` points to, that is, when the triangle faces the way `n` does.
pub open spec fn turn_along(p0: IVec3, p1: IVec3, p2: IVec3, n: IVec3) -> int {
    let ax = p1.x - p0.x;
    let ay = p1.y - p0.y;
    let az = p1.z - p0.z;
    let bx = p2.x - p0.x;
    let by = p2.y - p0.y;
    let bz = p2.z - p0.z;
    (ay * bz - az * by) * n.x + (az * bx - ax * bz) * n.y + (ax * by - ay * bx) * n.z
}

/// `b` lies in the block and has some thickness along every axis.
pub open spec fn solid_part(b: Cuboid) -> bool {
    inside_block(b) && b.half.x > 0 && b.half.y > 0 && b.half.z > 0
}

proof fn lemma_scaled_products(d: int, e: int)
    requires
        d > 0,
        e > 0,
    ensures
        d * e > 0,
        (-d) * e == -(d * e),
        d * (-e) == -(d * e),
        (-d) * (-e) == d * e,
        d * 0 == 0,
        0 * e == 0,
        (-d) * 0 == 0,
        0 * (-e) == 0,
        (d * e) * 1 == d * e,
        (d * e) * -1 == -(d * e),
        (-(d * e)) * -1 == d * e,
        (-(d * e)) * 1 == -(d * e),
{
    assert(d * e > 0) by (nonlinear_arith)
        requires
            d > 0,
            e > 0,
    ;
    assert((-d) * e == -(d * e)) by (nonlinear_arith);
    assert(d * (-e) == -(d * e)) by (nonlinear_arith);
    assert((-d) * (-e) == d * e) by (nonlinear_arith);
}

proof fn lemma_face_winding(b: Cuboid, block: bool, f: int, j: int)
    requires
        solid_part(b),
        0 <= f < 6,
        j == 0 || j == 3,
    ensures
        ({
            let ps = face_positions(b, block, f);
            let cut = face_layout(block, f).4;
            turn_along(
                ps[triangle_corner(cut, j)],
                ps[triangle_corner(cut, j + 1)],
                ps[triangle_corner(cut, j + 2)],
                face_normals(block, f)[0],
            ) > 0
        }),
{
    let hx = b.half.x as int;
    let hy = b.half.y as int;
    let hz = b.half.z as int;
    let ps = face_positions(b, block, f);
    let cut = face_layout(block, f).4;
    let p0 = ps[triangle_corner(cut, j)];
    let p1 = ps[triangle_corner(cut, j + 1)];
    let p2 = ps[triangle_corner(cut, j + 2)];
    let n = face_normals(block, f)[0];
    let ax = p1.x - p0.x;
    let ay = p1.y - p0.y;
    let az = p1.z - p0.z;
    let bx = p2.x - p0.x;
    let by = p2.y - p0.y;
    let bz = p2.z - p0.z;
    assert(ax == 0 || ax == 2 * hx || ax == -2 * hx);
    assert(ay == 0 || ay == 2 * hy || ay == -2 * hy);
    assert(az == 0 || az == 2 * hz || az == -2 * hz);
    assert(bx == 0 || bx == 2 * hx || bx == -2 * hx);
    assert(by == 0 || by == 2 * hy || by == -2 * hy);
    assert(bz == 0 || bz == 2 * hz || bz == -2 * hz);
    lemma_scaled_products(2 * hx, 2 * hy);
    lemma_scaled_products(2 * hy, 2 * hz);
    lemma_scaled_products(2 * hx, 2 * hz);
    lemma_scaled_products(2 * hy, 2 * hx);
    lemma_scaled_products(2 * hz, 2 * hy);
    lemma_scaled_products(2 * hz, 2 * hx);

}

/// Triangle `t` of a mesh (its indices `3 t`, `3 t + 1`, `3 t + 2`) faces the
/// way of the normal stored at its first vertex.
pub open spec fn triangle_faces_out(positions: Seq<IVec3>, normals: Seq<IVec3>, indices: Seq<u32>, t: int) -> bool {
    turn_along(
        positions[indices[3 * t] as int],
        positions[indices[3 * t + 1] as int],
        positions[indices[3 * t + 2] as int],
        normals[indices[3 * t] as int],
    ) > 0
}

/// Where the vertices, normals and indices of each face sit among those of
/// a part.
proof fn lemma_cuboid_layout(b: Cuboid, block: bool, base: int)
    ensures
        cuboid_positions(b, block).len() == 24,
        cuboid_normals(block).len() == 24,
        cuboid_indices(block, base).len() == 36,
        forall|f: int, c: int| 0 <= f < 6 && 0 <= c < 4 ==> #[trigger] cuboid_positions(b, block)[4 * f + c]
            == face_positions(b, block, f)[c],
        forall|f: int, c: int| 0 <= f < 6 && 0 <= c < 4 ==> #[trigger] cuboid_normals(block)[4 * f + c]
            == face_normals(block, f)[c],
        forall|f: int, j: int| 0 <= f < 6 && 0 <= j < 6 ==> #[trigger] cuboid_indices(block, base)[6 * f + j]
            == face_indices(block, f, base)[j],
{
    let ps = cuboid_positions(b, block);
    assert forall|f: int, c: int| 0 <= f < 6 && 0 <= c < 4 implies #[trigger] ps[4 * f + c] == face_positions(b, block, f)[c] by {
        if f == 0 {
        } else if f == 1 {
        } else if f == 2 {
        } else if f == 3 {
        } else if f == 4 {
        } else {
        }
    }
    let ns = cuboid_normals(block);
    assert forall|f: int, c: int| 0 <= f < 6 && 0 <= c < 4 implies #[trigger] ns[4 * f + c] == face_normals(block, f)[c] by {
        if f == 0 {
        } else if f == 1 {
        } else if f == 2 {
        } else if f == 3 {
        } else if f == 4 {
        } else {
        }
    }
    let is = cuboid_indices(block, base);
    assert forall|f: int, j: int| 0 <= f < 6 && 0 <= j < 6 implies #[trigger] is[6 * f + j] == face_indices(block, f, base)[j] by {
        if f == 0 {
        } else if f == 1 {
        } else if f == 2 {
        } else if f == 3 {
        } else if f == 4 {
        } else {
        }
    }
}

/// The normals of a mesh of `n` parts: 24 per part.
proof fn lemma_parts_normals_len(n: nat, block: bool)
    ensures
        parts_normals(n, block).len() == 24 * n,
    decreases n,
{
    if n > 0 {
        lemma_parts_normals_len((n - 1) as nat, block);
    }
}

/// A triangle of the last part of a mesh faces out of that part.
proof fn lemma_last_part_triangle(parts: Seq<Cuboid>, block: bool, t: int)
    requires
        parts.len() > 0,
        24 * parts.len() <= 0x1_0000_0000,
        solid_part(parts.last()),
        12 * (parts.len() - 1) <= t < 12 * parts.len(),
    ensures
        triangle_faces_out(parts_positions(parts, block), parts_normals(parts.len(), block), parts_indices(parts.len(), block), t),
{
    let n = parts.len();
    let rest = parts.drop_last();
    let b = parts.last();
    let base = 24 * (n - 1);
    lemma_indices_in_range(rest.len(), block);
    lemma_parts_positions_len(rest, block);
    lemma_parts_normals_len(rest.len(), block);
    lemma_cuboid_layout(b, block, base);
    let pp = parts_positions(rest, block);
    let pn = parts_normals(rest.len(), block);
    let pi = parts_indices(rest.len(), block);
    let ap = parts_positions(parts, block);
    let an = parts_normals(n, block);
    let ai = parts_indices(n, block);
    assert(ap == pp + cuboid_positions(b, block));
    assert(an == pn + cuboid_normals(block));
    assert(ai == pi + cuboid_indices(block, base));
    let k = 3 * t - 36 * (n - 1);
    let f = k / 6;
    let j = k % 6;
    assert(0 <= f < 6);
    assert(j == 0 || j == 3);
    assert(k == 6 * f + j);
    let cut = face_layout(block, f).4;
    let fi = face_indices(block, f, base);
    assert(ai[3 * t] == fi[j]);
    assert(ai[3 * t + 1] == fi[j + 1]);
    assert(ai[3 * t + 2] == fi[j + 2]);
    let c0 = triangle_corner(cut, j);
    let c1 = triangle_corner(cut, j + 1);
    let c2 = triangle_corner(cut, j + 2);
    assert(0 <= c0 < 4 && 0 <= c1 < 4 && 0 <= c2 < 4);
    assert(fi[j] == base + 4 * f + c0);
    assert(fi[j + 1] == base + 4 * f + c1);
    assert(fi[j + 2] == base + 4 * f + c2);
    let cp = cuboid_positions(b, block);
    assert(ap[base + 4 * f + c0] == cp[4 * f + c0]);
    assert(ap[base + 4 * f + c1] == cp[4 * f + c1]);
    assert(ap[base + 4 * f + c2] == cp[4 * f + c2]);
    assert(an[base + 4 * f + c0] == cuboid_normals(block)[4 * f + c0]);
    assert(face_normals(block, f)[c0] == face_normals(block, f)[0]);
    lemma_face_winding(b, block, f, j);
}

/// A triangle of the earlier parts of a mesh is the same triangle, on the
/// same vertices and normals, once another part is added.
proof fn lemma_prefix_triangle(parts: Seq<Cuboid>, block: bool, t: int)
    requires
        parts.len() > 0,
        0 <= t < 12 * (parts.len() - 1),
        triangle_faces_out(
            parts_positions(parts.drop_last(), block),
            parts_normals((parts.len() - 1) as nat, block),
            parts_indices((parts.len() - 1) as nat, block),
            t,
        ),
    ensures
        triangle_faces_out(parts_positions(parts, block), parts_normals(parts.len(), block), parts_indices(parts.len(), block), t),
{
    let n = parts.len();
    let rest = parts.drop_last();
    let b = parts.last();
    let base = 24 * (n - 1);
    lemma_indices_in_range(rest.len(), block);
    lemma_parts_positions_len(rest, block);
    lemma_parts_normals_len(rest.len(), block);
    let pp = parts_positions(rest, block);
    let pn = parts_normals(rest.len(), block);
    let pi = parts_indices(rest.len(), block);
    let ap = parts_positions(parts, block);
    let an = parts_normals(n, block);
    let ai = parts_indices(n, block);
    assert(ap == pp + cuboid_positions(b, block));
    assert(an == pn + cuboid_normals(block));
    assert(ai == pi + cuboid_indices(block, base));
    assert(ai[3 * t] == pi[3 * t]);
    assert(ai[3 * t + 1] == pi[3 * t + 1]);
    assert(ai[3 * t + 2] == pi[3 * t + 2]);
    assert(pi[3 * t] < 24 * rest.len());
    assert(pi[3 * t + 1] < 24 * rest.len());
    assert(pi[3 * t + 2] < 24 * rest.len());
    assert(ap[pi[3 * t] as int] == pp[pi[3 * t] as int]);
    assert(ap[pi[3 * t + 1] as int] == pp[pi[3 * t + 1] as int]);
    assert(ap[pi[3 * t + 2] as int] == pp[pi[3 * t + 2] as int]);
    assert(an[pi[3 * t] as int] == pn[pi[3 * t] as int]);
}

/// Every triangle of a mesh made of solid parts faces out of its part: seen
/// from the side its stored normal points to, it turns counter-clockwise, so
/// the geometric normal (p1 - p0) x (p2 - p0) points the way of the face.
pub proof fn lemma_parts_face_outward(parts: Seq<Cuboid>, block: bool)
    requires
        24 * parts.len() <= 0x1_0000_0000,
        forall|k: int| 0 <= k < parts.len() ==> solid_part(#[trigger] parts[k]),
    ensures
        parts_indices(parts.len(), block).len() == 36 * parts.len(),
        forall|t: int|
            0 <= t < 12 * parts.len() ==> #[trigger] triangle_faces_out(
                parts_positions(parts, block),
                parts_normals(parts.len(), block),
                parts_indices(parts.len(), block),
                t,
            ),
    decreases parts.len(),
{
    lemma_indices_in_range(parts.len(), block);
    if parts.len() > 0 {
        let n = parts.len();
        let rest = parts.drop_last();
        assert(solid_part(parts[n - 1]));
        assert forall|k: int| 0 <= k < rest.len() implies solid_part(#[trigger] rest[k]) by {
            assert(rest[k] == parts[k]);
        }
        lemma_parts_face_outward(rest, block);
        assert forall|t: int| 0 <= t < 12 * n implies #[trigger] triangle_faces_out(
            parts_positions(parts, block),
            parts_normals(n, block),
            parts_indices(n, block),
            t,
        ) by {
            if t < 12 * (n - 1) {
                lemma_prefix_triangle(parts, block, t);
            } else {
                lemma_last_part_triangle(parts, block, t);
            }
        }
    }
}

/// Every triangle of a block's mesh faces out of the block.
pub proof fn lemma_block_mesh_faces_outward(m: MeshData, row: int)
    requires
        mesh_of(m, seq![unit_block()], true, row),
    ensures
        m.indices@.len() == 36,
        forall|t: int| 0 <= t < 12 ==> #[trigger] triangle_faces_out(m.positions@, m.normals@, m.indices@, t),
{
    lemma_parts_face_outward(seq![unit_block()], true);
}

/// Every triangle of a cable's mesh faces out of the part it belongs to.
pub proof fn lemma_cable_mesh_faces_outward(m: MeshData, connections: Seq<bool>, row: int)
    requires
        connections.len() == 6,
        mesh_of(m, cable_parts(connections), false, row),
    ensures
        m.indices@.len() == 36 * cable_parts(connections).len(),
        forall|t: int|
            0 <= t < 12 * cable_parts(connections).len() ==> #[trigger] triangle_faces_out(
                m.positions@,
                m.normals@,
                m.indices@,
                t,
            ),
{
    let parts = cable_parts(connections);
    lemma_arms_solid(connections, 6);
    assert(core_half(connections) == 6 || core_half(connections) == 10);
    assert forall|k: int| 0 <= k < parts.len() implies solid_part(#[trigger] parts[k]) by {
        if k > 0 {
            assert(parts[k] == cable_arms(connections, 6)[k - 1]);
        }
    }
    lemma_parts_face_outward(parts, false);
}

proof fn lemma_arms_solid(connections: Seq<bool>, k: int)
    requires
        0 <= k <= 6,
    ensures
        cable_arms(connections, k).len() <= k,
        forall|j: int| 0 <= j < cable_arms(connections, k).len() ==> solid_part(#[trigger] cable_arms(connections, k)[j]),
    decreases k,
{
    if k > 0 {
        lemma_arms_solid(connections, k - 1);
        lemma_arm_spans_core_to_face(connections, k - 1);
        assert(core_half(connections) == 6 || core_half(connections) == 10);
        let prev = cable_arms(connections, k - 1);
        let cur = cable_arms(connections, k);
        assert forall|j: int| 0 <= j < cur.len() implies solid_part(#[trigger] cur[j]) by {
            if j < prev.len() {
                assert(cur[j] == prev[j]);
            }
        }
    }
}

} // verus!
