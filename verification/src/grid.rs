use vstd::prelude::*;

verus! {

/// Quads along each side of the grid.
pub const GRID_N: u32 = 32;

/// Vertices along each side.
pub const GRID_SIDE: u32 = 33;

/// Vertices of the grid itself.
pub const GRID_TOPS: u32 = 1089;

/// Pieces of wall, four for each place along a side.
pub const GRID_WALLS: u32 = 128;

/// All vertices.
pub const GRID_VERTICES: u32 = 1345;

/// All indices.
pub const GRID_INDICES: u32 = 6912;

/// Indices of the quads.
pub const QUAD_INDICES: u32 = 6144;

/// A place on the grid, in quads, and whether it hangs below.
pub ghost struct Place {
    pub x: int,
    pub z: int,
    pub hangs: bool,
}

/// The end `e` of the upper edge of a piece of wall: along the first row, the last row, the first
/// column and the last column in turn.
pub open spec fn wall_end(wall: int, e: int) -> (int, int) {
    let i = wall / 4 + e;
    let side = wall % 4;
    if side == 0 {
        (i, 0)
    } else if side == 1 {
        (i, GRID_N as int)
    } else if side == 2 {
        (0, i)
    } else {
        (GRID_N as int, i)
    }
}

/// Where the vertex `v` is.
pub open spec fn place_of(v: int) -> Place {
    if v < GRID_TOPS {
        Place { x: v % GRID_SIDE as int, z: v / GRID_SIDE as int, hangs: false }
    } else {
        let (x, z) = wall_end((v - GRID_TOPS) / 2, (v - GRID_TOPS) % 2);
        Place { x, z, hangs: true }
    }
}

/// The vertex on the grid at a place.
pub open spec fn vertex_at(x: int, z: int) -> int {
    z * GRID_SIDE + x
}

/// The vertex that index `k` names. Each quad is cut from corner to corner, and each piece of
/// wall joins an edge to its lower copy.
pub open spec fn index_of(k: int) -> int {
    if k < QUAD_INDICES {
        let (q, c) = (k / 6, k % 6);
        let (x, z) = (q % GRID_N as int, q / GRID_N as int);
        if c == 0 {
            vertex_at(x, z)
        } else if c == 1 || c == 4 {
            vertex_at(x, z + 1)
        } else if c == 2 || c == 3 {
            vertex_at(x + 1, z)
        } else {
            vertex_at(x + 1, z + 1)
        }
    } else {
        let (wall, c) = ((k - QUAD_INDICES) / 6, (k - QUAD_INDICES) % 6);
        if c == 0 {
            vertex_at(wall_end(wall, 0).0, wall_end(wall, 0).1)
        } else if c == 1 || c == 4 {
            GRID_TOPS + 2 * wall
        } else if c == 2 || c == 3 {
            vertex_at(wall_end(wall, 1).0, wall_end(wall, 1).1)
        } else {
            GRID_TOPS + 2 * wall + 1
        }
    }
}

/// The grid that ground and water are drawn with: a square of quads with a wall hanging from its
/// border.
pub struct Grid {
    /// Place across and along, in quads, and one for what hangs below.
    pub verts: Vec<[u32; 3]>,
    pub indices: Vec<u16>,
}

/// `v` is the vertex `i`.
pub open spec fn is_vertex(v: [u32; 3], i: int) -> bool {
    let p = place_of(i);
    v[0] == p.x && v[1] == p.z && v[2] == if p.hangs {
        1int
    } else {
        0
    }
}

fn find_wall_end(wall: u32, e: u32) -> (p: (u32, u32))
    requires
        wall < GRID_WALLS,
        e <= 1,
    ensures
        p.0 == wall_end(wall as int, e as int).0,
        p.1 == wall_end(wall as int, e as int).1,
        p.0 <= GRID_N,
        p.1 <= GRID_N,
{
    let i: u32 = wall / 4 + e;
    let side: u32 = wall % 4;
    if side == 0 {
        (i, 0)
    } else if side == 1 {
        (i, GRID_N)
    } else if side == 2 {
        (0, i)
    } else {
        (GRID_N, i)
    }
}

fn build_vertices() -> (verts: Vec<[u32; 3]>)
    ensures
        verts@.len() == GRID_VERTICES,
        forall|i: int| 0 <= i < GRID_VERTICES ==> is_vertex(#[trigger] verts@[i], i),
{
    let mut verts: Vec<[u32; 3]> = Vec::new();
    let mut v: u32 = 0;
    while v < GRID_TOPS
        invariant
            v <= GRID_TOPS,
            verts@.len() == v,
            forall|i: int| 0 <= i < v ==> is_vertex(#[trigger] verts@[i], i),
        decreases GRID_TOPS - v,
    {
        verts.push([v % GRID_SIDE, v / GRID_SIDE, 0]);
        v = v + 1;
    }
    let mut wall: u32 = 0;
    while wall < GRID_WALLS
        invariant
            wall <= GRID_WALLS,
            verts@.len() == GRID_TOPS + 2 * wall,
            forall|i: int|
                0 <= i < GRID_TOPS + 2 * wall ==> is_vertex(#[trigger] verts@[i], i),
        decreases GRID_WALLS - wall,
    {
        let a: (u32, u32) = find_wall_end(wall, 0);
        let b: (u32, u32) = find_wall_end(wall, 1);
        verts.push([a.0, a.1, 1]);
        verts.push([b.0, b.1, 1]);
        proof {
            let first = GRID_TOPS + 2 * wall;
            assert((first - GRID_TOPS) / 2 == wall && (first - GRID_TOPS) % 2 == 0);
            assert((first + 1 - GRID_TOPS) / 2 == wall && (first + 1 - GRID_TOPS) % 2 == 1);
            assert(is_vertex(verts@[first], first));
            assert(is_vertex(verts@[first + 1], first + 1));
        }
        wall = wall + 1;
    }
    verts
}

fn build_indices() -> (indices: Vec<u16>)
    ensures
        indices@.len() == GRID_INDICES,
        forall|k: int| 0 <= k < GRID_INDICES ==> #[trigger] indices@[k] == index_of(k),
{
    let mut indices: Vec<u16> = Vec::new();
    let mut q: u32 = 0;
    while q < GRID_N * GRID_N
        invariant
            q <= 1024,
            indices@.len() == 6 * q,
            forall|k: int| 0 <= k < 6 * q ==> #[trigger] indices@[k] == index_of(k),
        decreases 1024 - q,
    {
        let i0: u16 = ((q / GRID_N) * GRID_SIDE + q % GRID_N) as u16;
        let ghost before = indices@;
        indices.push(i0);
        indices.push(i0 + 33);
        indices.push(i0 + 1);
        indices.push(i0 + 1);
        indices.push(i0 + 33);
        indices.push(i0 + 34);
        proof {
            assert forall|k: int| 0 <= k < 6 * (q + 1) implies #[trigger] indices@[k] == index_of(
                k,
            ) by {
                if k < 6 * q {
                    assert(indices@[k] == before[k]);
                } else {
                    assert(k / 6 == q && k % 6 == k - 6 * q);
                }
            }
        }
        q = q + 1;
    }
    let mut wall: u32 = 0;
    while wall < GRID_WALLS
        invariant
            wall <= GRID_WALLS,
            indices@.len() == QUAD_INDICES + 6 * wall,
            forall|k: int|
                0 <= k < QUAD_INDICES + 6 * wall ==> #[trigger] indices@[k] == index_of(k),
        decreases GRID_WALLS - wall,
    {
        let a: (u32, u32) = find_wall_end(wall, 0);
        let b: (u32, u32) = find_wall_end(wall, 1);
        let t0: u16 = (a.1 * GRID_SIDE + a.0) as u16;
        let t1: u16 = (b.1 * GRID_SIDE + b.0) as u16;
        let s0: u16 = (GRID_TOPS + 2 * wall) as u16;
        let ghost before = indices@;
        indices.push(t0);
        indices.push(s0);
        indices.push(t1);
        indices.push(t1);
        indices.push(s0);
        indices.push(s0 + 1);
        proof {
            assert forall|k: int| 0 <= k < QUAD_INDICES + 6 * (wall + 1) implies #[trigger]
            indices@[k] == index_of(k) by {
                if k < QUAD_INDICES + 6 * wall {
                    assert(indices@[k] == before[k]);
                } else {
                    let m = k - QUAD_INDICES;
                    assert(m / 6 == wall && m % 6 == m - 6 * wall);
                }
            }
        }
        wall = wall + 1;
    }
    indices
}

/// Builds the grid.
pub fn build_grid() -> (grid: Grid)
    ensures
        grid.verts@.len() == GRID_VERTICES,
        forall|i: int| 0 <= i < GRID_VERTICES ==> is_vertex(#[trigger] grid.verts@[i], i),
        grid.indices@.len() == GRID_INDICES,
        forall|k: int| 0 <= k < GRID_INDICES ==> #[trigger] grid.indices@[k] == index_of(k),
{
    Grid { verts: build_vertices(), indices: build_indices() }
}

/// Every index names a vertex, and an index of the quads one that does not hang.
pub proof fn indices_name_vertices(k: int)
    requires
        0 <= k < GRID_INDICES,
    ensures
        0 <= index_of(k) < GRID_VERTICES,
        k < QUAD_INDICES ==> index_of(k) < GRID_TOPS,
{
}

/// A vertex of the grid is at its place.
pub proof fn vertices_are_at_their_places(x: int, z: int)
    requires
        0 <= x <= GRID_N,
        0 <= z <= GRID_N,
    ensures
        0 <= vertex_at(x, z) < GRID_TOPS,
        place_of(vertex_at(x, z)) == (Place { x, z, hangs: false }),
{
    vstd::arithmetic::div_mod::lemma_fundamental_div_mod_converse(
        vertex_at(x, z),
        GRID_SIDE as int,
        z,
        x,
    );
}

/// The two triangles of a quad are cut from its four corners and meet in its diagonal.
pub proof fn quads_are_covered(x: int, z: int)
    requires
        0 <= x < GRID_N,
        0 <= z < GRID_N,
    ensures
        ({
            let k = 6 * (z * GRID_N + x);
            &&& 0 <= k && k + 5 < QUAD_INDICES
            &&& place_of(index_of(k)) == (Place { x, z, hangs: false })
            &&& place_of(index_of(k + 1)) == (Place { x, z: z + 1, hangs: false })
            &&& place_of(index_of(k + 2)) == (Place { x: x + 1, z, hangs: false })
            &&& index_of(k + 3) == index_of(k + 2)
            &&& index_of(k + 4) == index_of(k + 1)
            &&& place_of(index_of(k + 5)) == (Place { x: x + 1, z: z + 1, hangs: false })
        }),
{
    let q = z * GRID_N + x;
    vstd::arithmetic::div_mod::lemma_fundamental_div_mod_converse(q, GRID_N as int, z, x);
    vertices_are_at_their_places(x, z);
    vertices_are_at_their_places(x, z + 1);
    vertices_are_at_their_places(x + 1, z);
    vertices_are_at_their_places(x + 1, z + 1);
}

/// Which vertices the indices of a piece of wall name.
proof fn wall_indices(wall: int)
    requires
        0 <= wall < GRID_WALLS,
    ensures
        ({
            let k = QUAD_INDICES + 6 * wall;
            let (a, b) = (wall_end(wall, 0), wall_end(wall, 1));
            &&& index_of(k) == vertex_at(a.0, a.1)
            &&& index_of(k + 1) == GRID_TOPS + 2 * wall
            &&& index_of(k + 2) == vertex_at(b.0, b.1)
            &&& index_of(k + 3) == index_of(k + 2)
            &&& index_of(k + 4) == index_of(k + 1)
            &&& index_of(k + 5) == GRID_TOPS + 2 * wall + 1
        }),
{
    assert forall|c: int| 0 <= c < 6 implies (6 * wall + c) / 6 == wall && #[trigger] ((6 * wall
        + c) % 6) == c by {}
}

/// Where the lower vertices of a piece of wall are.
proof fn lower_places(wall: int)
    requires
        0 <= wall < GRID_WALLS,
    ensures
        ({
            let (a, b) = (wall_end(wall, 0), wall_end(wall, 1));
            &&& place_of(GRID_TOPS + 2 * wall) == (Place { x: a.0, z: a.1, hangs: true })
            &&& place_of(GRID_TOPS + 2 * wall + 1) == (Place { x: b.0, z: b.1, hangs: true })
        }),
{
    let s0 = GRID_TOPS + 2 * wall;
    assert((s0 - GRID_TOPS) / 2 == wall && (s0 - GRID_TOPS) % 2 == 0);
    assert((s0 + 1 - GRID_TOPS) / 2 == wall && (s0 + 1 - GRID_TOPS) % 2 == 1);
}

/// Each piece of wall hangs straight below an edge of the border.
pub proof fn walls_hang_below_the_border(wall: int)
    requires
        0 <= wall < GRID_WALLS,
    ensures
        ({
            let k = QUAD_INDICES + 6 * wall;
            let (a, b) = (place_of(index_of(k)), place_of(index_of(k + 2)));
            &&& !a.hangs && !b.hangs
            &&& a.x == 0 && b.x == 0 || a.x == GRID_N && b.x == GRID_N || a.z == 0 && b.z == 0
                || a.z == GRID_N && b.z == GRID_N
            &&& b.x - a.x + (b.z - a.z) == 1
            &&& place_of(index_of(k + 1)) == (Place { hangs: true, ..a })
            &&& place_of(index_of(k + 5)) == (Place { hangs: true, ..b })
            &&& index_of(k + 3) == index_of(k + 2)
            &&& index_of(k + 4) == index_of(k + 1)
        }),
{
    let (ax, az) = wall_end(wall, 0);
    let (bx, bz) = wall_end(wall, 1);
    wall_indices(wall);
    vertices_are_at_their_places(ax, az);
    vertices_are_at_their_places(bx, bz);
    lower_places(wall);
}

/// A piece of wall hangs from every edge of the border: along the first row and the last, and along
/// the first column and the last.
pub proof fn the_border_is_walled(i: int)
    requires
        0 <= i < GRID_N,
    ensures
        ({
            let end = |wall: int, c: int| place_of(index_of(QUAD_INDICES + 6 * wall + c));
            let on = |x: int, z: int| Place { x, z, hangs: false };
            &&& GRID_WALLS == 4 * GRID_N
            &&& end(4 * i, 0) == on(i, 0) && end(4 * i, 2) == on(i + 1, 0)
            &&& end(4 * i + 1, 0) == on(i, 32) && end(4 * i + 1, 2) == on(i + 1, 32)
            &&& end(4 * i + 2, 0) == on(0, i) && end(4 * i + 2, 2) == on(0, i + 1)
            &&& end(4 * i + 3, 0) == on(32, i) && end(4 * i + 3, 2) == on(32, i + 1)
        }),
{
    an_edge_is_walled(4 * i, i, 0);
    an_edge_is_walled(4 * i + 1, i, 1);
    an_edge_is_walled(4 * i + 2, i, 2);
    an_edge_is_walled(4 * i + 3, i, 3);
}

proof fn an_edge_is_walled(wall: int, i: int, side: int)
    requires
        0 <= i < GRID_N,
        0 <= side < 4,
        wall == 4 * i + side,
    ensures
        ({
            let k = QUAD_INDICES + 6 * wall;
            let (a, b) = (wall_end(wall, 0), wall_end(wall, 1));
            &&& wall / 4 == i
            &&& wall % 4 == side
            &&& place_of(index_of(k)) == (Place { x: a.0, z: a.1, hangs: false })
            &&& place_of(index_of(k + 2)) == (Place { x: b.0, z: b.1, hangs: false })
        }),
{
    assert(wall / 4 == i && wall % 4 == side);
    let (a, b) = (wall_end(wall, 0), wall_end(wall, 1));
    wall_indices(wall);
    vertices_are_at_their_places(a.0, a.1);
    vertices_are_at_their_places(b.0, b.1);
}

/// There are thirty-three vertices along each side, and two below each piece of wall; two triangles
/// to a quad and to a piece of wall.
pub proof fn the_grid_is_counted()
    ensures
        GRID_SIDE == GRID_N + 1,
        GRID_TOPS == GRID_SIDE * GRID_SIDE,
        GRID_VERTICES == GRID_TOPS + 2 * GRID_WALLS,
        QUAD_INDICES == 6 * GRID_N * GRID_N,
        GRID_INDICES == QUAD_INDICES + 6 * GRID_WALLS,
{
}

/// The vertices on the grid come row by row and lie on it; those behind them hang below.
pub proof fn vertices_come_row_by_row(v: [u32; 3], i: int)
    requires
        0 <= i < GRID_VERTICES,
        is_vertex(v, i),
    ensures
        i < 33 * 33 ==> v[0] + 33 * v[1] == i && v[0] < 33 && v[2] == 0,
        i >= 33 * 33 ==> v[0] <= 32 && v[1] <= 32 && v[2] == 1,
{
}

} // verus!
