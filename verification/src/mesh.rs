use crate::error::TerrainError;
use vstd::arithmetic::div_mod::lemma_fundamental_div_mod_converse;
use vstd::prelude::*;

verus! {

/// Largest grid resolution of which every vertex index fits in 32 bits.
pub const MAX_GRID_RESOLUTION: u32 = 0xFFFF;

/// A grid of this many vertices a side can be triangulated: it has at least
/// one cell, and none of its vertex indices overflows.
pub open spec fn grid_resolution_ok(resolution: u32) -> bool {
    2 <= resolution <= MAX_GRID_RESOLUTION
}

/// Column and row of the vertex stored at `index`: vertices are stored row by
/// row.
pub open spec fn grid_position(resolution: int, index: int) -> (int, int) {
    (index % resolution, index / resolution)
}

/// The vertex index stored at position `i` of the index buffer.
///
/// Six consecutive entries describe one cell of the grid, cells taken row by
/// row. With `c` the cell's corner of least column and row, the entries name
/// the triangles `(c, c + 1, c + r)` and `(c + 1, c + r + 1, c + r)`.
pub open spec fn index_at(resolution: int, i: int) -> int {
    let cell = i / 6;
    let corner = (cell / (resolution - 1)) * resolution + cell % (resolution - 1);
    let slot = i % 6;
    if slot == 0 {
        corner
    } else if slot == 1 || slot == 3 {
        corner + 1
    } else if slot == 4 {
        corner + resolution + 1
    } else {
        corner + resolution
    }
}

/// Twice the signed area, in grid units, of the triangle whose entries start
/// at position `3 * t` of the index buffer. Its sign tells the winding.
pub open spec fn winding(resolution: int, t: int) -> int {
    let a = grid_position(resolution, index_at(resolution, 3 * t));
    let b = grid_position(resolution, index_at(resolution, 3 * t + 1));
    let c = grid_position(resolution, index_at(resolution, 3 * t + 2));
    (b.0 - a.0) * (c.1 - a.1) - (b.1 - a.1) * (c.0 - a.0)
}

/// What the mesh of a patch holds whatever the terrain is: for each vertex
/// its place in the grid, and the triangles between the vertices.
///
/// The texture coordinate of a vertex is its grid position divided by
/// `resolution - 1`.
#[derive(Debug)]
pub struct ChunkMesh {
    pub resolution: u32,
    pub uvs: Vec<(u32, u32)>,
    pub indices: Vec<u32>,
}

impl ChunkMesh {
    /// The mesh is the full triangulated grid of its resolution.
    pub open spec fn wf(self) -> bool {
        let r = self.resolution as int;
        &&& grid_resolution_ok(self.resolution)
        &&& self.uvs@.len() == r * r
        &&& forall|i: int|
            0 <= i < self.uvs@.len() ==> (#[trigger] self.uvs@[i]).0 == grid_position(r, i).0
                && self.uvs@[i].1 == grid_position(r, i).1
        &&& self.indices@.len() == 6 * ((r - 1) * (r - 1))
        &&& forall|i: int|
            0 <= i < self.indices@.len() ==> #[trigger] self.indices@[i] == index_at(r, i)
    }

    /// Builds the grid mesh of `resolution` vertices a side.
    pub fn build(resolution: u32) -> (out: Result<ChunkMesh, TerrainError>)
        ensures
            out is Ok <==> grid_resolution_ok(resolution),
            out matches Ok(mesh) ==> {
                &&& mesh.wf()
                &&& mesh.resolution == resolution
                &&& mesh.uvs@.len() == resolution * resolution
                &&& forall|i: int|
                    0 <= i < mesh.uvs@.len() ==> (#[trigger] mesh.uvs@[i]).0 < resolution
                        && mesh.uvs@[i].1 < resolution
                &&& mesh.indices@.len() == 6 * ((resolution - 1) * (resolution - 1))
                &&& forall|i: int|
                    0 <= i < mesh.indices@.len() ==> #[trigger] mesh.indices@[i] < resolution
                        * resolution
            },
            out matches Err(e) ==> e == TerrainError::InvalidArgument,
    {
        if resolution < 2 || resolution > MAX_GRID_RESOLUTION {
            return Err(TerrainError::InvalidArgument);
        }
        let uvs = grid_uvs(resolution);
        let indices = grid_indices(resolution);
        let mesh = ChunkMesh { resolution, uvs, indices };
        proof {
            assert forall|i: int| 0 <= i < mesh.indices@.len() implies #[trigger] mesh.indices@[i]
                < resolution * resolution by {
                lemma_index_in_grid(resolution as int, i);
            }
            assert forall|i: int| 0 <= i < mesh.uvs@.len() implies (#[trigger] mesh.uvs@[i]).0
                < resolution && mesh.uvs@[i].1 < resolution by {
                lemma_position_in_grid(resolution as int, i);
            }
        }
        Ok(mesh)
    }
}

proof fn lemma_row_major(d: int, row: int, col: int)
    requires
        d > 0,
        0 <= col < d,
    ensures
        (row * d + col) / d == row,
        (row * d + col) % d == col,
{
    lemma_fundamental_div_mod_converse(row * d + col, d, row, col);
}

proof fn lemma_product_bound(a: int, b: int, n: int)
    requires
        0 <= a < n,
        0 <= b <= n,
    ensures
        0 <= a * n + b <= n * n,
        a * n + b < n * n || b == n,
{
    assert(a * n <= (n - 1) * n) by (nonlinear_arith)
        requires
            0 <= a <= n - 1,
            0 <= n,
    ;
    assert((n - 1) * n == n * n - n) by (nonlinear_arith);
    assert(0 <= a * n) by (nonlinear_arith)
        requires
            0 <= a,
            0 <= n,
    ;
}

/// Row and column of cell `cell` of a grid with `r - 1` cells a side.
proof fn lemma_cell_position(r: int, cell: int)
    requires
        r >= 2,
        0 <= cell < (r - 1) * (r - 1),
    ensures
        0 <= cell / (r - 1) < r - 1,
        0 <= cell % (r - 1) < r - 1,
        cell == (cell / (r - 1)) * (r - 1) + cell % (r - 1),
{
    let d = r - 1;
    let q = cell / d;
    assert(cell == d * q + cell % d) by {
        vstd::arithmetic::div_mod::lemma_fundamental_div_mod(cell, d);
    }
    assert(0 <= cell % d < d) by {
        vstd::arithmetic::div_mod::lemma_mod_pos_bound(cell, d);
    }
    assert(d * q == q * d) by (nonlinear_arith);
    assert(q < d) by (nonlinear_arith)
        requires
            d > 0,
            d * q <= cell,
            cell < d * d,
    ;
    assert(0 <= q) by (nonlinear_arith)
        requires
            d > 0,
            d * q + d > cell,
            cell >= 0,
    ;
}

/// Every vertex lies in one of the `r` columns and one of the `r` rows.
pub proof fn lemma_position_in_grid(r: int, i: int)
    requires
        r > 0,
        0 <= i < r * r,
    ensures
        0 <= grid_position(r, i).0 < r,
        0 <= grid_position(r, i).1 < r,
{
    vstd::arithmetic::div_mod::lemma_fundamental_div_mod(i, r);
    vstd::arithmetic::div_mod::lemma_mod_pos_bound(i, r);
    let q = i / r;
    assert(q < r) by (nonlinear_arith)
        requires
            r > 0,
            r * q <= i,
            i < r * r,
    ;
    assert(0 <= q) by (nonlinear_arith)
        requires
            r > 0,
            r * q + r > i,
            i >= 0,
    ;
}

/// Every entry of the index buffer names a vertex of the grid.
pub proof fn lemma_index_in_grid(r: int, i: int)
    requires
        r >= 2,
        0 <= i < 6 * ((r - 1) * (r - 1)),
    ensures
        0 <= index_at(r, i) < r * r,
{
    let cell = i / 6;
    lemma_cell_position(r, cell);
    let row = cell / (r - 1);
    let col = cell % (r - 1);
    lemma_product_bound(row, col, r);
    lemma_product_bound(row + 1, col + 1, r);
    assert((row + 1) * r == row * r + r) by (nonlinear_arith);
}

/// All triangles of the grid wind the same way.
pub proof fn lemma_winding_consistent(r: int, t: int)
    requires
        r >= 2,
        0 <= t < 2 * ((r - 1) * (r - 1)),
    ensures
        winding(r, t) == 1,
{
    let cell = (3 * t) / 6;
    assert((3 * t + 1) / 6 == cell && (3 * t + 2) / 6 == cell);
    lemma_cell_position(r, cell);
    let row = cell / (r - 1);
    let col = cell % (r - 1);
    let corner = row * r + col;
    assert((row + 1) * r == row * r + r) by (nonlinear_arith);
    lemma_row_major(r, row, col);
    lemma_row_major(r, row, col + 1);
    lemma_row_major(r, row + 1, col);
    lemma_row_major(r, row + 1, col + 1);
    assert(grid_position(r, corner) == (col, row));
    assert(grid_position(r, corner + 1) == (col + 1, row));
    assert(grid_position(r, corner + r) == (col, row + 1));
    assert(grid_position(r, corner + r + 1) == (col + 1, row + 1));
    if (3 * t) % 6 == 0 {
        assert(index_at(r, 3 * t) == corner);
        assert(index_at(r, 3 * t + 1) == corner + 1);
        assert(index_at(r, 3 * t + 2) == corner + r);
        assert(winding(r, t) == ((col + 1) - col) * ((row + 1) - row) - (row - row) * (col - col));
        assert(((col + 1) - col) * ((row + 1) - row) - (row - row) * (col - col) == 1)
            by (nonlinear_arith);
    } else {
        assert((3 * t) % 6 == 3);
        assert(index_at(r, 3 * t) == corner + 1);
        assert(index_at(r, 3 * t + 1) == corner + r + 1);
        assert(index_at(r, 3 * t + 2) == corner + r);
        assert(winding(r, t) == ((col + 1) - (col + 1)) * ((row + 1) - row) - ((row + 1) - row) * (col
            - (col + 1)));
        assert(((col + 1) - (col + 1)) * ((row + 1) - row) - ((row + 1) - row) * (col - (col + 1))
            == 1) by (nonlinear_arith);
    }
}

/// The grid positions of the vertices, row by row.
fn grid_uvs(resolution: u32) -> (uvs: Vec<(u32, u32)>)
    requires
        grid_resolution_ok(resolution),
    ensures
        uvs@.len() == resolution * resolution,
        forall|i: int|
            0 <= i < uvs@.len() ==> (#[trigger] uvs@[i]).0 == grid_position(resolution as int, i).0
                && uvs@[i].1 == grid_position(resolution as int, i).1,
{
    let mut uvs: Vec<(u32, u32)> = Vec::new();
    let mut row: u32 = 0;
    while row < resolution
        invariant
            grid_resolution_ok(resolution),
            row <= resolution,
            uvs@.len() == row * resolution,
            forall|i: int|
                0 <= i < uvs@.len() ==> (#[trigger] uvs@[i]).0 == grid_position(
                    resolution as int,
                    i,
                ).0 && uvs@[i].1 == grid_position(resolution as int, i).1,
        decreases resolution - row,
    {
        let mut col: u32 = 0;
        while col < resolution
            invariant
                grid_resolution_ok(resolution),
                row < resolution,
                col <= resolution,
                uvs@.len() == row * resolution + col,
                forall|i: int|
                    0 <= i < uvs@.len() ==> (#[trigger] uvs@[i]).0 == grid_position(
                        resolution as int,
                        i,
                    ).0 && uvs@[i].1 == grid_position(resolution as int, i).1,
            decreases resolution - col,
        {
            proof {
                lemma_row_major(resolution as int, row as int, col as int);
            }
            uvs.push((col, row));
            col += 1;
        }
        assert((row + 1) * resolution == row * resolution + resolution) by (nonlinear_arith);
        row += 1;
    }
    uvs
}

/// The index buffer of the grid, cell by cell.
fn grid_indices(resolution: u32) -> (indices: Vec<u32>)
    requires
        grid_resolution_ok(resolution),
    ensures
        indices@.len() == 6 * ((resolution - 1) * (resolution - 1)),
        forall|i: int|
            0 <= i < indices@.len() ==> #[trigger] indices@[i] == index_at(resolution as int, i),
{
    let cells = resolution - 1;
    let mut indices: Vec<u32> = Vec::new();
    let mut row: u32 = 0;
    while row < cells
        invariant
            grid_resolution_ok(resolution),
            cells == resolution - 1,
            row <= cells,
            indices@.len() == 6 * (row * cells),
            forall|i: int|
                0 <= i < indices@.len() ==> #[trigger] indices@[i] == index_at(
                    resolution as int,
                    i,
                ),
        decreases cells - row,
    {
        let mut col: u32 = 0;
        while col < cells
            invariant
                grid_resolution_ok(resolution),
                cells == resolution - 1,
                row < cells,
                col <= cells,
                indices@.len() == 6 * (row * cells + col),
                forall|i: int|
                    0 <= i < indices@.len() ==> #[trigger] indices@[i] == index_at(
                        resolution as int,
                        i,
                    ),
            decreases cells - col,
        {
            proof {
                lemma_product_bound(row as int, col as int, resolution as int);
                lemma_product_bound(row as int + 1, col as int + 1, resolution as int);
                assert((row + 1) * resolution == row * resolution + resolution)
                    by (nonlinear_arith);
                assert(resolution * resolution <= 0xFFFF * 0xFFFF) by (nonlinear_arith)
                    requires
                        resolution <= 0xFFFF,
                ;
            }
            let corner: u32 = row * resolution + col;
            let ghost cell = row * cells + col;
            let ghost start = indices@.len() as int;
            indices.push(corner);
            indices.push(corner + 1);
            indices.push(corner + resolution);
            indices.push(corner + 1);
            indices.push(corner + resolution + 1);
            indices.push(corner + resolution);
            proof {
                lemma_row_major(cells as int, row as int, col as int);
                assert forall|i: int| start <= i < start + 6 implies #[trigger] indices@[i]
                    == index_at(resolution as int, i) by {
                    assert(i / 6 == cell);
                    assert(i % 6 == i - start);
                }
            }
            col += 1;
        }
        assert((row + 1) * cells == row * cells + cells) by (nonlinear_arith);
        row += 1;
    }
    indices
}

} // verus!
