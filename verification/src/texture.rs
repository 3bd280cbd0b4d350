use crate::error::TerrainError;
use vstd::arithmetic::div_mod::lemma_fundamental_div_mod_converse;
use vstd::prelude::*;

verus! {

/// Red and blue share of the colour of a pixel far from every line.
pub const BASE_RED: u8 = 30;

/// Green share of the colour of a pixel far from every line.
pub const BASE_GREEN: u8 = 40;

/// Blue share of the colour of a pixel far from every line.
pub const BASE_BLUE: u8 = 30;

/// What a pixel on a line has more, in every channel, than one far from
/// every line.
pub const LINE_GAIN: u8 = 210;

/// Largest texture side of which every pixel can be numbered in 32 bits.
pub const MAX_TEXTURE_RESOLUTION: u32 = 0xFFFF;

/// The texture has at least two pixels a side, and no more than can be
/// numbered.
pub open spec fn texture_resolution_ok(texture_resolution: u32) -> bool {
    2 <= texture_resolution <= MAX_TEXTURE_RESOLUTION
}

/// How near the pixel column (or row) `p` is to a grid line, in units of
/// `1 / (25 * d)`, where `d` is the number of pixel steps across the texture
/// and `c` the number of cells across it.
///
/// With `t = p * c / d` the position counted in cells, the lines lie at the
/// whole numbers. A position at distance `g` from the nearest of them has
/// nearness `1 + 1/25 - 2 * g`, capped at 1: lines are 1/25 of a cell thick.
pub open spec fn nearness(p: int, c: int, d: int) -> int {
    let s = (2 * p * c) % (2 * d);
    let gap = if s <= 2 * d - s {
        s
    } else {
        2 * d - s
    };
    if 26 * d - 25 * gap <= 25 * d {
        26 * d - 25 * gap
    } else {
        25 * d
    }
}

/// What the pixel in column `col` and row `row` has more than the base
/// colour.
///
/// The nearness `m` of the pixel is the greater of those of its column and
/// its row, as a fraction of 1. The gain falls off eight times as steeply as
/// `m` does: it is `210 * (1 - 8 * (1 - m))` rounded down, and 0 where that
/// is negative.
pub open spec fn shade(col: int, row: int, c: int, d: int) -> int {
    let a = nearness(col, c, d);
    let b = nearness(row, c, d);
    let m = if a >= b {
        a
    } else {
        b
    };
    if 8 * m > 175 * d {
        (210 * (8 * m - 175 * d)) / (25 * d)
    } else {
        0
    }
}

/// The byte at position `i` of the texture: three bytes a pixel, red, green
/// and blue, pixels row by row.
pub open spec fn texture_byte(texture_resolution: u32, chunk_resolution: u32, i: int) -> int {
    let pixel = i / 3;
    let col = pixel % (texture_resolution as int);
    let row = pixel / (texture_resolution as int);
    let base: int = if i % 3 == 1 {
        BASE_GREEN as int
    } else {
        BASE_RED as int
    };
    base + shade(col, row, chunk_resolution as int, texture_resolution - 1)
}

/// Nearness lies between that of a cell's middle and that of a line.
pub proof fn lemma_nearness_bounds(p: int, c: int, d: int)
    requires
        d > 0,
        0 <= p,
        0 <= c,
    ensures
        d <= nearness(p, c, d) <= 25 * d,
{
    assert(0 <= 2 * p * c) by (nonlinear_arith)
        requires
            0 <= p,
            0 <= c,
    ;
    vstd::arithmetic::div_mod::lemma_mod_pos_bound(2 * p * c, 2 * d);
}

/// No pixel gains more than one on a line does.
pub proof fn lemma_shade_bounds(col: int, row: int, c: int, d: int)
    requires
        d > 0,
        0 <= col,
        0 <= row,
        0 <= c,
    ensures
        0 <= shade(col, row, c, d) <= LINE_GAIN,
{
    lemma_nearness_bounds(col, c, d);
    lemma_nearness_bounds(row, c, d);
    let a = nearness(col, c, d);
    let b = nearness(row, c, d);
    let m = if a >= b {
        a
    } else {
        b
    };
    if 8 * m > 175 * d {
        let n = 210 * (8 * m - 175 * d);
        assert(0 <= n <= 210 * (25 * d));
        lemma_quotient_bounds(n, 25 * d, 210);
    }
}

proof fn lemma_quotient_bounds(n: int, k: int, q: int)
    requires
        k > 0,
        0 <= n <= q * k,
    ensures
        0 <= n / k <= q,
{
    vstd::arithmetic::div_mod::lemma_fundamental_div_mod(n, k);
    vstd::arithmetic::div_mod::lemma_mod_pos_bound(n, k);
    let x = n / k;
    assert(x <= q) by (nonlinear_arith)
        requires
            k > 0,
            k * x <= q * k,
    ;
    assert(0 <= x) by (nonlinear_arith)
        requires
            k > 0,
            k * x + k > 0,
    ;
}

/// A pixel whose column or row lies on a grid line has the full gain.
pub proof fn lemma_line_has_full_gain(col: int, row: int, c: int, d: int)
    requires
        d > 0,
        0 <= col,
        0 <= row,
        0 <= c,
        (2 * col * c) % (2 * d) == 0 || (2 * row * c) % (2 * d) == 0,
    ensures
        shade(col, row, c, d) == LINE_GAIN,
{
    lemma_nearness_bounds(col, c, d);
    lemma_nearness_bounds(row, c, d);
    let a = nearness(col, c, d);
    let b = nearness(row, c, d);
    let m = if a >= b {
        a
    } else {
        b
    };
    assert(m == 25 * d);
    assert(210 * (8 * m - 175 * d) == 210 * (25 * d));
    lemma_fundamental_div_mod_converse(210 * (25 * d), 25 * d, 210, 0);
}

/// A pixel that is, along both axes, at least 33/400 of a cell away from the
/// nearest line has no gain at all.
pub proof fn lemma_interior_has_no_gain(col: int, row: int, c: int, d: int)
    requires
        d > 0,
        8 * nearness(col, c, d) <= 175 * d,
        8 * nearness(row, c, d) <= 175 * d,
    ensures
        shade(col, row, c, d) == 0,
{
}

fn nearness_of(p: u32, c: u32, d: u32) -> (out: u64)
    requires
        0 < d < MAX_TEXTURE_RESOLUTION,
        p <= d,
    ensures
        out == nearness(p as int, c as int, d as int),
        d <= out <= 25 * d,
{
    proof {
        lemma_nearness_bounds(p as int, c as int, d as int);
        assert(0 <= 2 * p * c <= 2 * 0xFFFF * 0xFFFF_FFFF) by (nonlinear_arith)
            requires
                0 <= p <= 0xFFFF,
                0 <= c <= 0xFFFF_FFFF,
        ;
    }
    let span: u64 = 2 * (d as u64);
    let s: u64 = (2 * (p as u64) * (c as u64)) % span;
    let gap: u64 = if s <= span - s {
        s
    } else {
        span - s
    };
    let near: u64 = 26 * (d as u64) - 25 * gap;
    if near <= 25 * (d as u64) {
        near
    } else {
        25 * (d as u64)
    }
}

/// The nearness of every pixel column (and so of every pixel row).
fn nearness_table(texture_resolution: u32, chunk_resolution: u32) -> (table: Vec<u64>)
    requires
        texture_resolution_ok(texture_resolution),
        chunk_resolution >= 1,
    ensures
        table@.len() == texture_resolution,
        forall|p: int|
            0 <= p < table@.len() ==> #[trigger] table@[p] == nearness(
                p,
                chunk_resolution as int,
                texture_resolution - 1,
            ),
{
    let mut table: Vec<u64> = Vec::new();
    let mut p: u32 = 0;
    while p < texture_resolution
        invariant
            texture_resolution_ok(texture_resolution),
            chunk_resolution >= 1,
            p <= texture_resolution,
            table@.len() == p,
            forall|k: int|
                0 <= k < table@.len() ==> #[trigger] table@[k] == nearness(
                    k,
                    chunk_resolution as int,
                    texture_resolution - 1,
                ),
        decreases texture_resolution - p,
    {
        table.push(nearness_of(p, chunk_resolution, texture_resolution - 1));
        p += 1;
    }
    table
}

fn shade_of(a: u64, b: u64, d: u32) -> (out: u8)
    requires
        0 < d < MAX_TEXTURE_RESOLUTION,
        d <= a <= 25 * d,
        d <= b <= 25 * d,
    ensures
        out == {
            let m = if a >= b {
                a
            } else {
                b
            };
            if 8 * m > 175 * d {
                (210 * (8 * m - 175 * d)) / (25 * d)
            } else {
                0
            }
        },
        out <= LINE_GAIN,
{
    let m = if a >= b {
        a
    } else {
        b
    };
    let floor: u64 = 175 * (d as u64);
    if 8 * m > floor {
        let n: u64 = 210 * (8 * m - floor);
        proof {
            lemma_quotient_bounds(n as int, 25 * d, 210);
        }
        (n / (25 * (d as u64))) as u8
    } else {
        0
    }
}

/// The bytes of the grid texture: `texture_resolution` pixels a side, showing
/// `chunk_resolution` cells a side, bright lines on a dark ground.
pub fn grid_texture_pixels(texture_resolution: u32, chunk_resolution: u32) -> (out: Result<
    Vec<u8>,
    TerrainError,
>)
    ensures
        out is Ok <==> texture_resolution_ok(texture_resolution) && chunk_resolution >= 1,
        out matches Ok(bytes) ==> {
            &&& bytes@.len() == 3 * (texture_resolution * texture_resolution)
            &&& forall|i: int|
                0 <= i < bytes@.len() ==> #[trigger] bytes@[i] == texture_byte(
                    texture_resolution,
                    chunk_resolution,
                    i,
                )
        },
        out matches Err(e) ==> e == TerrainError::InvalidArgument,
{
    if texture_resolution < 2 || texture_resolution > MAX_TEXTURE_RESOLUTION || chunk_resolution < 1 {
        return Err(TerrainError::InvalidArgument);
    }
    let side = texture_resolution;
    let table = nearness_table(texture_resolution, chunk_resolution);
    let mut bytes: Vec<u8> = Vec::new();
    let mut row: u32 = 0;
    while row < side
        invariant
            side == texture_resolution,
            texture_resolution_ok(texture_resolution),
            chunk_resolution >= 1,
            row <= side,
            table@.len() == side,
            forall|p: int|
                0 <= p < table@.len() ==> #[trigger] table@[p] == nearness(
                    p,
                    chunk_resolution as int,
                    texture_resolution - 1,
                ),
            bytes@.len() == 3 * (row * side),
            forall|i: int|
                0 <= i < bytes@.len() ==> #[trigger] bytes@[i] == texture_byte(
                    texture_resolution,
                    chunk_resolution,
                    i,
                ),
        decreases side - row,
    {
        let mut col: u32 = 0;
        while col < side
            invariant
                side == texture_resolution,
                texture_resolution_ok(texture_resolution),
                chunk_resolution >= 1,
                row < side,
                col <= side,
                table@.len() == side,
                forall|p: int|
                    0 <= p < table@.len() ==> #[trigger] table@[p] == nearness(
                        p,
                        chunk_resolution as int,
                        texture_resolution - 1,
                    ),
                bytes@.len() == 3 * (row * side + col),
                forall|i: int|
                    0 <= i < bytes@.len() ==> #[trigger] bytes@[i] == texture_byte(
                        texture_resolution,
                        chunk_resolution,
                        i,
                    ),
            decreases side - col,
        {
            proof {
                lemma_nearness_bounds(col as int, chunk_resolution as int, side - 1);
                lemma_nearness_bounds(row as int, chunk_resolution as int, side - 1);
            }
            let gain = shade_of(table[col as usize], table[row as usize], side - 1);
            let ghost start = bytes@.len() as int;
            bytes.push(BASE_RED + gain);
            bytes.push(BASE_GREEN + gain);
            bytes.push(BASE_BLUE + gain);
            proof {
                let pixel = row * side + col;
                lemma_fundamental_div_mod_converse(pixel, side as int, row as int, col as int);
                assert forall|i: int| start <= i < start + 3 implies #[trigger] bytes@[i]
                    == texture_byte(texture_resolution, chunk_resolution, i) by {
                    assert(i / 3 == pixel);
                    assert(i % 3 == i - start);
                }
            }
            col += 1;
        }
        assert((row + 1) * side == row * side + side) by (nonlinear_arith);
        row += 1;
    }
    Ok(bytes)
}

} // verus!
