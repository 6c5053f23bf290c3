//! Folding of linear byte offsets into rows of a fixed maximum width.
//!
//! A buffer may be longer than one texture row can hold, so it is laid out as
//! a rectangle of `width` cells per row. The rectangle is padded with zero
//! bytes up to a whole number of rows.

use vstd::prelude::*;
use vstd::arithmetic::div_mod::{
    lemma_fundamental_div_mod,
    lemma_fundamental_div_mod_converse,
};

verus! {

/// The row width that the renderer's textures use.
pub const MAX_TILE_WIDTH: usize = 16384;

/// The tile coordinate `(row, column)` of a linear offset, for rows of `width` cells.
pub open spec fn spec_tile_of(offset: int, width: int) -> (int, int) {
    (offset / width, offset % width)
}

/// The linear offset of the cell at `(row, col)`, for rows of `width` cells.
pub open spec fn spec_offset_of(row: int, col: int, width: int) -> int {
    row * width + col
}

/// The number of rows of `width` cells that hold `len` bytes: `len / width`, rounded up.
pub open spec fn spec_tile_height(len: int, width: int) -> int {
    if len % width == 0 {
        len / width
    } else {
        len / width + 1
    }
}

/// The size of the padded rectangle that holds `len` bytes.
pub open spec fn spec_tiled_len(len: int, width: int) -> int {
    width * spec_tile_height(len, width)
}

/// The padded rectangle itself: the data, then zero bytes up to a whole number of rows.
pub open spec fn spec_tiled(data: Seq<u8>, width: int) -> Seq<u8> {
    data + Seq::new((spec_tiled_len(data.len() as int, width) - data.len()) as nat, |i: int| 0u8)
}

/// Splits a linear offset into its row and its column within the row.
pub fn tile_of(offset: usize, width: usize) -> (tile: (usize, usize))
    requires
        width > 0,
    ensures
        (tile.0 as int, tile.1 as int) == spec_tile_of(offset as int, width as int),
{
    (offset / width, offset % width)
}

/// The linear offset of the cell at `(row, col)`.
pub fn offset_of(row: usize, col: usize, width: usize) -> (offset: usize)
    requires
        spec_offset_of(row as int, col as int, width as int) <= usize::MAX,
    ensures
        offset as int == spec_offset_of(row as int, col as int, width as int),
{
    assert(0 <= row * width) by (nonlinear_arith);
    row * width + col
}

/// The number of rows needed for `len` bytes.
pub fn tile_height(len: usize, width: usize) -> (height: usize)
    requires
        width > 0,
    ensures
        height as int == spec_tile_height(len as int, width as int),
{
    let full: usize = len / width;
    if len % width == 0 {
        full
    } else {
        proof {
            lemma_fundamental_div_mod(len as int, width as int);
            assert(full < len) by (nonlinear_arith)
                requires
                    len == width * full + len % width,
                    len % width > 0,
                    width > 0,
                    full >= 0,
            ;
        }
        full + 1
    }
}

/// Copies `data` into a fresh rectangle of `width` cells per row, zero-padded to whole rows.
pub fn tiled_copy(data: &[u8], width: usize) -> (tiled: Vec<u8>)
    requires
        width > 0,
        data.len() + width - 1 <= usize::MAX,
    ensures
        tiled@ == spec_tiled(data@, width as int),
        tiled.len() == spec_tiled_len(data.len() as int, width as int),
{
    let height: usize = tile_height(data.len(), width);
    proof {
        lemma_tiled_len_bounds(data.len() as int, width as int);
    }
    let total: usize = width * height;
    let mut tiled: Vec<u8> = Vec::with_capacity(total);
    tiled.extend_from_slice(data);
    assert(tiled@ =~= data@);
    tiled.resize(total, 0u8);
    assert(tiled@ =~= spec_tiled(data@, width as int)) by {
        assert(tiled@.subrange(0, data@.len() as int) == data@);
        assert forall|i: int| 0 <= i < data@.len() implies tiled@[i] == data@[i] by {
            assert(tiled@.subrange(0, data@.len() as int)[i] == tiled@[i]);
        }
    }
    tiled
}

/// A rectangle of the shape that `tiled_copy` gives for `len` bytes, holding only zero bytes.
pub fn blank_tiles(len: usize, width: usize) -> (tiles: Vec<u8>)
    requires
        width > 0,
        len + width - 1 <= usize::MAX,
    ensures
        tiles@ == Seq::new(spec_tiled_len(len as int, width as int) as nat, |i: int| 0u8),
{
    let height: usize = tile_height(len, width);
    proof {
        lemma_tiled_len_bounds(len as int, width as int);
    }
    let total: usize = width * height;
    let mut tiles: Vec<u8> = Vec::new();
    tiles.resize(total, 0u8);
    assert(tiles@ =~= Seq::new(total as nat, |i: int| 0u8));
    tiles
}

/// Folding an offset into a tile and unfolding the tile gives the offset back.
pub proof fn lemma_offset_of_tile_of(offset: int, width: int)
    requires
        0 <= offset,
        0 < width,
    ensures
        ({
            let tile = spec_tile_of(offset, width);
            spec_offset_of(tile.0, tile.1, width) == offset
        }),
        0 <= spec_tile_of(offset, width).0,
        0 <= spec_tile_of(offset, width).1 < width,
{
    lemma_fundamental_div_mod(offset, width);
    assert((offset / width) * width == width * (offset / width)) by (nonlinear_arith);
    assert(0 <= offset / width) by (nonlinear_arith)
        requires
            0 <= offset,
            0 < width,
    ;
}

/// Unfolding a tile whose column lies inside the row and folding the offset gives the tile back.
pub proof fn lemma_tile_of_offset_of(row: int, col: int, width: int)
    requires
        0 <= row,
        0 <= col < width,
    ensures
        spec_tile_of(spec_offset_of(row, col, width), width) == (row, col),
{
    assert(row * width == width * row) by (nonlinear_arith);
    lemma_fundamental_div_mod_converse(row * width + col, width, row, col);
}

/// The padded rectangle is the least whole number of rows that holds every byte.
pub proof fn lemma_tiled_len_bounds(len: int, width: int)
    requires
        0 <= len,
        0 < width,
    ensures
        0 <= spec_tile_height(len, width),
        len <= spec_tiled_len(len, width) <= len + width - 1,
        spec_tiled_len(len, width) - width < len || len == 0,
{
    lemma_fundamental_div_mod(len, width);
    let q = len / width;
    assert(0 <= q) by (nonlinear_arith)
        requires
            0 <= len,
            0 < width,
            q == len / width,
    ;
    assert(width * (q + 1) == width * q + width) by (nonlinear_arith);
}

/// Every offset below the data's length lies inside the padded rectangle, in a row below its height.
pub proof fn lemma_tile_in_rectangle(offset: int, len: int, width: int)
    requires
        0 <= offset < len,
        0 < width,
    ensures
        spec_tile_of(offset, width).0 < spec_tile_height(len, width),
        offset < spec_tiled_len(len, width),
{
    lemma_tiled_len_bounds(len, width);
    lemma_fundamental_div_mod(offset, width);
    let h = spec_tile_height(len, width);
    let r = offset / width;
    assert(r < h) by (nonlinear_arith)
        requires
            offset == width * r + offset % width,
            0 <= offset % width,
            offset < width * h,
            0 < width,
    ;
}

} // verus!
