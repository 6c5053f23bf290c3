//! The mapping between pixels and byte indices.
//!
//! Pixels here are *logical*: positions in the unpanned, unzoomed picture,
//! rounded down to whole pixels. Columns stand side by side, `pitch` pixels
//! apart; within a column the bytes run along a pixel row, then down the rows.

use vstd::prelude::*;
use vstd::arithmetic::div_mod::{
    lemma_fundamental_div_mod,
    lemma_fundamental_div_mod_converse,
    lemma_hoist_over_denominator,
};
use crate::view::{DataView, Layout};

verus! {

impl Layout {
    /// The column that the pixel column `x` falls in.
    pub open spec fn column_of(self, x: int) -> int {
        x / self.pitch()
    }

    /// The element within its pixel row that `x` stands for. A pixel in the
    /// gutter between two columns stands for the last element of the column
    /// to its left.
    pub open spec fn element_in_row(self, x: int) -> int {
        let raw = x % self.pitch();
        if raw >= self.width {
            self.width - 1
        } else {
            raw
        }
    }

    /// The linear element index of the pixel `(x, y)`.
    pub open spec fn element_index(self, x: int, y: int) -> int {
        self.row_stride() * self.height * self.column_of(x) + y * self.row_stride()
            + self.element_in_row(x)
    }

    /// The byte drawn at the pixel `(x, y)`, if there is one.
    pub open spec fn byte_at(self, x: int, y: int) -> Option<int> {
        if x < 0 || y < 0 || y >= self.height {
            None
        } else {
            let index = self.element_index(x, y) / self.elements_per_byte();
            if index < self.data_len() {
                Some(self.start + index)
            } else {
                None
            }
        }
    }

    /// Tells whether the layout draws every byte of its range somewhere.
    pub open spec fn draws_all(self) -> bool {
        self.row_stride() > 0 && self.height > 0
    }

    /// The pixel column at which the first element of `byte` is drawn.
    pub open spec fn pixel_x_of(self, byte: int) -> int {
        let target = (byte - self.start) * self.elements_per_byte();
        let cell = target / self.row_stride();
        (cell / self.height) * self.pitch() + target % self.row_stride()
    }

    /// The pixel row at which the first element of `byte` is drawn.
    pub open spec fn pixel_y_of(self, byte: int) -> int {
        let target = (byte - self.start) * self.elements_per_byte();
        (target / self.row_stride()) % self.height
    }

    /// The pixel at which the first element of `byte` is drawn: the inverse of
    /// `byte_at`. There is none for a byte outside the range, in a layout that
    /// does not draw every byte, or where the pixel column is past `i64::MAX`.
    pub open spec fn pixel_of(self, byte: int) -> Option<(int, int)> {
        if self.start <= byte < self.end && self.draws_all() && self.pixel_x_of(byte)
            <= i64::MAX {
            Some((self.pixel_x_of(byte), self.pixel_y_of(byte)))
        } else {
            None
        }
    }
}

impl DataView {
    /// The byte index drawn at a logical pixel, or `None` where the pixel lies
    /// outside every column or past the end of the data.
    pub fn byte_from_pixel(&self, pixel: (i64, i64)) -> (byte: Option<u32>)
        ensures
            match byte {
                Some(b) => self@.byte_at(pixel.0 as int, pixel.1 as int) == Some(b as int)
                    && self@.start <= b < self@.end,
                None => self@.byte_at(pixel.0 as int, pixel.1 as int) is None,
            },
    {
        proof {
            use_type_invariant(self);
        }
        let (width, height) = self.column_dim();
        let bounds = self.data_bounds();
        let spacing = self.column_spacing();
        let bits = self.bits_per_pixel();
        if pixel.0 < 0 || pixel.1 < 0 || pixel.1 >= height as i64 {
            return None;
        }
        let x: u128 = pixel.0 as u128;
        let y: u128 = pixel.1 as u128;
        let pitch: u128 = width as u128 + spacing as u128;
        let column: u128 = x / pitch;
        let raw: u128 = x % pitch;
        let element: u128 = if raw >= width as u128 {
            (width - 1) as u128
        } else {
            raw
        };
        let stride: u128 = (width / (bits as u32)) as u128;
        let per_byte: u128 = (8 / bits) as u128;
        proof {
            lemma_layout_units(self@);
            assert(column <= x) by (nonlinear_arith)
                requires
                    column == x / pitch,
                    pitch >= 1,
            ;
            assert(stride * height <= 0xffff_ffff * 0xffff_ffff) by (nonlinear_arith)
                requires
                    stride <= 0xffff_ffff,
                    height <= 0xffff_ffff,
            ;
            assert(stride * height * column <= 0xffff_ffff * 0xffff_ffff * 0x7fff_ffff_ffff_ffff)
                by (nonlinear_arith)
                requires
                    stride * height <= 0xffff_ffff * 0xffff_ffff,
                    column <= 0x7fff_ffff_ffff_ffff,
            ;
            assert(y * stride <= 0xffff_ffff * 0xffff_ffff) by (nonlinear_arith)
                requires
                    stride <= 0xffff_ffff,
                    y <= 0xffff_ffff,
            ;
        }
        let index: u128 = stride * (height as u128) * column + y * stride + element;
        let byte_index: u128 = index / per_byte;
        if byte_index < (bounds.1 - bounds.0) as u128 {
            Some((bounds.0 as u128 + byte_index) as u32)
        } else {
            None
        }
    }

    /// The logical pixel at which a byte is drawn: the top left pixel of its
    /// first element. `None` where the byte is not drawn at any pixel that an
    /// `i64` pair can name.
    pub fn pixel_from_byte(&self, byte: u32) -> (pixel: Option<(i64, i64)>)
        ensures
            match pixel {
                Some(p) => self@.pixel_of(byte as int) == Some((p.0 as int, p.1 as int)) && 0
                    <= p.0 && 0 <= p.1 < self@.height,
                None => self@.pixel_of(byte as int) is None,
            },
    {
        proof {
            use_type_invariant(self);
        }
        let (width, height) = self.column_dim();
        let bounds = self.data_bounds();
        let spacing = self.column_spacing();
        let bits = self.bits_per_pixel();
        let stride: u64 = (width / (bits as u32)) as u64;
        if (byte as usize) < bounds.0 || (byte as usize) >= bounds.1 || stride == 0 || height == 0 {
            return None;
        }
        let per_byte: u64 = (8 / bits) as u64;
        let rel: u64 = byte as u64 - bounds.0 as u64;
        proof {
            lemma_layout_units(self@);
            assert(rel * per_byte <= 0xffff_ffff * 8) by (nonlinear_arith)
                requires
                    rel <= 0xffff_ffff,
                    per_byte <= 8,
            ;
        }
        let target: u64 = rel * per_byte;
        let cell: u64 = target / stride;
        let element: u64 = target % stride;
        let column: u64 = cell / (height as u64);
        let row: u64 = cell % (height as u64);
        let pitch: u64 = width as u64 + spacing as u64;
        proof {
            assert(cell <= target) by (nonlinear_arith)
                requires
                    cell == target / stride,
                    stride >= 1,
            ;
            assert(column <= cell) by (nonlinear_arith)
                requires
                    column == cell / (height as u64),
                    height >= 1,
            ;
            assert(column * pitch <= 0x8_0000_0000 * 0x2_0000_0000) by (nonlinear_arith)
                requires
                    column <= 0x8_0000_0000,
                    pitch <= 0x2_0000_0000,
            ;
        }
        let x: u128 = (column as u128) * (pitch as u128) + element as u128;
        if x > i64::MAX as u128 {
            None
        } else {
            Some((x as i64, row as i64))
        }
    }
}

/// Round trip: where a byte has a pixel, that pixel shows the byte.
pub proof fn lemma_round_trip(layout: Layout, byte: int)
    requires
        layout.valid(),
        layout.start <= byte < layout.end,
        layout.draws_all(),
        layout.pixel_x_of(byte) <= i64::MAX,
    ensures
        layout.pixel_of(byte) == Some((layout.pixel_x_of(byte), layout.pixel_y_of(byte))),
        layout.byte_at(layout.pixel_x_of(byte), layout.pixel_y_of(byte)) == Some(byte),
{
    let per_byte = layout.elements_per_byte();
    let stride = layout.row_stride();
    let height = layout.height;
    let pitch = layout.pitch();
    let target = (byte - layout.start) * per_byte;
    let cell = target / stride;
    let element = target % stride;
    let column = cell / height;
    let row = cell % height;
    let x = layout.pixel_x_of(byte);
    let y = layout.pixel_y_of(byte);
    lemma_layout_units(layout);
    assert(target >= 0) by (nonlinear_arith)
        requires
            target == (byte - layout.start) * per_byte,
            byte - layout.start >= 0,
            per_byte >= 1,
    ;
    lemma_fundamental_div_mod(target, stride);
    lemma_fundamental_div_mod(cell, height);
    assert(cell >= 0) by (nonlinear_arith)
        requires
            cell == target / stride,
            target >= 0,
            stride >= 1,
    ;
    assert(column >= 0) by (nonlinear_arith)
        requires
            column == cell / height,
            cell >= 0,
            height >= 1,
    ;
    assert(x == column * pitch + element);
    assert(x == pitch * column + element) by (nonlinear_arith)
        requires
            x == column * pitch + element,
    ;
    lemma_fundamental_div_mod_converse(x, pitch, column, element);
    assert(layout.column_of(x) == column);
    assert(layout.element_in_row(x) == element);
    assert(x >= 0) by (nonlinear_arith)
        requires
            x == column * pitch + element,
            column >= 0,
            pitch >= 1,
            element >= 0,
    ;
    assert(layout.element_index(x, y) == target) by (nonlinear_arith)
        requires
            layout.element_index(x, y) == stride * height * column + row * stride + element,
            cell == height * column + row,
            target == stride * cell + element,
    ;
    assert(target / per_byte == byte - layout.start) by (nonlinear_arith)
        requires
            target == (byte - layout.start) * per_byte,
            per_byte >= 1,
    ;
}

/// Packing: in a layout whose row stride is a whole number of bytes, two
/// pixels of one pixel row and one column whose elements fall in the same
/// group of `elements_per_byte` show the same byte.
pub proof fn lemma_packed_elements(layout: Layout, x1: int, x2: int, y: int)
    requires
        layout.valid(),
        layout.row_stride() % layout.elements_per_byte() == 0,
        0 <= x1,
        0 <= x2,
        layout.column_of(x1) == layout.column_of(x2),
        layout.element_in_row(x1) / layout.elements_per_byte() == layout.element_in_row(x2)
            / layout.elements_per_byte(),
    ensures
        layout.byte_at(x1, y) == layout.byte_at(x2, y),
{
    lemma_index_splits(layout, x1, y);
    lemma_index_splits(layout, x2, y);
}

/// A layout whose column width is a multiple of 8 pixels has a row stride of
/// whole bytes at every bit depth; at one bit per pixel every valid layout has.
pub proof fn lemma_whole_byte_stride(layout: Layout)
    requires
        layout.valid(),
        layout.width % 8 == 0 || layout.bits == 1,
    ensures
        layout.row_stride() % layout.elements_per_byte() == 0,
{
    let w = layout.width;
    let m = w / 8;
    lemma_layout_units(layout);
    assert(w == 8 * m) by {
        lemma_fundamental_div_mod(w, 8);
        if layout.bits == 1 {
            assert(layout.elements_per_byte() == 8);
        }
    }
    let b = layout.bits;
    let per_byte = layout.elements_per_byte();
    assert(w / b == per_byte * m) by (nonlinear_arith)
        requires
            w == 8 * m,
            per_byte * b == 8,
            b >= 1,
    ;
    assert((per_byte * m) % per_byte == 0) by (nonlinear_arith)
        requires
            per_byte >= 1,
    ;
}

/// Gutter policy: a pixel between two columns shows what the last pixel of
/// the column to its left shows in the same row.
pub proof fn lemma_gutter_clamps(layout: Layout, x: int, y: int)
    requires
        layout.valid(),
        0 <= x,
        x % layout.pitch() >= layout.width,
    ensures
        ({
            let last = layout.column_of(x) * layout.pitch() + layout.width - 1;
            0 <= last <= x && layout.byte_at(x, y) == layout.byte_at(last, y)
        }),
{
    let pitch = layout.pitch();
    let column = layout.column_of(x);
    let last = column * pitch + layout.width - 1;
    lemma_fundamental_div_mod(x, pitch);
    assert(column >= 0) by (nonlinear_arith)
        requires
            column == x / pitch,
            x >= 0,
            pitch >= 1,
    ;
    assert(last == pitch * column + (layout.width - 1)) by (nonlinear_arith)
        requires
            last == column * pitch + layout.width - 1,
    ;
    lemma_fundamental_div_mod_converse(last, pitch, column, layout.width - 1);
    assert(last >= 0) by (nonlinear_arith)
        requires
            last == column * pitch + layout.width - 1,
            column >= 0,
            pitch >= 1,
            layout.width >= 1,
    ;
}

/// The sizes that a valid layout derives from its fields.
proof fn lemma_layout_units(layout: Layout)
    requires
        layout.valid(),
    ensures
        1 <= layout.elements_per_byte() <= 8,
        layout.elements_per_byte() * layout.bits == 8,
        0 <= layout.row_stride() <= layout.width,
        layout.width <= layout.pitch(),
{
    let b = layout.bits;
    assert(8int / b * b == 8 && 1 <= 8int / b <= 8) by (nonlinear_arith)
        requires
            b == 1 || b == 2 || b == 4 || b == 8,
    ;
    assert(layout.row_stride() <= layout.width) by (nonlinear_arith)
        requires
            layout.row_stride() == layout.width / b,
            layout.width >= 0,
            b >= 1,
    ;
    assert(layout.row_stride() >= 0) by (nonlinear_arith)
        requires
            layout.row_stride() == layout.width / b,
            layout.width >= 0,
            b >= 1,
    ;
}

/// With a row stride of whole bytes, the byte index of a pixel is that of
/// its row's first element plus the element's own byte offset.
proof fn lemma_index_splits(layout: Layout, x: int, y: int)
    requires
        layout.valid(),
        layout.row_stride() % layout.elements_per_byte() == 0,
    ensures
        ({
            let per_byte = layout.elements_per_byte();
            let cell = layout.height * layout.column_of(x) + y;
            layout.element_index(x, y) / per_byte == (layout.row_stride() / per_byte) * cell
                + layout.element_in_row(x) / per_byte
        }),
{
    let per_byte = layout.elements_per_byte();
    let stride = layout.row_stride();
    let cell = layout.height * layout.column_of(x) + y;
    let element = layout.element_in_row(x);
    let k = stride / per_byte;
    lemma_layout_units(layout);
    lemma_fundamental_div_mod(stride, per_byte);
    let height = layout.height;
    let column = layout.column_of(x);
    assert(stride * height * column + y * stride == stride * cell) by (nonlinear_arith)
        requires
            cell == height * column + y,
    ;
    assert(stride * cell == (k * cell) * per_byte) by (nonlinear_arith)
        requires
            stride == per_byte * k,
    ;
    lemma_hoist_over_denominator(element, k * cell, per_byte as nat);
}

} // verus!
