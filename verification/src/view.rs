//! The layout of buffer bytes on screen: columns of pixels, their spacing,
//! the bit depth of a pixel and the range of the buffer that is shown.

use vstd::prelude::*;

verus! {

/// The mathematical model of a [`DataView`].
pub struct Layout {
    /// First byte shown.
    pub start: int,
    /// One past the last byte shown.
    pub end: int,
    /// Width of a column, in pixels.
    pub width: int,
    /// Height of a column, in pixels.
    pub height: int,
    /// Gap between adjacent columns, in pixels.
    pub spacing: int,
    /// Bits shown per pixel.
    pub bits: int,
}

impl Layout {
    /// A pixel shows 1, 2, 4 or 8 bits.
    pub open spec fn bits_ok(self) -> bool {
        self.bits == 1 || self.bits == 2 || self.bits == 4 || self.bits == 8
    }

    /// The invariant of a view: ordered bounds that 32-bit byte indices can
    /// address, a bit depth that divides a byte, and a column made of whole bytes.
    pub open spec fn valid(self) -> bool {
        &&& 0 <= self.start <= self.end <= u32::MAX
        &&& self.bits_ok()
        &&& 0 < self.width <= u32::MAX
        &&& self.width % (8int / self.bits) == 0
        &&& 0 <= self.height <= u32::MAX
        &&& 0 <= self.spacing <= u32::MAX
    }

    /// Number of bytes shown.
    pub open spec fn data_len(self) -> int {
        self.end - self.start
    }

    /// Number of pixels that one byte fills.
    pub open spec fn elements_per_byte(self) -> int {
        8int / self.bits
    }

    /// Number of elements by which one pixel row of a column advances.
    pub open spec fn row_stride(self) -> int {
        self.width / self.bits
    }

    /// Distance between the left edges of adjacent columns, in pixels.
    pub open spec fn pitch(self) -> int {
        self.width + self.spacing
    }

    /// The column width in pixels divided by eight times the bit depth,
    /// rounded down: the figure of the status line. At one bit per pixel it is
    /// the number of bytes in a pixel row; it is 0 for a column narrower than
    /// `8 * bits` pixels.
    pub open spec fn byte_width(self) -> int {
        self.width / (8 * self.bits)
    }
}

/// Why a configuration was refused.
#[derive(Clone, Copy, Debug, PartialEq, Eq, Structural)]
pub enum ConfigError {
    /// The bit depth is not 1, 2, 4 or 8.
    BitsPerPixel,
    /// The column width is zero.
    ZeroColumnWidth,
    /// The column width is not a whole number of bytes.
    RaggedColumnWidth,
    /// The bounds are out of order or reach past the end of the buffer.
    DataBounds,
    /// The bounds reach past what a 32-bit byte index can address.
    AddressRange,
    /// The offset does not lie inside the buffer.
    Offset,
}

/// The error, if any, with which a bit depth and a column width are refused.
pub open spec fn spec_check_column(width: int, bits: int) -> Option<ConfigError> {
    if !(bits == 1 || bits == 2 || bits == 4 || bits == 8) {
        Some(ConfigError::BitsPerPixel)
    } else if width == 0 {
        Some(ConfigError::ZeroColumnWidth)
    } else if width % (8int / bits) != 0 {
        Some(ConfigError::RaggedColumnWidth)
    } else {
        None
    }
}

/// The error, if any, with which a configuration is refused for a buffer of `buffer_len` bytes.
pub open spec fn spec_check_config(buffer_len: int, layout: Layout) -> Option<ConfigError> {
    if spec_check_column(layout.width, layout.bits) is Some {
        spec_check_column(layout.width, layout.bits)
    } else if !(layout.start <= layout.end <= buffer_len) {
        Some(ConfigError::DataBounds)
    } else if layout.end > u32::MAX {
        Some(ConfigError::AddressRange)
    } else {
        None
    }
}

/// Tells whether a bit depth and a column width go together.
pub fn check_column(width: u32, bits: u8) -> (err: Option<ConfigError>)
    ensures
        err == spec_check_column(width as int, bits as int),
{
    if !(bits == 1 || bits == 2 || bits == 4 || bits == 8) {
        Some(ConfigError::BitsPerPixel)
    } else if width == 0 {
        Some(ConfigError::ZeroColumnWidth)
    } else if width % ((8 / bits) as u32) != 0 {
        Some(ConfigError::RaggedColumnWidth)
    } else {
        None
    }
}

/// Which part of a buffer is drawn, and how it is laid out in columns.
#[derive(Clone, Copy, Debug)]
pub struct DataView {
    data_bounds: (usize, usize),
    column_dim: (u32, u32),
    column_spacing: u32,
    bits_per_pixel: u8,
}

impl View for DataView {
    type V = Layout;

    closed spec fn view(&self) -> Layout {
        Layout {
            start: self.data_bounds.0 as int,
            end: self.data_bounds.1 as int,
            width: self.column_dim.0 as int,
            height: self.column_dim.1 as int,
            spacing: self.column_spacing as int,
            bits: self.bits_per_pixel as int,
        }
    }
}

impl DataView {
    /// Every view is valid.
    #[verifier::type_invariant]
    pub open spec fn inv(&self) -> bool {
        self@.valid()
    }

    /// Builds a view of the bytes `data_bounds.0 .. data_bounds.1` of a buffer
    /// of `buffer_len` bytes, or says why the configuration is refused.
    pub fn new(
        buffer_len: usize,
        data_bounds: (usize, usize),
        column_dim: (u32, u32),
        column_spacing: u32,
        bits_per_pixel: u8,
    ) -> (made: Result<DataView, ConfigError>)
        ensures
            ({
                let layout = Layout {
                    start: data_bounds.0 as int,
                    end: data_bounds.1 as int,
                    width: column_dim.0 as int,
                    height: column_dim.1 as int,
                    spacing: column_spacing as int,
                    bits: bits_per_pixel as int,
                };
                match made {
                    Ok(view) => spec_check_config(buffer_len as int, layout) is None && view@
                        == layout,
                    Err(e) => spec_check_config(buffer_len as int, layout) == Some(e),
                }
            }),
    {
        match check_column(column_dim.0, bits_per_pixel) {
            Some(e) => Err(e),
            None => {
                if data_bounds.0 > data_bounds.1 || data_bounds.1 > buffer_len {
                    Err(ConfigError::DataBounds)
                } else if data_bounds.1 > u32::MAX as usize {
                    Err(ConfigError::AddressRange)
                } else {
                    Ok(DataView { data_bounds, column_dim, column_spacing, bits_per_pixel })
                }
            },
        }
    }

    /// First and one-past-last byte shown.
    pub fn data_bounds(&self) -> (bounds: (usize, usize))
        ensures
            bounds.0 == self@.start,
            bounds.1 == self@.end,
    {
        self.data_bounds
    }

    /// Width and height of a column, in pixels.
    pub fn column_dim(&self) -> (dim: (u32, u32))
        ensures
            dim.0 == self@.width,
            dim.1 == self@.height,
    {
        self.column_dim
    }

    /// Gap between adjacent columns, in pixels.
    pub fn column_spacing(&self) -> (spacing: u32)
        ensures
            spacing == self@.spacing,
    {
        self.column_spacing
    }

    /// Bits shown per pixel.
    pub fn bits_per_pixel(&self) -> (bits: u8)
        ensures
            bits == self@.bits,
    {
        self.bits_per_pixel
    }

    /// The column width in pixels divided by eight times the bit depth,
    /// rounded down.
    pub fn byte_width(&self) -> (width: u32)
        ensures
            width == self@.byte_width(),
    {
        proof {
            use_type_invariant(self);
        }
        let per_column: u32 = 8 * (self.bits_per_pixel as u32);
        self.column_dim.0 / per_column
    }

    /// Number of bytes shown.
    pub fn data_len(&self) -> (len: usize)
        ensures
            len == self@.data_len(),
    {
        proof {
            use_type_invariant(self);
        }
        self.data_bounds.1 - self.data_bounds.0
    }

    /// Moves the start of the shown range to `offset`. The offset has to lie
    /// inside the buffer and not past the end of the range; otherwise the view
    /// stays as it is.
    pub fn set_offset(&mut self, offset: usize, buffer_len: usize) -> (done: Result<
        (),
        ConfigError,
    >)
        ensures
            done is Ok <==> offset < buffer_len && offset <= old(self)@.end,
            done is Ok ==> final(self)@ == (Layout { start: offset as int, ..old(self)@ }),
            done is Err ==> done == Err::<(), ConfigError>(ConfigError::Offset) && final(self)@
                == old(self)@,
    {
        proof {
            use_type_invariant(&*self);
        }
        if offset < buffer_len && offset <= self.data_bounds.1 {
            self.data_bounds = (offset, self.data_bounds.1);
            Ok(())
        } else {
            Err(ConfigError::Offset)
        }
    }

    /// Sets the column width, if it goes with the bit depth; otherwise the
    /// view stays as it is.
    pub fn set_col_width(&mut self, width: u32) -> (done: Result<(), ConfigError>)
        ensures
            match done {
                Ok(_) => spec_check_column(width as int, old(self)@.bits) is None && final(self)@
                    == (Layout { width: width as int, ..old(self)@ }),
                Err(e) => spec_check_column(width as int, old(self)@.bits) == Some(e)
                    && final(self)@ == old(self)@,
            },
    {
        proof {
            use_type_invariant(&*self);
        }
        match check_column(width, self.bits_per_pixel) {
            Some(e) => Err(e),
            None => {
                self.column_dim = (width, self.column_dim.1);
                Ok(())
            },
        }
    }

    /// Sets the gap between columns.
    pub fn set_spacing(&mut self, spacing: u32)
        ensures
            final(self)@ == (Layout { spacing: spacing as int, ..old(self)@ }),
    {
        proof {
            use_type_invariant(&*self);
        }
        self.column_spacing = spacing;
    }

    /// Sets the bit depth, if it is one of 1, 2, 4, 8 and the column width is
    /// a whole number of bytes at that depth; otherwise the view stays as it is.
    pub fn set_bits_per_pixel(&mut self, bits: u8) -> (done: Result<(), ConfigError>)
        ensures
            match done {
                Ok(_) => spec_check_column(old(self)@.width, bits as int) is None && final(self)@
                    == (Layout { bits: bits as int, ..old(self)@ }),
                Err(e) => spec_check_column(old(self)@.width, bits as int) == Some(e)
                    && final(self)@ == old(self)@,
            },
    {
        proof {
            use_type_invariant(&*self);
        }
        match check_column(self.column_dim.0, bits) {
            Some(e) => Err(e),
            None => {
                self.bits_per_pixel = bits;
                Ok(())
            },
        }
    }

    /// Makes the column one byte wider. A width that a `u32` cannot hold is
    /// not taken: the view then stays as it is.
    pub fn widen_column(&mut self)
        ensures
            final(self)@ == (Layout { width: spec_widened(old(self)@), ..old(self)@ }),
    {
        proof {
            use_type_invariant(&*self);
        }
        let step: u32 = (8 / self.bits_per_pixel) as u32;
        if self.column_dim.0 <= u32::MAX - step {
            let wider: u32 = self.column_dim.0 + step;
            assert(wider as int % step as int == 0) by (nonlinear_arith)
                requires
                    wider == self.column_dim.0 + step,
                    self.column_dim.0 as int % step as int == 0,
                    step > 0,
            ;
            self.column_dim = (wider, self.column_dim.1);
        }
    }

    /// Makes the column one byte narrower, but never narrower than 8 pixels.
    pub fn narrow_column(&mut self)
        ensures
            final(self)@ == (Layout { width: spec_narrowed(old(self)@), ..old(self)@ }),
    {
        proof {
            use_type_invariant(&*self);
        }
        let step: u32 = (8 / self.bits_per_pixel) as u32;
        assert(self.column_dim.0 >= step) by (nonlinear_arith)
            requires
                self.column_dim.0 as int % step as int == 0,
                self.column_dim.0 > 0,
                step > 0,
        ;
        let narrower: u32 = self.column_dim.0 - step;
        if narrower < 8 {
            assert(8int % step as int == 0) by {
                assert(step == 8 || step == 4 || step == 2 || step == 1);
            }
            self.column_dim = (8, self.column_dim.1);
        } else {
            assert(narrower as int % step as int == 0) by (nonlinear_arith)
                requires
                    narrower == self.column_dim.0 - step,
                    self.column_dim.0 as int % step as int == 0,
                    step > 0,
            ;
            self.column_dim = (narrower, self.column_dim.1);
        }
    }
}

/// The column width after widening by one byte.
pub open spec fn spec_widened(layout: Layout) -> int {
    if layout.width + layout.elements_per_byte() <= u32::MAX {
        layout.width + layout.elements_per_byte()
    } else {
        layout.width
    }
}

/// The column width after narrowing by one byte, with its floor of 8 pixels.
pub open spec fn spec_narrowed(layout: Layout) -> int {
    if layout.width - layout.elements_per_byte() < 8 {
        8
    } else {
        layout.width - layout.elements_per_byte()
    }
}

} // verus!
