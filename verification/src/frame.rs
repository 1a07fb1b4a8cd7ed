//! One captured screen image: raw pixel bytes plus the geometry needed to
//! find a pixel in them.

use vstd::prelude::*;
use crate::color::Color;
use crate::grid::GRID_SIDE;

verus! {

/// Bytes that one pixel occupies in a row.
pub const BYTES_PER_PIXEL: usize = 4;

/// Offset of the blue byte inside a pixel.
pub const BLUE_OFFSET: usize = 0;

/// Offset of the green byte inside a pixel.
pub const GREEN_OFFSET: usize = 1;

/// Offset of the red byte inside a pixel.
pub const RED_OFFSET: usize = 2;

/// One capture. Pixels lie row after row, each row `stride` bytes long, each
/// pixel as blue, green, red and one unused byte. A row may hold padding after
/// its last pixel.
#[derive(Debug)]
pub struct Frame {
    pub width: usize,
    pub height: usize,
    pub stride: usize,
    pub data: Vec<u8>,
}

/// Why a buffer cannot be taken as a frame.
#[derive(Clone, Copy, Debug, PartialEq, Eq, Structural)]
pub enum FrameError {
    /// Fewer than eight pixels along an axis: some cell would be empty.
    Degenerate,
    /// A row of `stride` bytes cannot hold `width` pixels.
    StrideTooShort,
    /// The buffer ends before the last row does.
    BufferTooShort,
}

/// What is wrong with a geometry, if anything. The first failing test, in the
/// order size, stride, length, names the error.
pub open spec fn geometry_fault(width: int, height: int, stride: int, len: int) -> Option<
    FrameError,
> {
    if width < GRID_SIDE || height < GRID_SIDE {
        Some(FrameError::Degenerate)
    } else if stride < BYTES_PER_PIXEL * width {
        Some(FrameError::StrideTooShort)
    } else if len < stride * height {
        Some(FrameError::BufferTooShort)
    } else {
        None
    }
}

/// Where the first byte of pixel (`x`, `y`) lies in a buffer with rows of
/// `stride` bytes.
pub open spec fn pixel_offset(stride: int, x: int, y: int) -> int {
    stride * y + BYTES_PER_PIXEL * x
}

/// Every pixel of a well-formed geometry lies wholly inside the buffer.
pub proof fn pixel_lies_in_buffer(width: int, height: int, stride: int, len: int, x: int, y: int)
    requires
        geometry_fault(width, height, stride, len).is_none(),
        0 <= x < width,
        0 <= y < height,
    ensures
        0 <= pixel_offset(stride, x, y),
        pixel_offset(stride, x, y) + BYTES_PER_PIXEL <= len,
{
    assert(stride * y >= 0 && stride * (y + 1) <= stride * height) by (nonlinear_arith)
        requires
            0 <= y < height,
            stride >= 0,
    ;
    assert(stride * (y + 1) == stride * y + stride) by (nonlinear_arith);
}

impl Frame {
    /// The geometry is self-consistent and leaves no cell empty.
    pub open spec fn wf(&self) -> bool {
        geometry_fault(
            self.width as int,
            self.height as int,
            self.stride as int,
            self.data@.len() as int,
        ).is_none()
    }

    /// The color of pixel (`x`, `y`), read in the buffer's own channel order.
    pub open spec fn pixel_at(&self, x: int, y: int) -> Color {
        let at = pixel_offset(self.stride as int, x, y);
        Color {
            red: self.data@[at + RED_OFFSET],
            green: self.data@[at + GREEN_OFFSET],
            blue: self.data@[at + BLUE_OFFSET],
        }
    }

    /// Pixels along one side of a cell, horizontally.
    pub open spec fn cell_width_of(&self) -> int {
        self.width as int / 8
    }

    /// Pixels along one side of a cell, vertically.
    pub open spec fn cell_height_of(&self) -> int {
        self.height as int / 8
    }

    /// Takes a buffer with an explicit row length as a frame.
    pub fn with_stride(width: usize, height: usize, stride: usize, data: Vec<u8>) -> (r: Result<
        Frame,
        FrameError,
    >)
        ensures
            match geometry_fault(width as int, height as int, stride as int, data@.len() as int) {
                Some(e) => r == Err::<Frame, FrameError>(e),
                None => r == Ok::<Frame, FrameError>(Frame { width, height, stride, data }),
            },
            r.is_ok() ==> r.unwrap().wf(),
    {
        if width < 8 || height < 8 {
            return Err(FrameError::Degenerate);
        }
        if stride / 4 < width {
            return Err(FrameError::StrideTooShort);
        }
        let rows_held: usize = data.len() / stride;
        proof {
            let len = data@.len() as int;
            assert((len / stride as int >= height as int) <==> (len >= stride * height))
                by (nonlinear_arith)
                requires
                    stride > 0,
                    height >= 0,
                    len >= 0,
            ;
        }
        if rows_held < height {
            return Err(FrameError::BufferTooShort);
        }
        Ok(Frame { width, height, stride, data })
    }

    /// Takes a buffer of `height` equal rows as a frame; the row length is
    /// the buffer's length divided by `height`.
    pub fn new(width: usize, height: usize, data: Vec<u8>) -> (r: Result<Frame, FrameError>)
        ensures
            height == 0 ==> r == Err::<Frame, FrameError>(FrameError::Degenerate),
            height > 0 ==> match geometry_fault(
                width as int,
                height as int,
                data@.len() as int / height as int,
                data@.len() as int,
            ) {
                Some(e) => r == Err::<Frame, FrameError>(e),
                None => r == Ok::<Frame, FrameError>(
                    Frame { width, height, stride: (data@.len() as int / height as int) as usize, data },
                ),
            },
            r.is_ok() ==> r.unwrap().wf(),
    {
        if height == 0 {
            return Err(FrameError::Degenerate);
        }
        let stride: usize = data.len() / height;
        Frame::with_stride(width, height, stride, data)
    }

    /// Reads one pixel.
    pub fn pixel(&self, x: usize, y: usize) -> (c: Color)
        requires
            self.wf(),
            x < self.width,
            y < self.height,
        ensures
            c == self.pixel_at(x as int, y as int),
    {
        proof {
            pixel_lies_in_buffer(
                self.width as int,
                self.height as int,
                self.stride as int,
                self.data@.len() as int,
                x as int,
                y as int,
            );
            assert(self.stride * y + 4 * x + 4 <= self.data.len());
        }
        let at: usize = self.stride * y + 4 * x;
        Color { red: self.data[at + 2], green: self.data[at + 1], blue: self.data[at] }
    }

    /// Pixels along one side of a cell, horizontally. Up to seven columns at
    /// the right edge belong to no cell.
    pub fn cell_width(&self) -> (w: usize)
        ensures
            w as int == self.cell_width_of(),
    {
        self.width / 8
    }

    /// Pixels along one side of a cell, vertically. Up to seven rows at the
    /// bottom edge belong to no cell.
    pub fn cell_height(&self) -> (h: usize)
        ensures
            h as int == self.cell_height_of(),
    {
        self.height / 8
    }
}

} // verus!
