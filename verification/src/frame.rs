//! The colourised picture of the simulation: a frame buffer of RGBA bytes, one pixel per cell.

use vstd::prelude::*;

use crate::grid::Grid;
use crate::palette::{spec_unpack_rgba, unpack_rgba};

verus! {

/// The four bytes of pixel `k` of `frame` are the little-endian bytes of a colour that
/// `color_of` ensures for `cell`.
pub open spec fn pixel_colored<T, F: Fn(T) -> u32>(frame: Seq<u8>, k: int, cell: T, color_of: F) -> bool {
    exists|color: u32|
        #[trigger] call_ensures(color_of, (cell,), color) && frame.subrange(4 * k, 4 * k + 4)
            == spec_unpack_rgba(color)
}

/// A coloured pixel holds the colour's bytes from the lowest to the highest: red, green, blue
/// and alpha of `0xAABBGGRR`.
pub proof fn lemma_pixel_bytes<T, F: Fn(T) -> u32>(frame: Seq<u8>, k: int, cell: T, color_of: F)
    requires
        pixel_colored(frame, k, cell, color_of),
        0 <= k,
        4 * k + 4 <= frame.len(),
    ensures
        exists|color: u32|
            #[trigger] call_ensures(color_of, (cell,), color) && frame[4 * k] == color % 256
                && frame[4 * k + 1] == color / 256 % 256 && frame[4 * k + 2] == color / 65536 % 256
                && frame[4 * k + 3] == color / 16777216,
{
    let color = choose|color: u32|
        #[trigger] call_ensures(color_of, (cell,), color) && frame.subrange(4 * k, 4 * k + 4)
            == spec_unpack_rgba(color);
    assert(frame[4 * k] == frame.subrange(4 * k, 4 * k + 4)[0]);
    assert(frame[4 * k + 1] == frame.subrange(4 * k, 4 * k + 4)[1]);
    assert(frame[4 * k + 2] == frame.subrange(4 * k, 4 * k + 4)[2]);
    assert(frame[4 * k + 3] == frame.subrange(4 * k, 4 * k + 4)[3]);
}

/// Number of pixels in the complete rows of a buffer of `len` bytes, four bytes per pixel and
/// `width` pixels per row.
pub open spec fn full_row_pixels(len: int, width: int) -> int {
    len / (4 * width) * width
}

/// The complete rows of a buffer of `len` bytes, `4 * width` bytes each, fit in it.
proof fn lemma_full_rows_fit(len: int, width: int)
    requires
        0 <= len,
        0 < width,
    ensures
        0 <= full_row_pixels(len, width),
        4 * full_row_pixels(len, width) <= len,
{
    let rows = len / (4 * width);
    vstd::arithmetic::div_mod::lemma_fundamental_div_mod(len, 4 * width);
    assert(0 <= rows * width) by (nonlinear_arith)
        requires
            0 <= rows,
            0 < width,
    ;
    assert(4 * (rows * width) == (4 * width) * rows) by (nonlinear_arith);
}

/// Size and layout of the frame buffer that shows the simulation.
pub struct Frame {
    /// Width of the frame in pixels.
    width: usize,
    /// Height of the frame in pixels.
    height: usize,
}

impl Frame {
    /// Width of the frame in pixels.
    pub closed spec fn spec_width(&self) -> int {
        self.width as int
    }

    /// Height of the frame in pixels.
    pub closed spec fn spec_height(&self) -> int {
        self.height as int
    }

    /// The dimensions fit the 16-bit sizes that frames are made with.
    pub open spec fn wf(&self) -> bool {
        &&& self.spec_width() <= 0xffff
        &&& self.spec_height() <= 0xffff
    }

    /// A frame of `width` x `height` pixels over a buffer of `buffer_len` bytes, four per pixel.
    pub fn new(width: u16, height: u16, buffer_len: usize) -> (frame: Self)
        requires
            width * height * 4 == buffer_len,
        ensures
            frame.wf(),
            frame.spec_width() == width,
            frame.spec_height() == height,
    {
        Frame { width: width as usize, height: height as usize }
    }

    /// Colours the frame buffer: each pixel of each complete row of the buffer takes the
    /// colour that `color_of` gives for the grid cell at the same position, as its
    /// little-endian bytes (red, green, blue, alpha). The bytes after the last complete row are
    /// left as they are.
    pub fn update<T: Copy, F: Fn(T) -> u32>(&self, frame: &mut [u8], grid: &Grid<T>, color_of: F)
        requires
            self.wf(),
            self.spec_width() > 0,
            full_row_pixels(old(frame)@.len() as int, self.spec_width()) <= grid@.len(),
            forall|cell: T| color_of.requires((cell,)),
        ensures
            final(frame)@.len() == old(frame)@.len(),
            forall|k: int|
                0 <= k < full_row_pixels(old(frame)@.len() as int, self.spec_width())
                    ==> pixel_colored(final(frame)@, k, #[trigger] grid@[k], color_of),
            forall|i: int|
                full_row_pixels(old(frame)@.len() as int, self.spec_width()) * 4 <= i < old(
                    frame,
                )@.len() ==> #[trigger] final(frame)@[i] == old(frame)@[i],
    {
        let cells = grid.cells();
        let width = self.width;
        let row_bytes = 4 * width;
        let frame_len = frame.len();
        let rows = frame_len / row_bytes;
        proof {
            lemma_full_rows_fit(frame@.len() as int, width as int);
        }
        let pixel_count = rows * width;
        let ghost original = frame@;
        let mut k: usize = 0;
        while k < pixel_count
            invariant
                self.wf(),
                width == self.spec_width(),
                pixel_count == full_row_pixels(original.len() as int, width as int),
                4 * pixel_count <= original.len(),
                original.len() == frame_len,
                pixel_count <= cells@.len(),
                cells@ == grid@,
                0 <= k <= pixel_count,
                frame@.len() == original.len(),
                forall|cell: T| color_of.requires((cell,)),
                forall|kk: int| 0 <= kk < k ==> pixel_colored(frame@, kk, #[trigger] grid@[kk], color_of),
                forall|i: int| 4 * k <= i < original.len() ==> #[trigger] frame@[i] == original[i],
            decreases pixel_count - k,
        {
            let color = color_of(cells[k]);
            let bytes = unpack_rgba(color);
            let ghost previous = frame@;
            let base = 4 * k;
            frame[base] = bytes[0];
            frame[base + 1] = bytes[1];
            frame[base + 2] = bytes[2];
            frame[base + 3] = bytes[3];
            proof {
                assert forall|kk: int| 0 <= kk <= k implies pixel_colored(
                    frame@,
                    kk,
                    #[trigger] grid@[kk],
                    color_of,
                ) by {
                    if kk < k {
                        assert(frame@.subrange(4 * kk, 4 * kk + 4) =~= previous.subrange(
                            4 * kk,
                            4 * kk + 4,
                        ));
                    } else {
                        assert(frame@.subrange(4 * kk, 4 * kk + 4) =~= spec_unpack_rgba(color));
                        assert(call_ensures(color_of, (grid@[kk],), color));
                    }
                }
            }
            k = k + 1;
        }
    }

    /// The red, green and blue bytes of each complete pixel of an RGBA buffer, in order.
    pub fn rgb_bytes(&self, rgba: &[u8]) -> (rgb: Vec<u8>)
        ensures
            rgb@.len() == rgba@.len() / 4 * 3,
            forall|k: int, c: int|
                0 <= k < rgba@.len() / 4 && 0 <= c < 3 ==> #[trigger] rgb@[3 * k + c] == rgba@[4 * k
                    + c],
    {
        let rgba_len = rgba.len();
        let pixels = rgba_len / 4;
        let mut rgb: Vec<u8> = Vec::with_capacity(pixels * 3);
        let mut k: usize = 0;
        while k < pixels
            invariant
                pixels == rgba@.len() / 4,
                rgba@.len() == rgba_len,
                0 <= k <= pixels,
                rgb@.len() == 3 * k,
                forall|kk: int, c: int|
                    0 <= kk < k && 0 <= c < 3 ==> #[trigger] rgb@[3 * kk + c] == rgba@[4 * kk + c],
            decreases pixels - k,
        {
            rgb.push(rgba[4 * k]);
            rgb.push(rgba[4 * k + 1]);
            rgb.push(rgba[4 * k + 2]);
            k = k + 1;
        }
        rgb
    }
}

} // verus!
