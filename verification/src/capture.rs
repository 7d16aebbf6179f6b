//! From what a screen capture delivers to a raster.
//!
//! A window server hands out rows that may be padded at the end. A raster has
//! no padding, so the pixels of each row are copied out one row after the
//! other.

use vstd::prelude::*;
use vstd::arithmetic::div_mod::lemma_fundamental_div_mod_converse;
use crate::raster::{ColorType, ImageData};

verus! {

/// The display at position `id` of the list of active displays, if the list
/// is that long.
pub fn display_at(active: &Vec<u32>, id: u32) -> (r: Option<u32>)
    ensures
        r == (if (id as int) < active@.len() {
            Some(active@[id as int])
        } else {
            None
        }),
{
    if (id as usize) < active.len() {
        Some(active[id as usize])
    } else {
        None
    }
}

/// The first `row_len` bytes of each of `rows` rows that lie `stride` bytes
/// apart in `data`, one row after the other.
pub open spec fn packed_rows(data: Seq<u8>, rows: int, row_len: int, stride: int) -> Seq<u8> {
    Seq::new((rows * row_len) as nat, |k: int| data[(k / row_len) * stride + k % row_len])
}

/// A capture of `width` by `height` pixels of `bits_per_pixel` bits, in rows
/// `bytes_per_row` apart, can be held as a raster: the extents fit in 32 bits
/// and the bytes of a pixel in 8, a row holds its pixels, and every row lies
/// inside the `len` bytes delivered.
pub open spec fn capture_fits(
    len: int,
    width: int,
    height: int,
    bits_per_pixel: int,
    bytes_per_row: int,
) -> bool {
    let pw = bits_per_pixel / 8;
    &&& width <= u32::MAX
    &&& height <= u32::MAX
    &&& pw <= u8::MAX
    &&& width * pw <= bytes_per_row
    &&& (height == 0 || (height - 1) * bytes_per_row + width * pw <= len)
}

/// Byte `x` of row `y` is byte `y * row_len + x` of the packed rows, and lies
/// inside a buffer that holds the last row.
proof fn lemma_row_byte(rows: int, row_len: int, stride: int, len: int, y: int, x: int)
    requires
        0 <= y < rows,
        0 <= x < row_len <= stride,
        (rows - 1) * stride + row_len <= len,
    ensures
        0 <= y * stride,
        y * stride + x < len,
        y * row_len + x < rows * row_len,
        (y * row_len + x) / row_len == y,
        (y * row_len + x) % row_len == x,
{
    assert(0 <= y * stride && y * stride <= (rows - 1) * stride) by (nonlinear_arith)
        requires
            0 <= y <= rows - 1,
            0 <= stride,
    ;
    assert(y * row_len + row_len <= rows * row_len) by (nonlinear_arith)
        requires
            y + 1 <= rows,
            0 <= row_len,
    ;
    lemma_fundamental_div_mod_converse(y * row_len + x, row_len, y, x);
}

/// Turns a screen capture into a raster in blue-green-red order: `width` by
/// `height` pixels of `bits_per_pixel / 8` bytes, the padding at the end of
/// each row left out.
///
/// Gives nothing when the capture cannot be held as a raster; a raster that
/// is given is well formed.
pub fn captured_image_data(
    data: &Vec<u8>,
    width: usize,
    height: usize,
    bits_per_pixel: usize,
    bytes_per_row: usize,
) -> (r: Option<ImageData>)
    ensures
        r is Some <==> capture_fits(
            data@.len() as int,
            width as int,
            height as int,
            bits_per_pixel as int,
            bytes_per_row as int,
        ),
        r matches Some(image) ==> {
            &&& image.width == width
            &&& image.height == height
            &&& image.pixel_width == bits_per_pixel / 8
            &&& image.color_type == ColorType::BGRA
            &&& image.data@ == packed_rows(
                data@,
                height as int,
                width * (bits_per_pixel / 8),
                bytes_per_row as int,
            )
            &&& image@.wf()
        },
{
    let pw: usize = bits_per_pixel / 8;
    if width > 0xFFFF_FFFF || height > 0xFFFF_FFFF || pw > 0xFF {
        return None;
    }
    assert(width * pw <= 0xFFFF_FFFF * 0xFF) by (nonlinear_arith)
        requires
            width <= 0xFFFF_FFFF,
            pw <= 0xFF,
    ;
    let row_len: u64 = (width as u64) * (pw as u64);
    if row_len > bytes_per_row as u64 {
        return None;
    }
    let row_len: usize = row_len as usize;
    if height > 0 {
        assert((height - 1) * bytes_per_row <= 0xFFFF_FFFF * 0xFFFF_FFFF_FFFF_FFFF)
            by (nonlinear_arith)
            requires
                height <= 0xFFFF_FFFF,
                bytes_per_row <= 0xFFFF_FFFF_FFFF_FFFF,
        ;
        let last_row_end: u128 = ((height - 1) as u128) * (bytes_per_row as u128) + (
        row_len as u128);
        if last_row_end > data.len() as u128 {
            return None;
        }
    }
    let mut out: Vec<u8> = Vec::new();
    let mut y: usize = 0;
    while y < height
        invariant
            0 < height ==> (height - 1) * bytes_per_row + row_len <= data@.len(),
            row_len <= bytes_per_row,
            y <= height,
            out@.len() == y * row_len,
            forall|k: int|
                0 <= k < out@.len() ==> out@[k] == data@[(k / row_len as int) * bytes_per_row + k
                    % row_len as int],
        decreases height - y,
    {
        let mut x: usize = 0;
        while x < row_len
            invariant
                (height - 1) * bytes_per_row + row_len <= data@.len(),
                row_len <= bytes_per_row,
                y < height,
                x <= row_len,
                out@.len() == y * row_len + x,
                forall|k: int|
                    0 <= k < out@.len() ==> out@[k] == data@[(k / row_len as int) * bytes_per_row
                        + k % row_len as int],
            decreases row_len - x,
        {
            proof {
                lemma_row_byte(
                    height as int,
                    row_len as int,
                    bytes_per_row as int,
                    data@.len() as int,
                    y as int,
                    x as int,
                );
                assert(data.len() == data@.len());
            }
            out.push(data[y * bytes_per_row + x]);
            x = x + 1;
        }
        proof {
            assert((y + 1) * row_len == y * row_len + row_len) by (nonlinear_arith);
        }
        y = y + 1;
    }
    proof {
        assert(out@ =~= packed_rows(
            data@,
            height as int,
            row_len as int,
            bytes_per_row as int,
        ));
        assert(height * (width * pw) == width * height * pw) by (nonlinear_arith);
    }
    Some(
        ImageData {
            data: out,
            width: width as u32,
            height: height as u32,
            color_type: ColorType::BGRA,
            pixel_width: pw as u8,
        },
    )
}

} // verus!
