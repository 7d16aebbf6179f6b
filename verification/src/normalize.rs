//! The channel normalizer: a raster in blue-green-red order becomes one in
//! red-green-blue order by exchanging bytes 0 and 2 of every pixel.

use vstd::prelude::*;
use vstd::arithmetic::div_mod::{lemma_fundamental_div_mod, lemma_fundamental_div_mod_converse};
use crate::raster::{lemma_pixel_in_bounds, ColorType, ImageData, Raster};

verus! {

/// The buffer with bytes 0 and 2 of every `pw`-byte pixel exchanged and every
/// other byte kept.
pub open spec fn swap_red_blue(data: Seq<u8>, pw: int) -> Seq<u8> {
    Seq::new(
        data.len(),
        |k: int|
            if k % pw == 0 {
                data[k + 2]
            } else if k % pw == 2 {
                data[k - 2]
            } else {
                data[k]
            },
    )
}

impl Raster {
    /// The raster with red and blue exchanged in every pixel; extents, stride
    /// and channel order tag are kept.
    pub open spec fn swapped(self) -> Raster {
        Raster { data: swap_red_blue(self.data, self.pixel_width as int), ..self }
    }

    /// The raster in red-green-blue order: itself when it already is, else
    /// with red and blue exchanged in every pixel.
    pub open spec fn normalized(self) -> Raster {
        match self.color_type {
            ColorType::RGBA => self,
            ColorType::BGRA => Raster { color_type: ColorType::RGBA, ..self.swapped() },
        }
    }
}

/// An index `d` bytes into a pixel that starts at a multiple of `pw` has
/// remainder `d`.
proof fn lemma_offset_within_pixel(start: int, pw: int, d: int)
    requires
        0 < pw,
        start % pw == 0,
        0 <= d < pw,
    ensures
        (start + d) % pw == d,
{
    lemma_fundamental_div_mod(start, pw);
    let q = start / pw;
    assert(q * pw == pw * q) by (nonlinear_arith);
    lemma_fundamental_div_mod_converse(start + d, pw, q, d);
}

/// The pixel after one that starts at a multiple of `pw` starts at a
/// multiple of `pw` too.
proof fn lemma_next_pixel_start(start: int, pw: int)
    requires
        0 < pw,
        start % pw == 0,
    ensures
        (start + pw) % pw == 0,
{
    lemma_fundamental_div_mod(start, pw);
    let q = start / pw;
    assert((q + 1) * pw == pw * q + pw) by (nonlinear_arith);
    lemma_fundamental_div_mod_converse(start + pw, pw, q + 1, 0);
}

/// When the last index `last` of a buffer lies at offset 2 or later within
/// its pixel, every pixel that starts at or before `last` has its third byte
/// at or before `last`.
proof fn lemma_pixel_start_has_triple(last: int, pw: int, start: int)
    requires
        0 < pw,
        last % pw >= 2,
        start % pw == 0,
        0 <= start <= last,
    ensures
        start + 2 <= last,
{
    lemma_fundamental_div_mod(last, pw);
    lemma_fundamental_div_mod(start, pw);
    let a = start / pw;
    let q = last / pw;
    assert(a <= q) by (nonlinear_arith)
        requires
            pw * a <= pw * q + last % pw,
            last % pw < pw,
            0 < pw,
    ;
    assert(pw * a <= pw * q) by (nonlinear_arith)
        requires
            a <= q,
            0 < pw,
    ;
}

/// In a searchable raster, exchanging red and blue moves the byte at offset
/// 2 of each pixel to offset 0 and back, and keeps offset 1.
pub proof fn lemma_swapped_bytes(r: Raster, x: int, y: int)
    requires
        r.searchable(),
        0 <= x < r.width,
        0 <= y < r.height,
    ensures
        r.swapped().byte(x, y, 0) == r.byte(x, y, 2),
        r.swapped().byte(x, y, 1) == r.byte(x, y, 1),
        r.swapped().byte(x, y, 2) == r.byte(x, y, 0),
{
    let pw = r.pixel_width as int;
    let i = y * r.width + x;
    lemma_pixel_in_bounds(r.width as int, r.height as int, pw, x, y);
    lemma_fundamental_div_mod_converse(i * pw, pw, i, 0);
    lemma_offset_within_pixel(i * pw, pw, 0);
    lemma_offset_within_pixel(i * pw, pw, 1);
    lemma_offset_within_pixel(i * pw, pw, 2);
}

/// Exchanging red and blue twice gives the raster back.
pub proof fn lemma_swapped_twice(r: Raster)
    requires
        r.rgb_complete(),
    ensures
        r.swapped().swapped() == r,
{
    let pw = r.pixel_width as int;
    let once = swap_red_blue(r.data, pw);
    let twice = swap_red_blue(once, pw);
    assert forall|k: int| 0 <= k < r.data.len() implies twice[k] == r.data[k] by {
        let start = k - k % pw;
        lemma_fundamental_div_mod(r.data.len() - 1, pw);
        lemma_fundamental_div_mod(k, pw);
        lemma_fundamental_div_mod_converse(start, pw, k / pw, 0);
        lemma_pixel_start_has_triple(r.data.len() - 1, pw, start);
        lemma_offset_within_pixel(start, pw, 0);
        lemma_offset_within_pixel(start, pw, 2);
    }
    assert(twice =~= r.data);
}

/// Returns the raster in red-green-blue order: a copy when it already is,
/// else a new buffer in which bytes 0 and 2 of every pixel are exchanged.
/// Extents and stride are kept.
pub fn normalize_to_rgba(image: &ImageData) -> (r: ImageData)
    requires
        image.color_type == ColorType::BGRA ==> image@.rgb_complete(),
    ensures
        r@ == image@.normalized(),
{
    let mut buf: Vec<u8> = image.data.clone();
    assert(buf@ =~= image.data@);
    match image.color_type {
        ColorType::RGBA => {},
        ColorType::BGRA => {
            let pw: usize = image.pixel_width as usize;
            let len: usize = buf.len();
            let ghost want = swap_red_blue(image.data@, pw as int);
            let mut i: usize = 0;
            while i < len
                invariant
                    image@.rgb_complete(),
                    pw == image.pixel_width,
                    len == image.data@.len(),
                    buf@.len() == len,
                    want == swap_red_blue(image.data@, pw as int),
                    i <= len,
                    i == len || i % pw == 0,
                    forall|k: int| 0 <= k < i ==> buf@[k] == want[k],
                    forall|k: int| i <= k < len ==> buf@[k] == image.data@[k],
                decreases len - i,
            {
                proof {
                    lemma_pixel_start_has_triple(len - 1, pw as int, i as int);
                }
                let blue: u8 = buf[i];
                let red: u8 = buf[i + 2];
                buf.set(i, red);
                buf.set(i + 2, blue);
                let next: usize = if len - i <= pw {
                    len
                } else {
                    i + pw
                };
                proof {
                    assert forall|k: int| i <= k < next implies buf@[k] == want[k] by {
                        lemma_offset_within_pixel(i as int, pw as int, k - i);
                    }
                    if next < len {
                        lemma_next_pixel_start(i as int, pw as int);
                    }
                }
                i = next;
            }
            assert(buf@ =~= want);
        },
    }
    ImageData {
        data: buf,
        width: image.width,
        height: image.height,
        color_type: ColorType::RGBA,
        pixel_width: image.pixel_width,
    }
}

} // verus!
