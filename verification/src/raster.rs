//! The raster value, its mathematical model, and the checks that a boundary
//! runs before it hands a raster to the engine.

use vstd::prelude::*;

verus! {

/// Byte order of the colour channels inside one pixel.
///
/// `RGBA` stores red at offset 0 and blue at offset 2; `BGRA` stores blue at
/// offset 0 and red at offset 2. Green is at offset 1 and alpha at offset 3 in
/// both.
#[derive(Clone, Copy, Debug, PartialEq, Eq, Structural)]
pub enum ColorType {
    RGBA,
    BGRA,
}

/// A pixel position, `x` counted from the left edge and `y` from the top.
#[derive(Clone, Copy, Debug, PartialEq, Eq, Structural)]
pub struct Point {
    pub x: u32,
    pub y: u32,
}

/// An image held in memory: `width * height` pixels of `pixel_width` bytes
/// each, row after row, in one contiguous buffer.
#[derive(Clone, Debug)]
pub struct ImageData {
    pub data: Vec<u8>,
    pub width: u32,
    pub height: u32,
    pub color_type: ColorType,
    pub pixel_width: u8,
}

/// The mathematical model of an [`ImageData`].
pub struct Raster {
    pub data: Seq<u8>,
    pub width: nat,
    pub height: nat,
    pub color_type: ColorType,
    pub pixel_width: nat,
}

impl View for ImageData {
    type V = Raster;

    open spec fn view(&self) -> Raster {
        Raster {
            data: self.data@,
            width: self.width as nat,
            height: self.height as nat,
            color_type: self.color_type,
            pixel_width: self.pixel_width as nat,
        }
    }
}

impl Raster {
    /// The buffer holds exactly `width * height` pixels.
    pub open spec fn wf(self) -> bool {
        self.data.len() == self.width * self.height * self.pixel_width
    }

    /// The raster is well formed and every pixel has the three colour bytes
    /// that the engine reads.
    pub open spec fn searchable(self) -> bool {
        self.wf() && self.pixel_width >= 3
    }

    /// Every pixel that begins inside the buffer has its first three bytes
    /// inside it: the stride is positive, and the last byte of the buffer is
    /// at offset 2 or later within its pixel.
    pub open spec fn rgb_complete(self) -> bool {
        self.pixel_width > 0 && (self.data.len() == 0 || (self.data.len() - 1) % (
        self.pixel_width as int) >= 2)
    }

    /// Index in `data` of the first byte of the pixel at column `x`, row `y`.
    pub open spec fn pixel_offset(self, x: int, y: int) -> int {
        (y * self.width + x) * self.pixel_width
    }

    /// The byte at offset `c` within the pixel at column `x`, row `y`.
    pub open spec fn byte(self, x: int, y: int, c: int) -> int {
        self.data[self.pixel_offset(x, y) + c] as int
    }
}

/// In a raster of `w` by `h` pixels of `pw` bytes, the pixel at `(x, y)` lies
/// wholly inside the first `w * h * pw` bytes.
pub proof fn lemma_pixel_in_bounds(w: int, h: int, pw: int, x: int, y: int)
    requires
        0 <= x < w,
        0 <= y < h,
        1 <= pw,
    ensures
        0 <= y * w,
        y * w + x < w * h,
        w * h <= w * h * pw,
        0 <= (y * w + x) * pw,
        (y * w + x) * pw + pw <= w * h * pw,
{
    assert(0 <= y * w) by (nonlinear_arith)
        requires
            0 <= y,
            0 <= w,
    ;
    assert(y * w + w <= h * w) by (nonlinear_arith)
        requires
            y + 1 <= h,
            0 <= w,
    ;
    assert(h * w == w * h) by (nonlinear_arith);
    assert(w * h <= (w * h) * pw) by (nonlinear_arith)
        requires
            0 <= w * h,
            1 <= pw,
    ;
    let i = y * w + x;
    assert(0 <= i * pw && i * pw + pw <= (w * h) * pw) by (nonlinear_arith)
        requires
            0 <= i,
            i + 1 <= w * h,
            1 <= pw,
    ;
}

/// A well-formed raster with at least three bytes per pixel cuts no pixel
/// short.
pub proof fn lemma_searchable_is_rgb_complete(r: Raster)
    requires
        r.searchable(),
    ensures
        r.rgb_complete(),
{
    let n = r.width * r.height;
    let pw = r.pixel_width as int;
    if r.data.len() > 0 {
        assert(n >= 1) by (nonlinear_arith)
            requires
                n * pw > 0,
                pw > 0,
                n >= 0,
        ;
        assert((n * pw - 1) % pw == pw - 1) by (nonlinear_arith)
            requires
                n >= 1,
                pw >= 3,
        {
            assert(n * pw - 1 == (n - 1) * pw + (pw - 1));
            vstd::arithmetic::div_mod::lemma_fundamental_div_mod_converse(
                n * pw - 1,
                pw,
                n - 1,
                pw - 1,
            );
        }
    }
}

impl ImageData {
    /// Tells whether the buffer holds exactly `width * height` pixels.
    pub fn is_well_formed(&self) -> (b: bool)
        ensures
            b == self@.wf(),
    {
        let w: u128 = self.width as u128;
        let h: u128 = self.height as u128;
        let pw: u128 = self.pixel_width as u128;
        assert(w * h <= 0xFFFF_FFFF * 0xFFFF_FFFF) by (nonlinear_arith)
            requires
                w <= 0xFFFF_FFFF,
                h <= 0xFFFF_FFFF,
        ;
        let pixels: u128 = w * h;
        assert(pixels * pw <= 0xFFFF_FFFF * 0xFFFF_FFFF * 0xFF) by (nonlinear_arith)
            requires
                pixels <= 0xFFFF_FFFF * 0xFFFF_FFFF,
                pw <= 0xFF,
        ;
        let bytes: u128 = pixels * pw;
        bytes == self.data.len() as u128
    }

    /// Tells whether the engine may search in, or for, this raster.
    pub fn is_searchable(&self) -> (b: bool)
        ensures
            b == self@.searchable(),
    {
        self.pixel_width >= 3 && self.is_well_formed()
    }

    /// Tells whether no pixel of the buffer is cut short before its third
    /// byte.
    pub fn is_rgb_complete(&self) -> (b: bool)
        ensures
            b == self@.rgb_complete(),
    {
        if self.pixel_width == 0 {
            return false;
        }
        let len: usize = self.data.len();
        len == 0 || (len - 1) % (self.pixel_width as usize) >= 2
    }
}

} // verus!
