//! The bridge to the `image` crate: a raster becomes an image that the crate
//! can encode, and a decoded image becomes a raster.
//!
//! Reading and writing files is left to the caller. What happens in between
//! is here: normalizing the channel order, building the crate's image value
//! from the bytes, and taking extents, stride and bytes out of a decoded one.
//! Verus does not look inside `image`; each call into it stands behind a small
//! function whose contract is taken on trust from the crate's source.

use vstd::prelude::*;
use image::DynamicImage;
use crate::normalize::normalize_to_rgba;
use crate::raster::{lemma_searchable_is_rgb_complete, ColorType, ImageData, Raster};

verus! {

/// `image::DynamicImage`, carried through as an opaque value.
#[verifier::external_type_specification]
#[verifier::external_body]
pub struct ExDynamicImage(image::DynamicImage);

/// The bytes that `DynamicImage::as_bytes` returns for the image: the whole
/// sample buffer, each sample in the byte order of the machine.
pub uninterp spec fn image_bytes(img: DynamicImage) -> Seq<u8>;

/// The width that `DynamicImage::width` returns for the image.
pub uninterp spec fn image_width(img: DynamicImage) -> u32;

/// The height that `DynamicImage::height` returns for the image.
pub uninterp spec fn image_height(img: DynamicImage) -> u32;

/// The bytes per pixel of the image's colour type, as
/// `ColorType::bytes_per_pixel` returns it for `DynamicImage::color`.
pub uninterp spec fn image_pixel_width(img: DynamicImage) -> u8;

/// Why an image operation failed.
#[derive(Clone, Copy, Debug, PartialEq, Eq, Structural)]
pub enum ImageError {
    /// The bytes of a raster do not fill an image of its extents.
    CreateBuffer,
    /// The image could not be encoded or written.
    Save,
    /// The image could not be read or decoded.
    Open,
    /// The work could not be handed to a worker, or the worker gave up.
    Dispatch,
}

impl ImageError {
    /// The message under which the failure is reported.
    pub fn reason(&self) -> (s: &'static str)
        ensures
            s@ == match *self {
                ImageError::CreateBuffer => "Failed to create image buffer"@,
                ImageError::Save => "Failed to save image"@,
                ImageError::Open => "Failed to open image"@,
                ImageError::Dispatch => "Failed to spawn task"@,
            },
    {
        match self {
            ImageError::CreateBuffer => "Failed to create image buffer",
            ImageError::Save => "Failed to save image",
            ImageError::Open => "Failed to open image",
            ImageError::Dispatch => "Failed to spawn task",
        }
    }
}

/// The raster that a decoded image holds. Its channel order tag is always
/// `RGBA`.
pub open spec fn raster_of(img: DynamicImage) -> Raster {
    Raster {
        data: image_bytes(img),
        width: image_width(img) as nat,
        height: image_height(img) as nat,
        color_type: ColorType::RGBA,
        pixel_width: image_pixel_width(img) as nat,
    }
}

/// Calls `DynamicImage::width`. Trusted: the result is the image's width.
#[verifier::external_body]
fn width_of(img: &DynamicImage) -> (w: u32)
    ensures
        w == image_width(*img),
{
    img.width()
}

/// Calls `DynamicImage::height`. Trusted: the result is the image's height.
#[verifier::external_body]
fn height_of(img: &DynamicImage) -> (h: u32)
    ensures
        h == image_height(*img),
{
    img.height()
}

/// Calls `DynamicImage::color` and `ColorType::bytes_per_pixel` on what it
/// returns. Trusted: the result is the byte count of one pixel of the image's
/// colour type.
#[verifier::external_body]
fn pixel_width_of(img: &DynamicImage) -> (pw: u8)
    ensures
        pw == image_pixel_width(*img),
{
    img.color().bytes_per_pixel()
}

/// Calls `DynamicImage::as_bytes` and copies the slice. Trusted: the result
/// holds the image's sample buffer byte for byte.
#[verifier::external_body]
fn bytes_of(img: &DynamicImage) -> (data: Vec<u8>)
    ensures
        data@ == image_bytes(*img),
{
    img.as_bytes().to_vec()
}

/// A buffer of `len` bytes is large enough for an 8-bit RGBA image of the
/// given extents: `4 * width` and `4 * width * height` can be formed in
/// `usize`, and the buffer has at least that many bytes.
pub open spec fn rgba_buffer_fits(width: u32, height: u32, len: nat) -> bool {
    &&& 4 * width <= usize::MAX
    &&& 4 * width * height <= len
}

/// Calls `ImageBuffer::from_raw` for 8-bit RGBA pixels and wraps the buffer as
/// `DynamicImage::ImageRgba8`.
///
/// Trusted, from the crate's source: `from_raw` forms `4 * width` and then
/// `4 * width * height` as checked products in `usize`, and accepts the bytes
/// exactly when both products exist and there are at least that many bytes;
/// it keeps them all. The image then reports these extents, four bytes per
/// pixel, and these bytes.
#[verifier::external_body]
fn rgba_image(width: u32, height: u32, data: Vec<u8>) -> (r: Option<DynamicImage>)
    ensures
        r is Some <==> rgba_buffer_fits(width, height, data@.len()),
        r matches Some(img) ==> {
            &&& image_width(img) == width
            &&& image_height(img) == height
            &&& image_pixel_width(img) == 4
            &&& image_bytes(img) == data@
        },
{
    match image::RgbaImage::from_raw(width, height, data) {
        Some(buffer) => Some(DynamicImage::ImageRgba8(buffer)),
        None => None,
    }
}

/// Takes the raster out of a decoded image: its bytes, extents and bytes per
/// pixel, tagged `RGBA`.
pub fn decoded_image_data(img: &DynamicImage) -> (r: ImageData)
    ensures
        r@ == raster_of(*img),
{
    let width: u32 = width_of(img);
    let height: u32 = height_of(img);
    let pixel_width: u8 = pixel_width_of(img);
    let data: Vec<u8> = bytes_of(img);
    ImageData { data, width, height, pixel_width, color_type: ColorType::RGBA }
}

/// The raster can be handed to an encoder of 8-bit RGBA images: its buffer
/// holds exactly `width * height` pixels, that is exactly `4 * width * height`
/// bytes, and the length of one row fits in `usize`.
pub open spec fn encodable(r: Raster) -> bool {
    &&& r.wf()
    &&& r.data.len() == 4 * r.width * r.height
    &&& 4 * r.width <= usize::MAX
}

/// A well-formed raster with pixels and `4 * width * height` bytes has four
/// bytes per pixel.
proof fn lemma_four_bytes_per_pixel(r: Raster)
    requires
        r.wf(),
        r.data.len() == 4 * r.width * r.height,
        r.data.len() > 0,
    ensures
        r.pixel_width == 4,
{
    let n = r.width * r.height;
    let pw = r.pixel_width as int;
    assert(4 * r.width * r.height == 4 * n) by (nonlinear_arith)
        requires
            n == r.width * r.height,
    ;
    assert(pw == 4) by (nonlinear_arith)
        requires
            n * pw == 4 * n,
            n * pw > 0,
            n >= 0,
    ;
}

/// Builds the image that is handed to an encoder: the raster's bytes in
/// red-green-blue order, as an 8-bit RGBA image of the raster's extents.
///
/// Fails with `CreateBuffer` whenever the length of the buffer is not
/// `width * height * pixel_width`, whenever it is not `4 * width * height`,
/// and on a machine whose `usize` cannot hold `4 * width`.
pub fn encodable_image(image_data: &ImageData) -> (r: Result<DynamicImage, ImageError>)
    ensures
        r is Ok <==> encodable(image_data@),
        r matches Ok(img) ==> raster_of(img) == (Raster {
            pixel_width: 4,
            ..image_data@.normalized()
        }),
        r matches Err(e) ==> e == ImageError::CreateBuffer,
{
    if !image_data.is_well_formed() {
        return Err(ImageError::CreateBuffer);
    }
    let len: usize = image_data.data.len();
    let w: u128 = image_data.width as u128;
    let h: u128 = image_data.height as u128;
    assert(4 * w * h <= 4 * 0xFFFF_FFFF * 0xFFFF_FFFF) by (nonlinear_arith)
        requires
            w <= 0xFFFF_FFFF,
            h <= 0xFFFF_FFFF,
    ;
    assert(4 * w <= 4 * 0xFFFF_FFFF);
    if 4 * w * h != len as u128 {
        return Err(ImageError::CreateBuffer);
    }
    let data: Vec<u8> = if len == 0 {
        Vec::new()
    } else {
        proof {
            lemma_four_bytes_per_pixel(image_data@);
            lemma_searchable_is_rgb_complete(image_data@);
        }
        normalize_to_rgba(image_data).data
    };
    assert(data@ =~= image_data@.normalized().data);
    match rgba_image(image_data.width, image_data.height, data) {
        Some(img) => Ok(img),
        None => Err(ImageError::CreateBuffer),
    }
}

} // verus!
