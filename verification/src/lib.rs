//! Template matching on in-memory rasters.
//!
//! A raster is a flat byte buffer of pixels in row-major order. The search
//! engine finds the first place, in scan order, at which a small target raster
//! appears inside a larger source raster, exactly or within a per-channel
//! tolerance. Every executable function carries a contract over the
//! mathematical model [`Raster`], and Verus proves each body against it.

pub mod capture;
pub mod codec;
pub mod laws;
pub mod normalize;
pub mod raster;
pub mod search;

pub use capture::{captured_image_data, display_at};
pub use codec::{decoded_image_data, encodable_image, ImageError};
pub use normalize::normalize_to_rgba;
pub use raster::{ColorType, ImageData, Point, Raster};
pub use search::{image_search, image_search_inner, target_matches_at};
