//! The search engine: the first position, in scan order, at which a target
//! raster lies over a source raster with every pixel accepted.
//!
//! The engine reads the source as blue, green, red at offsets 0, 1, 2 of a
//! pixel and the target as red, green, blue at offsets 0, 1, 2, and compares
//! like-named channels. It never consults `color_type`.

use vstd::prelude::*;
use crate::raster::{lemma_pixel_in_bounds, ImageData, Point, Raster};

verus! {

/// Lower end of the interval that a source channel `s` accepts at tolerance
/// `v`.
pub open spec fn tolerance_low(s: int, v: int) -> int {
    if s - v < 0 {
        0
    } else {
        s - v
    }
}

/// Upper end of the interval that a source channel `s` accepts at tolerance
/// `v`.
pub open spec fn tolerance_high(s: int, v: int) -> int {
    if s + v > 255 {
        255
    } else {
        s + v
    }
}

/// A source channel value `s` accepts a target channel value `t` at tolerance
/// `v`: equality when `v` is zero, otherwise `t` within `s - v ..= s + v`
/// clamped to `0 ..= 255`.
pub open spec fn channel_accepts(s: int, t: int, v: int) -> bool {
    if v == 0 {
        s == t
    } else {
        tolerance_low(s, v) <= t <= tolerance_high(s, v)
    }
}

/// With the target's top-left corner at `(sx, sy)` of the source, the target
/// pixel `(tx, ty)` is accepted by the source pixel under it.
pub open spec fn pixel_matches(
    source: Raster,
    target: Raster,
    v: int,
    sx: int,
    sy: int,
    tx: int,
    ty: int,
) -> bool {
    &&& channel_accepts(source.byte(sx + tx, sy + ty, 2), target.byte(tx, ty, 0), v)
    &&& channel_accepts(source.byte(sx + tx, sy + ty, 1), target.byte(tx, ty, 1), v)
    &&& channel_accepts(source.byte(sx + tx, sy + ty, 0), target.byte(tx, ty, 2), v)
}

/// The target is not empty and, placed at `(sx, sy)`, lies inside the source.
pub open spec fn fits_at(source: Raster, target: Raster, sx: int, sy: int) -> bool {
    &&& 0 <= sx
    &&& 0 <= sy
    &&& target.width > 0
    &&& target.height > 0
    &&& sx + target.width <= source.width
    &&& sy + target.height <= source.height
}

/// Placed at `(sx, sy)`, the target fits and every one of its pixels is
/// accepted.
pub open spec fn matches_at(source: Raster, target: Raster, v: int, sx: int, sy: int) -> bool {
    &&& fits_at(source, target, sx, sy)
    &&& forall|tx: int, ty: int|
        0 <= tx < target.width && 0 <= ty < target.height ==> #[trigger] pixel_matches(
            source,
            target,
            v,
            sx,
            sy,
            tx,
            ty,
        )
}

/// Position `(x, y)` is scanned before `(px, py)`: rows top to bottom, and
/// within a row left to right.
pub open spec fn scans_before(x: int, y: int, px: int, py: int) -> bool {
    y < py || (y == py && x < px)
}

/// `r` is what a search for `target` in `source` at tolerance `v` returns:
/// the matching position that is scanned first, or nothing when no position
/// matches.
pub open spec fn search_result(source: Raster, target: Raster, v: int, r: Option<Point>) -> bool {
    match r {
        Some(p) => {
            &&& matches_at(source, target, v, p.x as int, p.y as int)
            &&& forall|x: int, y: int|
                scans_before(x, y, p.x as int, p.y as int) ==> !#[trigger] matches_at(
                    source,
                    target,
                    v,
                    x,
                    y,
                )
        },
        None => forall|x: int, y: int| !#[trigger] matches_at(source, target, v, x, y),
    }
}

/// No channel accepts anything at a negative tolerance.
pub proof fn lemma_negative_tolerance_rejects(s: int, t: int, v: int)
    requires
        v < 0,
        0 <= s <= 255,
    ensures
        !channel_accepts(s, t, v),
{
}

/// At a negative tolerance no position matches.
pub proof fn lemma_negative_tolerance_no_match(
    source: Raster,
    target: Raster,
    v: int,
    sx: int,
    sy: int,
)
    requires
        v < 0,
    ensures
        !matches_at(source, target, v, sx, sy),
{
    if fits_at(source, target, sx, sy) {
        lemma_negative_tolerance_rejects(source.byte(sx, sy, 2), target.byte(0, 0, 0), v);
        assert(!pixel_matches(source, target, v, sx, sy, 0, 0));
    }
}

/// Compares one source channel with one target channel.
fn channel_accepts_exec(s: u8, t: u8, variant: i32) -> (b: bool)
    ensures
        b == channel_accepts(s as int, t as int, variant as int),
{
    if variant == 0 {
        s == t
    } else {
        let s: i64 = s as i64;
        let t: i64 = t as i64;
        let v: i64 = variant as i64;
        let low: i64 = if s - v < 0 {
            0
        } else {
            s - v
        };
        let high: i64 = if s + v > 255 {
            255
        } else {
            s + v
        };
        low <= t && t <= high
    }
}

/// Compares the target pixel `(tx, ty)` with the source pixel under it.
fn pixel_matches_exec(
    source: &ImageData,
    target: &ImageData,
    variant: i32,
    sx: u32,
    sy: u32,
    tx: u32,
    ty: u32,
) -> (b: bool)
    requires
        source@.searchable(),
        target@.searchable(),
        fits_at(source@, target@, sx as int, sy as int),
        tx < target.width,
        ty < target.height,
    ensures
        b == pixel_matches(
            source@,
            target@,
            variant as int,
            sx as int,
            sy as int,
            tx as int,
            ty as int,
        ),
{
    let x: usize = (sx + tx) as usize;
    let y: usize = (sy + ty) as usize;
    proof {
        lemma_pixel_in_bounds(
            source.width as int,
            source.height as int,
            source.pixel_width as int,
            x as int,
            y as int,
        );
        lemma_pixel_in_bounds(
            target.width as int,
            target.height as int,
            target.pixel_width as int,
            tx as int,
            ty as int,
        );
        // Both buffer lengths fit in `usize`, so no product below overflows.
        assert(source.data.len() == source@.data.len());
        assert(target.data.len() == target@.data.len());
    }
    let source_stride: usize = source.pixel_width as usize;
    let target_stride: usize = target.pixel_width as usize;
    let si: usize = (y * (source.width as usize) + x) * source_stride;
    let ti: usize = ((ty as usize) * (target.width as usize) + (tx as usize)) * target_stride;
    channel_accepts_exec(source.data[si + 2], target.data[ti], variant)
        && channel_accepts_exec(source.data[si + 1], target.data[ti + 1], variant)
        && channel_accepts_exec(source.data[si], target.data[ti + 2], variant)
}

/// Scans the target row by row over the source at `(sx, sy)` and stops at the
/// first pixel that is not accepted.
pub fn target_matches_at(
    source: &ImageData,
    target: &ImageData,
    variant: i32,
    sx: u32,
    sy: u32,
) -> (b: bool)
    requires
        source@.searchable(),
        target@.searchable(),
        fits_at(source@, target@, sx as int, sy as int),
    ensures
        b == matches_at(source@, target@, variant as int, sx as int, sy as int),
{
    let mut ty: u32 = 0;
    while ty < target.height
        invariant
            source@.searchable(),
            target@.searchable(),
            fits_at(source@, target@, sx as int, sy as int),
            ty <= target.height,
            forall|px: int, py: int|
                0 <= px < target.width && 0 <= py < ty ==> #[trigger] pixel_matches(
                    source@,
                    target@,
                    variant as int,
                    sx as int,
                    sy as int,
                    px,
                    py,
                ),
        decreases target.height - ty,
    {
        let mut tx: u32 = 0;
        while tx < target.width
            invariant
                source@.searchable(),
                target@.searchable(),
                fits_at(source@, target@, sx as int, sy as int),
                ty < target.height,
                tx <= target.width,
                forall|px: int, py: int|
                    0 <= px < target.width && 0 <= py < ty ==> #[trigger] pixel_matches(
                        source@,
                        target@,
                        variant as int,
                        sx as int,
                        sy as int,
                        px,
                        py,
                    ),
                forall|px: int|
                    0 <= px < tx ==> #[trigger] pixel_matches(
                        source@,
                        target@,
                        variant as int,
                        sx as int,
                        sy as int,
                        px,
                        ty as int,
                    ),
            decreases target.width - tx,
        {
            if !pixel_matches_exec(source, target, variant, sx, sy, tx, ty) {
                return false;
            }
            tx = tx + 1;
        }
        ty = ty + 1;
    }
    true
}

/// Finds the first position, rows top to bottom and within a row left to
/// right, at which `target` lies over `source` with every pixel accepted at
/// tolerance `variant`; `None` when there is none.
///
/// An empty raster, a target wider or taller than the source, and a negative
/// tolerance all give `None`.
pub fn image_search_inner(source: &ImageData, target: &ImageData, variant: i32) -> (r: Option<
    Point,
>)
    requires
        source@.searchable(),
        target@.searchable(),
    ensures
        search_result(source@, target@, variant as int, r),
        target.width > source.width || target.height > source.height ==> r is None,
        variant < 0 ==> r is None,
        source.width == 0 || source.height == 0 || target.width == 0 || target.height == 0
            ==> r is None,
{
    if variant < 0 {
        proof {
            assert forall|x: int, y: int| !#[trigger] matches_at(
                source@,
                target@,
                variant as int,
                x,
                y,
            ) by {
                lemma_negative_tolerance_no_match(source@, target@, variant as int, x, y);
            }
        }
        return None;
    }
    if target.width == 0 || target.height == 0 || target.width > source.width || target.height
        > source.height {
        return None;
    }
    let last_x: u32 = source.width - target.width;
    let last_y: u32 = source.height - target.height;
    let mut sy: u32 = 0;
    while sy <= last_y
        invariant
            source@.searchable(),
            target@.searchable(),
            variant >= 0,
            target.width > 0,
            target.height > 0,
            last_x + target.width == source.width,
            last_y + target.height == source.height,
            sy <= last_y + 1,
            forall|x: int, y: int|
                y < sy ==> !#[trigger] matches_at(source@, target@, variant as int, x, y),
        decreases last_y + 1 - sy,
    {
        let mut sx: u32 = 0;
        while sx <= last_x
            invariant
                source@.searchable(),
                target@.searchable(),
                variant >= 0,
                target.width > 0,
                target.height > 0,
                last_x + target.width == source.width,
                last_y + target.height == source.height,
                sy <= last_y,
                sx <= last_x + 1,
                forall|x: int, y: int|
                    scans_before(x, y, sx as int, sy as int) ==> !#[trigger] matches_at(
                        source@,
                        target@,
                        variant as int,
                        x,
                        y,
                    ),
            decreases last_x + 1 - sx,
        {
            if target_matches_at(source, target, variant, sx, sy) {
                return Some(Point { x: sx, y: sy });
            }
            sx = sx + 1;
        }
        sy = sy + 1;
    }
    None
}

/// Searches `source` for `target` at the given tolerance, or exactly when no
/// tolerance is given.
pub fn image_search(source: &ImageData, target: &ImageData, variant: Option<i32>) -> (r: Option<
    Point,
>)
    requires
        source@.searchable(),
        target@.searchable(),
    ensures
        search_result(
            source@,
            target@,
            match variant {
                Some(v) => v as int,
                None => 0,
            },
            r,
        ),
        target.width > source.width || target.height > source.height ==> r is None,
        variant matches Some(v) && v < 0 ==> r is None,
        source.width == 0 || source.height == 0 || target.width == 0 || target.height == 0
            ==> r is None,
{
    let v: i32 = match variant {
        Some(v) => v,
        None => 0,
    };
    image_search_inner(source, target, v)
}

} // verus!
