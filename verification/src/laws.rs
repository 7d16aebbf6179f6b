//! What holds of every search: the result is unique, a raster is found in
//! itself, a wider tolerance never loses a match, and exchanging red and blue
//! on both sides changes nothing.

use vstd::prelude::*;
use crate::normalize::{lemma_swapped_bytes, lemma_swapped_twice};
use crate::raster::{lemma_searchable_is_rgb_complete, Point, Raster};
use crate::search::{
    channel_accepts,
    fits_at,
    matches_at,
    pixel_matches,
    scans_before,
    search_result,
};

verus! {

/// Two results of one search are equal: the rasters and the tolerance
/// determine what a search returns.
pub proof fn lemma_search_result_unique(
    source: Raster,
    target: Raster,
    v: int,
    a: Option<Point>,
    b: Option<Point>,
)
    requires
        search_result(source, target, v, a),
        search_result(source, target, v, b),
    ensures
        a == b,
{
    match (a, b) {
        (Some(p), Some(q)) => {
            assert(!scans_before(p.x as int, p.y as int, q.x as int, q.y as int));
            assert(!scans_before(q.x as int, q.y as int, p.x as int, p.y as int));
        },
        (Some(p), None) => {
            assert(matches_at(source, target, v, p.x as int, p.y as int));
        },
        (None, Some(q)) => {
            assert(matches_at(source, target, v, q.x as int, q.y as int));
        },
        (None, None) => {},
    }
}

/// At `(x, y)` the target, read as red, green, blue, shows the colour that the
/// source shows there read as blue, green, red.
pub open spec fn pixel_mirrors(source: Raster, target: Raster, x: int, y: int) -> bool {
    &&& target.byte(x, y, 0) == source.byte(x, y, 2)
    &&& target.byte(x, y, 1) == source.byte(x, y, 1)
    &&& target.byte(x, y, 2) == source.byte(x, y, 0)
}

/// The target has the extents of the source and shows, under the target
/// convention, the colour of the source at every position.
pub open spec fn mirrors(source: Raster, target: Raster) -> bool {
    &&& target.width == source.width
    &&& target.height == source.height
    &&& forall|x: int, y: int|
        0 <= x < source.width && 0 <= y < source.height ==> #[trigger] pixel_mirrors(
            source,
            target,
            x,
            y,
        )
}

/// Self-location: an exact search for a target that shows the whole source
/// finds it at the origin.
pub proof fn lemma_self_location(source: Raster, target: Raster, r: Option<Point>)
    requires
        source.width >= 1,
        source.height >= 1,
        source.pixel_width >= 3,
        mirrors(source, target),
        search_result(source, target, 0, r),
    ensures
        r == Some(Point { x: 0, y: 0 }),
{
    assert forall|tx: int, ty: int|
        0 <= tx < target.width && 0 <= ty < target.height implies #[trigger] pixel_matches(
        source,
        target,
        0,
        0,
        0,
        tx,
        ty,
    ) by {
        assert(pixel_mirrors(source, target, tx, ty));
    }
    assert(matches_at(source, target, 0, 0, 0));
    lemma_search_result_unique(source, target, 0, r, Some(Point { x: 0, y: 0 }));
}

/// A searchable raster with red and blue exchanged in every pixel shows, as a
/// target, the whole of the raster it was made from.
pub proof fn lemma_swapped_mirrors(source: Raster)
    requires
        source.searchable(),
    ensures
        mirrors(source, source.swapped()),
{
    assert forall|x: int, y: int|
        0 <= x < source.width && 0 <= y < source.height implies #[trigger] pixel_mirrors(
        source,
        source.swapped(),
        x,
        y,
    ) by {
        lemma_swapped_bytes(source, x, y);
    }
}

/// A channel that accepts a value at one tolerance accepts it at every wider
/// one.
pub proof fn lemma_channel_tolerance_monotone(s: int, t: int, v: int, w: int)
    requires
        0 <= v <= w,
        0 <= s <= 255,
        channel_accepts(s, t, v),
    ensures
        channel_accepts(s, t, w),
{
}

/// A position that matches at one tolerance matches at every wider one.
pub proof fn lemma_match_tolerance_monotone(
    source: Raster,
    target: Raster,
    v: int,
    w: int,
    x: int,
    y: int,
)
    requires
        0 <= v <= w,
        matches_at(source, target, v, x, y),
    ensures
        matches_at(source, target, w, x, y),
{
    assert forall|tx: int, ty: int|
        0 <= tx < target.width && 0 <= ty < target.height implies #[trigger] pixel_matches(
        source,
        target,
        w,
        x,
        y,
        tx,
        ty,
    ) by {
        assert(pixel_matches(source, target, v, x, y, tx, ty));
        lemma_channel_tolerance_monotone(
            source.byte(x + tx, y + ty, 2),
            target.byte(tx, ty, 0),
            v,
            w,
        );
        lemma_channel_tolerance_monotone(
            source.byte(x + tx, y + ty, 1),
            target.byte(tx, ty, 1),
            v,
            w,
        );
        lemma_channel_tolerance_monotone(
            source.byte(x + tx, y + ty, 0),
            target.byte(tx, ty, 2),
            v,
            w,
        );
    }
}

/// Tolerance monotonicity: when a search finds a position at tolerance `v`,
/// the search at any tolerance `w >= v >= 0` finds one too, and it is not
/// scanned after the first.
pub proof fn lemma_tolerance_monotone(
    source: Raster,
    target: Raster,
    v: int,
    w: int,
    at_v: Option<Point>,
    at_w: Option<Point>,
)
    requires
        0 <= v <= w,
        search_result(source, target, v, at_v),
        search_result(source, target, w, at_w),
        at_v is Some,
    ensures
        at_w is Some,
        !scans_before(
            at_v->0.x as int,
            at_v->0.y as int,
            at_w->0.x as int,
            at_w->0.y as int,
        ),
{
    let p = at_v->0;
    lemma_match_tolerance_monotone(source, target, v, w, p.x as int, p.y as int);
}

/// Two pairs of rasters with the same extents, whose pixel comparisons agree
/// on every pixel of the target placed at `(x, y)`, match there alike.
proof fn lemma_agreeing_pixels_match_alike(
    source: Raster,
    target: Raster,
    other_source: Raster,
    other_target: Raster,
    v: int,
    x: int,
    y: int,
)
    requires
        other_source.width == source.width,
        other_source.height == source.height,
        other_target.width == target.width,
        other_target.height == target.height,
        forall|tx: int, ty: int|
            #![trigger pixel_matches(source, target, v, x, y, tx, ty)]
            #![trigger pixel_matches(other_source, other_target, v, x, y, tx, ty)]
            0 <= tx < target.width && 0 <= ty < target.height ==> pixel_matches(
                other_source,
                other_target,
                v,
                x,
                y,
                tx,
                ty,
            ) == pixel_matches(source, target, v, x, y, tx, ty),
    ensures
        matches_at(other_source, other_target, v, x, y) == matches_at(source, target, v, x, y),
{
}

/// Exchanging red and blue in every pixel of both rasters keeps every match:
/// the same three pairs of bytes are compared, red and blue in exchanged
/// roles.
pub proof fn lemma_swap_both_keeps_match(source: Raster, target: Raster, v: int, x: int, y: int)
    requires
        source.searchable(),
        target.searchable(),
    ensures
        matches_at(source.swapped(), target.swapped(), v, x, y) == matches_at(
            source,
            target,
            v,
            x,
            y,
        ),
{
    if fits_at(source, target, x, y) {
        assert forall|tx: int, ty: int|
            0 <= tx < target.width && 0 <= ty < target.height implies pixel_matches(
            source.swapped(),
            target.swapped(),
            v,
            x,
            y,
            tx,
            ty,
        ) == pixel_matches(source, target, v, x, y, tx, ty) by {
            lemma_swapped_bytes(source, x + tx, y + ty);
            lemma_swapped_bytes(target, tx, ty);
        }
        lemma_agreeing_pixels_match_alike(
            source,
            target,
            source.swapped(),
            target.swapped(),
            v,
            x,
            y,
        );
    }
}

/// Exchanging red and blue in every pixel of both rasters keeps the result
/// of the search.
pub proof fn lemma_swap_both_keeps_result(
    source: Raster,
    target: Raster,
    v: int,
    r: Option<Point>,
)
    requires
        source.searchable(),
        target.searchable(),
    ensures
        search_result(source.swapped(), target.swapped(), v, r) == search_result(
            source,
            target,
            v,
            r,
        ),
{
    let source_x = source.swapped();
    let target_x = target.swapped();
    assert forall|x: int, y: int|
        #![trigger matches_at(source_x, target_x, v, x, y)]
        #![trigger matches_at(source, target, v, x, y)]
        matches_at(source_x, target_x, v, x, y) == matches_at(source, target, v, x, y) by {
        lemma_swap_both_keeps_match(source, target, v, x, y);
    }
}

/// Exchanging red and blue in the source alone gives the result that
/// exchanging them in the target alone gives.
pub proof fn lemma_swap_either_side(source: Raster, target: Raster, v: int, r: Option<Point>)
    requires
        source.searchable(),
        target.searchable(),
    ensures
        search_result(source.swapped(), target, v, r) == search_result(
            source,
            target.swapped(),
            v,
            r,
        ),
{
    lemma_searchable_is_rgb_complete(source);
    lemma_swapped_twice(source);
    lemma_swap_both_keeps_result(source.swapped(), target, v, r);
}

/// Red and blue are equal in every pixel of the raster.
pub open spec fn red_equals_blue(r: Raster) -> bool {
    forall|x: int, y: int|
        0 <= x < r.width && 0 <= y < r.height ==> #[trigger] r.byte(x, y, 0) == r.byte(x, y, 2)
}

/// Exchanging red and blue in the target alone keeps the result of the
/// search when red equals blue throughout the target, or throughout the
/// source.
pub proof fn lemma_swap_target_keeps_result(
    source: Raster,
    target: Raster,
    v: int,
    r: Option<Point>,
)
    requires
        source.searchable(),
        target.searchable(),
        red_equals_blue(target) || red_equals_blue(source),
    ensures
        search_result(source, target.swapped(), v, r) == search_result(source, target, v, r),
{
    let target_x = target.swapped();
    assert forall|x: int, y: int|
        #![trigger matches_at(source, target_x, v, x, y)]
        #![trigger matches_at(source, target, v, x, y)]
        matches_at(source, target_x, v, x, y) == matches_at(source, target, v, x, y) by {
        if fits_at(source, target, x, y) {
            assert forall|tx: int, ty: int|
                0 <= tx < target.width && 0 <= ty < target.height implies pixel_matches(
                source,
                target_x,
                v,
                x,
                y,
                tx,
                ty,
            ) == pixel_matches(source, target, v, x, y, tx, ty) by {
                lemma_swapped_bytes(target, tx, ty);
                if red_equals_blue(target) {
                    assert(target.byte(tx, ty, 0) == target.byte(tx, ty, 2));
                } else {
                    assert(source.byte(x + tx, y + ty, 0) == source.byte(x + tx, y + ty, 2));
                }
            }
            lemma_agreeing_pixels_match_alike(source, target, source, target_x, v, x, y);
        }
    }
}

} // verus!
