//! What the tiler does in terms of winding numbers.
//!
//! The tiler is described step by step where it is defined. The laws here say what its
//! steps add up to: the crossings of a closed outline at any height sum to zero, and a
//! tile whose top edge no edge crosses takes as its backdrop the winding number that
//! enters it from the left.

use vstd::prelude::*;
use crate::built_object::BuiltObjectView;
use crate::geometry::{spec_tile_floor, LineSegment, RectI, Vector2I};
use crate::scene::{spec_contour_segments, spec_segments_from, Contour};
use crate::tile_map::{
    lemma_coords_round_trip,
    lemma_index_in_range,
    lemma_index_round_trip,
    spec_coords_to_index_unchecked,
    spec_index_to_coords,
};
use crate::tiles::{
    lemma_crossings_sorted,
    spec_clamp_backdrop,
    spec_generate_strip,
    spec_generate_tiles,
    spec_pack_from,
    spec_pack_tile,
    spec_row_fills_from,
    spec_scan_start,
    spec_strips_from,
    PackingInfo,
    spec_crossing,
    spec_crossings_from,
    spec_final_subtile_fill,
    spec_initial_subtile_fill,
    spec_insert_crossing,
    spec_is_crossing,
    spec_is_sorted,
    spec_move_to_tile,
    spec_saturating_add,
    spec_scan_from,
    spec_scan_step,
    spec_set_backdrops,
    spec_sorted_crossings,
    Crossing,
    ScanState,
};

verus! {

/// The sum of the windings of crossings.
pub open spec fn spec_winding_sum(crossings: Seq<Crossing>) -> int
    decreases crossings.len(),
{
    if crossings.len() == 0 {
        0
    } else {
        spec_winding_sum(crossings.drop_last()) + crossings.last().winding
    }
}

/// What a segment adds to the winding number right of it at the height `top`: one where
/// it crosses downward, minus one where it crosses upward, nothing where it does not
/// cross.
pub open spec fn spec_segment_winding(segment: LineSegment, top: int) -> int {
    if spec_is_crossing(segment, top) {
        spec_crossing(segment, top).winding as int
    } else {
        0
    }
}

/// The sum of what the segments from index `k` on add to the winding number.
pub open spec fn spec_segments_winding(segments: Seq<LineSegment>, top: int, k: int) -> int
    decreases segments.len() - k,
{
    if k < 0 || k >= segments.len() {
        0
    } else {
        spec_segment_winding(segments[k], top) + spec_segments_winding(segments, top, k + 1)
    }
}

/// One if the point lies below the height `top`, zero if it lies on it or above.
pub open spec fn spec_side(point: Vector2I, top: int) -> int {
    if point.y > top {
        1
    } else {
        0
    }
}

/// Putting a crossing in adds its winding to the sum.
pub proof fn lemma_insert_adds_winding(sorted: Seq<Crossing>, crossing: Crossing)
    ensures
        spec_winding_sum(spec_insert_crossing(sorted, crossing)) == spec_winding_sum(sorted)
            + crossing.winding,
    decreases sorted.len(),
{
    let result = spec_insert_crossing(sorted, crossing);
    if sorted.len() == 0 {
        assert(result.drop_last() =~= sorted);
        assert(result.last() == crossing);
        assert(spec_winding_sum(result) == spec_winding_sum(result.drop_last())
            + result.last().winding);
    } else if sorted.last().x <= crossing.x {
        assert(result.drop_last() =~= sorted);
        assert(result.last() == crossing);
        assert(spec_winding_sum(result) == spec_winding_sum(result.drop_last())
            + result.last().winding);
    } else {
        lemma_insert_adds_winding(sorted.drop_last(), crossing);
        let inner = spec_insert_crossing(sorted.drop_last(), crossing);
        assert(result == inner.push(sorted.last()));
        assert(result.drop_last() =~= inner);
        assert(result.last() == sorted.last());
        assert(spec_winding_sum(result) == spec_winding_sum(result.drop_last())
            + result.last().winding);
        assert(spec_winding_sum(sorted) == spec_winding_sum(sorted.drop_last())
            + sorted.last().winding);
    }
}

/// The crossings of segments sum to what the segments add to the winding number.
pub proof fn lemma_crossings_winding(
    sorted: Seq<Crossing>,
    segments: Seq<LineSegment>,
    top: int,
    k: int,
)
    requires
        0 <= k,
    ensures
        spec_winding_sum(spec_crossings_from(sorted, segments, top, k)) == spec_winding_sum(
            sorted,
        ) + spec_segments_winding(segments, top, k),
    decreases segments.len() - k,
{
    if k < segments.len() {
        if spec_is_crossing(segments[k], top) {
            lemma_insert_adds_winding(sorted, spec_crossing(segments[k], top));
            lemma_crossings_winding(
                spec_insert_crossing(sorted, spec_crossing(segments[k], top)),
                segments,
                top,
                k + 1,
            );
        } else {
            lemma_crossings_winding(sorted, segments, top, k + 1);
        }
    }
}

/// A segment adds to the winding number the side of its end less the side of its start.
pub proof fn lemma_segment_winding_is_side_change(segment: LineSegment, top: int)
    ensures
        spec_segment_winding(segment, top) == spec_side(segment.to, top) - spec_side(
            segment.from,
            top,
        ),
{
}

/// What the segments of two runs add to the winding number is the sum of what each run
/// adds.
pub proof fn lemma_segments_winding_concat(
    first: Seq<LineSegment>,
    second: Seq<LineSegment>,
    top: int,
    k: int,
)
    requires
        0 <= k <= first.len(),
    ensures
        spec_segments_winding(first + second, top, k) == spec_segments_winding(first, top, k)
            + spec_segments_winding(second, top, 0),
    decreases first.len() - k,
{
    let both = first + second;
    if k < first.len() {
        assert(both[k] == first[k]);
        lemma_segments_winding_concat(first, second, top, k + 1);
    } else {
        lemma_segments_winding_shift(first, second, top, 0);
    }
}

/// The segments of the second of two runs add the same whether counted in the second
/// run or in both runs together.
proof fn lemma_segments_winding_shift(
    first: Seq<LineSegment>,
    second: Seq<LineSegment>,
    top: int,
    k: int,
)
    requires
        0 <= k <= second.len(),
    ensures
        spec_segments_winding(first + second, top, first.len() + k) == spec_segments_winding(
            second,
            top,
            k,
        ),
    decreases second.len() - k,
{
    let both = first + second;
    if k < second.len() {
        assert(both[first.len() + k] == second[k]);
        lemma_segments_winding_shift(first, second, top, k + 1);
    }
}

/// The segments of a closed contour from index `k` on add to the winding number the
/// side of the first point less the side of the point with index `k`.
proof fn lemma_contour_winding_from(points: Seq<Vector2I>, top: int, k: int)
    requires
        0 <= k < points.len(),
    ensures
        spec_segments_winding(spec_contour_segments(points), top, k) == spec_side(points[0], top)
            - spec_side(points[k], top),
    decreases points.len() - k,
{
    let segments = spec_contour_segments(points);
    let n = points.len() as int;
    lemma_segment_winding_is_side_change(segments[k], top);
    assert(segments[k].from == points[k]);
    assert(spec_segments_winding(segments, top, k) == spec_segment_winding(segments[k], top)
        + spec_segments_winding(segments, top, k + 1));
    if k + 1 < n {
        vstd::arithmetic::div_mod::lemma_small_mod((k + 1) as nat, n as nat);
        assert(segments[k].to == points[k + 1]);
        lemma_contour_winding_from(points, top, k + 1);
    } else {
        vstd::arithmetic::div_mod::lemma_mod_self_0(n);
        assert(segments[k].to == points[0]);
        assert(spec_segments_winding(segments, top, k + 1) == 0);
    }
}

/// The edges of a closed contour that cross a height downward are as many as those that
/// cross it upward: together they add nothing to the winding number.
pub proof fn lemma_closed_contour_winding(points: Seq<Vector2I>, top: int)
    ensures
        spec_segments_winding(spec_contour_segments(points), top, 0) == 0,
{
    if points.len() > 0 {
        lemma_contour_winding_from(points, top, 0);
    }
}

/// The segments of the contours from index `k` on add nothing to the winding number.
pub proof fn lemma_closed_contours_winding(contours: Seq<Contour>, top: int, k: int)
    requires
        0 <= k,
    ensures
        spec_segments_winding(spec_segments_from(contours, k), top, 0) == 0,
    decreases contours.len() - k,
{
    if k < contours.len() {
        lemma_closed_contours_winding(contours, top, k + 1);
        lemma_closed_contour_winding(contours[k].points@, top);
        lemma_segments_winding_concat(
            spec_contour_segments(contours[k].points@),
            spec_segments_from(contours, k + 1),
            top,
            0,
        );
    }
}

/// The crossings of a closed outline at any height sum to zero: right of the last
/// crossing of a tile row the winding number is zero again.
pub proof fn lemma_closed_outline_winding(contours: Seq<Contour>, top: int)
    ensures
        spec_winding_sum(spec_sorted_crossings(spec_segments_from(contours, 0), top)) == 0,
{
    lemma_closed_contours_winding(contours, top, 0);
    lemma_crossings_winding(Seq::empty(), spec_segments_from(contours, 0), top, 0);
}

/// Whether the object holds one record for each tile of its grid.
pub open spec fn spec_is_shaped(object: BuiltObjectView) -> bool {
    object.tile_rect.wf() && object.tiles.len() == object.tile_rect.spec_area()
}

/// Whether `after` has the grid of `before` and the backdrop of each of its tiles.
pub open spec fn spec_backdrops_kept(before: BuiltObjectView, after: BuiltObjectView) -> bool {
    &&& after.tile_rect == before.tile_rect
    &&& after.tiles.len() == before.tiles.len()
    &&& forall|i: int|
        0 <= i < before.tiles.len() ==> (#[trigger] after.tiles[i]).backdrop
            == before.tiles[i].backdrop
}

/// Adding a fill changes no backdrop.
pub proof fn lemma_add_fill_keeps_backdrops(
    object: BuiltObjectView,
    segment: LineSegment,
    coords: Vector2I,
)
    requires
        spec_is_shaped(object),
        object.spec_add_fill(segment, coords) is Some,
    ensures
        spec_backdrops_kept(object, object.spec_add_fill(segment, coords)->Some_0),
{
    if object.tile_rect.spec_contains_point(coords) {
        lemma_index_in_range(object.tile_rect, coords);
    }
}

/// Adding fills along the top edge of a tile changes no backdrop.
pub proof fn lemma_add_active_fill_keeps_backdrops(
    object: BuiltObjectView,
    left: i32,
    right: i32,
    winding: int,
    coords: Vector2I,
)
    requires
        spec_is_shaped(object),
        object.spec_add_active_fill(left, right, winding, coords) is Some,
    ensures
        spec_backdrops_kept(
            object,
            object.spec_add_active_fill(left, right, winding, coords)->Some_0,
        ),
    decreases crate::built_object::spec_abs(winding),
{
    if winding != 0 && object.tile_rect.spec_contains_point(coords) {
        let segment = crate::built_object::spec_active_segment(left, right, winding, coords);
        lemma_add_fill_keeps_backdrops(object, segment, coords);
        let next = object.spec_add_fill(segment, coords)->Some_0;
        let rest = if winding < 0 {
            winding + 1
        } else {
            winding - 1
        };
        lemma_add_active_fill_keeps_backdrops(next, left, right, rest, coords);
        let last = next.spec_add_active_fill(left, right, rest, coords)->Some_0;
        assert forall|i: int| 0 <= i < object.tiles.len() implies (#[trigger] last.tiles[i]).backdrop
            == object.tiles[i].backdrop by {
            assert(next.tiles[i].backdrop == object.tiles[i].backdrop);
        }
    }
}

/// Adding the fills of a segment changes no backdrop.
pub proof fn lemma_generate_fills_keeps_backdrops(
    object: BuiltObjectView,
    segment: LineSegment,
    tile_y: i32,
    tile_x: int,
    tile_x_end: int,
)
    requires
        spec_is_shaped(object),
        object.spec_generate_fills_from(segment, tile_y, tile_x, tile_x_end) is Some,
    ensures
        spec_backdrops_kept(
            object,
            object.spec_generate_fills_from(segment, tile_y, tile_x, tile_x_end)->Some_0,
        ),
    decreases tile_x_end - tile_x,
{
    if tile_x < tile_x_end {
        let subsegment = crate::built_object::spec_subsegment(segment, tile_x);
        let coords = Vector2I { x: tile_x as i32, y: tile_y };
        lemma_add_fill_keeps_backdrops(object, subsegment, coords);
        let next = object.spec_add_fill(subsegment, coords)->Some_0;
        lemma_generate_fills_keeps_backdrops(next, segment, tile_y, tile_x + 1, tile_x_end);
        let last = next.spec_generate_fills_from(segment, tile_y, tile_x + 1, tile_x_end)->Some_0;
        assert forall|i: int| 0 <= i < object.tiles.len() implies (#[trigger] last.tiles[i]).backdrop
            == object.tiles[i].backdrop by {
            assert(next.tiles[i].backdrop == object.tiles[i].backdrop);
        }
    }
}

/// Adding the fills of the edges within a tile row changes no backdrop.
pub proof fn lemma_row_fills_keep_backdrops(
    object: BuiltObjectView,
    segments: Seq<LineSegment>,
    tile_y: i32,
    k: int,
)
    requires
        spec_is_shaped(object),
        0 <= k,
        crate::tiles::spec_row_fills_from(object, segments, tile_y, k) is Some,
    ensures
        spec_backdrops_kept(
            object,
            crate::tiles::spec_row_fills_from(object, segments, tile_y, k)->Some_0,
        ),
    decreases segments.len() - k,
{
    if k < segments.len() {
        if crate::tiles::spec_is_active(segments[k], tile_y as int) {
            let row_segment = crate::tiles::spec_row_segment(segments[k], tile_y as int);
            lemma_generate_fills_keeps_backdrops(
                object,
                row_segment,
                tile_y,
                spec_tile_floor(row_segment.spec_min_x()),
                crate::geometry::spec_tile_ceil(row_segment.spec_max_x()),
            );
            let next = object.spec_generate_fills(row_segment, tile_y)->Some_0;
            lemma_row_fills_keep_backdrops(next, segments, tile_y, k + 1);
            let last = crate::tiles::spec_row_fills_from(next, segments, tile_y, k + 1)->Some_0;
            assert forall|i: int| 0 <= i < object.tiles.len() implies (
            #[trigger] last.tiles[i]).backdrop == object.tiles[i].backdrop by {
                assert(next.tiles[i].backdrop == object.tiles[i].backdrop);
            }
        } else {
            lemma_row_fills_keep_backdrops(object, segments, tile_y, k + 1);
        }
    }
}

/// The winding number right of the first `k` crossings of a row.
pub open spec fn spec_winding_before(crossings: Seq<Crossing>, k: int) -> int
    decreases k,
{
    if k <= 0 {
        0
    } else {
        spec_saturating_add(
            spec_winding_before(crossings, k - 1),
            crossings[k - 1].winding as int,
        )
    }
}

/// Whether the first `k` crossings lie at the left edge of tile column `tile_x` or left
/// of it, and all others at its right edge or right of it: whether no edge crosses the
/// top edge of the tile within the tile.
pub open spec fn spec_splits_at(crossings: Seq<Crossing>, tile_x: int, k: int) -> bool {
    &&& 0 <= k <= crossings.len()
    &&& forall|j: int| 0 <= j < k ==> (#[trigger] crossings[j]).x <= tile_x * 4096
    &&& forall|j: int|
        k <= j < crossings.len() ==> (#[trigger] crossings[j]).x >= (tile_x + 1) * 4096
}

/// The backdrop of the tile in column `tile_x` and row `tile_y`.
pub open spec fn spec_backdrop_at(object: BuiltObjectView, tile_x: int, tile_y: int) -> i8 {
    object.tiles[spec_coords_to_index_unchecked(
        object.tile_rect,
        Vector2I { x: tile_x as i32, y: tile_y as i32 },
    )].backdrop
}

/// Whether every tile of row `tile_y` left of column `upto` whose top edge no edge
/// crosses within the tile, and right of which an edge crosses the row, has the winding
/// number that enters it from the left as its backdrop.
pub open spec fn spec_row_settled(
    object: BuiltObjectView,
    crossings: Seq<Crossing>,
    tile_y: int,
    upto: int,
) -> bool {
    forall|tile_x: int, k: int|
        object.tile_rect.origin.x <= tile_x < upto && tile_x < object.tile_rect.lower_right.x
            && k < crossings.len() && #[trigger] spec_splits_at(crossings, tile_x, k)
            ==> spec_backdrop_at(object, tile_x, tile_y) == spec_clamp_backdrop(
            spec_winding_before(crossings, k),
        )
}

/// Whether the tiles outside row `tile_y`, and those of the row from column `from_x`
/// on, have the backdrop that they have in `initial`.
pub open spec fn spec_row_untouched(
    initial: BuiltObjectView,
    object: BuiltObjectView,
    tile_y: int,
    from_x: int,
) -> bool {
    forall|i: int|
        0 <= i < initial.tiles.len() && (spec_index_to_coords(initial.tile_rect, i).y != tile_y
            || spec_index_to_coords(initial.tile_rect, i).x >= from_x) ==> (
        #[trigger] object.tiles[i]).backdrop == initial.tiles[i].backdrop
}

/// Whether every tile of row `tile_y` left of column `upto` that lies right of all
/// crossings of the row has the backdrop that it has in `initial`.
pub open spec fn spec_row_rest(
    initial: BuiltObjectView,
    object: BuiltObjectView,
    crossings: Seq<Crossing>,
    tile_y: int,
    upto: int,
) -> bool {
    forall|tile_x: int|
        object.tile_rect.origin.x <= tile_x < upto && tile_x < object.tile_rect.lower_right.x
            && #[trigger] spec_splits_at(crossings, tile_x, crossings.len() as int)
            ==> spec_backdrop_at(object, tile_x, tile_y) == spec_backdrop_at(
            initial,
            tile_x,
            tile_y,
        )
}

/// What holds of the scan along the top edge of a row when it has passed `k` crossings.
pub open spec fn spec_scan_invariant(
    initial: BuiltObjectView,
    state: ScanState,
    crossings: Seq<Crossing>,
    k: int,
    tile_y: int,
) -> bool {
    &&& spec_is_shaped(state.object)
    &&& state.object.tile_rect == initial.tile_rect
    &&& state.object.tiles.len() == initial.tiles.len()
    &&& 0 <= k <= crossings.len()
    &&& state.winding == spec_winding_before(crossings, k)
    &&& initial.tile_rect.origin.x <= state.tile_x
    &&& 0 <= state.subtile_x <= 4095
    &&& forall|j: int|
        0 <= j < k ==> (#[trigger] crossings[j]).x <= state.tile_x * 4096 + state.subtile_x
    &&& state.subtile_x > 0 ==> exists|j: int|
        0 <= j < k && (#[trigger] crossings[j]).x == state.tile_x * 4096 + state.subtile_x
    &&& spec_row_untouched(initial, state.object, tile_y, state.tile_x)
    &&& spec_row_settled(state.object, crossings, tile_y, state.tile_x)
    &&& spec_row_rest(initial, state.object, crossings, tile_y, state.tile_x)
}

/// What setting backdrops does to the backdrop of each tile.
pub proof fn lemma_set_backdrops_effect(
    object: BuiltObjectView,
    tile_y: int,
    from_x: int,
    to_x: int,
    winding: int,
)
    requires
        spec_is_shaped(object),
    ensures
        spec_is_shaped(spec_set_backdrops(object, tile_y, from_x, to_x, winding)),
        spec_set_backdrops(object, tile_y, from_x, to_x, winding).tile_rect == object.tile_rect,
        forall|i: int|
            0 <= i < object.tiles.len() ==> (#[trigger] spec_set_backdrops(
                object,
                tile_y,
                from_x,
                to_x,
                winding,
            ).tiles[i]).backdrop == if spec_index_to_coords(object.tile_rect, i).y == tile_y
                && from_x <= spec_index_to_coords(object.tile_rect, i).x < to_x {
                spec_clamp_backdrop(winding)
            } else {
                object.tiles[i].backdrop
            },
{
}

/// The backdrop of a tile of the grid is that of the record with the tile's index, and
/// the tile is what the index stands for.
pub proof fn lemma_backdrop_at(object: BuiltObjectView, tile_x: int, tile_y: int)
    requires
        spec_is_shaped(object),
        object.tile_rect.origin.x <= tile_x < object.tile_rect.lower_right.x,
        object.tile_rect.origin.y <= tile_y < object.tile_rect.lower_right.y,
    ensures
        ({
            let coords = Vector2I { x: tile_x as i32, y: tile_y as i32 };
            let i = spec_coords_to_index_unchecked(object.tile_rect, coords);
            &&& 0 <= i < object.tiles.len()
            &&& spec_index_to_coords(object.tile_rect, i) == coords
            &&& spec_backdrop_at(object, tile_x, tile_y) == object.tiles[i].backdrop
        }),
{
    let coords = Vector2I { x: tile_x as i32, y: tile_y as i32 };
    lemma_index_in_range(object.tile_rect, coords);
    lemma_coords_round_trip(object.tile_rect, coords);
}

/// Passing one crossing keeps what holds of the scan.
pub proof fn lemma_scan_step(
    initial: BuiltObjectView,
    state: ScanState,
    crossings: Seq<Crossing>,
    k: int,
    tile_y: i32,
)
    requires
        spec_is_sorted(crossings),
        spec_scan_invariant(initial, state, crossings, k, tile_y as int),
        k < crossings.len(),
        initial.tile_rect.origin.y <= tile_y < initial.tile_rect.lower_right.y,
        spec_scan_step(state, crossings[k], tile_y) is Some,
    ensures
        spec_scan_invariant(
            initial,
            spec_scan_step(state, crossings[k], tile_y)->Some_0,
            crossings,
            k + 1,
            tile_y as int,
        ),
{
    let rect = initial.tile_rect;
    let crossing = crossings[k];
    let segment_tile_x = spec_tile_floor(crossing.x as int);
    let filled = spec_initial_subtile_fill(state, segment_tile_x, tile_y)->Some_0;
    let moved = spec_move_to_tile(filled, segment_tile_x, tile_y);
    let last = spec_final_subtile_fill(moved, crossing.x, tile_y)->Some_0;
    let next = spec_scan_step(state, crossing, tile_y)->Some_0;
    assert(next.object == last.object && next.tile_x == last.tile_x && next.subtile_x
        == last.subtile_x);

    // The three steps, one by one.
    if state.tile_x < segment_tile_x && state.subtile_x > 0 {
        lemma_add_active_fill_keeps_backdrops(
            state.object,
            (state.tile_x * 4096 + state.subtile_x) as i32,
            (state.tile_x * 4096 + 4095) as i32,
            state.winding,
            Vector2I { x: state.tile_x as i32, y: tile_y },
        );
    }
    assert(spec_backdrops_kept(state.object, filled.object));
    assert(spec_is_shaped(filled.object));
    lemma_set_backdrops_effect(
        filled.object,
        tile_y as int,
        filled.tile_x,
        segment_tile_x,
        filled.winding,
    );
    assert(spec_is_shaped(moved.object));
    if crossing.x - moved.tile_x * 4096 > moved.subtile_x {
        lemma_add_active_fill_keeps_backdrops(
            moved.object,
            (moved.tile_x * 4096 + moved.subtile_x) as i32,
            crossing.x,
            moved.winding,
            Vector2I { x: moved.tile_x as i32, y: tile_y },
        );
    }
    assert(spec_backdrops_kept(moved.object, last.object));

    // Each record after the step, told from the record before it.
    assert forall|i: int| 0 <= i < initial.tiles.len() implies (#[trigger] next.object.tiles[i]).backdrop
        == if spec_index_to_coords(rect, i).y == tile_y && filled.tile_x <= spec_index_to_coords(
        rect,
        i,
    ).x < segment_tile_x {
        spec_clamp_backdrop(state.winding)
    } else {
        state.object.tiles[i].backdrop
    } by {
        assert(last.object.tiles[i].backdrop == moved.object.tiles[i].backdrop);
        assert(filled.object.tiles[i].backdrop == state.object.tiles[i].backdrop);
        if filled.tile_x < segment_tile_x {
            assert(moved.object.tiles[i] == spec_set_backdrops(
                filled.object,
                tile_y as int,
                filled.tile_x,
                segment_tile_x,
                filled.winding,
            ).tiles[i]);
        }
    }

    // Where the scan stands.
    assert(segment_tile_x * 4096 <= crossing.x < (segment_tile_x + 1) * 4096);
    assert(state.tile_x <= filled.tile_x <= moved.tile_x == next.tile_x);
    assert(state.tile_x * 4096 + state.subtile_x <= next.tile_x * 4096 + next.subtile_x);
    assert(crossing.x <= next.tile_x * 4096 + next.subtile_x);
    assert forall|j: int| 0 <= j < k + 1 implies (#[trigger] crossings[j]).x <= next.tile_x * 4096
        + next.subtile_x by {
        if j < k {
            assert(crossings[j].x <= state.tile_x * 4096 + state.subtile_x);
        }
    }
    if next.subtile_x > 0 {
        if crossing.x - moved.tile_x * 4096 > moved.subtile_x {
            assert(crossings[k].x == next.tile_x * 4096 + next.subtile_x);
        } else {
            assert(next.tile_x == state.tile_x && next.subtile_x == state.subtile_x);
            let j = choose|j: int|
                0 <= j < k && (#[trigger] crossings[j]).x == state.tile_x * 4096
                    + state.subtile_x;
            assert(0 <= j < k + 1 && crossings[j].x == next.tile_x * 4096 + next.subtile_x);
        }
    }
    assert(next.winding == spec_winding_before(crossings, k + 1));

    // The tiles that the scan has not reached.
    assert forall|i: int|
        0 <= i < initial.tiles.len() && (spec_index_to_coords(rect, i).y != tile_y
            || spec_index_to_coords(rect, i).x >= next.tile_x) implies (
    #[trigger] next.object.tiles[i]).backdrop == initial.tiles[i].backdrop by {
        assert(state.object.tiles[i].backdrop == initial.tiles[i].backdrop);
    }

    // The tiles that the scan has passed.
    assert forall|tile_x: int, kk: int|
        rect.origin.x <= tile_x < next.tile_x && tile_x < rect.lower_right.x && kk
            < crossings.len() && #[trigger] spec_splits_at(crossings, tile_x, kk) implies spec_backdrop_at(
        next.object,
        tile_x,
        tile_y as int,
    ) == spec_clamp_backdrop(spec_winding_before(crossings, kk)) by {
        lemma_backdrop_at(next.object, tile_x, tile_y as int);
        lemma_backdrop_at(state.object, tile_x, tile_y as int);
        let i = spec_coords_to_index_unchecked(
            rect,
            Vector2I { x: tile_x as i32, y: tile_y as i32 },
        );
        if tile_x < state.tile_x {
            assert(spec_backdrop_at(state.object, tile_x, tile_y as int) == spec_clamp_backdrop(
                spec_winding_before(crossings, kk),
            ));
            assert(next.object.tiles[i].backdrop == state.object.tiles[i].backdrop);
        } else if tile_x < filled.tile_x {
            // An edge crosses the top edge of this tile within the tile.
            let j = choose|j: int|
                0 <= j < k && (#[trigger] crossings[j]).x == state.tile_x * 4096
                    + state.subtile_x;
            if j < kk {
                assert(crossings[j].x <= tile_x * 4096);
            } else {
                assert(crossings[j].x >= (tile_x + 1) * 4096);
            }
            assert(false);
        } else {
            if kk < k {
                assert(crossings[kk].x >= (tile_x + 1) * 4096);
                assert(crossings[kk].x <= state.tile_x * 4096 + state.subtile_x);
                assert(false);
            }
            if kk > k {
                assert(crossings[k].x <= tile_x * 4096);
                assert(false);
            }
            assert(next.object.tiles[i].backdrop == spec_clamp_backdrop(state.winding));
        }
    }
    assert forall|tile_x: int|
        rect.origin.x <= tile_x < next.tile_x && tile_x < rect.lower_right.x
            && #[trigger] spec_splits_at(
            crossings,
            tile_x,
            crossings.len() as int,
        ) implies spec_backdrop_at(next.object, tile_x, tile_y as int) == spec_backdrop_at(
        initial,
        tile_x,
        tile_y as int,
    ) by {
        lemma_backdrop_at(next.object, tile_x, tile_y as int);
        lemma_backdrop_at(state.object, tile_x, tile_y as int);
        lemma_backdrop_at(initial, tile_x, tile_y as int);
        let i = spec_coords_to_index_unchecked(
            rect,
            Vector2I { x: tile_x as i32, y: tile_y as i32 },
        );
        if tile_x < state.tile_x {
            assert(spec_backdrop_at(state.object, tile_x, tile_y as int) == spec_backdrop_at(
                initial,
                tile_x,
                tile_y as int,
            ));
            assert(next.object.tiles[i].backdrop == state.object.tiles[i].backdrop);
        } else {
            // The crossing that the scan has just passed lies right of this tile.
            assert(crossings[k].x <= tile_x * 4096);
            assert(false);
        }
    }
}

/// When the scan along the top edge of a row has passed all crossings, every tile of the
/// row whose top edge no edge crosses within the tile, and right of which an edge
/// crosses the row, has the winding number that enters it from the left as its
/// backdrop. The backdrops of all other tiles are what they were.
pub proof fn lemma_scan(
    initial: BuiltObjectView,
    state: ScanState,
    crossings: Seq<Crossing>,
    k: int,
    tile_y: i32,
)
    requires
        spec_is_sorted(crossings),
        spec_scan_invariant(initial, state, crossings, k, tile_y as int),
        initial.tile_rect.origin.y <= tile_y < initial.tile_rect.lower_right.y,
        spec_scan_from(state, crossings, k, tile_y) is Some,
    ensures
        ({
            let scanned = spec_scan_from(state, crossings, k, tile_y)->Some_0;
            &&& spec_is_shaped(scanned)
            &&& scanned.tile_rect == initial.tile_rect
            &&& scanned.tiles.len() == initial.tiles.len()
            &&& spec_row_settled(
                scanned,
                crossings,
                tile_y as int,
                initial.tile_rect.lower_right.x as int,
            )
            &&& spec_row_rest(
                initial,
                scanned,
                crossings,
                tile_y as int,
                initial.tile_rect.lower_right.x as int,
            )
            &&& forall|i: int|
                0 <= i < initial.tiles.len() && spec_index_to_coords(initial.tile_rect, i).y
                    != tile_y ==> (#[trigger] scanned.tiles[i]).backdrop
                    == initial.tiles[i].backdrop
        }),
    decreases crossings.len() - k,
{
    if k < crossings.len() {
        lemma_scan_step(initial, state, crossings, k, tile_y);
        lemma_scan(
            initial,
            spec_scan_step(state, crossings[k], tile_y)->Some_0,
            crossings,
            k + 1,
            tile_y,
        );
    } else {
        let rect = initial.tile_rect;
        assert forall|tile_x: int, kk: int|
            rect.origin.x <= tile_x < rect.lower_right.x && kk < crossings.len()
                && #[trigger] spec_splits_at(crossings, tile_x, kk) implies spec_backdrop_at(
            state.object,
            tile_x,
            tile_y as int,
        ) == spec_clamp_backdrop(spec_winding_before(crossings, kk)) by {
            if tile_x >= state.tile_x {
                assert(crossings[kk].x >= (tile_x + 1) * 4096);
                assert(crossings[kk].x <= state.tile_x * 4096 + state.subtile_x);
                assert(false);
            }
        }
        assert forall|tile_x: int|
            rect.origin.x <= tile_x < rect.lower_right.x && #[trigger] spec_splits_at(
                crossings,
                tile_x,
                crossings.len() as int,
            ) implies spec_backdrop_at(state.object, tile_x, tile_y as int) == spec_backdrop_at(
            initial,
            tile_x,
            tile_y as int,
        ) by {
            if tile_x >= state.tile_x {
                lemma_backdrop_at(state.object, tile_x, tile_y as int);
                lemma_backdrop_at(initial, tile_x, tile_y as int);
            }
        }
    }
}

/// Whether row `tile_y` is done: every tile of the row whose top edge no edge crosses
/// within the tile has the winding number that enters it from the left as its backdrop
/// where an edge crosses the row right of it, and else the backdrop that it has in
/// `initial`.
pub open spec fn spec_row_done(
    initial: BuiltObjectView,
    object: BuiltObjectView,
    segments: Seq<LineSegment>,
    tile_y: int,
) -> bool {
    &&& spec_row_settled(
        object,
        spec_sorted_crossings(segments, tile_y * 4096),
        tile_y,
        object.tile_rect.lower_right.x as int,
    )
    &&& spec_row_rest(
        initial,
        object,
        spec_sorted_crossings(segments, tile_y * 4096),
        tile_y,
        object.tile_rect.lower_right.x as int,
    )
}

/// Tiling a row settles the backdrops of the row and leaves those of all other rows.
pub proof fn lemma_strip(object: BuiltObjectView, segments: Seq<LineSegment>, tile_y: i32)
    requires
        spec_is_shaped(object),
        object.tile_rect.origin.y <= tile_y < object.tile_rect.lower_right.y,
        spec_generate_strip(object, segments, tile_y) is Some,
    ensures
        ({
            let tiled = spec_generate_strip(object, segments, tile_y)->Some_0;
            &&& spec_is_shaped(tiled)
            &&& tiled.tile_rect == object.tile_rect
            &&& tiled.tiles.len() == object.tiles.len()
            &&& spec_row_done(object, tiled, segments, tile_y as int)
            &&& forall|i: int|
                0 <= i < object.tiles.len() && spec_index_to_coords(object.tile_rect, i).y
                    != tile_y ==> (#[trigger] tiled.tiles[i]).backdrop
                    == object.tiles[i].backdrop
        }),
{
    let crossings = spec_sorted_crossings(segments, tile_y * 4096);
    lemma_crossings_sorted(Seq::empty(), segments, tile_y * 4096, 0);
    let start = spec_scan_start(object);
    assert(spec_scan_invariant(object, start, crossings, 0, tile_y as int));
    lemma_scan(object, start, crossings, 0, tile_y);
    let scanned = spec_scan_from(start, crossings, 0, tile_y)->Some_0;
    lemma_row_fills_keep_backdrops(scanned, segments, tile_y, 0);
    let tiled = spec_row_fills_from(scanned, segments, tile_y, 0)->Some_0;
    lemma_kept_row_done(object, scanned, tiled, crossings, tile_y as int);
    assert forall|i: int|
        0 <= i < object.tiles.len() && spec_index_to_coords(object.tile_rect, i).y
            != tile_y implies (#[trigger] tiled.tiles[i]).backdrop
        == object.tiles[i].backdrop by {
        assert(scanned.tiles[i].backdrop == object.tiles[i].backdrop);
    }
}

/// A row that is settled stays so in an object with the same backdrops.
pub proof fn lemma_kept_row_done(
    initial: BuiltObjectView,
    before: BuiltObjectView,
    after: BuiltObjectView,
    crossings: Seq<Crossing>,
    tile_y: int,
)
    requires
        spec_is_shaped(before),
        spec_is_shaped(initial),
        initial.tile_rect == before.tile_rect,
        before.tile_rect.origin.y <= tile_y < before.tile_rect.lower_right.y,
        after.tile_rect == before.tile_rect,
        after.tiles.len() == before.tiles.len(),
        forall|i: int|
            0 <= i < before.tiles.len() && spec_index_to_coords(before.tile_rect, i).y == tile_y
                ==> (#[trigger] after.tiles[i]).backdrop == before.tiles[i].backdrop,
        spec_row_settled(before, crossings, tile_y, before.tile_rect.lower_right.x as int),
        spec_row_rest(initial, before, crossings, tile_y, before.tile_rect.lower_right.x as int),
    ensures
        spec_row_settled(after, crossings, tile_y, after.tile_rect.lower_right.x as int),
        spec_row_rest(initial, after, crossings, tile_y, after.tile_rect.lower_right.x as int),
{
    let rect = before.tile_rect;
    assert forall|tile_x: int, k: int|
        rect.origin.x <= tile_x < rect.lower_right.x && k < crossings.len()
            && #[trigger] spec_splits_at(crossings, tile_x, k) implies spec_backdrop_at(
        after,
        tile_x,
        tile_y,
    ) == spec_clamp_backdrop(spec_winding_before(crossings, k)) by {
        lemma_backdrop_at(before, tile_x, tile_y);
        lemma_backdrop_at(after, tile_x, tile_y);
    }
    assert forall|tile_x: int|
        rect.origin.x <= tile_x < rect.lower_right.x && #[trigger] spec_splits_at(
            crossings,
            tile_x,
            crossings.len() as int,
        ) implies spec_backdrop_at(after, tile_x, tile_y) == spec_backdrop_at(
        initial,
        tile_x,
        tile_y,
    ) by {
        lemma_backdrop_at(before, tile_x, tile_y);
        lemma_backdrop_at(after, tile_x, tile_y);
    }
}

/// Tiling the rows from `tile_y` up to `end` settles the backdrops of each of them and
/// leaves those of all other rows.
pub proof fn lemma_strips(
    object: BuiltObjectView,
    segments: Seq<LineSegment>,
    tile_y: int,
    end: int,
)
    requires
        spec_is_shaped(object),
        object.tile_rect.origin.y <= tile_y,
        end <= object.tile_rect.lower_right.y,
        spec_strips_from(object, segments, tile_y, end) is Some,
    ensures
        ({
            let tiled = spec_strips_from(object, segments, tile_y, end)->Some_0;
            &&& spec_is_shaped(tiled)
            &&& tiled.tile_rect == object.tile_rect
            &&& tiled.tiles.len() == object.tiles.len()
            &&& forall|row: int|
                tile_y <= row < end ==> #[trigger] spec_row_done(object, tiled, segments, row)
            &&& forall|i: int|
                0 <= i < object.tiles.len() && !(tile_y <= spec_index_to_coords(
                    object.tile_rect,
                    i,
                ).y < end) ==> (#[trigger] tiled.tiles[i]).backdrop == object.tiles[i].backdrop
        }),
    decreases end - tile_y,
{
    if tile_y < end {
        let rect = object.tile_rect;
        lemma_strip(object, segments, tile_y as i32);
        let first = spec_generate_strip(object, segments, tile_y as i32)->Some_0;
        lemma_strips(first, segments, tile_y + 1, end);
        let tiled = spec_strips_from(first, segments, tile_y + 1, end)->Some_0;
        assert forall|i: int|
            0 <= i < object.tiles.len() && !(tile_y <= spec_index_to_coords(rect, i).y
                < end) implies (#[trigger] tiled.tiles[i]).backdrop
            == object.tiles[i].backdrop by {
            assert(first.tiles[i].backdrop == object.tiles[i].backdrop);
        }
        assert forall|row: int| tile_y <= row < end implies #[trigger] spec_row_done(
            object,
            tiled,
            segments,
            row,
        ) by {
            let crossings = spec_sorted_crossings(segments, row * 4096);
            if row == tile_y {
                lemma_kept_row_done(object, first, tiled, crossings, row);
            } else {
                assert(spec_row_done(first, tiled, segments, row));
                // Before its own turn the row has the backdrops that it started with.
                assert forall|tile_x: int|
                    rect.origin.x <= tile_x < rect.lower_right.x && #[trigger] spec_splits_at(
                        crossings,
                        tile_x,
                        crossings.len() as int,
                    ) implies spec_backdrop_at(tiled, tile_x, row) == spec_backdrop_at(
                    object,
                    tile_x,
                    row,
                ) by {
                    lemma_backdrop_at(first, tile_x, row);
                    lemma_backdrop_at(object, tile_x, row);
                }
            }
        }
    }
}

/// Packing the tiles of an object leaves its tile records and its fills as they are.
pub proof fn lemma_pack_keeps_tiles(object: BuiltObjectView, info: PackingInfo, i: int)
    requires
        0 <= i,
    ensures
        spec_pack_from(object, info, i).tiles == object.tiles,
        spec_pack_from(object, info, i).tile_rect == object.tile_rect,
        spec_pack_from(object, info, i).fills == object.fills,
        spec_pack_from(object, info, i).alpha_tile_count == object.alpha_tile_count,
    decreases object.tiles.len() - i,
{
    if i < object.tiles.len() {
        lemma_pack_keeps_tiles(spec_pack_tile(object, info, i), info, i + 1);
    }
}

/// Whether each crossing stands for one edge: its winding is one or minus one.
pub open spec fn spec_unit_windings(crossings: Seq<Crossing>) -> bool {
    forall|j: int|
        0 <= j < crossings.len() ==> (#[trigger] crossings[j]).winding == 1 || crossings[j].winding
            == -1
}

/// Putting the crossing of one edge among those of others keeps each crossing that of
/// one edge.
pub proof fn lemma_insert_unit(sorted: Seq<Crossing>, crossing: Crossing)
    requires
        spec_unit_windings(sorted),
        crossing.winding == 1 || crossing.winding == -1,
    ensures
        spec_unit_windings(spec_insert_crossing(sorted, crossing)),
    decreases sorted.len(),
{
    if sorted.len() > 0 && sorted.last().x > crossing.x {
        let front = sorted.drop_last();
        assert forall|j: int| 0 <= j < front.len() implies (#[trigger] front[j]).winding == 1
            || front[j].winding == -1 by {
            assert(front[j] == sorted[j]);
        }
        lemma_insert_unit(front, crossing);
        let inner = spec_insert_crossing(front, crossing);
        let result = inner.push(sorted.last());
        assert forall|j: int| 0 <= j < result.len() implies (#[trigger] result[j]).winding == 1
            || result[j].winding == -1 by {
            if j < inner.len() {
                assert(result[j] == inner[j]);
            } else {
                assert(result[j] == sorted[sorted.len() - 1]);
            }
        }
    }
}

/// Each crossing that the tiler scans stands for one edge.
pub proof fn lemma_crossings_unit(
    sorted: Seq<Crossing>,
    segments: Seq<LineSegment>,
    top: int,
    k: int,
)
    requires
        spec_unit_windings(sorted),
    ensures
        spec_unit_windings(spec_crossings_from(sorted, segments, top, k)),
    decreases segments.len() - k,
{
    if 0 <= k < segments.len() {
        if spec_is_crossing(segments[k], top) {
            lemma_insert_unit(sorted, spec_crossing(segments[k], top));
            lemma_crossings_unit(
                spec_insert_crossing(sorted, spec_crossing(segments[k], top)),
                segments,
                top,
                k + 1,
            );
        } else {
            lemma_crossings_unit(sorted, segments, top, k + 1);
        }
    }
}

/// Where a row has no more crossings than a winding number can count, the winding
/// number that the scan carries right of the first `k` crossings is the sum of their
/// windings.
pub proof fn lemma_winding_before_is_sum(crossings: Seq<Crossing>, k: int)
    requires
        spec_unit_windings(crossings),
        0 <= k <= crossings.len(),
        k <= i32::MAX,
    ensures
        spec_winding_before(crossings, k) == spec_winding_sum(crossings.take(k)),
        -k <= spec_winding_before(crossings, k) <= k,
    decreases k,
{
    if k > 0 {
        lemma_winding_before_is_sum(crossings, k - 1);
        assert(crossings.take(k).drop_last() =~= crossings.take(k - 1));
        assert(crossings.take(k).last() == crossings[k - 1]);
        assert(spec_winding_sum(crossings.take(k)) == spec_winding_sum(
            crossings.take(k).drop_last(),
        ) + crossings.take(k).last().winding);
    } else {
        assert(crossings.take(0).len() == 0);
    }
}

/// The backdrop of a tile is the winding number that enters it from the left. For the
/// object that tiling a path gives, and a tile of its grid whose top edge no edge crosses
/// within the tile: where `k` of the crossings of the tile's row lie at the left edge of
/// the tile or left of it, and an edge crosses the row right of the tile, the backdrop of
/// the tile is the sum of the windings of those `k` crossings, as far as a backdrop can
/// hold it.
pub proof fn lemma_backdrop_is_winding_from_left(
    bounds: RectI,
    segments: Seq<LineSegment>,
    info: PackingInfo,
    tile_x: int,
    tile_y: int,
    k: int,
)
    requires
        bounds.wf(),
        spec_generate_tiles(BuiltObjectView::spec_new(bounds), segments, info) is Some,
        bounds.spec_round_out_to_tile_bounds().spec_contains_point(
            Vector2I { x: tile_x as i32, y: tile_y as i32 },
        ),
        i32::MIN <= tile_x <= i32::MAX,
        i32::MIN <= tile_y <= i32::MAX,
        spec_splits_at(spec_sorted_crossings(segments, tile_y * 4096), tile_x, k),
        k < spec_sorted_crossings(segments, tile_y * 4096).len() <= i32::MAX,
    ensures
        spec_backdrop_at(
            spec_generate_tiles(BuiltObjectView::spec_new(bounds), segments, info)->Some_0,
            tile_x,
            tile_y,
        ) == spec_clamp_backdrop(
            spec_winding_sum(spec_sorted_crossings(segments, tile_y * 4096).take(k)),
        ),
{
    let start = BuiltObjectView::spec_new(bounds);
    let rect = start.tile_rect;
    let crossings = spec_sorted_crossings(segments, tile_y * 4096);
    assert(rect.wf());
    assert(rect.spec_area() >= 0) by (nonlinear_arith)
        requires
            rect.spec_area() == rect.spec_width() * rect.spec_height(),
            rect.spec_width() >= 0,
            rect.spec_height() >= 0,
    ;
    assert(spec_is_shaped(start));
    lemma_strips(start, segments, rect.origin.y as int, rect.lower_right.y as int);
    let tiled = spec_strips_from(
        start,
        segments,
        rect.origin.y as int,
        rect.lower_right.y as int,
    )->Some_0;
    lemma_pack_keeps_tiles(tiled, info, 0);
    assert(spec_row_done(start, tiled, segments, tile_y));
    lemma_crossings_unit(Seq::empty(), segments, tile_y * 4096, 0);
    lemma_winding_before_is_sum(crossings, k);
}

/// The backdrop of a tile of a closed outline is the winding number that enters it from
/// the left, wherever in its row the tile lies. For the object that tiling a path with
/// closed contours gives, and a tile of its grid whose top edge no edge crosses within
/// the tile: where `k` of the crossings of the tile's row lie at the left edge of the
/// tile or left of it, the backdrop of the tile is the sum of the windings of those `k`
/// crossings, as far as a backdrop can hold it. Right of the last crossing of the row
/// that sum is zero.
pub proof fn lemma_backdrop_of_closed_outline(
    bounds: RectI,
    contours: Seq<Contour>,
    info: PackingInfo,
    tile_x: int,
    tile_y: int,
    k: int,
)
    requires
        bounds.wf(),
        spec_generate_tiles(
            BuiltObjectView::spec_new(bounds),
            spec_segments_from(contours, 0),
            info,
        ) is Some,
        bounds.spec_round_out_to_tile_bounds().spec_contains_point(
            Vector2I { x: tile_x as i32, y: tile_y as i32 },
        ),
        i32::MIN <= tile_x <= i32::MAX,
        i32::MIN <= tile_y <= i32::MAX,
        spec_splits_at(
            spec_sorted_crossings(spec_segments_from(contours, 0), tile_y * 4096),
            tile_x,
            k,
        ),
        spec_sorted_crossings(spec_segments_from(contours, 0), tile_y * 4096).len() <= i32::MAX,
    ensures
        spec_backdrop_at(
            spec_generate_tiles(
                BuiltObjectView::spec_new(bounds),
                spec_segments_from(contours, 0),
                info,
            )->Some_0,
            tile_x,
            tile_y,
        ) == spec_clamp_backdrop(
            spec_winding_sum(
                spec_sorted_crossings(spec_segments_from(contours, 0), tile_y * 4096).take(k),
            ),
        ),
        k == spec_sorted_crossings(spec_segments_from(contours, 0), tile_y * 4096).len()
            ==> spec_winding_sum(
            spec_sorted_crossings(spec_segments_from(contours, 0), tile_y * 4096).take(k),
        ) == 0,
{
    let segments = spec_segments_from(contours, 0);
    let crossings = spec_sorted_crossings(segments, tile_y * 4096);
    if k < crossings.len() {
        lemma_backdrop_is_winding_from_left(bounds, segments, info, tile_x, tile_y, k);
    } else {
        let start = BuiltObjectView::spec_new(bounds);
        let rect = start.tile_rect;
        assert(rect.wf());
        assert(rect.spec_area() >= 0) by (nonlinear_arith)
            requires
                rect.spec_area() == rect.spec_width() * rect.spec_height(),
                rect.spec_width() >= 0,
                rect.spec_height() >= 0,
        ;
        assert(spec_is_shaped(start));
        lemma_strips(start, segments, rect.origin.y as int, rect.lower_right.y as int);
        let tiled = spec_strips_from(
            start,
            segments,
            rect.origin.y as int,
            rect.lower_right.y as int,
        )->Some_0;
        lemma_pack_keeps_tiles(tiled, info, 0);
        assert(spec_row_done(start, tiled, segments, tile_y));
        lemma_backdrop_at(start, tile_x, tile_y);
        lemma_closed_outline_winding(contours, tile_y * 4096);
        assert(crossings.take(k) =~= crossings);
    }
}

} // verus!
