//! The tiler: turns the flattened outline of one path into fills and tile records.
//!
//! The tiler walks the grid of the path one tile row at a time. At the top edge of each
//! row it finds the edges that cross into the row, sorts the crossings from left to
//! right, and scans them to learn the winding number along the edge: a tile whose whole
//! top edge has one winding number takes it as its backdrop, and a part of a top edge
//! with a winding number other than zero gets fills along it. Then every edge within the
//! row is cut at the tile boundaries and each part becomes a fill of its tile.

use vstd::prelude::*;
use crate::builder::{ClipBuildResult, ClipBuildResultView};

use crate::built_object::{spec_alpha_tiles_indexed, BuiltObject, BuiltObjectView};
use crate::error::BuildError;
use crate::geometry::{spec_clamp, spec_tile_floor, tile_floor, LineSegment, RectI, Vector2I};
use crate::gpu_data::{AlphaTile, PaintMetadata, RenderStage, TileObjectPrimitive, NO_ALPHA_TILE};
use crate::scene::{bounds_of_segments, spec_bounds, ClipPathId, DrawPathId, FillRule, Outline};
use crate::tile_map::{
    lemma_index_round_trip,
    spec_coords_to_index,
    spec_coords_to_index_unchecked,
    spec_index_to_coords,
};

verus! {

/// Where an edge crosses the top of a tile row, and which way.
#[derive(Clone, Copy, Debug, PartialEq, Eq, Structural)]
pub struct Crossing {
    /// The horizontal position of the crossing, in subpixels.
    pub x: i32,
    /// One for an edge that runs downward, minus one for an edge that runs upward.
    pub winding: i32,
}

/// Whether `segment` crosses from above the height `top` to below it, or back. An edge
/// that ends on the height counts for the row below its upper end only.
pub open spec fn spec_is_crossing(segment: LineSegment, top: int) -> bool {
    segment.spec_min_y() <= top < segment.spec_max_y()
}

/// The crossing of `segment` at the height `top`.
pub open spec fn spec_crossing(segment: LineSegment, top: int) -> Crossing {
    Crossing {
        x: segment.spec_solve_x_for_y(top) as i32,
        winding: if segment.from.y < segment.to.y {
            1i32
        } else {
            -1i32
        },
    }
}

/// The crossings with one more put in after the last that lies no further right.
pub open spec fn spec_insert_crossing(sorted: Seq<Crossing>, crossing: Crossing) -> Seq<Crossing>
    decreases sorted.len(),
{
    if sorted.len() == 0 {
        seq![crossing]
    } else if sorted.last().x <= crossing.x {
        sorted.push(crossing)
    } else {
        spec_insert_crossing(sorted.drop_last(), crossing).push(sorted.last())
    }
}

/// The crossings `sorted` with those of the segments from index `k` on put in.
pub open spec fn spec_crossings_from(
    sorted: Seq<Crossing>,
    segments: Seq<LineSegment>,
    top: int,
    k: int,
) -> Seq<Crossing>
    decreases segments.len() - k,
{
    if k < 0 || k >= segments.len() {
        sorted
    } else if spec_is_crossing(segments[k], top) {
        spec_crossings_from(
            spec_insert_crossing(sorted, spec_crossing(segments[k], top)),
            segments,
            top,
            k + 1,
        )
    } else {
        spec_crossings_from(sorted, segments, top, k + 1)
    }
}

/// The crossings of all segments at the height `top`, from left to right.
pub open spec fn spec_sorted_crossings(segments: Seq<LineSegment>, top: int) -> Seq<Crossing> {
    spec_crossings_from(Seq::empty(), segments, top, 0)
}

/// Whether the crossings lie from left to right.
pub open spec fn spec_is_sorted(crossings: Seq<Crossing>) -> bool {
    forall|i: int, j: int|
        0 <= i <= j < crossings.len() ==> (#[trigger] crossings[i]).x <= (#[trigger] crossings[j]).x
}

/// Putting a crossing in at the place that a search from the right finds gives what
/// `spec_insert_crossing` describes.
pub proof fn lemma_insert_position(sorted: Seq<Crossing>, crossing: Crossing, position: int)
    requires
        0 <= position <= sorted.len(),
        forall|j: int| position <= j < sorted.len() ==> (#[trigger] sorted[j]).x > crossing.x,
        position == 0 || sorted[position - 1].x <= crossing.x,
    ensures
        spec_insert_crossing(sorted, crossing) == sorted.insert(position, crossing),
    decreases sorted.len(),
{
    if sorted.len() == 0 {
        assert(sorted.insert(position, crossing) =~= seq![crossing]);
    } else if position == sorted.len() {
        assert(sorted.insert(position, crossing) =~= sorted.push(crossing));
    } else {
        lemma_insert_position(sorted.drop_last(), crossing, position);
        assert(sorted.drop_last().insert(position, crossing).push(sorted.last())
            =~= sorted.insert(position, crossing));
    }
}

/// Putting a crossing into crossings that lie from left to right keeps them so.
pub proof fn lemma_insert_sorted(sorted: Seq<Crossing>, crossing: Crossing)
    requires
        spec_is_sorted(sorted),
    ensures
        spec_is_sorted(spec_insert_crossing(sorted, crossing)),
        spec_insert_crossing(sorted, crossing).len() == sorted.len() + 1,
        forall|i: int|
            0 <= i < sorted.len() + 1 ==> (#[trigger] spec_insert_crossing(sorted, crossing)[i])
                == crossing || exists|j: int|
                0 <= j < sorted.len() && spec_insert_crossing(sorted, crossing)[i] == sorted[j],
    decreases sorted.len(),
{
    let result = spec_insert_crossing(sorted, crossing);
    if sorted.len() == 0 {
    } else if sorted.last().x <= crossing.x {
        assert forall|i: int| 0 <= i < sorted.len() + 1 implies (#[trigger] result[i]) == crossing
            || exists|j: int| 0 <= j < sorted.len() && result[i] == sorted[j] by {
            if i < sorted.len() {
                assert(result[i] == sorted[i]);
            }
        }
    } else {
        let front = sorted.drop_last();
        assert(spec_is_sorted(front)) by {
            assert forall|i: int, j: int| 0 <= i <= j < front.len() implies (#[trigger] front[i]).x
                <= (#[trigger] front[j]).x by {
                assert(front[i] == sorted[i] && front[j] == sorted[j]);
            }
        }
        lemma_insert_sorted(front, crossing);
        let inner = spec_insert_crossing(front, crossing);
        assert forall|i: int| 0 <= i < inner.len() implies (#[trigger] inner[i]).x
            <= sorted.last().x by {
            if inner[i] == crossing {
            } else {
                let j = choose|j: int| 0 <= j < front.len() && inner[i] == front[j];
                assert(front[j] == sorted[j]);
            }
        }
        assert forall|i: int| 0 <= i < sorted.len() + 1 implies (#[trigger] result[i]) == crossing
            || exists|j: int| 0 <= j < sorted.len() && result[i] == sorted[j] by {
            if i < inner.len() {
                assert(result[i] == inner[i]);
                if inner[i] != crossing {
                    let j = choose|j: int| 0 <= j < front.len() && inner[i] == front[j];
                    assert(front[j] == sorted[j]);
                }
            } else {
                assert(result[i] == sorted[sorted.len() - 1]);
            }
        }
        assert forall|i: int, j: int| 0 <= i <= j < result.len() implies (#[trigger] result[i]).x
            <= (#[trigger] result[j]).x by {
            if j < inner.len() {
                assert(result[i] == inner[i] && result[j] == inner[j]);
            } else if i < inner.len() {
                assert(result[i] == inner[i]);
            }
        }
    }
}

/// The crossings that the tiler scans lie from left to right.
pub proof fn lemma_crossings_sorted(
    sorted: Seq<Crossing>,
    segments: Seq<LineSegment>,
    top: int,
    k: int,
)
    requires
        spec_is_sorted(sorted),
    ensures
        spec_is_sorted(spec_crossings_from(sorted, segments, top, k)),
    decreases segments.len() - k,
{
    if 0 <= k < segments.len() {
        if spec_is_crossing(segments[k], top) {
            lemma_insert_sorted(sorted, spec_crossing(segments[k], top));
            lemma_crossings_sorted(
                spec_insert_crossing(sorted, spec_crossing(segments[k], top)),
                segments,
                top,
                k + 1,
            );
        } else {
            lemma_crossings_sorted(sorted, segments, top, k + 1);
        }
    }
}

/// Collects the crossings of the segments at the top of tile row `tile_y`, from left to
/// right.
fn sorted_crossings(segments: &Vec<LineSegment>, tile_y: i32) -> (crossings: Vec<Crossing>)
    requires
        -0x8_0000 <= tile_y < 0x8_0000,
    ensures
        crossings@ == spec_sorted_crossings(segments@, tile_y * 4096),
{
    let top: i32 = tile_y * 4096;
    let mut crossings: Vec<Crossing> = Vec::new();
    let mut k: usize = 0;
    while k < segments.len()
        invariant
            k <= segments.len(),
            top == tile_y * 4096,
            spec_crossings_from(crossings@, segments@, top as int, k as int)
                == spec_sorted_crossings(segments@, top as int),
        decreases segments.len() - k,
    {
        let segment: LineSegment = segments[k];
        if segment.min_y() <= top && top < segment.max_y() {
            let crossing: Crossing = Crossing {
                x: segment.solve_x_for_y(top),
                winding: if segment.from.y < segment.to.y {
                    1
                } else {
                    -1
                },
            };
            let mut position: usize = crossings.len();
            while position > 0 && crossings[position - 1].x > crossing.x
                invariant
                    position <= crossings.len(),
                    forall|j: int|
                        position <= j < crossings.len() ==> (#[trigger] crossings[j]).x
                            > crossing.x,
                decreases position,
            {
                position = position - 1;
            }
            proof {
                lemma_insert_position(crossings@, crossing, position as int);
            }
            crossings.insert(position, crossing);
        }
        k = k + 1;
    }
    crossings
}

/// The backdrop that stands for a winding number: the number itself where a tile record
/// can hold it, else the nearest that it can hold.
pub open spec fn spec_clamp_backdrop(winding: int) -> i8 {
    spec_clamp(winding, -128, 127) as i8
}

/// The sum of two winding numbers, kept within the range of `i32`.
pub open spec fn spec_saturating_add(a: int, b: int) -> int {
    spec_clamp(a + b, i32::MIN as int, i32::MAX as int)
}

/// The tile records with the backdrop of the tiles in row `tile_y` and in the columns
/// from `from_x` up to `to_x` set to `backdrop`.
pub open spec fn spec_backdrop_tiles(
    rect: RectI,
    tiles: Seq<TileObjectPrimitive>,
    tile_y: int,
    from_x: int,
    to_x: int,
    backdrop: i8,
) -> Seq<TileObjectPrimitive> {
    Seq::new(
        tiles.len(),
        |i: int|
            {
                let coords = spec_index_to_coords(rect, i);
                if coords.y == tile_y && from_x <= coords.x < to_x {
                    TileObjectPrimitive { backdrop, alpha_tile_index: tiles[i].alpha_tile_index }
                } else {
                    tiles[i]
                }
            },
    )
}

/// The object with the backdrop of the tiles in row `tile_y` and in the columns from
/// `from_x` up to `to_x` set to what stands for `winding`.
pub open spec fn spec_set_backdrops(
    object: BuiltObjectView,
    tile_y: int,
    from_x: int,
    to_x: int,
    winding: int,
) -> BuiltObjectView {
    BuiltObjectView {
        tiles: spec_backdrop_tiles(
            object.tile_rect,
            object.tiles,
            tile_y,
            from_x,
            to_x,
            spec_clamp_backdrop(winding),
        ),
        ..object
    }
}

/// Where the scan along the top edge of a tile row stands.
pub struct ScanState {
    pub object: BuiltObjectView,
    /// The tile column that the scan has reached.
    pub tile_x: int,
    /// How far into that tile the scan has come, in subpixels.
    pub subtile_x: int,
    /// The winding number to the right of the last crossing.
    pub winding: int,
}

/// The scan at the left end of a tile row.
pub open spec fn spec_scan_start(object: BuiltObjectView) -> ScanState {
    ScanState { object, tile_x: object.tile_rect.origin.x as int, subtile_x: 0, winding: 0 }
}

/// Where the next crossing lies in a later tile and the scan stands inside its tile, the
/// rest of the tile's top edge gets its fills and the scan moves on to the next tile.
pub open spec fn spec_initial_subtile_fill(state: ScanState, segment_tile_x: int, tile_y: i32) -> Option<
    ScanState,
> {
    if state.tile_x < segment_tile_x && state.subtile_x > 0 {
        match state.object.spec_add_active_fill(
            (state.tile_x * 4096 + state.subtile_x) as i32,
            (state.tile_x * 4096 + 4095) as i32,
            state.winding,
            Vector2I { x: state.tile_x as i32, y: tile_y },
        ) {
            None => None,
            Some(object) => Some(
                ScanState { object, tile_x: state.tile_x + 1, subtile_x: 0, winding: state.winding },
            ),
        }
    } else {
        Some(state)
    }
}

/// The tiles between the scan and the tile of the next crossing take the winding number
/// as their backdrop, and the scan moves to the tile of the crossing.
pub open spec fn spec_move_to_tile(state: ScanState, segment_tile_x: int, tile_y: i32) -> ScanState {
    if state.tile_x < segment_tile_x {
        ScanState {
            object: spec_set_backdrops(
                state.object,
                tile_y as int,
                state.tile_x,
                segment_tile_x,
                state.winding,
            ),
            tile_x: segment_tile_x,
            subtile_x: 0,
            winding: state.winding,
        }
    } else {
        state
    }
}

/// The part of the tile's top edge between the scan and the crossing gets its fills,
/// and the scan moves up to the crossing.
pub open spec fn spec_final_subtile_fill(state: ScanState, crossing_x: i32, tile_y: i32) -> Option<
    ScanState,
> {
    let segment_subtile_x = crossing_x - state.tile_x * 4096;
    if segment_subtile_x > state.subtile_x {
        match state.object.spec_add_active_fill(
            (state.tile_x * 4096 + state.subtile_x) as i32,
            crossing_x,
            state.winding,
            Vector2I { x: state.tile_x as i32, y: tile_y },
        ) {
            None => None,
            Some(object) => Some(
                ScanState {
                    object,
                    tile_x: state.tile_x,
                    subtile_x: segment_subtile_x,
                    winding: state.winding,
                },
            ),
        }
    } else {
        Some(state)
    }
}

/// The scan after it has passed one crossing.
pub open spec fn spec_scan_step(state: ScanState, crossing: Crossing, tile_y: i32) -> Option<
    ScanState,
> {
    let segment_tile_x = spec_tile_floor(crossing.x as int);
    match spec_initial_subtile_fill(state, segment_tile_x, tile_y) {
        None => None,
        Some(moved) => match spec_final_subtile_fill(
            spec_move_to_tile(moved, segment_tile_x, tile_y),
            crossing.x,
            tile_y,
        ) {
            None => None,
            Some(filled) => Some(
                ScanState {
                    object: filled.object,
                    tile_x: filled.tile_x,
                    subtile_x: filled.subtile_x,
                    winding: spec_saturating_add(filled.winding, crossing.winding as int),
                },
            ),
        },
    }
}

/// The object after the scan has passed the crossings from index `k` on.
pub open spec fn spec_scan_from(state: ScanState, crossings: Seq<Crossing>, k: int, tile_y: i32) -> Option<
    BuiltObjectView,
>
    decreases crossings.len() - k,
{
    if k < 0 || k >= crossings.len() {
        Some(state.object)
    } else {
        match spec_scan_step(state, crossings[k], tile_y) {
            None => None,
            Some(next) => spec_scan_from(next, crossings, k + 1, tile_y),
        }
    }
}

/// Whether a part of `segment` lies within tile row `tile_y`. A horizontal edge along
/// the boundary between two rows lies within neither.
pub open spec fn spec_is_active(segment: LineSegment, tile_y: int) -> bool {
    segment.spec_min_y() < (tile_y + 1) * 4096 && segment.spec_max_y() > tile_y * 4096
}

/// An endpoint of `segment` moved along the segment into tile row `tile_y`.
pub open spec fn spec_clip_to_row(segment: LineSegment, point: Vector2I, tile_y: int) -> Vector2I {
    if point.y < tile_y * 4096 {
        Vector2I {
            x: segment.spec_solve_x_for_y(tile_y * 4096) as i32,
            y: (tile_y * 4096) as i32,
        }
    } else if point.y > (tile_y + 1) * 4096 {
        Vector2I {
            x: segment.spec_solve_x_for_y((tile_y + 1) * 4096) as i32,
            y: ((tile_y + 1) * 4096) as i32,
        }
    } else {
        point
    }
}

/// The part of `segment` that lies within tile row `tile_y`.
pub open spec fn spec_row_segment(segment: LineSegment, tile_y: int) -> LineSegment {
    LineSegment {
        from: spec_clip_to_row(segment, segment.from, tile_y),
        to: spec_clip_to_row(segment, segment.to, tile_y),
    }
}

/// The object after the fills of the segments from index `k` on within tile row `tile_y`
/// have been added.
pub open spec fn spec_row_fills_from(
    object: BuiltObjectView,
    segments: Seq<LineSegment>,
    tile_y: i32,
    k: int,
) -> Option<BuiltObjectView>
    decreases segments.len() - k,
{
    if k < 0 || k >= segments.len() {
        Some(object)
    } else if spec_is_active(segments[k], tile_y as int) {
        match object.spec_generate_fills(spec_row_segment(segments[k], tile_y as int), tile_y) {
            None => None,
            Some(next) => spec_row_fills_from(next, segments, tile_y, k + 1),
        }
    } else {
        spec_row_fills_from(object, segments, tile_y, k + 1)
    }
}

/// The object after tile row `tile_y` has been tiled: first the scan along the top edge
/// of the row, then the fills of the edges within the row.
pub open spec fn spec_generate_strip(
    object: BuiltObjectView,
    segments: Seq<LineSegment>,
    tile_y: i32,
) -> Option<BuiltObjectView> {
    match spec_scan_from(
        spec_scan_start(object),
        spec_sorted_crossings(segments, tile_y * 4096),
        0,
        tile_y,
    ) {
        None => None,
        Some(scanned) => spec_row_fills_from(scanned, segments, tile_y, 0),
    }
}

/// The object after the tile rows from `tile_y` up to `end` have been tiled.
pub open spec fn spec_strips_from(
    object: BuiltObjectView,
    segments: Seq<LineSegment>,
    tile_y: int,
    end: int,
) -> Option<BuiltObjectView>
    decreases end - tile_y,
{
    if tile_y >= end {
        Some(object)
    } else {
        match spec_generate_strip(object, segments, tile_y as i32) {
            None => None,
            Some(next) => spec_strips_from(next, segments, tile_y + 1, end),
        }
    }
}

/// Setting backdrops changes no alpha tile index, so it keeps the invariant of the object.
pub proof fn lemma_set_backdrops_wf(
    object: BuiltObjectView,
    tile_y: int,
    from_x: int,
    to_x: int,
    winding: int,
)
    requires
        object.wf(),
    ensures
        spec_set_backdrops(object, tile_y, from_x, to_x, winding).wf(),
{
    let after = spec_set_backdrops(object, tile_y, from_x, to_x, winding);
    assert forall|i: int| 0 <= i < after.tiles.len() implies (#[trigger] after.tiles[i]).alpha_tile_index
        == object.tiles[i].alpha_tile_index by {}
    assert forall|i: int, j: int|
        0 <= i < after.tiles.len() && 0 <= j < after.tiles.len() && i != j && (
        #[trigger] after.tiles[i]).alpha_tile_index != NO_ALPHA_TILE implies after.tiles[i].alpha_tile_index
        != (#[trigger] after.tiles[j]).alpha_tile_index by {
        assert(object.tiles[i].alpha_tile_index != object.tiles[j].alpha_tile_index);
    }
    assert forall|i: int| 0 <= i < after.tiles.len() implies {
        ||| (#[trigger] after.tiles[i]).alpha_tile_index == NO_ALPHA_TILE
        ||| after.tiles[i].alpha_tile_index < after.alpha_tile_count
    } by {
        assert(object.tiles[i].alpha_tile_index == NO_ALPHA_TILE || object.tiles[i].alpha_tile_index
            < object.alpha_tile_count);
    }
}

/// Setting backdrops keeps the fills and the tiles with edges together.
pub proof fn lemma_set_backdrops_keeps_match(
    object: BuiltObjectView,
    tile_y: int,
    from_x: int,
    to_x: int,
    winding: int,
)
    ensures
        object.spec_fills_match_tiles() ==> spec_set_backdrops(
            object,
            tile_y,
            from_x,
            to_x,
            winding,
        ).spec_fills_match_tiles(),
        spec_set_backdrops(object, tile_y, from_x, to_x, winding).spec_grows_from(object),
{
    let after = spec_set_backdrops(object, tile_y, from_x, to_x, winding);
    assert forall|i: int| 0 <= i < after.tiles.len() implies (#[trigger] after.tiles[i]).alpha_tile_index
        == object.tiles[i].alpha_tile_index by {}
    if object.spec_fills_match_tiles() {
        lemma_backdrops_keep_match(object, after);
    }
}

/// Fills and tiles with edges that belong together stay so where only backdrops change.
proof fn lemma_backdrops_keep_match(object: BuiltObjectView, after: BuiltObjectView)
    requires
        object.spec_fills_match_tiles(),
        after.fills == object.fills,
        after.tiles.len() == object.tiles.len(),
        forall|i: int|
            0 <= i < after.tiles.len() ==> (#[trigger] after.tiles[i]).alpha_tile_index
                == object.tiles[i].alpha_tile_index,
    ensures
        after.spec_fills_match_tiles(),
{
    assert forall|k: int| 0 <= k < after.fills.len() implies after.spec_has_tile_with_index(
        (#[trigger] after.fills[k]).alpha_tile_index,
    ) by {
        assert(object.spec_has_tile_with_index(object.fills[k].alpha_tile_index));
        let i = choose|i: int|
            0 <= i < object.tiles.len() && (#[trigger] object.tiles[i]).alpha_tile_index
                == object.fills[k].alpha_tile_index;
        assert(after.tiles[i].alpha_tile_index == object.tiles[i].alpha_tile_index);
    }
    assert forall|i: int|
        0 <= i < after.tiles.len() && (#[trigger] after.tiles[i]).alpha_tile_index
            != NO_ALPHA_TILE implies after.spec_has_fill_with_index(
        after.tiles[i].alpha_tile_index,
    ) by {
        assert(object.tiles[i].alpha_tile_index == after.tiles[i].alpha_tile_index);
        assert(object.spec_has_fill_with_index(object.tiles[i].alpha_tile_index));
        let k = choose|k: int|
            0 <= k < object.fills.len() && (#[trigger] object.fills[k]).alpha_tile_index
                == object.tiles[i].alpha_tile_index;
        assert(after.fills[k] == object.fills[k]);
    }
}

/// Computes the backdrop that stands for a winding number.
fn clamp_backdrop(winding: i32) -> (backdrop: i8)
    ensures
        backdrop == spec_clamp_backdrop(winding as int),
{
    if winding < -128 {
        -128
    } else if winding > 127 {
        127
    } else {
        winding as i8
    }
}

/// Adds two winding numbers, saturating at the ends of the range.
fn saturating_add(a: i32, b: i32) -> (sum: i32)
    ensures
        sum == spec_saturating_add(a as int, b as int),
{
    let wide: i64 = a as i64 + b as i64;
    if wide < i32::MIN as i64 {
        i32::MIN
    } else if wide > i32::MAX as i64 {
        i32::MAX
    } else {
        wide as i32
    }
}

/// Sets the backdrop of the tiles in row `tile_y` and in the columns from `from_x` up to
/// `to_x` to what stands for `winding`.
fn set_backdrops(object: &mut BuiltObject, tile_y: i32, from_x: i32, to_x: i32, winding: i32)
    requires
        old(object).wf(),
    ensures
        final(object)@ == spec_set_backdrops(
            old(object)@,
            tile_y as int,
            from_x as int,
            to_x as int,
            winding as int,
        ),
        final(object).wf(),
        final(object)@.spec_grows_from(old(object)@),
        old(object)@.spec_fills_match_tiles() ==> final(object)@.spec_fills_match_tiles(),
{
    let rect: RectI = object.tile_rect();
    let backdrop: i8 = clamp_backdrop(winding);
    let ghost before = object@;
    proof {
        lemma_set_backdrops_wf(before, tile_y as int, from_x as int, to_x as int, winding as int);
        lemma_set_backdrops_keeps_match(
            before,
            tile_y as int,
            from_x as int,
            to_x as int,
            winding as int,
        );
        assert forall|i: int| 0 <= i < before.tiles.len() implies rect.spec_contains_point(
            #[trigger] spec_index_to_coords(rect, i),
        ) && spec_coords_to_index_unchecked(rect, spec_index_to_coords(rect, i)) == i by {
            lemma_index_round_trip(rect, i);
        }
    }
    if tile_y < rect.min_y() || tile_y >= rect.max_y() {
        assert(before.tiles =~= spec_backdrop_tiles(
            rect,
            before.tiles,
            tile_y as int,
            from_x as int,
            to_x as int,
            backdrop,
        ));
        return ;
    }
    let start: i32 = if from_x >= rect.min_x() {
        from_x
    } else {
        rect.min_x()
    };
    let end: i32 = if to_x <= rect.max_x() {
        to_x
    } else {
        rect.max_x()
    };
    let mut tile_x: i32 = start;
    assert(before.tiles =~= spec_backdrop_tiles(
        rect,
        before.tiles,
        tile_y as int,
        start as int,
        start as int,
        backdrop,
    ));
    while tile_x < end
        invariant
            rect == before.tile_rect,
            before.wf(),
            rect.origin.y <= tile_y < rect.lower_right.y,
            rect.origin.x <= start <= tile_x,
            tile_x <= end || tile_x == start,
            end <= rect.lower_right.x,
            object.tiles.wf(),
            object@ == (BuiltObjectView {
                tiles: spec_backdrop_tiles(
                    rect,
                    before.tiles,
                    tile_y as int,
                    start as int,
                    tile_x as int,
                    backdrop,
                ),
                ..before
            }),
            forall|i: int|
                0 <= i < before.tiles.len() ==> rect.spec_contains_point(
                    #[trigger] spec_index_to_coords(rect, i),
                ) && spec_coords_to_index_unchecked(rect, spec_index_to_coords(rect, i)) == i,
        decreases end - tile_x,
    {
        let coords: Vector2I = Vector2I::new(tile_x, tile_y);
        let index: usize = object.tiles.coords_to_index_unchecked(coords);
        let tile: TileObjectPrimitive = object.tiles.data[index];
        object.tiles.data.set(
            index,
            TileObjectPrimitive { backdrop, alpha_tile_index: tile.alpha_tile_index },
        );
        proof {
            crate::tile_map::lemma_coords_round_trip(rect, coords);
            assert(object@.tiles =~= spec_backdrop_tiles(
                rect,
                before.tiles,
                tile_y as int,
                start as int,
                tile_x + 1,
                backdrop,
            ));
        }
        tile_x = tile_x + 1;
    }
    assert(object@.tiles =~= spec_backdrop_tiles(
        rect,
        before.tiles,
        tile_y as int,
        from_x as int,
        to_x as int,
        backdrop,
    ));
}

/// Scans the crossings at the top of tile row `tile_y` from left to right: sets the
/// backdrop of the tiles whose whole top edge has one winding number, and adds fills
/// along the parts of top edges whose winding number is not zero.
fn process_crossings(object: &mut BuiltObject, crossings: &Vec<Crossing>, tile_y: i32) -> (result:
    Result<(), BuildError>)
    requires
        old(object).wf(),
    ensures
        final(object).wf(),
        final(object)@.spec_grows_from(old(object)@),
        old(object)@.spec_fills_match_tiles() ==> final(object)@.spec_fills_match_tiles(),
        result.is_ok() <==> spec_scan_from(
            spec_scan_start(old(object)@),
            crossings@,
            0,
            tile_y,
        ).is_some(),
        result.is_ok() ==> Some(final(object)@) == spec_scan_from(
            spec_scan_start(old(object)@),
            crossings@,
            0,
            tile_y,
        ),
        result.is_err() ==> result == Err::<(), BuildError>(BuildError::AlphaTileOverflow),
{
    let mut tile_x: i32 = object.tile_rect().min_x();
    let mut subtile_x: i32 = 0;
    let mut winding: i32 = 0;
    let mut k: usize = 0;
    while k < crossings.len()
        invariant
            object.wf(),
            object@.spec_grows_from(old(object)@),
            old(object)@.spec_fills_match_tiles() ==> object@.spec_fills_match_tiles(),
            k <= crossings.len(),
            -0x8_0000 <= tile_x < 0x8_0000,
            0 <= subtile_x <= 4095,
            spec_scan_from(
                ScanState {
                    object: object@,
                    tile_x: tile_x as int,
                    subtile_x: subtile_x as int,
                    winding: winding as int,
                },
                crossings@,
                k as int,
                tile_y,
            ) == spec_scan_from(spec_scan_start(old(object)@), crossings@, 0, tile_y),
        decreases crossings.len() - k,
    {
        let crossing: Crossing = crossings[k];
        let segment_tile_x: i32 = tile_floor(crossing.x);
        if tile_x < segment_tile_x && subtile_x > 0 {
            let current_x: i32 = tile_x * 4096 + subtile_x;
            let tile_right_x: i32 = tile_x * 4096 + 4095;
            match object.add_active_fill(
                current_x,
                tile_right_x,
                winding,
                Vector2I::new(tile_x, tile_y),
            ) {
                Ok(()) => {},
                Err(error) => {
                    return Err(error);
                },
            }
            tile_x = tile_x + 1;
            subtile_x = 0;
        }
        if tile_x < segment_tile_x {
            set_backdrops(object, tile_y, tile_x, segment_tile_x, winding);
            tile_x = segment_tile_x;
            subtile_x = 0;
        }
        let segment_subtile_x: i64 = crossing.x as i64 - tile_x as i64 * 4096;
        if segment_subtile_x > subtile_x as i64 {
            let current_x: i32 = tile_x * 4096 + subtile_x;
            match object.add_active_fill(
                current_x,
                crossing.x,
                winding,
                Vector2I::new(tile_x, tile_y),
            ) {
                Ok(()) => {},
                Err(error) => {
                    return Err(error);
                },
            }
            subtile_x = segment_subtile_x as i32;
        }
        winding = saturating_add(winding, crossing.winding);
        k = k + 1;
    }
    Ok(())
}

/// Moves an endpoint of `segment` along the segment into tile row `tile_y`.
fn clip_to_row(segment: LineSegment, point: Vector2I, tile_y: i32) -> (clipped: Vector2I)
    requires
        segment.from == point || segment.to == point,
        spec_is_active(segment, tile_y as int),
        -0x8_0000 <= tile_y < 0x8_0000,
    ensures
        clipped == spec_clip_to_row(segment, point, tile_y as int),
{
    let top: i64 = tile_y as i64 * 4096;
    let bottom: i64 = top + 4096;
    if (point.y as i64) < top {
        Vector2I { x: segment.solve_x_for_y(top as i32), y: top as i32 }
    } else if (point.y as i64) > bottom {
        Vector2I { x: segment.solve_x_for_y(bottom as i32), y: bottom as i32 }
    } else {
        point
    }
}

/// Adds the fills of every edge that has a part within tile row `tile_y`.
fn generate_row_fills(object: &mut BuiltObject, segments: &Vec<LineSegment>, tile_y: i32) -> (result:
    Result<(), BuildError>)
    requires
        old(object).wf(),
        -0x8_0000 <= tile_y < 0x8_0000,
    ensures
        final(object).wf(),
        final(object)@.spec_grows_from(old(object)@),
        old(object)@.spec_fills_match_tiles() ==> final(object)@.spec_fills_match_tiles(),
        result.is_ok() <==> spec_row_fills_from(old(object)@, segments@, tile_y, 0).is_some(),
        result.is_ok() ==> Some(final(object)@) == spec_row_fills_from(
            old(object)@,
            segments@,
            tile_y,
            0,
        ),
        result.is_err() ==> result == Err::<(), BuildError>(BuildError::AlphaTileOverflow),
{
    let top: i64 = tile_y as i64 * 4096;
    let bottom: i64 = top + 4096;
    let mut k: usize = 0;
    while k < segments.len()
        invariant
            object.wf(),
            object@.spec_grows_from(old(object)@),
            old(object)@.spec_fills_match_tiles() ==> object@.spec_fills_match_tiles(),
            k <= segments.len(),
            -0x8_0000 <= tile_y < 0x8_0000,
            top == tile_y * 4096,
            bottom == top + 4096,
            spec_row_fills_from(object@, segments@, tile_y, k as int) == spec_row_fills_from(
                old(object)@,
                segments@,
                tile_y,
                0,
            ),
        decreases segments.len() - k,
    {
        let segment: LineSegment = segments[k];
        if (segment.min_y() as i64) < bottom && (segment.max_y() as i64) > top {
            let row_segment: LineSegment = LineSegment::new(
                clip_to_row(segment, segment.from, tile_y),
                clip_to_row(segment, segment.to, tile_y),
            );
            match object.generate_fill_primitives_for_line(row_segment, tile_y) {
                Ok(()) => {},
                Err(error) => {
                    return Err(error);
                },
            }
        }
        k = k + 1;
    }
    Ok(())
}

/// Tiles one row of the grid.
fn generate_strip(object: &mut BuiltObject, segments: &Vec<LineSegment>, tile_y: i32) -> (result:
    Result<(), BuildError>)
    requires
        old(object).wf(),
        -0x8_0000 <= tile_y < 0x8_0000,
    ensures
        final(object).wf(),
        final(object)@.spec_grows_from(old(object)@),
        old(object)@.spec_fills_match_tiles() ==> final(object)@.spec_fills_match_tiles(),
        result.is_ok() <==> spec_generate_strip(old(object)@, segments@, tile_y).is_some(),
        result.is_ok() ==> Some(final(object)@) == spec_generate_strip(
            old(object)@,
            segments@,
            tile_y,
        ),
        result.is_err() ==> result == Err::<(), BuildError>(BuildError::AlphaTileOverflow),
{
    let crossings: Vec<Crossing> = sorted_crossings(segments, tile_y);
    match process_crossings(object, &crossings, tile_y) {
        Ok(()) => {},
        Err(error) => {
            return Err(error);
        },
    }
    generate_row_fills(object, segments, tile_y)
}

/// Tiles every row of the grid, from the top down.
fn generate_strips(object: &mut BuiltObject, segments: &Vec<LineSegment>) -> (result: Result<
    (),
    BuildError,
>)
    requires
        old(object).wf(),
    ensures
        final(object).wf(),
        final(object)@.spec_grows_from(old(object)@),
        old(object)@.spec_fills_match_tiles() ==> final(object)@.spec_fills_match_tiles(),
        result.is_ok() <==> spec_strips_from(
            old(object)@,
            segments@,
            old(object)@.tile_rect.origin.y as int,
            old(object)@.tile_rect.lower_right.y as int,
        ).is_some(),
        result.is_ok() ==> Some(final(object)@) == spec_strips_from(
            old(object)@,
            segments@,
            old(object)@.tile_rect.origin.y as int,
            old(object)@.tile_rect.lower_right.y as int,
        ),
        result.is_err() ==> result == Err::<(), BuildError>(BuildError::AlphaTileOverflow),
{
    let rect: RectI = object.tile_rect();
    let mut strip_origin_y: i32 = rect.min_y();
    while strip_origin_y < rect.max_y()
        invariant
            object.wf(),
            object@.spec_grows_from(old(object)@),
            old(object)@.spec_fills_match_tiles() ==> object@.spec_fills_match_tiles(),
            rect == old(object)@.tile_rect,
            rect.origin.y <= strip_origin_y,
            spec_strips_from(
                object@,
                segments@,
                strip_origin_y as int,
                rect.lower_right.y as int,
            ) == spec_strips_from(
                old(object)@,
                segments@,
                rect.origin.y as int,
                rect.lower_right.y as int,
            ),
        decreases rect.lower_right.y - strip_origin_y,
    {
        match generate_strip(object, segments, strip_origin_y) {
            Ok(()) => {},
            Err(error) => {
                return Err(error);
            },
        }
        strip_origin_y = strip_origin_y + 1;
    }
    Ok(())
}

/// Whether a tile with the given backdrop and no edges lies inside the path.
pub open spec fn spec_is_covered(fill_rule: FillRule, backdrop: i8) -> bool {
    match fill_rule {
        FillRule::Winding => backdrop != 0,
        FillRule::EvenOdd => backdrop % 2 != 0,
    }
}

/// Whether a tile saw no winding and no edge: it has no fills and lies outside the path.
pub open spec fn spec_is_empty_tile(fill_rule: FillRule, tile: TileObjectPrimitive) -> bool {
    tile.spec_is_solid() && !spec_is_covered(fill_rule, tile.backdrop)
}

/// What a clip path lets through of one tile.
pub enum ClipCoverage {
    /// The whole tile: there is no clip path, or it covers the tile in full.
    Full,
    /// A part of the tile, masked by the clip path's alpha tile with this index.
    Masked { clip_alpha_tile_index: u16 },
    /// Nothing.
    Nothing,
}

/// What the clip path lets through of the tile at `coords`.
pub open spec fn spec_clip_coverage(clip: Option<ClipBuildResultView>, coords: Vector2I) -> ClipCoverage {
    match clip {
        None => ClipCoverage::Full,
        Some(clip) => match spec_coords_to_index(clip.tile_rect, coords) {
            None => ClipCoverage::Nothing,
            Some(index) => {
                let tile = clip.tiles[index];
                if !tile.spec_is_solid() {
                    ClipCoverage::Masked { clip_alpha_tile_index: tile.alpha_tile_index }
                } else if spec_is_covered(clip.fill_rule, tile.backdrop) {
                    ClipCoverage::Full
                } else {
                    ClipCoverage::Nothing
                }
            },
        },
    }
}

/// The paint of a path that has none: a clip path.
pub open spec fn spec_no_paint() -> PaintMetadata {
    PaintMetadata {
        tex_rect: RectI { origin: Vector2I { x: 0, y: 0 }, lower_right: Vector2I { x: 0, y: 0 } },
        is_opaque: false,
    }
}

/// What packing the tiles of a path depends on.
pub struct PackingInfo {
    /// Whether the path is a clip path.
    pub is_clip: bool,
    /// The index of the path within its list of the scene.
    pub path_id: u32,
    pub paint: PaintMetadata,
    pub fill_rule: FillRule,
    /// The build result of the clip path that masks the path, where there is one.
    pub clip: Option<ClipBuildResultView>,
}

/// The object after the tile with index `i` has been packed. An empty tile, and one of
/// which the clip path lets nothing through, adds nothing. A tile without edges that
/// lies inside an opaque draw path and is not masked becomes a solid tile. A tile
/// without edges of a clip path adds nothing: its record in the grid says all. Every
/// other tile becomes an alpha tile.
pub open spec fn spec_pack_tile(object: BuiltObjectView, info: PackingInfo, i: int) -> BuiltObjectView {
    let tile = object.tiles[i];
    let coords = spec_index_to_coords(object.tile_rect, i);
    let coverage = spec_clip_coverage(info.clip, coords);
    if spec_is_empty_tile(info.fill_rule, tile) || coverage == ClipCoverage::Nothing {
        object
    } else if tile.spec_is_solid() && info.is_clip {
        object
    } else if tile.spec_is_solid() && info.paint.is_opaque && coverage == ClipCoverage::Full {
        BuiltObjectView { solid_tiles: object.solid_tiles.push(coords), ..object }
    } else {
        BuiltObjectView {
            alpha_tiles: object.alpha_tiles.push(
                AlphaTile {
                    tile_coords: coords,
                    path_id: info.path_id,
                    backdrop: tile.backdrop,
                    alpha_tile_index: tile.alpha_tile_index,
                    clip_alpha_tile_index: match coverage {
                        ClipCoverage::Masked { clip_alpha_tile_index } => clip_alpha_tile_index,
                        _ => NO_ALPHA_TILE,
                    },
                    paint: info.paint,
                },
            ),
            ..object
        }
    }
}

/// The object after the tiles from index `i` on have been packed, in index order.
pub open spec fn spec_pack_from(object: BuiltObjectView, info: PackingInfo, i: int) -> BuiltObjectView
    decreases object.tiles.len() - i,
{
    if i < 0 || i >= object.tiles.len() {
        object
    } else {
        spec_pack_from(spec_pack_tile(object, info, i), info, i + 1)
    }
}

/// What tiling a path gives: the rows are tiled from the top down, then the tiles are
/// packed. `None` where the path needs more alpha tiles than one path can hold.
pub open spec fn spec_generate_tiles(
    object: BuiltObjectView,
    segments: Seq<LineSegment>,
    info: PackingInfo,
) -> Option<BuiltObjectView> {
    match spec_strips_from(
        object,
        segments,
        object.tile_rect.origin.y as int,
        object.tile_rect.lower_right.y as int,
    ) {
        None => None,
        Some(tiled) => Some(spec_pack_from(tiled, info, 0)),
    }
}

/// The bounds of a path within the view box.
pub open spec fn spec_path_bounds(segments: Seq<LineSegment>, view_box: RectI) -> RectI {
    spec_bounds(segments).spec_intersection(view_box)
}

/// What tiling the path with the given segments within the view box gives.
pub open spec fn spec_tile_path(segments: Seq<LineSegment>, view_box: RectI, info: PackingInfo) -> Option<
    BuiltObjectView,
> {
    spec_generate_tiles(
        BuiltObjectView::spec_new(spec_path_bounds(segments, view_box)),
        segments,
        info,
    )
}

/// Tells whether a tile with the given backdrop and no edges lies inside the path.
fn is_covered(fill_rule: FillRule, backdrop: i8) -> (covered: bool)
    ensures
        covered == spec_is_covered(fill_rule, backdrop),
{
    match fill_rule {
        FillRule::Winding => backdrop != 0,
        FillRule::EvenOdd => backdrop % 2 != 0,
    }
}

/// How a path is painted and clipped, and which path of the scene it is.
#[allow(inconsistent_fields)]
pub enum TilingPaintClipInfo<'a> {
    /// A clip path.
    Clip { path_id: ClipPathId },
    /// A draw path that nothing clips.
    Draw { path_id: DrawPathId, paint_metadata: &'a PaintMetadata },
    /// A draw path with its clip path.
    DrawClipped {
        path_id: DrawPathId,
        clip_path_id: ClipPathId,
        paint_metadata: &'a PaintMetadata,
        clip_build_result: &'a ClipBuildResult,
    },
}

/// The path that a tiler works on.
pub struct TilingPathInfo<'a> {
    pub outline: &'a Outline,
    pub fill_rule: FillRule,
    pub paint_clip_info: TilingPaintClipInfo<'a>,
}

impl<'a> TilingPathInfo<'a> {
    /// Clip paths belong to the first stage, draw paths to the second.
    pub open spec fn spec_render_stage(&self) -> RenderStage {
        match self.paint_clip_info {
            TilingPaintClipInfo::Clip { .. } => RenderStage::Stage0,
            _ => RenderStage::Stage1,
        }
    }

    /// What packing the tiles of the path depends on.
    pub open spec fn spec_packing_info(&self) -> PackingInfo {
        match self.paint_clip_info {
            TilingPaintClipInfo::Clip { path_id } => PackingInfo {
                is_clip: true,
                path_id: path_id.0,
                paint: spec_no_paint(),
                fill_rule: self.fill_rule,
                clip: None,
            },
            TilingPaintClipInfo::Draw { path_id, paint_metadata } => PackingInfo {
                is_clip: false,
                path_id: path_id.0,
                paint: *paint_metadata,
                fill_rule: self.fill_rule,
                clip: None,
            },
            TilingPaintClipInfo::DrawClipped {
                path_id,
                clip_path_id,
                paint_metadata,
                clip_build_result,
            } => PackingInfo {
                is_clip: false,
                path_id: path_id.0,
                paint: *paint_metadata,
                fill_rule: self.fill_rule,
                clip: Some(clip_build_result@),
            },
        }
    }

    /// Tells the stage that the fills of the path belong to.
    pub fn render_stage(&self) -> (stage: RenderStage)
        ensures
            stage == self.spec_render_stage(),
    {
        match self.paint_clip_info {
            TilingPaintClipInfo::Clip { .. } => RenderStage::Stage0,
            _ => RenderStage::Stage1,
        }
    }

    /// Finds what the clip path lets through of the tile at `coords`.
    fn clip_coverage(&self, coords: Vector2I) -> (coverage: ClipCoverage)
        requires
            match self.paint_clip_info {
                TilingPaintClipInfo::DrawClipped { clip_build_result, .. } => clip_build_result.tiles.wf(),
                _ => true,
            },
        ensures
            coverage == spec_clip_coverage(self.spec_packing_info().clip, coords),
    {
        match self.paint_clip_info {
            TilingPaintClipInfo::DrawClipped { clip_build_result, .. } => {
                match clip_build_result.tiles.coords_to_index(coords) {
                    None => ClipCoverage::Nothing,
                    Some(index) => {
                        let tile: TileObjectPrimitive = clip_build_result.tiles.data[index];
                        if !tile.is_solid() {
                            ClipCoverage::Masked { clip_alpha_tile_index: tile.alpha_tile_index }
                        } else if is_covered(clip_build_result.fill_rule, tile.backdrop) {
                            ClipCoverage::Full
                        } else {
                            ClipCoverage::Nothing
                        }
                    },
                }
            },
            _ => ClipCoverage::Full,
        }
    }
}

/// Whether every alpha tile and every solid tile of the object stands for a tile of the
/// grid that saw a winding or an edge.
pub open spec fn spec_no_empty_tiles(object: BuiltObjectView, fill_rule: FillRule) -> bool {
    &&& forall|k: int|
        0 <= k < object.alpha_tiles.len() ==> {
            let coords = (#[trigger] object.alpha_tiles[k]).tile_coords;
            &&& object.tile_rect.spec_contains_point(coords)
            &&& !spec_is_empty_tile(
                fill_rule,
                object.tiles[spec_coords_to_index_unchecked(object.tile_rect, coords)],
            )
        }
    &&& forall|k: int|
        0 <= k < object.solid_tiles.len() ==> {
            let coords = #[trigger] object.solid_tiles[k];
            &&& object.tile_rect.spec_contains_point(coords)
            &&& !spec_is_empty_tile(
                fill_rule,
                object.tiles[spec_coords_to_index_unchecked(object.tile_rect, coords)],
            )
        }
}

/// Packing adds no alpha tile and no solid tile for a tile that saw no winding and no
/// edge, and leaves the fills and the tile records as they are.
pub proof fn lemma_pack_no_empty_tiles(object: BuiltObjectView, info: PackingInfo, i: int)
    requires
        object.wf(),
        0 <= i,
        spec_no_empty_tiles(object, info.fill_rule),
        spec_alpha_tiles_indexed(object),
    ensures
        spec_pack_from(object, info, i).wf(),
        spec_no_empty_tiles(spec_pack_from(object, info, i), info.fill_rule),
        spec_alpha_tiles_indexed(spec_pack_from(object, info, i)),
        spec_pack_from(object, info, i).fills == object.fills,
        spec_pack_from(object, info, i).tiles == object.tiles,
        spec_pack_from(object, info, i).tile_rect == object.tile_rect,
        spec_pack_from(object, info, i).bounds == object.bounds,
        spec_pack_from(object, info, i).alpha_tile_count == object.alpha_tile_count,
    decreases object.tiles.len() - i,
{
    if i < object.tiles.len() {
        let packed = spec_pack_tile(object, info, i);
        lemma_index_round_trip(object.tile_rect, i);
        lemma_pack_no_empty_tiles(packed, info, i + 1);
    }
}

/// Whether the tiles with an index below `upto` have been packed in index order: every
/// alpha tile and every solid tile stands for a tile of the grid with such an index of
/// which the clip path lets something through, a solid tile for one of which it lets all
/// through, and the alpha tiles and the solid tiles each stand in the order of their
/// tiles.
pub open spec fn spec_packed_in_order(
    object: BuiltObjectView,
    clip: Option<ClipBuildResultView>,
    upto: int,
) -> bool {
    &&& forall|k: int|
        0 <= k < object.alpha_tiles.len() ==> {
            let coords = (#[trigger] object.alpha_tiles[k]).tile_coords;
            &&& object.tile_rect.spec_contains_point(coords)
            &&& spec_coords_to_index_unchecked(object.tile_rect, coords) < upto
            &&& spec_clip_coverage(clip, coords) != ClipCoverage::Nothing
            &&& spec_is_alpha_tile_of(
                object.alpha_tiles[k],
                object.tiles[spec_coords_to_index_unchecked(object.tile_rect, coords)],
            )
        }
    &&& forall|k: int|
        0 <= k < object.solid_tiles.len() ==> {
            let coords = #[trigger] object.solid_tiles[k];
            &&& object.tile_rect.spec_contains_point(coords)
            &&& spec_coords_to_index_unchecked(object.tile_rect, coords) < upto
            &&& spec_clip_coverage(clip, coords) == ClipCoverage::Full
            &&& object.tiles[spec_coords_to_index_unchecked(
                object.tile_rect,
                coords,
            )].spec_is_solid()
        }
    &&& forall|i: int|
        0 <= i < upto && i < object.tiles.len() && !(#[trigger] object.tiles[i]).spec_is_solid()
            && spec_clip_coverage(clip, spec_index_to_coords(object.tile_rect, i))
            != ClipCoverage::Nothing ==> spec_has_alpha_tile_at(
            object,
            spec_index_to_coords(object.tile_rect, i),
        )
    &&& forall|j: int, k: int|
        0 <= j < k < object.alpha_tiles.len() ==> spec_coords_to_index_unchecked(
            object.tile_rect,
            (#[trigger] object.alpha_tiles[j]).tile_coords,
        ) < spec_coords_to_index_unchecked(
            object.tile_rect,
            (#[trigger] object.alpha_tiles[k]).tile_coords,
        )
    &&& forall|j: int, k: int|
        0 <= j < k < object.solid_tiles.len() ==> spec_coords_to_index_unchecked(
            object.tile_rect,
            #[trigger] object.solid_tiles[j],
        ) < spec_coords_to_index_unchecked(object.tile_rect, #[trigger] object.solid_tiles[k])
}

/// Whether an alpha tile carries the backdrop and the alpha tile index of a tile record.
pub open spec fn spec_is_alpha_tile_of(alpha_tile: AlphaTile, tile: TileObjectPrimitive) -> bool {
    alpha_tile.backdrop == tile.backdrop && alpha_tile.alpha_tile_index == tile.alpha_tile_index
}

/// Whether the object has an alpha tile for the tile at `coords`.
pub open spec fn spec_has_alpha_tile_at(object: BuiltObjectView, coords: Vector2I) -> bool {
    exists|k: int|
        0 <= k < object.alpha_tiles.len() && (#[trigger] object.alpha_tiles[k]).tile_coords
            == coords
}

/// Whether each tile has been packed once at most, and none that the clip path hides.
/// The clip path lets something through of every tile that has an alpha tile, and all
/// of every tile that has a solid tile. An alpha tile carries the backdrop and the alpha
/// tile index of the record of its tile, and a tile with a solid tile has no edges.
/// Every tile with edges of which the clip path lets something through has an alpha
/// tile. No two alpha tiles and no two solid tiles stand for one tile, and no tile has
/// both an alpha tile and a solid tile.
pub open spec fn spec_packed_once(object: BuiltObjectView, clip: Option<ClipBuildResultView>) -> bool {
    &&& forall|k: int|
        0 <= k < object.alpha_tiles.len() ==> {
            let coords = (#[trigger] object.alpha_tiles[k]).tile_coords;
            &&& object.tile_rect.spec_contains_point(coords)
            &&& spec_clip_coverage(clip, coords) != ClipCoverage::Nothing
            &&& spec_is_alpha_tile_of(
                object.alpha_tiles[k],
                object.tiles[spec_coords_to_index_unchecked(object.tile_rect, coords)],
            )
        }
    &&& forall|k: int|
        0 <= k < object.solid_tiles.len() ==> {
            let coords = #[trigger] object.solid_tiles[k];
            &&& object.tile_rect.spec_contains_point(coords)
            &&& spec_clip_coverage(clip, coords) == ClipCoverage::Full
            &&& object.tiles[spec_coords_to_index_unchecked(
                object.tile_rect,
                coords,
            )].spec_is_solid()
        }
    &&& forall|i: int|
        0 <= i < object.tiles.len() && !(#[trigger] object.tiles[i]).spec_is_solid()
            && spec_clip_coverage(clip, spec_index_to_coords(object.tile_rect, i))
            != ClipCoverage::Nothing ==> spec_has_alpha_tile_at(
            object,
            spec_index_to_coords(object.tile_rect, i),
        )
    &&& forall|j: int, k: int|
        0 <= j < k < object.alpha_tiles.len() ==> (#[trigger] object.alpha_tiles[j]).tile_coords
            != (#[trigger] object.alpha_tiles[k]).tile_coords
    &&& forall|j: int, k: int|
        0 <= j < k < object.solid_tiles.len() ==> #[trigger] object.solid_tiles[j]
            != #[trigger] object.solid_tiles[k]
    &&& forall|j: int, k: int|
        0 <= j < object.alpha_tiles.len() && 0 <= k < object.solid_tiles.len() ==> (
        #[trigger] object.alpha_tiles[j]).tile_coords != #[trigger] object.solid_tiles[k]
}

/// Packing takes the tiles in index order and each tile once, and packs no tile of
/// which the clip path lets nothing through.
pub proof fn lemma_pack_in_order(object: BuiltObjectView, info: PackingInfo, i: int)
    requires
        object.tile_rect.wf(),
        object.tiles.len() == object.tile_rect.spec_area(),
        0 <= i <= object.tiles.len(),
        spec_packed_in_order(object, info.clip, i),
        forall|j: int, k: int|
            0 <= j < object.alpha_tiles.len() && 0 <= k < object.solid_tiles.len() ==> (
            #[trigger] object.alpha_tiles[j]).tile_coords != #[trigger] object.solid_tiles[k],
    ensures
        spec_packed_in_order(
            spec_pack_from(object, info, i),
            info.clip,
            object.tiles.len() as int,
        ),
        spec_packed_once(spec_pack_from(object, info, i), info.clip),
    decreases object.tiles.len() - i,
{
    if i < object.tiles.len() {
        let packed = spec_pack_tile(object, info, i);
        let coords = spec_index_to_coords(object.tile_rect, i);
        lemma_index_round_trip(object.tile_rect, i);
        assert forall|j: int|
            0 <= j < i + 1 && j < packed.tiles.len() && !(#[trigger] packed.tiles[j]).spec_is_solid()
                && spec_clip_coverage(info.clip, spec_index_to_coords(packed.tile_rect, j))
                != ClipCoverage::Nothing implies spec_has_alpha_tile_at(
            packed,
            spec_index_to_coords(packed.tile_rect, j),
        ) by {
            if j < i {
                assert(spec_has_alpha_tile_at(object, spec_index_to_coords(object.tile_rect, j)));
                let k = choose|k: int|
                    0 <= k < object.alpha_tiles.len() && (
                    #[trigger] object.alpha_tiles[k]).tile_coords == spec_index_to_coords(
                        object.tile_rect,
                        j,
                    );
                assert(packed.alpha_tiles[k] == object.alpha_tiles[k]);
            } else {
                let k = packed.alpha_tiles.len() - 1;
                assert(packed.alpha_tiles[k].tile_coords == coords);
            }
        }
        assert(spec_packed_in_order(packed, info.clip, i + 1));
        lemma_pack_in_order(packed, info, i + 1);
    } else {
        assert(spec_pack_from(object, info, i) == object);
    }
}

/// Whether an alpha tile of the object carries the alpha tile index `index`.
pub open spec fn spec_has_alpha_tile_with_index(object: BuiltObjectView, index: u16) -> bool {
    exists|k: int|
        0 <= k < object.alpha_tiles.len() && (#[trigger] object.alpha_tiles[k]).alpha_tile_index
            == index
}

/// The fills of a path that has been tiled belong to its alpha tiles. Every alpha tile
/// that has an alpha tile index has a fill that carries the index. Every fill carries
/// the alpha tile index of a tile with edges, and that tile has an alpha tile with the
/// index unless the clip path lets nothing through of it. No fill belongs to a tile
/// that has a solid tile.
pub proof fn lemma_fills_belong_to_alpha_tiles(
    object: BuiltObjectView,
    clip: Option<ClipBuildResultView>,
)
    requires
        object.wf(),
        object.spec_fills_match_tiles(),
        spec_packed_once(object, clip),
    ensures
        forall|k: int|
            0 <= k < object.alpha_tiles.len() && (#[trigger] object.alpha_tiles[k]).alpha_tile_index
                != NO_ALPHA_TILE ==> object.spec_has_fill_with_index(
                object.alpha_tiles[k].alpha_tile_index,
            ),
        forall|f: int, i: int|
            0 <= f < object.fills.len() && 0 <= i < object.tiles.len() && (
            #[trigger] object.tiles[i]).alpha_tile_index == (
            #[trigger] object.fills[f]).alpha_tile_index && spec_clip_coverage(
                clip,
                spec_index_to_coords(object.tile_rect, i),
            ) != ClipCoverage::Nothing ==> spec_has_alpha_tile_with_index(
                object,
                object.fills[f].alpha_tile_index,
            ),
        clip is None ==> forall|f: int|
            0 <= f < object.fills.len() ==> spec_has_alpha_tile_with_index(
                object,
                (#[trigger] object.fills[f]).alpha_tile_index,
            ),
        forall|f: int, k: int|
            0 <= f < object.fills.len() && 0 <= k < object.solid_tiles.len() ==> (
            #[trigger] object.fills[f]).alpha_tile_index != object.tiles[spec_coords_to_index_unchecked(
                object.tile_rect,
                #[trigger] object.solid_tiles[k],
            )].alpha_tile_index,
{
    let rect = object.tile_rect;
    assert forall|k: int|
        0 <= k < object.alpha_tiles.len() && (#[trigger] object.alpha_tiles[k]).alpha_tile_index
            != NO_ALPHA_TILE implies object.spec_has_fill_with_index(
        object.alpha_tiles[k].alpha_tile_index,
    ) by {
        let coords = object.alpha_tiles[k].tile_coords;
        crate::tile_map::lemma_index_in_range(rect, coords);
        let i = spec_coords_to_index_unchecked(rect, coords);
        assert(object.tiles[i].alpha_tile_index == object.alpha_tiles[k].alpha_tile_index);
    }
    assert forall|f: int, i: int|
        0 <= f < object.fills.len() && 0 <= i < object.tiles.len() && (
        #[trigger] object.tiles[i]).alpha_tile_index == (
        #[trigger] object.fills[f]).alpha_tile_index && spec_clip_coverage(
            clip,
            spec_index_to_coords(rect, i),
        ) != ClipCoverage::Nothing implies spec_has_alpha_tile_with_index(
        object,
        object.fills[f].alpha_tile_index,
    ) by {
        lemma_fill_has_alpha_tile(object, clip, f, i);
    }
    if clip is None {
        assert forall|f: int| 0 <= f < object.fills.len() implies spec_has_alpha_tile_with_index(
            object,
            (#[trigger] object.fills[f]).alpha_tile_index,
        ) by {
            assert(object.spec_has_tile_with_index(object.fills[f].alpha_tile_index));
            let i = choose|i: int|
                0 <= i < object.tiles.len() && (#[trigger] object.tiles[i]).alpha_tile_index
                    == object.fills[f].alpha_tile_index;
            lemma_fill_has_alpha_tile(object, clip, f, i);
        }
    }
    assert forall|f: int, k: int|
        0 <= f < object.fills.len() && 0 <= k < object.solid_tiles.len() implies (
    #[trigger] object.fills[f]).alpha_tile_index != object.tiles[spec_coords_to_index_unchecked(
        rect,
        #[trigger] object.solid_tiles[k],
    )].alpha_tile_index by {
        assert(object.fills[f].alpha_tile_index < object.alpha_tile_count);
    }
}

/// A fill whose tile the clip path does not hide has an alpha tile with its index.
proof fn lemma_fill_has_alpha_tile(
    object: BuiltObjectView,
    clip: Option<ClipBuildResultView>,
    f: int,
    i: int,
)
    requires
        object.wf(),
        spec_packed_once(object, clip),
        0 <= f < object.fills.len(),
        0 <= i < object.tiles.len(),
        object.tiles[i].alpha_tile_index == object.fills[f].alpha_tile_index,
        spec_clip_coverage(clip, spec_index_to_coords(object.tile_rect, i))
            != ClipCoverage::Nothing,
    ensures
        spec_has_alpha_tile_with_index(object, object.fills[f].alpha_tile_index),
{
    let rect = object.tile_rect;
    let coords = spec_index_to_coords(rect, i);
    lemma_index_round_trip(rect, i);
    assert(object.fills[f].alpha_tile_index < object.alpha_tile_count);
    assert(!object.tiles[i].spec_is_solid());
    assert(spec_has_alpha_tile_at(object, coords));
    let k = choose|k: int|
        0 <= k < object.alpha_tiles.len() && (#[trigger] object.alpha_tiles[k]).tile_coords
            == coords;
    assert(object.alpha_tiles[k].alpha_tile_index == object.tiles[i].alpha_tile_index);
}

/// Tiles one path: holds the path, the view box and what has been built so far.
pub struct Tiler<'a> {
    /// The visible region, in subpixels.
    pub view_box: RectI,
    pub path_info: TilingPathInfo<'a>,
    /// The segments of the outline of the path.
    pub segments: Vec<LineSegment>,
    pub built_object: BuiltObject,
}

/// The part of a rectangle within a view box covers no more tiles than the view box.
pub proof fn lemma_intersection_tile_area(bounds: RectI, view_box: RectI)
    requires
        bounds.wf(),
        view_box.wf(),
    ensures
        bounds.spec_intersection(view_box).wf(),
        0 <= bounds.spec_intersection(view_box).spec_round_out_to_tile_bounds().spec_area()
            <= view_box.spec_round_out_to_tile_bounds().spec_area(),
{
    let part = bounds.spec_intersection(view_box).spec_round_out_to_tile_bounds();
    let whole = view_box.spec_round_out_to_tile_bounds();
    let pw = part.spec_width();
    let ph = part.spec_height();
    let ww = whole.spec_width();
    let wh = whole.spec_height();
    assert(0 <= pw * ph <= ww * wh) by (nonlinear_arith)
        requires
            0 <= pw,
            0 <= ph,
            0 <= ww,
            0 <= wh,
            (pw <= ww && ph <= wh) || pw == 0 || ph == 0,
    ;
}

impl<'a> Tiler<'a> {
    /// The tiler can work: its object is sound, and so is the grid of its clip path.
    pub open spec fn wf(&self) -> bool {
        &&& self.built_object.wf()
        &&& match self.path_info.paint_clip_info {
            TilingPaintClipInfo::DrawClipped { clip_build_result, .. } => clip_build_result.tiles.wf(),
            _ => true,
        }
    }

    /// Makes the tiler for a path, with an empty object over the part of the path's
    /// bounds that lies within the view box.
    pub fn new(view_box: RectI, path_info: TilingPathInfo<'a>) -> (tiler: Tiler<'a>)
        requires
            view_box.wf(),
            view_box.spec_round_out_to_tile_bounds().spec_area() <= u32::MAX,
            match path_info.paint_clip_info {
                TilingPaintClipInfo::DrawClipped { clip_build_result, .. } => clip_build_result.tiles.wf(),
                _ => true,
            },
        ensures
            tiler.wf(),
            tiler.view_box == view_box,
            tiler.path_info == path_info,
            tiler.segments@ == path_info.outline.spec_segments(),
            tiler.built_object@ == BuiltObjectView::spec_new(
                spec_path_bounds(path_info.outline.spec_segments(), view_box),
            ),
            tiler.built_object@.spec_fills_match_tiles(),
    {
        let segments: Vec<LineSegment> = path_info.outline.segments();
        let outline_bounds: RectI = bounds_of_segments(&segments);
        proof {
            lemma_intersection_tile_area(outline_bounds, view_box);
        }
        let bounds: RectI = outline_bounds.intersection(view_box);
        let built_object: BuiltObject = BuiltObject::new(bounds);
        Tiler { view_box, path_info, segments, built_object }
    }

    /// Tiles the path: every row of the grid from the top down, then the packing of the
    /// tiles into alpha tiles and solid tiles.
    pub fn generate_tiles(&mut self) -> (result: Result<(), BuildError>)
        requires
            old(self).wf(),
            old(self).built_object@.alpha_tiles.len() == 0,
            old(self).built_object@.solid_tiles.len() == 0,
        ensures
            final(self).wf(),
            final(self).path_info == old(self).path_info,
            final(self).segments == old(self).segments,
            final(self).view_box == old(self).view_box,
            result.is_ok() <==> spec_generate_tiles(
                old(self).built_object@,
                old(self).segments@,
                old(self).path_info.spec_packing_info(),
            ).is_some(),
            result.is_ok() ==> Some(final(self).built_object@) == spec_generate_tiles(
                old(self).built_object@,
                old(self).segments@,
                old(self).path_info.spec_packing_info(),
            ),
            result.is_ok() ==> spec_no_empty_tiles(
                final(self).built_object@,
                old(self).path_info.fill_rule,
            ),
            result.is_ok() ==> spec_alpha_tiles_indexed(final(self).built_object@),
            old(self).built_object@.spec_fills_match_tiles() ==> final(self).built_object@.spec_fills_match_tiles(),
            result.is_ok() ==> spec_packed_once(
                final(self).built_object@,
                old(self).path_info.spec_packing_info().clip,
            ),
            result.is_err() ==> result == Err::<(), BuildError>(BuildError::AlphaTileOverflow)
                && final(self).built_object@.spec_grows_from(old(self).built_object@),
    {
        match generate_strips(&mut self.built_object, &self.segments) {
            Ok(()) => {},
            Err(error) => {
                return Err(error);
            },
        }
        proof {
            lemma_pack_no_empty_tiles(self.built_object@, self.path_info.spec_packing_info(), 0);
            lemma_pack_in_order(self.built_object@, self.path_info.spec_packing_info(), 0);
        }
        self.pack_and_cull();
        Ok(())
    }

    /// Packs the tiles of the grid, in index order: each tile that is not empty and that
    /// the clip path lets through becomes a solid tile or an alpha tile.
    pub fn pack_and_cull(&mut self)
        requires
            old(self).wf(),
        ensures
            final(self).path_info == old(self).path_info,
            final(self).segments == old(self).segments,
            final(self).view_box == old(self).view_box,
            final(self).built_object@ == spec_pack_from(
                old(self).built_object@,
                old(self).path_info.spec_packing_info(),
                0,
            ),
    {
        let ghost info = self.path_info.spec_packing_info();
        let (is_clip, path_id, paint): (bool, u32, PaintMetadata) = match self.path_info.paint_clip_info {
            TilingPaintClipInfo::Clip { path_id } => (
                true,
                path_id.0,
                PaintMetadata {
                    tex_rect: RectI {
                        origin: Vector2I { x: 0, y: 0 },
                        lower_right: Vector2I { x: 0, y: 0 },
                    },
                    is_opaque: false,
                },
            ),
            TilingPaintClipInfo::Draw { path_id, paint_metadata } => (
                false,
                path_id.0,
                *paint_metadata,
            ),
            TilingPaintClipInfo::DrawClipped { path_id, paint_metadata, .. } => (
                false,
                path_id.0,
                *paint_metadata,
            ),
        };
        let fill_rule: FillRule = self.path_info.fill_rule;
        let tile_count: usize = self.built_object.tiles.data.len();
        let mut tile_index: usize = 0;
        while tile_index < tile_count
            invariant
                self.wf(),
                self.path_info == old(self).path_info,
                self.segments == old(self).segments,
                self.view_box == old(self).view_box,
                info == self.path_info.spec_packing_info(),
                info.is_clip == is_clip,
                info.path_id == path_id,
                info.paint == paint,
                info.fill_rule == fill_rule,
                tile_count == self.built_object@.tiles.len(),
                tile_index <= tile_count,
                spec_pack_from(self.built_object@, info, tile_index as int) == spec_pack_from(
                    old(self).built_object@,
                    info,
                    0,
                ),
            decreases tile_count - tile_index,
        {
            let tile: TileObjectPrimitive = self.built_object.tiles.data[tile_index];
            let tile_coords: Vector2I = self.built_object.tiles.index_to_coords(tile_index);
            let coverage: ClipCoverage = self.path_info.clip_coverage(tile_coords);
            let solid: bool = tile.is_solid();
            let empty: bool = solid && !is_covered(fill_rule, tile.backdrop);
            let (lets_nothing, lets_all, clip_alpha_tile_index): (bool, bool, u16) = match coverage {
                ClipCoverage::Nothing => (true, false, NO_ALPHA_TILE),
                ClipCoverage::Full => (false, true, NO_ALPHA_TILE),
                ClipCoverage::Masked { clip_alpha_tile_index } => (
                    false,
                    false,
                    clip_alpha_tile_index,
                ),
            };
            if empty || lets_nothing {
            } else if solid && is_clip {
            } else if solid && paint.is_opaque && lets_all {
                self.built_object.solid_tiles.push(tile_coords);
            } else {
                self.built_object.alpha_tiles.push(
                    AlphaTile {
                        tile_coords,
                        path_id,
                        backdrop: tile.backdrop,
                        alpha_tile_index: tile.alpha_tile_index,
                        clip_alpha_tile_index,
                        paint,
                    },
                );
            }
            tile_index = tile_index + 1;
        }
    }
}

} // verus!
