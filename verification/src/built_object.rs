//! The per-path accumulator of fills, alpha tiles and tile records.

use vstd::prelude::*;
use crate::error::BuildError;
use crate::geometry::{
    spec_clamp,
    spec_tile_ceil,
    spec_tile_floor,
    tile_ceil,
    tile_floor,
    LineSegment,
    RectI,
    Vector2I,
};
use crate::gpu_data::{
    spec_pack_fill,
    AlphaTile,
    FillBatchPrimitive,
    TileObjectPrimitive,
    NO_ALPHA_TILE,
};
use crate::tile_map::{
    lemma_index_in_range,
    lemma_index_injective,
    spec_coords_to_index,
    spec_coords_to_index_unchecked,
    spec_index_to_coords,
    DenseTileMap,
};

verus! {

/// The most alpha tiles that one path, and one stage, can hold.
pub const MAX_ALPHA_TILES: u16 = 0xFFFF;

/// What tiling one path has produced so far.
pub struct BuiltObject {
    /// The bounds of the path, in subpixels.
    pub bounds: RectI,
    pub fills: Vec<FillBatchPrimitive>,
    pub tiles: DenseTileMap<TileObjectPrimitive>,
    pub alpha_tiles: Vec<AlphaTile>,
    /// Coordinates of the tiles that the path covers in full and hides.
    pub solid_tiles: Vec<Vector2I>,
    /// How many alpha tile indices the path has allocated. Its indices count from zero
    /// until the scene builder moves them into the range of the path's stage.
    pub alpha_tile_count: u16,
}

/// A built object as a mathematical value.
pub struct BuiltObjectView {
    pub bounds: RectI,
    pub tile_rect: RectI,
    pub fills: Seq<FillBatchPrimitive>,
    pub tiles: Seq<TileObjectPrimitive>,
    pub alpha_tiles: Seq<AlphaTile>,
    pub solid_tiles: Seq<Vector2I>,
    pub alpha_tile_count: int,
}

impl View for BuiltObject {
    type V = BuiltObjectView;

    open spec fn view(&self) -> BuiltObjectView {
        BuiltObjectView {
            bounds: self.bounds,
            tile_rect: self.tiles.rect,
            fills: self.fills@,
            tiles: self.tiles.data@,
            alpha_tiles: self.alpha_tiles@,
            solid_tiles: self.solid_tiles@,
            alpha_tile_count: self.alpha_tile_count as int,
        }
    }
}

/// Tile coordinates that a rectangle rounded out from subpixels can hold.
pub open spec fn spec_in_tile_range(rect: RectI) -> bool {
    &&& -0x8_0000 <= rect.origin.x < 0x8_0000
    &&& -0x8_0000 <= rect.origin.y < 0x8_0000
    &&& rect.lower_right.x <= 0x8_0000
    &&& rect.lower_right.y <= 0x8_0000
}

/// Whether every alpha tile of the object has the alpha tile index of a tile record of
/// the object, or none.
pub open spec fn spec_alpha_tiles_indexed(object: BuiltObjectView) -> bool {
    forall|k: int|
        0 <= k < object.alpha_tiles.len() ==> {
            ||| (#[trigger] object.alpha_tiles[k]).alpha_tile_index == NO_ALPHA_TILE
            ||| object.alpha_tiles[k].alpha_tile_index < object.alpha_tile_count
        }
}

impl BuiltObjectView {
    /// Whether the object has the grid, the bounds, the alpha tiles and the solid tiles
    /// of `before`: whether nothing but fills and tile records sets the two apart.
    pub open spec fn spec_extends(&self, before: BuiltObjectView) -> bool {
        &&& self.tile_rect == before.tile_rect
        &&& self.bounds == before.bounds
        &&& self.alpha_tiles == before.alpha_tiles
        &&& self.solid_tiles == before.solid_tiles
    }

    /// Whether the object is `before` with more added to it: the fills of `before` stand
    /// first among its fills, every tile that has an alpha tile index in `before` has
    /// kept it, and nothing but fills, tile records and the count of alpha tiles sets the
    /// two apart.
    pub open spec fn spec_grows_from(&self, before: BuiltObjectView) -> bool {
        &&& self.spec_extends(before)
        &&& self.tiles.len() == before.tiles.len()
        &&& before.alpha_tile_count <= self.alpha_tile_count
        &&& before.fills.len() <= self.fills.len()
        &&& forall|k: int|
            0 <= k < before.fills.len() ==> (#[trigger] self.fills[k]) == before.fills[k]
        &&& forall|i: int|
            0 <= i < before.tiles.len() && before.tiles[i].alpha_tile_index != NO_ALPHA_TILE
                ==> (#[trigger] self.tiles[i]).alpha_tile_index
                == before.tiles[i].alpha_tile_index
    }

    /// Whether a tile record of the object has the alpha tile index `index`.
    pub open spec fn spec_has_tile_with_index(&self, index: u16) -> bool {
        exists|i: int|
            0 <= i < self.tiles.len() && (#[trigger] self.tiles[i]).alpha_tile_index == index
    }

    /// Whether a fill of the object carries the alpha tile index `index`.
    pub open spec fn spec_has_fill_with_index(&self, index: u16) -> bool {
        exists|k: int|
            0 <= k < self.fills.len() && (#[trigger] self.fills[k]).alpha_tile_index == index
    }

    /// Whether the fills and the tiles with edges belong together: every fill carries
    /// the alpha tile index of a tile of the grid, and the alpha tile index of every
    /// tile of the grid that has one is carried by a fill.
    pub open spec fn spec_fills_match_tiles(&self) -> bool {
        &&& forall|k: int|
            0 <= k < self.fills.len() ==> self.spec_has_tile_with_index(
                (#[trigger] self.fills[k]).alpha_tile_index,
            )
        &&& forall|i: int|
            0 <= i < self.tiles.len() && (#[trigger] self.tiles[i]).alpha_tile_index
                != NO_ALPHA_TILE ==> self.spec_has_fill_with_index(self.tiles[i].alpha_tile_index)
    }

    /// The object before anything has been added to it.
    pub open spec fn spec_new(bounds: RectI) -> BuiltObjectView {
        let tile_rect = bounds.spec_round_out_to_tile_bounds();
        BuiltObjectView {
            bounds,
            tile_rect,
            fills: Seq::empty(),
            tiles: Seq::new(
                tile_rect.spec_area() as nat,
                |i: int| TileObjectPrimitive { backdrop: 0, alpha_tile_index: NO_ALPHA_TILE },
            ),
            alpha_tiles: Seq::empty(),
            solid_tiles: Seq::empty(),
            alpha_tile_count: 0,
        }
    }

    /// The invariant of a built object: one record per tile; every allocated alpha tile
    /// index lies below the count and belongs to one tile only; every fill points at an
    /// allocated index and its endpoints differ in their horizontal position.
    pub open spec fn wf(&self) -> bool {
        &&& self.tile_rect.wf()
        &&& spec_in_tile_range(self.tile_rect)
        &&& self.tiles.len() == self.tile_rect.spec_area()
        &&& self.tile_rect.spec_area() <= u32::MAX
        &&& 0 <= self.alpha_tile_count <= MAX_ALPHA_TILES
        &&& forall|i: int|
            0 <= i < self.tiles.len() ==> {
                ||| (#[trigger] self.tiles[i]).alpha_tile_index == NO_ALPHA_TILE
                ||| self.tiles[i].alpha_tile_index < self.alpha_tile_count
            }
        &&& forall|i: int, j: int|
            0 <= i < self.tiles.len() && 0 <= j < self.tiles.len() && i != j && (
            #[trigger] self.tiles[i]).alpha_tile_index != NO_ALPHA_TILE ==> self.tiles[i].alpha_tile_index
                != (#[trigger] self.tiles[j]).alpha_tile_index
        &&& forall|k: int|
            0 <= k < self.fills.len() ==> {
                &&& (#[trigger] self.fills[k]).alpha_tile_index < self.alpha_tile_count
                &&& self.fills[k].spec_is_valid()
            }
    }

    /// The alpha tile index of the tile at `coords` after it has been asked for, with the
    /// object as it then is; `None` where a new index is needed and none is left.
    pub open spec fn spec_get_or_allocate(&self, coords: Vector2I) -> Option<
        (BuiltObjectView, u16),
    >
        recommends
            self.tile_rect.spec_contains_point(coords),
    {
        let i = spec_coords_to_index_unchecked(self.tile_rect, coords);
        let existing = self.tiles[i].alpha_tile_index;
        if existing != NO_ALPHA_TILE {
            Some((*self, existing))
        } else if self.alpha_tile_count >= MAX_ALPHA_TILES {
            None
        } else {
            Some(
                (
                    BuiltObjectView {
                        tiles: self.tiles.update(
                            i,
                            TileObjectPrimitive {
                                backdrop: self.tiles[i].backdrop,
                                alpha_tile_index: self.alpha_tile_count as u16,
                            },
                        ),
                        alpha_tile_count: self.alpha_tile_count + 1,
                        ..*self
                    },
                    self.alpha_tile_count as u16,
                ),
            )
        }
    }

    /// The object after the fill for `segment` in the tile at `coords` has been added:
    /// unchanged where the tile lies outside the grid or the fill is degenerate; `None`
    /// where the tile needs an alpha tile index and none is left.
    pub open spec fn spec_add_fill(&self, segment: LineSegment, coords: Vector2I) -> Option<
        BuiltObjectView,
    > {
        if !self.tile_rect.spec_contains_point(coords) {
            Some(*self)
        } else {
            let from_x = spec_to_tile_subpixel(segment.from.x as int, coords.x as int);
            let from_y = spec_to_tile_subpixel(segment.from.y as int, coords.y as int);
            let to_x = spec_to_tile_subpixel(segment.to.x as int, coords.x as int);
            let to_y = spec_to_tile_subpixel(segment.to.y as int, coords.y as int);
            if from_x == to_x {
                Some(*self)
            } else {
                match self.spec_get_or_allocate(coords) {
                    None => None,
                    Some((object, index)) => Some(
                        BuiltObjectView {
                            fills: object.fills.push(
                                spec_pack_fill(from_x, from_y, to_x, to_y, index),
                            ),
                            ..object
                        },
                    ),
                }
            }
        }
    }

    /// The object after `|winding|` fills along the top edge of the tile at `coords`,
    /// between the horizontal positions `left` and `right`, have been added. The fills run
    /// from left to right where the winding is negative, from right to left otherwise.
    pub open spec fn spec_add_active_fill(
        &self,
        left: i32,
        right: i32,
        winding: int,
        coords: Vector2I,
    ) -> Option<BuiltObjectView>
        decreases spec_abs(winding),
    {
        if winding == 0 || !self.tile_rect.spec_contains_point(coords) {
            Some(*self)
        } else {
            match self.spec_add_fill(spec_active_segment(left, right, winding, coords), coords) {
                None => None,
                Some(object) => object.spec_add_active_fill(
                    left,
                    right,
                    if winding < 0 {
                        winding + 1
                    } else {
                        winding - 1
                    },
                    coords,
                ),
            }
        }
    }

    /// The object after the fills of `segment` in the tile columns from `tile_x` up to
    /// `tile_x_end`, in tile row `tile_y`, have been added.
    pub open spec fn spec_generate_fills_from(
        &self,
        segment: LineSegment,
        tile_y: i32,
        tile_x: int,
        tile_x_end: int,
    ) -> Option<BuiltObjectView>
        decreases tile_x_end - tile_x,
    {
        if tile_x >= tile_x_end {
            Some(*self)
        } else {
            match self.spec_add_fill(
                spec_subsegment(segment, tile_x),
                Vector2I { x: tile_x as i32, y: tile_y },
            ) {
                None => None,
                Some(object) => object.spec_generate_fills_from(
                    segment,
                    tile_y,
                    tile_x + 1,
                    tile_x_end,
                ),
            }
        }
    }

    /// The object after the fills of `segment`, which lies within tile row `tile_y`, have
    /// been added: one fill for each tile column that the segment touches.
    pub open spec fn spec_generate_fills(&self, segment: LineSegment, tile_y: i32) -> Option<
        BuiltObjectView,
    > {
        self.spec_generate_fills_from(
            segment,
            tile_y,
            spec_tile_floor(segment.spec_min_x()),
            spec_tile_ceil(segment.spec_max_x()),
        )
    }
}

/// A tile gets its alpha tile index once: asking again, whatever other tile has been asked
/// for in between, gives the same index, and two tiles never share one.
pub proof fn lemma_alpha_tile_assigned_once(object: BuiltObjectView, first: Vector2I, second: Vector2I)
    requires
        object.wf(),
        object.tile_rect.spec_contains_point(first),
        object.tile_rect.spec_contains_point(second),
        object.spec_get_or_allocate(first) is Some,
        object.spec_get_or_allocate(first)->Some_0.0.spec_get_or_allocate(second) is Some,
    ensures
        ({
            let (after_first, first_index) = object.spec_get_or_allocate(first)->Some_0;
            let (after_second, second_index) = after_first.spec_get_or_allocate(second)->Some_0;
            &&& after_first.wf()
            &&& after_second.wf()
            &&& first_index != NO_ALPHA_TILE
            &&& second_index != NO_ALPHA_TILE
            &&& after_second.spec_get_or_allocate(first) == Some((after_second, first_index))
            &&& (first == second <==> first_index == second_index)
        }),
{
    let (after_first, first_index) = object.spec_get_or_allocate(first)->Some_0;
    let (after_second, second_index) = after_first.spec_get_or_allocate(second)->Some_0;
    lemma_index_in_range(object.tile_rect, first);
    lemma_index_in_range(object.tile_rect, second);
    let i = spec_coords_to_index_unchecked(object.tile_rect, first);
    let j = spec_coords_to_index_unchecked(object.tile_rect, second);
    if first != second && i == j {
        lemma_index_injective(object.tile_rect, first, second);
    }
    lemma_get_or_allocate_wf(object, first);
    lemma_get_or_allocate_wf(after_first, second);
    assert(after_first.tiles[i].alpha_tile_index == first_index);
    assert(after_second.tiles[j].alpha_tile_index == second_index);
    assert(after_second.tiles[i].alpha_tile_index == first_index);
}

/// Adding a fill keeps the fills and the tiles with edges together: the fill carries the
/// alpha tile index of its tile, and a tile gets an alpha tile index only for a fill.
pub proof fn lemma_add_fill_keeps_match(
    object: BuiltObjectView,
    segment: LineSegment,
    coords: Vector2I,
)
    requires
        object.wf(),
        object.spec_fills_match_tiles(),
        object.spec_add_fill(segment, coords) is Some,
    ensures
        object.spec_add_fill(segment, coords)->Some_0.spec_fills_match_tiles(),
{
    let after = object.spec_add_fill(segment, coords)->Some_0;
    if after != object {
        lemma_index_in_range(object.tile_rect, coords);
        let at = spec_coords_to_index_unchecked(object.tile_rect, coords);
        let last = after.fills.len() - 1;
        assert(after.fills[last].alpha_tile_index == after.tiles[at].alpha_tile_index);
        assert forall|k: int| 0 <= k < after.fills.len() implies after.spec_has_tile_with_index(
            (#[trigger] after.fills[k]).alpha_tile_index,
        ) by {
            if k < last {
                assert(after.fills[k] == object.fills[k]);
                assert(object.spec_has_tile_with_index(object.fills[k].alpha_tile_index));
                let i = choose|i: int|
                    0 <= i < object.tiles.len() && (#[trigger] object.tiles[i]).alpha_tile_index
                        == object.fills[k].alpha_tile_index;
                assert(object.fills[k].alpha_tile_index < object.alpha_tile_count);
                assert(after.tiles[i].alpha_tile_index == object.tiles[i].alpha_tile_index);
            } else {
                assert(after.tiles[at].alpha_tile_index == after.fills[k].alpha_tile_index);
            }
        }
        assert forall|i: int|
            0 <= i < after.tiles.len() && (#[trigger] after.tiles[i]).alpha_tile_index
                != NO_ALPHA_TILE implies after.spec_has_fill_with_index(
            after.tiles[i].alpha_tile_index,
        ) by {
            if i == at {
                assert(after.fills[last].alpha_tile_index == after.tiles[i].alpha_tile_index);
            } else {
                assert(after.tiles[i] == object.tiles[i]);
                assert(object.spec_has_fill_with_index(object.tiles[i].alpha_tile_index));
                let k = choose|k: int|
                    0 <= k < object.fills.len() && (#[trigger] object.fills[k]).alpha_tile_index
                        == object.tiles[i].alpha_tile_index;
                assert(after.fills[k] == object.fills[k]);
            }
        }
    }
}

/// A fill that has been added can be added again: its tile has an alpha tile index by
/// then, so none is asked for.
pub proof fn lemma_add_fill_again(object: BuiltObjectView, segment: LineSegment, coords: Vector2I)
    requires
        object.wf(),
        object.spec_add_fill(segment, coords) is Some,
    ensures
        object.spec_add_fill(segment, coords)->Some_0.spec_add_fill(segment, coords) is Some,
{
    if object.tile_rect.spec_contains_point(coords) {
        lemma_index_in_range(object.tile_rect, coords);
    }
}

/// Giving a tile its alpha tile index keeps the invariant of the object.
pub proof fn lemma_get_or_allocate_wf(object: BuiltObjectView, coords: Vector2I)
    requires
        object.wf(),
        object.tile_rect.spec_contains_point(coords),
        object.spec_get_or_allocate(coords) is Some,
    ensures
        object.spec_get_or_allocate(coords)->Some_0.0.wf(),
        object.spec_get_or_allocate(coords)->Some_0.1 != NO_ALPHA_TILE,
        object.spec_get_or_allocate(coords)->Some_0.1 < object.spec_get_or_allocate(
            coords,
        )->Some_0.0.alpha_tile_count,
{
    lemma_index_in_range(object.tile_rect, coords);
    let i = spec_coords_to_index_unchecked(object.tile_rect, coords);
    let (after, index) = object.spec_get_or_allocate(coords)->Some_0;
    if object.tiles[i].alpha_tile_index == NO_ALPHA_TILE {
        assert forall|a: int, b: int|
            0 <= a < after.tiles.len() && 0 <= b < after.tiles.len() && a != b && (
            #[trigger] after.tiles[a]).alpha_tile_index != NO_ALPHA_TILE implies after.tiles[a].alpha_tile_index
            != (#[trigger] after.tiles[b]).alpha_tile_index by {
            if a != i && b != i {
                assert(object.tiles[a].alpha_tile_index != object.tiles[b].alpha_tile_index);
            } else if a == i {
                assert(object.tiles[b].alpha_tile_index == NO_ALPHA_TILE
                    || object.tiles[b].alpha_tile_index < object.alpha_tile_count);
            } else {
                assert(object.tiles[a].alpha_tile_index == NO_ALPHA_TILE
                    || object.tiles[a].alpha_tile_index < object.alpha_tile_count);
            }
        }
        assert forall|a: int| 0 <= a < after.tiles.len() implies {
            ||| (#[trigger] after.tiles[a]).alpha_tile_index == NO_ALPHA_TILE
            ||| after.tiles[a].alpha_tile_index < after.alpha_tile_count
        } by {
            if a != i {
                assert(object.tiles[a].alpha_tile_index == NO_ALPHA_TILE
                    || object.tiles[a].alpha_tile_index < object.alpha_tile_count);
            }
        }
        assert forall|k: int| 0 <= k < after.fills.len() implies {
            &&& (#[trigger] after.fills[k]).alpha_tile_index < after.alpha_tile_count
            &&& after.fills[k].spec_is_valid()
        } by {
            assert(object.fills[k].alpha_tile_index < object.alpha_tile_count);
        }
    } else {
        assert(object.tiles[i].alpha_tile_index < object.alpha_tile_count);
    }
}

/// The distance of a number from zero.
pub open spec fn spec_abs(v: int) -> int {
    if v < 0 {
        -v
    } else {
        v
    }
}

/// The position of a subpixel coordinate within tile column (or row) `tile`, clamped to
/// the subpixels that the tile holds.
pub open spec fn spec_to_tile_subpixel(position: int, tile: int) -> u16 {
    spec_clamp(position - tile * 4096, 0, 4095) as u16
}

/// The segment along the top edge of the tile at `coords` that an active fill adds.
pub open spec fn spec_active_segment(left: i32, right: i32, winding: int, coords: Vector2I) ->
    LineSegment {
    let y = (coords.y * 4096) as i32;
    if winding < 0 {
        LineSegment { from: Vector2I { x: left, y }, to: Vector2I { x: right, y } }
    } else {
        LineSegment { from: Vector2I { x: right, y }, to: Vector2I { x: left, y } }
    }
}

/// An endpoint of `segment` moved along the segment into tile column `tile_x`.
pub open spec fn spec_clip_to_column(segment: LineSegment, point: Vector2I, tile_x: int) ->
    Vector2I {
    if point.x < tile_x * 4096 {
        Vector2I {
            x: (tile_x * 4096) as i32,
            y: segment.spec_solve_y_for_x(tile_x * 4096) as i32,
        }
    } else if point.x > (tile_x + 1) * 4096 {
        Vector2I {
            x: ((tile_x + 1) * 4096) as i32,
            y: segment.spec_solve_y_for_x((tile_x + 1) * 4096) as i32,
        }
    } else {
        point
    }
}

/// The part of `segment` that lies within tile column `tile_x`.
pub open spec fn spec_subsegment(segment: LineSegment, tile_x: int) -> LineSegment {
    LineSegment {
        from: spec_clip_to_column(segment, segment.from, tile_x),
        to: spec_clip_to_column(segment, segment.to, tile_x),
    }
}

/// Moves an endpoint of `segment` along the segment into tile column `tile_x`.
fn clip_to_column(segment: LineSegment, point: Vector2I, tile_x: i32) -> (clipped: Vector2I)
    requires
        segment.from == point || segment.to == point,
        spec_tile_floor(segment.spec_min_x()) <= tile_x < spec_tile_ceil(segment.spec_max_x()),
    ensures
        clipped == spec_clip_to_column(segment, point, tile_x as int),
{
    let left: i64 = tile_x as i64 * 4096;
    let right: i64 = left + 4096;
    if (point.x as i64) < left {
        Vector2I { x: left as i32, y: segment.solve_y_for_x(left as i32) }
    } else if (point.x as i64) > right {
        Vector2I { x: right as i32, y: segment.solve_y_for_x(right as i32) }
    } else {
        point
    }
}

/// Computes the position of a subpixel coordinate within a tile column (or row), clamped
/// to the subpixels that the tile holds.
fn to_tile_subpixel(position: i32, tile: i32) -> (subpixel: u16)
    ensures
        subpixel == spec_to_tile_subpixel(position as int, tile as int),
        subpixel < 4096,
{
    let relative: i64 = position as i64 - tile as i64 * 4096;
    if relative < 0 {
        0
    } else if relative > 4095 {
        4095
    } else {
        relative as u16
    }
}

impl BuiltObject {
    /// The invariant of the object: that of its view.
    pub open spec fn wf(&self) -> bool {
        self@.wf()
    }

    /// Makes the empty object for a path with the given bounds, in subpixels.
    pub fn new(bounds: RectI) -> (object: BuiltObject)
        requires
            bounds.wf(),
            bounds.spec_round_out_to_tile_bounds().spec_area() <= u32::MAX,
        ensures
            object@ == BuiltObjectView::spec_new(bounds),
            object.wf(),
    {
        let tile_rect: RectI = bounds.round_out_to_tile_bounds();
        let tiles: DenseTileMap<TileObjectPrimitive> = DenseTileMap::new(tile_rect);
        let object = BuiltObject {
            bounds,
            fills: Vec::new(),
            tiles,
            alpha_tiles: Vec::new(),
            solid_tiles: Vec::new(),
            alpha_tile_count: 0,
        };
        assert(object@.tiles =~= BuiltObjectView::spec_new(bounds).tiles);
        object
    }

    /// The rectangle of tiles that the object covers.
    pub fn tile_rect(&self) -> (rect: RectI)
        ensures
            rect == self@.tile_rect,
    {
        self.tiles.rect
    }

    /// Adds the fill for the part of a path that `segment` is within the tile at
    /// `tile_coords`. A tile outside the grid and a fill whose endpoints share their
    /// horizontal position are passed over in silence.
    pub fn add_fill(&mut self, segment: LineSegment, tile_coords: Vector2I) -> (result: Result<
        (),
        BuildError,
    >)
        requires
            old(self).wf(),
        ensures
            final(self).wf(),
            final(self)@.spec_grows_from(old(self)@),
            result.is_ok() <==> old(self)@.spec_add_fill(segment, tile_coords).is_some(),
            result.is_ok() ==> Some(final(self)@) == old(self)@.spec_add_fill(
                segment,
                tile_coords,
            ),
            result.is_err() ==> result == Err::<(), BuildError>(BuildError::AlphaTileOverflow)
                && final(self)@ == old(self)@,
            old(self)@.spec_fills_match_tiles() ==> final(self)@.spec_fills_match_tiles(),
    {
        proof {
            if old(self)@.spec_fills_match_tiles() && old(self)@.spec_add_fill(
                segment,
                tile_coords,
            ) is Some {
                lemma_add_fill_keeps_match(old(self)@, segment, tile_coords);
            }
        }
        if self.tile_coords_to_local_index(tile_coords).is_none() {
            return Ok(());
        }
        let from_x: u16 = to_tile_subpixel(segment.from.x, tile_coords.x);
        let from_y: u16 = to_tile_subpixel(segment.from.y, tile_coords.y);
        let to_x: u16 = to_tile_subpixel(segment.to.x, tile_coords.x);
        let to_y: u16 = to_tile_subpixel(segment.to.y, tile_coords.y);
        if from_x == to_x {
            return Ok(());
        }
        let alpha_tile_index: u16 = match self.get_or_allocate_alpha_tile_index(tile_coords) {
            Ok(index) => index,
            Err(error) => {
                return Err(error);
            },
        };
        let fill: FillBatchPrimitive = FillBatchPrimitive::pack(
            from_x,
            from_y,
            to_x,
            to_y,
            alpha_tile_index,
        );
        self.fills.push(fill);
        Ok(())
    }

    /// Returns the alpha tile index of the tile at `tile_coords`, which lies inside the
    /// grid. A tile that has none gets the next index of the object, once and for all.
    pub fn get_or_allocate_alpha_tile_index(&mut self, tile_coords: Vector2I) -> (result: Result<
        u16,
        BuildError,
    >)
        requires
            old(self).wf(),
            old(self)@.tile_rect.spec_contains_point(tile_coords),
        ensures
            final(self).wf(),
            final(self)@.spec_grows_from(old(self)@),
            match result {
                Ok(index) => old(self)@.spec_get_or_allocate(tile_coords) == Some(
                    (final(self)@, index),
                ) && index < final(self)@.alpha_tile_count,
                Err(error) => old(self)@.spec_get_or_allocate(tile_coords).is_none() && error
                    == BuildError::AlphaTileOverflow && final(self)@ == old(self)@,
            },
    {
        let local_tile_index: usize = self.tiles.coords_to_index_unchecked(tile_coords);
        let tile: TileObjectPrimitive = self.tiles.data[local_tile_index];
        if tile.alpha_tile_index != NO_ALPHA_TILE {
            return Ok(tile.alpha_tile_index);
        }
        if self.alpha_tile_count >= MAX_ALPHA_TILES {
            return Err(BuildError::AlphaTileOverflow);
        }
        let alpha_tile_index: u16 = self.alpha_tile_count;
        self.alpha_tile_count = self.alpha_tile_count + 1;
        self.tiles.data.set(
            local_tile_index,
            TileObjectPrimitive { backdrop: tile.backdrop, alpha_tile_index },
        );
        Ok(alpha_tile_index)
    }

    /// Adds `|winding|` fills along the top edge of the tile at `tile_coords`, between the
    /// horizontal positions `left` and `right`.
    pub fn add_active_fill(
        &mut self,
        left: i32,
        right: i32,
        winding: i32,
        tile_coords: Vector2I,
    ) -> (result: Result<(), BuildError>)
        requires
            old(self).wf(),
        ensures
            final(self).wf(),
            final(self)@.spec_grows_from(old(self)@),
            result.is_ok() <==> old(self)@.spec_add_active_fill(
                left,
                right,
                winding as int,
                tile_coords,
            ).is_some(),
            result.is_ok() ==> Some(final(self)@) == old(self)@.spec_add_active_fill(
                left,
                right,
                winding as int,
                tile_coords,
            ),
            result.is_err() ==> result == Err::<(), BuildError>(BuildError::AlphaTileOverflow)
                && final(self)@ == old(self)@,
            old(self)@.spec_fills_match_tiles() ==> final(self)@.spec_fills_match_tiles(),
    {
        if self.tile_coords_to_local_index(tile_coords).is_none() {
            return Ok(());
        }
        let tile_origin_y: i32 = tile_coords.y * 4096;
        let left_point: Vector2I = Vector2I::new(left, tile_origin_y);
        let right_point: Vector2I = Vector2I::new(right, tile_origin_y);
        let segment: LineSegment = if winding < 0 {
            LineSegment::new(left_point, right_point)
        } else {
            LineSegment::new(right_point, left_point)
        };
        let mut remaining: i32 = winding;
        while remaining != 0
            invariant
                self.wf(),
                self@.spec_grows_from(old(self)@),
                self@.tile_rect.spec_contains_point(tile_coords),
                (winding < 0) == (remaining < 0) || remaining == 0,
                segment == spec_active_segment(left, right, winding as int, tile_coords),
                spec_abs(remaining as int) <= spec_abs(winding as int),
                old(self)@.spec_fills_match_tiles() ==> self@.spec_fills_match_tiles(),
                remaining == winding ==> self@ == old(self)@,
                remaining != winding ==> self@.spec_add_fill(segment, tile_coords) is Some,
                self@.spec_add_active_fill(left, right, remaining as int, tile_coords) == old(
                    self,
                )@.spec_add_active_fill(left, right, winding as int, tile_coords),
            decreases spec_abs(remaining as int),
        {
            let ghost before = self@;
            match self.add_fill(segment, tile_coords) {
                Ok(()) => {},
                Err(error) => {
                    return Err(error);
                },
            }
            proof {
                lemma_add_fill_again(before, segment, tile_coords);
            }
            if remaining < 0 {
                remaining = remaining + 1;
            } else {
                remaining = remaining - 1;
            }
        }
        Ok(())
    }

    /// Adds the fills of `segment`, the part of an edge that lies within tile row
    /// `tile_y`: the segment is cut at the tile boundaries that it crosses, and each part
    /// becomes a fill of the tile that holds it.
    pub fn generate_fill_primitives_for_line(&mut self, segment: LineSegment, tile_y: i32) -> (result:
        Result<(), BuildError>)
        requires
            old(self).wf(),
        ensures
            final(self).wf(),
            final(self)@.spec_grows_from(old(self)@),
            result.is_ok() <==> old(self)@.spec_generate_fills(segment, tile_y).is_some(),
            result.is_ok() ==> Some(final(self)@) == old(self)@.spec_generate_fills(
                segment,
                tile_y,
            ),
            result.is_err() ==> result == Err::<(), BuildError>(BuildError::AlphaTileOverflow),
            old(self)@.spec_fills_match_tiles() ==> final(self)@.spec_fills_match_tiles(),
    {
        let segment_tile_left: i32 = tile_floor(segment.min_x());
        let segment_tile_right: i32 = tile_ceil(segment.max_x());
        let mut subsegment_tile_x: i32 = segment_tile_left;
        while subsegment_tile_x < segment_tile_right
            invariant
                self.wf(),
                self@.spec_grows_from(old(self)@),
                segment_tile_left == spec_tile_floor(segment.spec_min_x()),
                segment_tile_right == spec_tile_ceil(segment.spec_max_x()),
                segment_tile_left <= subsegment_tile_x,
                segment_tile_right <= 0x8_0000,
                old(self)@.spec_fills_match_tiles() ==> self@.spec_fills_match_tiles(),
                self@.spec_generate_fills_from(
                    segment,
                    tile_y,
                    subsegment_tile_x as int,
                    segment_tile_right as int,
                ) == old(self)@.spec_generate_fills(segment, tile_y),
            decreases segment_tile_right - subsegment_tile_x,
        {
            let fill_from: Vector2I = clip_to_column(segment, segment.from, subsegment_tile_x);
            let fill_to: Vector2I = clip_to_column(segment, segment.to, subsegment_tile_x);
            let fill_segment: LineSegment = LineSegment::new(fill_from, fill_to);
            let fill_tile_coords: Vector2I = Vector2I::new(subsegment_tile_x, tile_y);
            match self.add_fill(fill_segment, fill_tile_coords) {
                Ok(()) => {},
                Err(error) => {
                    return Err(error);
                },
            }
            subsegment_tile_x = subsegment_tile_x + 1;
        }
        Ok(())
    }

    /// Maps tile coordinates to the index of the tile's record, or `None` where the
    /// grid does not hold the tile.
    pub fn tile_coords_to_local_index(&self, coords: Vector2I) -> (index: Option<u32>)
        requires
            self.wf(),
        ensures
            match index {
                Some(i) => spec_coords_to_index(self@.tile_rect, coords) == Some(i as int) && i
                    < self@.tiles.len(),
                None => spec_coords_to_index(self@.tile_rect, coords).is_none(),
            },
    {
        match self.tiles.coords_to_index(coords) {
            Some(index) => Some(index as u32),
            None => None,
        }
    }

    /// Maps the index of a tile's record back to the tile's coordinates.
    pub fn local_tile_index_to_coords(&self, tile_index: u32) -> (coords: Vector2I)
        requires
            self.wf(),
            tile_index < self@.tiles.len(),
        ensures
            coords == spec_index_to_coords(self@.tile_rect, tile_index as int),
            self@.tile_rect.spec_contains_point(coords),
            spec_coords_to_index_unchecked(self@.tile_rect, coords) == tile_index,
    {
        self.tiles.index_to_coords(tile_index as usize)
    }
}

} // verus!
