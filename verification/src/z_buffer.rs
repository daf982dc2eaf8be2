//! The Z-buffer: for each tile, the topmost opaque path that covers it in full.

use vstd::prelude::*;
use core::ops::Range;
use crate::built_object::spec_in_tile_range;
use crate::geometry::{spec_max, RectI, Vector2I};
use crate::gpu_data::{PaintMetadata, SolidTile};
use crate::scene::DrawPath;
use crate::tile_map::{
    lemma_index_injective,
    lemma_index_in_range,
    spec_coords_to_index,
    spec_coords_to_index_unchecked,
    spec_index_to_coords,
    DenseTileMap,
};

verus! {

/// The depth of a tile that no opaque path covers in full.
pub const NO_OPAQUE_COVERAGE: u32 = 0;

/// For each tile of the view box, one more than the index of the topmost opaque path
/// that covers the tile in full, or zero where there is none. Paths lie back to front
/// by rising index.
pub struct ZBuffer {
    pub buffer: DenseTileMap<u32>,
}

/// One entry into the Z-buffer: an opaque path that covers a tile in full.
pub struct ZUpdate {
    pub coords: Vector2I,
    pub path_index: u32,
}

/// The depth stored for the tile at `coords`; zero outside the grid.
pub open spec fn spec_depth(rect: RectI, cells: Seq<u32>, coords: Vector2I) -> int {
    match spec_coords_to_index(rect, coords) {
        Some(i) => cells[i] as int,
        None => 0,
    }
}

/// The cells after the path with index `path_index` has covered the tile at `coords`.
pub open spec fn spec_update(rect: RectI, cells: Seq<u32>, coords: Vector2I, path_index: u32) -> Seq<
    u32,
> {
    match spec_coords_to_index(rect, coords) {
        Some(i) => cells.update(i, spec_max(cells[i] as int, path_index + 1) as u32),
        None => cells,
    }
}

/// The cells after the entries from index `k` on have been made, in order.
pub open spec fn spec_update_all(rect: RectI, cells: Seq<u32>, updates: Seq<ZUpdate>, k: int) -> Seq<
    u32,
>
    decreases updates.len() - k,
{
    if k < 0 || k >= updates.len() {
        cells
    } else {
        spec_update_all(
            rect,
            spec_update(rect, cells, updates[k].coords, updates[k].path_index),
            updates,
            k + 1,
        )
    }
}

/// Whether the tile at `coords` of the path with index `path_index` is still visible.
pub open spec fn spec_test(rect: RectI, cells: Seq<u32>, coords: Vector2I, path_index: u32) -> bool {
    spec_depth(rect, cells, coords) <= path_index + 1
}

/// The paint of the draw path with index `path_index`.
pub open spec fn spec_paint_of(
    paths: Seq<DrawPath>,
    paint_metadata: Seq<PaintMetadata>,
    path_index: int,
) -> PaintMetadata {
    paint_metadata[paths[path_index].paint.0 as int]
}

/// The solid tiles of the cells from index `i` on, in index order: one for each cell
/// whose path index lies in the range from `start` up to `end`.
pub open spec fn spec_solid_tiles_from(
    rect: RectI,
    cells: Seq<u32>,
    paths: Seq<DrawPath>,
    paint_metadata: Seq<PaintMetadata>,
    start: u32,
    end: u32,
    i: int,
) -> Seq<SolidTile>
    decreases cells.len() - i,
{
    if i < 0 || i >= cells.len() {
        Seq::empty()
    } else {
        let rest = spec_solid_tiles_from(rect, cells, paths, paint_metadata, start, end, i + 1);
        if cells[i] != 0 && start <= cells[i] - 1 < end {
            seq![
                SolidTile {
                    tile_coords: spec_index_to_coords(rect, i),
                    path_id: (cells[i] - 1) as u32,
                    paint: spec_paint_of(paths, paint_metadata, cells[i] - 1),
                },
            ] + rest
        } else {
            rest
        }
    }
}

/// One entry changes the depth of its own tile only, and never lowers it.
pub proof fn lemma_update_depth(
    rect: RectI,
    cells: Seq<u32>,
    coords: Vector2I,
    path_index: u32,
    at: Vector2I,
)
    requires
        rect.wf(),
        cells.len() == rect.spec_area(),
        path_index < u32::MAX,
    ensures
        spec_update(rect, cells, coords, path_index).len() == cells.len(),
        spec_depth(rect, spec_update(rect, cells, coords, path_index), at) == if at == coords
            && rect.spec_contains_point(at) {
            spec_max(spec_depth(rect, cells, at), path_index + 1)
        } else {
            spec_depth(rect, cells, at)
        },
{
    if rect.spec_contains_point(coords) {
        lemma_index_in_range(rect, coords);
        if rect.spec_contains_point(at) {
            lemma_index_in_range(rect, at);
            if at != coords && spec_coords_to_index_unchecked(rect, at)
                == spec_coords_to_index_unchecked(rect, coords) {
                lemma_index_injective(rect, at, coords);
            }
        }
    }
}

/// A tile of a path is visible after a run of entries exactly if it was visible before
/// and no entry for its coordinates came from a path with a higher index: a tile
/// survives unless a later opaque path covers it in full.
pub proof fn lemma_test_after_updates(
    rect: RectI,
    cells: Seq<u32>,
    updates: Seq<ZUpdate>,
    k: int,
    at: Vector2I,
    path_index: u32,
)
    requires
        rect.wf(),
        cells.len() == rect.spec_area(),
        rect.spec_contains_point(at),
        0 <= k <= updates.len(),
        forall|j: int| k <= j < updates.len() ==> (#[trigger] updates[j]).path_index < u32::MAX,
    ensures
        spec_update_all(rect, cells, updates, k).len() == cells.len(),
        spec_test(rect, spec_update_all(rect, cells, updates, k), at, path_index) <==> (spec_test(
            rect,
            cells,
            at,
            path_index,
        ) && forall|j: int|
            k <= j < updates.len() && (#[trigger] updates[j]).coords == at ==> updates[j].path_index
                <= path_index),
    decreases updates.len() - k,
{
    if k < updates.len() {
        let next = spec_update(rect, cells, updates[k].coords, updates[k].path_index);
        lemma_update_depth(rect, cells, updates[k].coords, updates[k].path_index, at);
        lemma_test_after_updates(rect, next, updates, k + 1, at, path_index);
        if spec_test(rect, spec_update_all(rect, cells, updates, k), at, path_index) {
            assert forall|j: int|
                k <= j < updates.len() && (#[trigger] updates[j]).coords == at implies updates[j].path_index
                <= path_index by {
                if j > k {
                } else {
                }
            }
        }
    }
}

/// Whether the cell with index `j` holds a path of the range from `start` up to `end`.
pub open spec fn spec_is_covered_cell(cells: Seq<u32>, start: u32, end: u32, j: int) -> bool {
    0 <= j < cells.len() && cells[j] != 0 && start <= cells[j] - 1 < end
}

/// The solid tile that stands for the cell with index `j`: at the coordinates of the
/// cell, with the path that the cell holds and the paint of that path.
pub open spec fn spec_solid_tile_of_cell(
    rect: RectI,
    cells: Seq<u32>,
    paths: Seq<DrawPath>,
    paint_metadata: Seq<PaintMetadata>,
    j: int,
) -> SolidTile {
    SolidTile {
        tile_coords: spec_index_to_coords(rect, j),
        path_id: (cells[j] - 1) as u32,
        paint: spec_paint_of(paths, paint_metadata, cells[j] - 1),
    }
}

/// Whether the solid tiles hold the one that stands for the cell with index `j`.
pub open spec fn spec_holds_tile_of_cell(
    tiles: Seq<SolidTile>,
    rect: RectI,
    cells: Seq<u32>,
    paths: Seq<DrawPath>,
    paint_metadata: Seq<PaintMetadata>,
    j: int,
) -> bool {
    exists|k: int|
        0 <= k < tiles.len() && #[trigger] tiles[k] == spec_solid_tile_of_cell(
            rect,
            cells,
            paths,
            paint_metadata,
            j,
        )
}

/// Whether a solid tile stands for a cell from index `i` on that holds a path of the
/// range.
pub open spec fn spec_is_tile_of_covered_cell(
    tile: SolidTile,
    rect: RectI,
    cells: Seq<u32>,
    paths: Seq<DrawPath>,
    paint_metadata: Seq<PaintMetadata>,
    start: u32,
    end: u32,
    i: int,
) -> bool {
    exists|j: int|
        i <= j && #[trigger] spec_is_covered_cell(cells, start, end, j) && tile
            == spec_solid_tile_of_cell(rect, cells, paths, paint_metadata, j)
}

/// The solid tiles of a Z-buffer are those of its covered cells: each solid tile stands
/// for a cell that holds a path of the range, and each such cell has its solid tile.
pub proof fn lemma_solid_tiles_are_covered_cells(
    rect: RectI,
    cells: Seq<u32>,
    paths: Seq<DrawPath>,
    paint_metadata: Seq<PaintMetadata>,
    start: u32,
    end: u32,
    i: int,
)
    requires
        0 <= i,
    ensures
        forall|k: int|
            0 <= k < spec_solid_tiles_from(
                rect,
                cells,
                paths,
                paint_metadata,
                start,
                end,
                i,
            ).len() ==> spec_is_tile_of_covered_cell(
                #[trigger] spec_solid_tiles_from(
                    rect,
                    cells,
                    paths,
                    paint_metadata,
                    start,
                    end,
                    i,
                )[k],
                rect,
                cells,
                paths,
                paint_metadata,
                start,
                end,
                i,
            ),
        forall|j: int|
            i <= j && #[trigger] spec_is_covered_cell(cells, start, end, j)
                ==> spec_holds_tile_of_cell(
                spec_solid_tiles_from(rect, cells, paths, paint_metadata, start, end, i),
                rect,
                cells,
                paths,
                paint_metadata,
                j,
            ),
    decreases cells.len() - i,
{
    let tiles = spec_solid_tiles_from(rect, cells, paths, paint_metadata, start, end, i);
    if i < cells.len() {
        let rest = spec_solid_tiles_from(rect, cells, paths, paint_metadata, start, end, i + 1);
        lemma_solid_tiles_are_covered_cells(rect, cells, paths, paint_metadata, start, end, i + 1);
        let here = spec_is_covered_cell(cells, start, end, i);
        let shift: int = if here {
            1
        } else {
            0
        };
        assert forall|k: int| 0 <= k < tiles.len() implies spec_is_tile_of_covered_cell(
            #[trigger] tiles[k],
            rect,
            cells,
            paths,
            paint_metadata,
            start,
            end,
            i,
        ) by {
            if here && k == 0 {
                assert(spec_is_covered_cell(cells, start, end, i));
            } else {
                assert(tiles[k] == rest[k - shift]);
                assert(spec_is_tile_of_covered_cell(
                    rest[k - shift],
                    rect,
                    cells,
                    paths,
                    paint_metadata,
                    start,
                    end,
                    i + 1,
                ));
                let j = choose|j: int|
                    i + 1 <= j && #[trigger] spec_is_covered_cell(cells, start, end, j) && rest[k
                        - shift] == spec_solid_tile_of_cell(rect, cells, paths, paint_metadata, j);
                assert(i <= j && spec_is_covered_cell(cells, start, end, j));
            }
        }
        assert forall|j: int|
            i <= j && #[trigger] spec_is_covered_cell(
                cells,
                start,
                end,
                j,
            ) implies spec_holds_tile_of_cell(tiles, rect, cells, paths, paint_metadata, j) by {
            if j == i {
                assert(tiles[0] == spec_solid_tile_of_cell(rect, cells, paths, paint_metadata, j));
            } else {
                assert(spec_holds_tile_of_cell(rest, rect, cells, paths, paint_metadata, j));
                let k = choose|k: int|
                    0 <= k < rest.len() && #[trigger] rest[k] == spec_solid_tile_of_cell(
                        rect,
                        cells,
                        paths,
                        paint_metadata,
                        j,
                    );
                assert(tiles[k + shift] == rest[k]);
            }
        }
    }
}

impl ZBuffer {
    /// The buffer holds one cell per tile, and its grid is one that rounding a rectangle
    /// of subpixels out to tiles can give.
    pub open spec fn wf(&self) -> bool {
        &&& self.buffer.wf()
        &&& spec_in_tile_range(self.buffer.rect)
        &&& self.buffer.rect.spec_area() <= u32::MAX
    }

    /// Makes the buffer for a view box, given in subpixels, with no tile covered.
    pub fn new(view_box: RectI) -> (z_buffer: ZBuffer)
        requires
            view_box.wf(),
            view_box.spec_round_out_to_tile_bounds().spec_area() <= u32::MAX,
        ensures
            z_buffer.wf(),
            z_buffer.buffer.rect == view_box.spec_round_out_to_tile_bounds(),
            forall|i: int| 0 <= i < z_buffer.buffer.data.len() ==> z_buffer.buffer.data[i] == 0,
    {
        let tile_rect: RectI = view_box.round_out_to_tile_bounds();
        ZBuffer { buffer: DenseTileMap::new(tile_rect) }
    }

    /// Tells whether the tile at `coords` of the path with index `path_index` is still
    /// visible: whether no opaque path above it covers the tile in full.
    pub fn test(&self, coords: Vector2I, path_index: u32) -> (visible: bool)
        requires
            self.wf(),
        ensures
            visible == spec_test(self.buffer.rect, self.buffer.data@, coords, path_index),
    {
        match self.buffer.coords_to_index(coords) {
            Some(index) => self.buffer.data[index] as u64 <= path_index as u64 + 1,
            None => true,
        }
    }

    /// Records that the opaque path with index `path_index` covers the tile at `coords`
    /// in full. A tile outside the grid is passed over.
    pub fn update(&mut self, coords: Vector2I, path_index: u32)
        requires
            old(self).wf(),
            path_index < u32::MAX,
        ensures
            final(self).wf(),
            final(self).buffer.rect == old(self).buffer.rect,
            final(self).buffer.data@ == spec_update(
                old(self).buffer.rect,
                old(self).buffer.data@,
                coords,
                path_index,
            ),
    {
        match self.buffer.coords_to_index(coords) {
            Some(index) => {
                let existing: u32 = self.buffer.data[index];
                let depth: u32 = path_index + 1;
                if existing < depth {
                    self.buffer.data.set(index, depth);
                } else {
                    assert(self.buffer.data@ =~= self.buffer.data@.update(index as int, existing));
                }
            },
            None => {},
        }
    }

    /// Lists, in the order of the grid, a solid tile for every cell whose path index lies
    /// in `range`, each with the paint of its path.
    pub fn build_solid_tiles(
        &self,
        paths: &Vec<DrawPath>,
        paint_metadata: &Vec<PaintMetadata>,
        range: Range<u32>,
    ) -> (solid_tiles: Vec<SolidTile>)
        requires
            self.wf(),
            range.end <= paths.len(),
            forall|p: int|
                range.start <= p < range.end ==> (#[trigger] paths[p]).paint.0
                    < paint_metadata.len(),
        ensures
            solid_tiles@ == spec_solid_tiles_from(
                self.buffer.rect,
                self.buffer.data@,
                paths@,
                paint_metadata@,
                range.start,
                range.end,
                0,
            ),
    {
        let mut solid_tiles: Vec<SolidTile> = Vec::new();
        let mut index: usize = 0;
        while index < self.buffer.data.len()
            invariant
                self.wf(),
                index <= self.buffer.data.len(),
                range.end <= paths.len(),
                forall|p: int|
                    range.start <= p < range.end ==> (#[trigger] paths[p]).paint.0
                        < paint_metadata.len(),
                solid_tiles@ + spec_solid_tiles_from(
                    self.buffer.rect,
                    self.buffer.data@,
                    paths@,
                    paint_metadata@,
                    range.start,
                    range.end,
                    index as int,
                ) == spec_solid_tiles_from(
                    self.buffer.rect,
                    self.buffer.data@,
                    paths@,
                    paint_metadata@,
                    range.start,
                    range.end,
                    0,
                ),
            decreases self.buffer.data.len() - index,
        {
            let depth: u32 = self.buffer.data[index];
            let ghost before = solid_tiles@;
            let ghost rest = spec_solid_tiles_from(
                self.buffer.rect,
                self.buffer.data@,
                paths@,
                paint_metadata@,
                range.start,
                range.end,
                index + 1,
            );
            if depth != 0 && range.start <= depth - 1 && depth - 1 < range.end {
                let path_index: u32 = depth - 1;
                let paint_index: usize = paths[path_index as usize].paint.0 as usize;
                let tile: SolidTile = SolidTile {
                    tile_coords: self.buffer.index_to_coords(index),
                    path_id: path_index,
                    paint: paint_metadata[paint_index],
                };
                solid_tiles.push(tile);
                assert(solid_tiles@ + rest =~= before + (seq![tile] + rest));
            }
            index = index + 1;
        }
        assert(solid_tiles@ + Seq::<SolidTile>::empty() =~= solid_tiles@);
        solid_tiles
    }
}

} // verus!
