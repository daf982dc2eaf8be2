//! Stages: how the paths of one kind share the alpha tile indices of their stage.
//!
//! Each path is tiled on its own, with alpha tile indices that count from zero. The
//! paths are then merged into their stage in path order: each takes the next block of
//! indices of the stage, as large as the number of alpha tiles it has allocated, and its
//! indices are moved up by the first index of its block.

use vstd::prelude::*;
use crate::built_object::{spec_alpha_tiles_indexed, BuiltObject, BuiltObjectView, MAX_ALPHA_TILES};
use crate::error::BuildError;
use crate::gpu_data::{AlphaTile, FillBatchPrimitive, TileObjectPrimitive, NO_ALPHA_TILE};
use crate::tile_map::DenseTileMap;

verus! {

/// An alpha tile index moved up by `base`; the index that stands for none stays.
pub open spec fn spec_rebase_index(index: u16, base: int) -> u16 {
    if index == NO_ALPHA_TILE {
        NO_ALPHA_TILE
    } else {
        (index + base) as u16
    }
}

/// A fill with its alpha tile index moved up by `base`.
pub open spec fn spec_rebase_fill(fill: FillBatchPrimitive, base: int) -> FillBatchPrimitive {
    FillBatchPrimitive {
        px: fill.px,
        subpx: fill.subpx,
        alpha_tile_index: (fill.alpha_tile_index + base) as u16,
    }
}

/// A tile record with its alpha tile index moved up by `base`.
pub open spec fn spec_rebase_tile(tile: TileObjectPrimitive, base: int) -> TileObjectPrimitive {
    TileObjectPrimitive {
        backdrop: tile.backdrop,
        alpha_tile_index: spec_rebase_index(tile.alpha_tile_index, base),
    }
}

/// An alpha tile with its alpha tile index moved up by `base`.
pub open spec fn spec_rebase_alpha_tile(tile: AlphaTile, base: int) -> AlphaTile {
    AlphaTile {
        tile_coords: tile.tile_coords,
        path_id: tile.path_id,
        backdrop: tile.backdrop,
        alpha_tile_index: spec_rebase_index(tile.alpha_tile_index, base),
        clip_alpha_tile_index: tile.clip_alpha_tile_index,
        paint: tile.paint,
    }
}

/// Fills with their alpha tile indices moved up by `base`.
pub open spec fn spec_rebase_fills(fills: Seq<FillBatchPrimitive>, base: int) -> Seq<
    FillBatchPrimitive,
> {
    Seq::new(fills.len(), |i: int| spec_rebase_fill(fills[i], base))
}

/// Tile records with their alpha tile indices moved up by `base`.
pub open spec fn spec_rebase_tiles(tiles: Seq<TileObjectPrimitive>, base: int) -> Seq<
    TileObjectPrimitive,
> {
    Seq::new(tiles.len(), |i: int| spec_rebase_tile(tiles[i], base))
}

/// Alpha tiles with their alpha tile indices moved up by `base`.
pub open spec fn spec_rebase_alpha_tiles(tiles: Seq<AlphaTile>, base: int) -> Seq<AlphaTile> {
    Seq::new(tiles.len(), |i: int| spec_rebase_alpha_tile(tiles[i], base))
}

/// Moves an alpha tile index into the block of its path.
pub(crate) fn rebase_index(index: u16, base: u16) -> (rebased: u16)
    requires
        index == NO_ALPHA_TILE || index + base < NO_ALPHA_TILE,
    ensures
        rebased == spec_rebase_index(index, base as int),
{
    if index == NO_ALPHA_TILE {
        NO_ALPHA_TILE
    } else {
        index + base
    }
}

/// Moves the alpha tile indices of the fills of a path into the block of the path.
pub(crate) fn rebase_fills(fills: &Vec<FillBatchPrimitive>, base: u16) -> (rebased: Vec<FillBatchPrimitive>)
    requires
        forall|i: int| 0 <= i < fills.len() ==> (#[trigger] fills[i]).alpha_tile_index + base
            < NO_ALPHA_TILE,
    ensures
        rebased@ == spec_rebase_fills(fills@, base as int),
{
    let mut rebased: Vec<FillBatchPrimitive> = Vec::new();
    let mut i: usize = 0;
    while i < fills.len()
        invariant
            i <= fills.len(),
            forall|j: int| 0 <= j < fills.len() ==> (#[trigger] fills[j]).alpha_tile_index + base
                < NO_ALPHA_TILE,
            rebased@ == spec_rebase_fills(fills@, base as int).take(i as int),
        decreases fills.len() - i,
    {
        let fill: FillBatchPrimitive = fills[i];
        rebased.push(
            FillBatchPrimitive {
                px: fill.px,
                subpx: fill.subpx,
                alpha_tile_index: fill.alpha_tile_index + base,
            },
        );
        assert(rebased@ =~= spec_rebase_fills(fills@, base as int).take(i + 1));
        i = i + 1;
    }
    assert(rebased@ =~= spec_rebase_fills(fills@, base as int));
    rebased
}

/// Moves the alpha tile indices of the tile records of a path into the block of the path.
pub(crate) fn rebase_tiles(tiles: &Vec<TileObjectPrimitive>, base: u16) -> (rebased: Vec<TileObjectPrimitive>)
    requires
        forall|i: int|
            0 <= i < tiles.len() ==> (#[trigger] tiles[i]).alpha_tile_index == NO_ALPHA_TILE
                || tiles[i].alpha_tile_index + base < NO_ALPHA_TILE,
    ensures
        rebased@ == spec_rebase_tiles(tiles@, base as int),
{
    let mut rebased: Vec<TileObjectPrimitive> = Vec::new();
    let mut i: usize = 0;
    while i < tiles.len()
        invariant
            i <= tiles.len(),
            forall|j: int|
                0 <= j < tiles.len() ==> (#[trigger] tiles[j]).alpha_tile_index == NO_ALPHA_TILE
                    || tiles[j].alpha_tile_index + base < NO_ALPHA_TILE,
            rebased@ == spec_rebase_tiles(tiles@, base as int).take(i as int),
        decreases tiles.len() - i,
    {
        let tile: TileObjectPrimitive = tiles[i];
        rebased.push(
            TileObjectPrimitive {
                backdrop: tile.backdrop,
                alpha_tile_index: rebase_index(tile.alpha_tile_index, base),
            },
        );
        assert(rebased@ =~= spec_rebase_tiles(tiles@, base as int).take(i + 1));
        i = i + 1;
    }
    assert(rebased@ =~= spec_rebase_tiles(tiles@, base as int));
    rebased
}

/// Moves the alpha tile indices of the alpha tiles of a path into the block of the path.
pub(crate) fn rebase_alpha_tiles(tiles: &Vec<AlphaTile>, base: u16) -> (rebased: Vec<AlphaTile>)
    requires
        forall|i: int|
            0 <= i < tiles.len() ==> (#[trigger] tiles[i]).alpha_tile_index == NO_ALPHA_TILE
                || tiles[i].alpha_tile_index + base < NO_ALPHA_TILE,
    ensures
        rebased@ == spec_rebase_alpha_tiles(tiles@, base as int),
{
    let mut rebased: Vec<AlphaTile> = Vec::new();
    let mut i: usize = 0;
    while i < tiles.len()
        invariant
            i <= tiles.len(),
            forall|j: int|
                0 <= j < tiles.len() ==> (#[trigger] tiles[j]).alpha_tile_index == NO_ALPHA_TILE
                    || tiles[j].alpha_tile_index + base < NO_ALPHA_TILE,
            rebased@ == spec_rebase_alpha_tiles(tiles@, base as int).take(i as int),
        decreases tiles.len() - i,
    {
        let tile: AlphaTile = tiles[i];
        rebased.push(
            AlphaTile {
                tile_coords: tile.tile_coords,
                path_id: tile.path_id,
                backdrop: tile.backdrop,
                alpha_tile_index: rebase_index(tile.alpha_tile_index, base),
                clip_alpha_tile_index: tile.clip_alpha_tile_index,
                paint: tile.paint,
            },
        );
        assert(rebased@ =~= spec_rebase_alpha_tiles(tiles@, base as int).take(i + 1));
        i = i + 1;
    }
    assert(rebased@ =~= spec_rebase_alpha_tiles(tiles@, base as int));
    rebased
}

/// Moves the alpha tile indices of the fills and of the alpha tiles of a path into the
/// block of the path that starts at `base`.
pub(crate) fn rebase_object(object: &BuiltObject, base: u16) -> (rebased: (Vec<FillBatchPrimitive>, Vec<AlphaTile>))
    requires
        object.wf(),
        spec_alpha_tiles_indexed(object@),
        base + object@.alpha_tile_count <= MAX_ALPHA_TILES,
    ensures
        rebased.0@ == spec_rebase_fills(object@.fills, base as int),
        rebased.1@ == spec_rebase_alpha_tiles(object@.alpha_tiles, base as int),
{
    assert forall|i: int| 0 <= i < object.fills.len() implies (#[trigger] object.fills[i]).alpha_tile_index
        + base < NO_ALPHA_TILE by {
        assert(object@.fills[i].alpha_tile_index < object@.alpha_tile_count);
    }
    assert forall|i: int| 0 <= i < object.alpha_tiles.len() implies (
    #[trigger] object.alpha_tiles[i]).alpha_tile_index == NO_ALPHA_TILE
        || object.alpha_tiles[i].alpha_tile_index + base < NO_ALPHA_TILE by {
        assert(object@.alpha_tiles[i].alpha_tile_index == NO_ALPHA_TILE
            || object@.alpha_tiles[i].alpha_tile_index < object@.alpha_tile_count);
    }
    (rebase_fills(&object.fills, base), rebase_alpha_tiles(&object.alpha_tiles, base))
}

/// Moves the alpha tile indices of the tile records of a path into the block of the path
/// that starts at `base`.
pub(crate) fn rebase_tile_map(object: &BuiltObject, base: u16) -> (rebased: DenseTileMap<TileObjectPrimitive>)
    requires
        object.wf(),
        base + object@.alpha_tile_count <= MAX_ALPHA_TILES,
    ensures
        rebased.rect == object@.tile_rect,
        rebased.data@ == spec_rebase_tiles(object@.tiles, base as int),
        rebased.wf(),
{
    assert forall|i: int| 0 <= i < object.tiles.data.len() implies (
    #[trigger] object.tiles.data[i]).alpha_tile_index == NO_ALPHA_TILE
        || object.tiles.data[i].alpha_tile_index + base < NO_ALPHA_TILE by {
        assert(object@.tiles[i].alpha_tile_index == NO_ALPHA_TILE
            || object@.tiles[i].alpha_tile_index < object@.alpha_tile_count);
    }
    DenseTileMap { data: rebase_tiles(&object.tiles.data, base), rect: object.tiles.rect }
}

/// What tiling one path gives, as a mathematical value: the object, or the error.
pub open spec fn spec_object_result(result: Result<BuiltObject, BuildError>) -> Result<
    BuiltObjectView,
    BuildError,
> {
    match result {
        Ok(object) => Ok(object@),
        Err(error) => Err(error),
    }
}

/// Whether `result` is the object that tiling gave, sound and ready to be merged, or the
/// error.
pub open spec fn spec_is_tiled(
    result: Result<BuiltObject, BuildError>,
    expected: Result<BuiltObjectView, BuildError>,
) -> bool {
    &&& spec_object_result(result) == expected
    &&& result is Ok ==> result->Ok_0.wf() && spec_alpha_tiles_indexed(result->Ok_0@)
}

/// The paths of one stage that have been tiled, each with the first alpha tile index of
/// its block.
pub struct StageView {
    /// The objects of the paths, with alpha tile indices that count from zero.
    pub objects: Seq<BuiltObjectView>,
    /// For each path, the index that its first alpha tile takes within the stage.
    pub bases: Seq<int>,
    /// The next alpha tile index of the stage that is free.
    pub next_index: int,
}

/// A stage before any of its paths has been tiled.
pub open spec fn spec_stage_start(first_index: int) -> StageView {
    StageView { objects: Seq::empty(), bases: Seq::empty(), next_index: first_index }
}

/// The stage with one more path: the path takes the next block of alpha tile indices.
/// The error where the stage has not that many left.
pub open spec fn spec_merge(stage: StageView, object: BuiltObjectView) -> Result<
    StageView,
    BuildError,
> {
    if stage.next_index + object.alpha_tile_count > MAX_ALPHA_TILES {
        Err(BuildError::AlphaTileOverflow)
    } else {
        Ok(
            StageView {
                objects: stage.objects.push(object),
                bases: stage.bases.push(stage.next_index),
                next_index: stage.next_index + object.alpha_tile_count,
            },
        )
    }
}

/// The stage after the paths from index `k` on have been merged into it, where
/// `expected` holds what tiling each path gives. The error is that of the first path
/// that could not be tiled or for which the stage has no block left.
pub open spec fn spec_stage_from(
    expected: Seq<Result<BuiltObjectView, BuildError>>,
    stage: StageView,
    k: int,
) -> Result<StageView, BuildError>
    decreases expected.len() - k,
{
    if k < 0 || k >= expected.len() {
        Ok(stage)
    } else {
        match expected[k] {
            Err(error) => Err(error),
            Ok(object) => match spec_merge(stage, object) {
                Err(error) => Err(error),
                Ok(next) => spec_stage_from(expected, next, k + 1),
            },
        }
    }
}

/// The invariant of a stage whose first alpha tile index is `first_index`: every object
/// is sound, and the paths have their blocks of alpha tile indices in path order, none
/// overlapping another, between `first_index` and the next free index.
pub open spec fn spec_stage_wf(stage: StageView, first_index: int) -> bool {
    &&& stage.objects.len() == stage.bases.len()
    &&& 0 <= first_index <= stage.next_index <= MAX_ALPHA_TILES
    &&& forall|k: int|
        0 <= k < stage.objects.len() ==> (#[trigger] stage.objects[k]).wf()
            && spec_alpha_tiles_indexed(stage.objects[k])
    &&& forall|k: int|
        0 <= k < stage.bases.len() ==> first_index <= #[trigger] stage.bases[k]
            && stage.bases[k] + stage.objects[k].alpha_tile_count <= stage.next_index
    &&& forall|earlier: int, later: int|
        0 <= earlier < later < stage.bases.len() ==> (#[trigger] stage.bases[earlier])
            + stage.objects[earlier].alpha_tile_count <= #[trigger] stage.bases[later]
}

/// Merging a sound object into a stage keeps the invariant of the stage.
pub proof fn lemma_merge_stage_wf(stage: StageView, first_index: int, object: BuiltObjectView)
    requires
        spec_stage_wf(stage, first_index),
        object.wf(),
        spec_alpha_tiles_indexed(object),
        spec_merge(stage, object) is Ok,
    ensures
        spec_stage_wf(spec_merge(stage, object)->Ok_0, first_index),
{
    let merged = spec_merge(stage, object)->Ok_0;
    let n = stage.objects.len() as int;
    assert forall|k: int| 0 <= k < merged.objects.len() implies (#[trigger] merged.objects[k]).wf()
        && spec_alpha_tiles_indexed(merged.objects[k]) by {
        if k < n {
            assert(merged.objects[k] == stage.objects[k]);
        }
    }
    assert forall|k: int| 0 <= k < merged.bases.len() implies first_index
        <= #[trigger] merged.bases[k] && merged.bases[k] + merged.objects[k].alpha_tile_count
        <= merged.next_index by {
        if k < n {
            assert(merged.bases[k] == stage.bases[k]);
            assert(merged.objects[k] == stage.objects[k]);
        }
    }
    assert forall|earlier: int, later: int| 0 <= earlier < later < merged.bases.len() implies (
    #[trigger] merged.bases[earlier]) + merged.objects[earlier].alpha_tile_count
        <= #[trigger] merged.bases[later] by {
        assert(merged.bases[earlier] == stage.bases[earlier]);
        assert(merged.objects[earlier] == stage.objects[earlier]);
        if later < n {
            assert(merged.bases[later] == stage.bases[later]);
        }
    }
}

/// The alpha tile indices that one stage gives out are all distinct: two tiles that have
/// one, of one path or of two, never have the same, and each lies between the first
/// index of the stage and its next free index.
pub proof fn lemma_stage_indices_distinct(
    stage: StageView,
    first_index: int,
    path: int,
    tile: int,
    other_path: int,
    other_tile: int,
)
    requires
        spec_stage_wf(stage, first_index),
        0 <= path < stage.objects.len(),
        0 <= other_path < stage.objects.len(),
        0 <= tile < stage.objects[path].tiles.len(),
        0 <= other_tile < stage.objects[other_path].tiles.len(),
        stage.objects[path].tiles[tile].alpha_tile_index != NO_ALPHA_TILE,
        stage.objects[other_path].tiles[other_tile].alpha_tile_index != NO_ALPHA_TILE,
        path != other_path || tile != other_tile,
    ensures
        spec_rebase_tiles(stage.objects[path].tiles, stage.bases[path])[tile].alpha_tile_index
            != spec_rebase_tiles(
            stage.objects[other_path].tiles,
            stage.bases[other_path],
        )[other_tile].alpha_tile_index,
        first_index <= spec_rebase_tiles(
            stage.objects[path].tiles,
            stage.bases[path],
        )[tile].alpha_tile_index < stage.next_index,
{
    let object = stage.objects[path];
    let other = stage.objects[other_path];
    assert(object.wf() && other.wf());
    assert(object.tiles[tile].alpha_tile_index < object.alpha_tile_count);
    assert(other.tiles[other_tile].alpha_tile_index < other.alpha_tile_count);
    assert(first_index <= stage.bases[path] && stage.bases[path] + object.alpha_tile_count
        <= stage.next_index);
    assert(first_index <= stage.bases[other_path]);
    if path == other_path {
        assert(object.tiles[tile].alpha_tile_index != object.tiles[other_tile].alpha_tile_index);
    }
}

/// Every fill that a stage sends is sound: its endpoints differ in their horizontal
/// position, and its alpha tile index lies within the block of its path.
pub proof fn lemma_stage_fills_sound(stage: StageView, first_index: int, path: int, fill: int)
    requires
        spec_stage_wf(stage, first_index),
        0 <= path < stage.objects.len(),
        0 <= fill < stage.objects[path].fills.len(),
    ensures
        spec_rebase_fills(stage.objects[path].fills, stage.bases[path])[fill].spec_is_valid(),
        stage.bases[path] <= spec_rebase_fills(
            stage.objects[path].fills,
            stage.bases[path],
        )[fill].alpha_tile_index < stage.bases[path] + stage.objects[path].alpha_tile_count,
        first_index <= spec_rebase_fills(
            stage.objects[path].fills,
            stage.bases[path],
        )[fill].alpha_tile_index < stage.next_index,
{
    let object = stage.objects[path];
    assert(object.wf());
    assert(object.fills[fill].alpha_tile_index < object.alpha_tile_count);
    assert(object.fills[fill].spec_is_valid());
    assert(first_index <= stage.bases[path] && stage.bases[path] + object.alpha_tile_count
        <= stage.next_index);
}

/// Gives each path its block of alpha tile indices, in path order. Returns the first
/// index of each block and the next free index of the stage.
pub(crate) fn assign_blocks(
    objects: &Vec<Result<BuiltObject, BuildError>>,
    first_index: usize,
    expected: Ghost<Seq<Result<BuiltObjectView, BuildError>>>,
) -> (result: Result<(Vec<u16>, usize), BuildError>)
    requires
        first_index <= MAX_ALPHA_TILES,
        expected@.len() == objects.len(),
        forall|k: int| 0 <= k < objects.len() ==> spec_is_tiled(#[trigger] objects[k], expected@[k]),
    ensures
        match spec_stage_from(expected@, spec_stage_start(first_index as int), 0) {
            Err(error) => result is Err && result->Err_0 == error,
            Ok(stage) => {
                &&& result is Ok
                &&& spec_stage_wf(stage, first_index as int)
                &&& result->Ok_0.1 == stage.next_index
                &&& result->Ok_0.0.len() == objects.len()
                &&& stage.objects.len() == objects.len()
                &&& forall|k: int|
                    0 <= k < objects.len() ==> (#[trigger] objects[k]) is Ok && stage.objects[k]
                        == objects[k]->Ok_0@ && stage.bases[k] == result->Ok_0.0[k]
            },
        },
{
    let mut bases: Vec<u16> = Vec::new();
    let mut next_index: usize = first_index;
    let ghost mut stage = spec_stage_start(first_index as int);
    let mut k: usize = 0;
    while k < objects.len()
        invariant
            k <= objects.len(),
            expected@.len() == objects.len(),
            forall|j: int|
                0 <= j < objects.len() ==> spec_is_tiled(#[trigger] objects[j], expected@[j]),
            stage.objects.len() == k,
            stage.next_index == next_index,
            spec_stage_wf(stage, first_index as int),
            spec_stage_from(expected@, stage, k as int) == spec_stage_from(
                expected@,
                spec_stage_start(first_index as int),
                0,
            ),
            bases.len() == k,
            forall|j: int|
                0 <= j < k ==> (#[trigger] objects[j]) is Ok && stage.objects[j]
                    == objects[j]->Ok_0@ && stage.bases[j] == bases[j],
        decreases objects.len() - k,
    {
        match &objects[k] {
            Err(error) => {
                return Err(*error);
            },
            Ok(object) => {
                if next_index + object.alpha_tile_count as usize > MAX_ALPHA_TILES as usize {
                    return Err(BuildError::AlphaTileOverflow);
                }
                proof {
                    lemma_merge_stage_wf(stage, first_index as int, object@);
                    stage = spec_merge(stage, object@)->Ok_0;
                }
                bases.push(next_index as u16);
                next_index = next_index + object.alpha_tile_count as usize;
            },
        }
        k = k + 1;
    }
    Ok((bases, next_index))
}

} // verus!
