//! The scene builder: tiles all paths of a scene and streams the render commands.

use vstd::prelude::*;
use core::time::Duration;
use std::time::Instant;
use crate::built_object::{
    spec_alpha_tiles_indexed,
    BuiltObject,
    BuiltObjectView,
    MAX_ALPHA_TILES,
};
use crate::stage::{
    assign_blocks,
    spec_merge,
    rebase_object,
    rebase_tile_map,
    spec_is_tiled,
    spec_rebase_alpha_tiles,
    spec_rebase_fills,
    spec_rebase_tiles,
    spec_stage_from,
    spec_stage_start,
    spec_stage_wf,
    StageView,
};
use crate::error::BuildError;
use crate::executor::Executor;
use crate::geometry::{LineSegment, RectI, Vector2I};
use crate::gpu_data::{
    AlphaTile,
    PaintMetadata,
    RenderCommand,
    RenderCommandView,
    RenderStage,
    SolidTile,
    TileObjectPrimitive,
};
use crate::options::{PreparedBuildOptions, RenderCommandListener};
use crate::scene::{ClipPathId, DrawPathId, FillRule, Scene};
use crate::tile_map::DenseTileMap;
use crate::tiles::{
    spec_generate_tiles,
    spec_no_empty_tiles,
    spec_packed_once,
    spec_no_paint,
    spec_tile_path,
    PackingInfo,
    Tiler,
    TilingPaintClipInfo,
    TilingPathInfo,
};
use crate::winding::lemma_pack_keeps_tiles;
use crate::z_buffer::{
    lemma_test_after_updates,
    spec_solid_tiles_from,
    spec_test,
    spec_update_all,
    ZBuffer,
    ZUpdate,
};

verus! {

/// What tiling a clip path has given, with its alpha tile indices in the range of the
/// clip stage.
pub struct ClipBuildResult {
    pub alpha_tiles: Vec<AlphaTile>,
    pub tiles: DenseTileMap<TileObjectPrimitive>,
    pub path_id: ClipPathId,
    pub fill_rule: FillRule,
}

/// A clip build result as a mathematical value.
pub struct ClipBuildResultView {
    pub alpha_tiles: Seq<AlphaTile>,
    pub tile_rect: RectI,
    pub tiles: Seq<TileObjectPrimitive>,
    pub path_id: ClipPathId,
    pub fill_rule: FillRule,
}

impl View for ClipBuildResult {
    type V = ClipBuildResultView;

    open spec fn view(&self) -> ClipBuildResultView {
        ClipBuildResultView {
            alpha_tiles: self.alpha_tiles@,
            tile_rect: self.tiles.rect,
            tiles: self.tiles.data@,
            path_id: self.path_id,
            fill_rule: self.fill_rule,
        }
    }
}

/// What tiling a draw path has given, with its alpha tile indices in the range of the
/// draw stage.
pub struct DrawBuildResult {
    pub alpha_tiles: Vec<AlphaTile>,
    pub path_id: DrawPathId,
}

/// A draw build result as a mathematical value.
pub struct DrawBuildResultView {
    pub alpha_tiles: Seq<AlphaTile>,
    pub path_id: DrawPathId,
}

impl View for DrawBuildResult {
    type V = DrawBuildResultView;

    open spec fn view(&self) -> DrawBuildResultView {
        DrawBuildResultView { alpha_tiles: self.alpha_tiles@, path_id: self.path_id }
    }
}

/// The views of clip build results.
pub open spec fn spec_clip_views(results: Seq<ClipBuildResult>) -> Seq<ClipBuildResultView> {
    Seq::new(results.len(), |i: int| results[i]@)
}

/// The views of draw build results.
pub open spec fn spec_draw_views(results: Seq<DrawBuildResult>) -> Seq<DrawBuildResultView> {
    Seq::new(results.len(), |i: int| results[i]@)
}

/// What packing the tiles of a clip path depends on.
pub open spec fn spec_clip_packing_info(scene: Scene, index: int) -> PackingInfo {
    PackingInfo {
        is_clip: true,
        path_id: index as u32,
        paint: spec_no_paint(),
        fill_rule: scene.clip_paths[index].fill_rule,
        clip: None,
    }
}

/// What tiling the clip path with the given index gives, with alpha tile indices that
/// count from zero.
pub open spec fn spec_build_clip_path(scene: Scene, view_box: RectI, index: int) -> Result<
    BuiltObjectView,
    BuildError,
> {
    match spec_tile_path(
        scene.clip_paths[index].outline.spec_segments(),
        view_box,
        spec_clip_packing_info(scene, index),
    ) {
        None => Err(BuildError::AlphaTileOverflow),
        Some(object) => Ok(object),
    }
}

/// The index of the first clip build result from index `k` on that belongs to the clip
/// path `id`.
pub open spec fn spec_find_clip(clips: Seq<ClipBuildResultView>, id: ClipPathId, k: int) -> Option<
    int,
>
    decreases clips.len() - k,
{
    if k < 0 || k >= clips.len() {
        None
    } else if clips[k].path_id == id {
        Some(k)
    } else {
        spec_find_clip(clips, id, k + 1)
    }
}

/// The build result of the clip path that masks the draw path with the given index;
/// `None` where the path names no clip path, or one that has no build result.
pub open spec fn spec_clip_of_draw_path(
    scene: Scene,
    clips: Seq<ClipBuildResultView>,
    index: int,
) -> Option<ClipBuildResultView> {
    match scene.draw_paths[index].clip_path {
        None => None,
        Some(clip_path_id) => match spec_find_clip(clips, clip_path_id, 0) {
            None => None,
            Some(k) => Some(clips[k]),
        },
    }
}

/// What tiling the draw path with the given index gives, with alpha tile indices that
/// count from zero; the error where the path names a paint or a clip path that is not
/// there.
pub open spec fn spec_build_draw_path(
    scene: Scene,
    view_box: RectI,
    clips: Seq<ClipBuildResultView>,
    index: int,
) -> Result<BuiltObjectView, BuildError> {
    let path = scene.draw_paths[index];
    if path.paint.0 >= scene.paint_metadata.len() {
        Err(BuildError::InvalidPaintReference)
    } else {
        let paint = scene.paint_metadata[path.paint.0 as int];
        match path.clip_path {
            None => match spec_tile_path(
                path.outline.spec_segments(),
                view_box,
                PackingInfo {
                    is_clip: false,
                    path_id: index as u32,
                    paint,
                    fill_rule: path.fill_rule,
                    clip: None,
                },
            ) {
                None => Err(BuildError::AlphaTileOverflow),
                Some(object) => Ok(object),
            },
            Some(clip_path_id) => match spec_find_clip(clips, clip_path_id, 0) {
                None => Err(BuildError::InvalidClipReference),
                Some(k) => match spec_tile_path(
                    path.outline.spec_segments(),
                    view_box,
                    PackingInfo {
                        is_clip: false,
                        path_id: index as u32,
                        paint,
                        fill_rule: path.fill_rule,
                        clip: Some(clips[k]),
                    },
                ) {
                    None => Err(BuildError::AlphaTileOverflow),
                    Some(object) => Ok(object),
                },
            },
        }
    }
}

/// Whether the scene can be built on this machine: its view box is in order and covers
/// no more tiles than a tile index can count, and its paths are few enough for their
/// indices.
pub open spec fn spec_is_buildable(scene: Scene, options: PreparedBuildOptions) -> bool {
    &&& scene.view_box.wf()
    &&& scene.spec_effective_view_box(options).spec_round_out_to_tile_bounds().spec_area()
        <= u32::MAX
    &&& scene.draw_paths.len() + scene.clip_paths.len() < u32::MAX
}

/// Tells whether the scene can be built on this machine.
pub fn is_buildable(scene: &Scene, options: &PreparedBuildOptions) -> (buildable: bool)
    ensures
        buildable == spec_is_buildable(*scene, *options),
{
    if !(scene.view_box.origin.x <= scene.view_box.lower_right.x && scene.view_box.origin.y
        <= scene.view_box.lower_right.y) {
        return false;
    }
    let tile_rect: RectI = scene.effective_view_box(options).round_out_to_tile_bounds();
    if tile_rect.area() > u32::MAX as u64 {
        return false;
    }
    if scene.draw_paths.len() >= u32::MAX as usize || scene.clip_paths.len() >= u32::MAX as usize {
        return false;
    }
    scene.draw_paths.len() as u64 + (scene.clip_paths.len() as u64) < u32::MAX as u64
}

/// Tiles one clip path of the scene.
pub fn build_clip_path(clip_path_id: ClipPathId, view_box: RectI, scene: &Scene) -> (result: Result<
    BuiltObject,
    BuildError,
>)
    requires
        clip_path_id.0 < scene.clip_paths.len(),
        view_box.wf(),
        view_box.spec_round_out_to_tile_bounds().spec_area() <= u32::MAX,
    ensures
        spec_is_tiled(result, spec_build_clip_path(*scene, view_box, clip_path_id.0 as int)),
        result is Ok ==> spec_no_empty_tiles(
            result->Ok_0@,
            scene.clip_paths[clip_path_id.0 as int].fill_rule,
        ),
        result is Ok ==> spec_packed_once(result->Ok_0@, None),
        result is Ok ==> result->Ok_0@.spec_fills_match_tiles(),
{
    let clip_path = &scene.clip_paths[clip_path_id.0 as usize];
    let tiling_path_info = TilingPathInfo {
        outline: &clip_path.outline,
        fill_rule: clip_path.fill_rule,
        paint_clip_info: TilingPaintClipInfo::Clip { path_id: clip_path_id },
    };
    let mut tiler = Tiler::new(view_box, tiling_path_info);
    match tiler.generate_tiles() {
        Ok(()) => Ok(tiler.built_object),
        Err(error) => Err(error),
    }
}

/// Finds the build result of a clip path among those of all clip paths.
fn find_clip_build_result(clip_build_results: &Vec<ClipBuildResult>, clip_path_id: ClipPathId) -> (found:
    Option<usize>)
    ensures
        match found {
            Some(k) => spec_find_clip(spec_clip_views(clip_build_results@), clip_path_id, 0)
                == Some(k as int) && k < clip_build_results.len(),
            None => spec_find_clip(spec_clip_views(clip_build_results@), clip_path_id, 0).is_none(),
        },
{
    let mut k: usize = 0;
    while k < clip_build_results.len()
        invariant
            k <= clip_build_results.len(),
            spec_find_clip(spec_clip_views(clip_build_results@), clip_path_id, k as int)
                == spec_find_clip(spec_clip_views(clip_build_results@), clip_path_id, 0),
        decreases clip_build_results.len() - k,
    {
        if clip_build_results[k].path_id.0 == clip_path_id.0 {
            return Some(k);
        }
        k = k + 1;
    }
    None
}

/// Tiles one draw path of the scene, masked by its clip path where it names one.
pub fn build_draw_path(
    draw_path_id: DrawPathId,
    view_box: RectI,
    scene: &Scene,
    clip_build_results: &Vec<ClipBuildResult>,
) -> (result: Result<BuiltObject, BuildError>)
    requires
        draw_path_id.0 < scene.draw_paths.len(),
        view_box.wf(),
        view_box.spec_round_out_to_tile_bounds().spec_area() <= u32::MAX,
        forall|k: int|
            0 <= k < clip_build_results.len() ==> (#[trigger] clip_build_results[k]).tiles.wf(),
    ensures
        spec_is_tiled(
            result,
            spec_build_draw_path(
                *scene,
                view_box,
                spec_clip_views(clip_build_results@),
                draw_path_id.0 as int,
            ),
        ),
        result is Ok ==> spec_no_empty_tiles(
            result->Ok_0@,
            scene.draw_paths[draw_path_id.0 as int].fill_rule,
        ),
        result is Ok ==> spec_packed_once(
            result->Ok_0@,
            spec_clip_of_draw_path(
                *scene,
                spec_clip_views(clip_build_results@),
                draw_path_id.0 as int,
            ),
        ),
        result is Ok ==> result->Ok_0@.spec_fills_match_tiles(),
{
    let draw_path = &scene.draw_paths[draw_path_id.0 as usize];
    let paint_index: usize = draw_path.paint.0 as usize;
    if paint_index >= scene.paint_metadata.len() {
        return Err(BuildError::InvalidPaintReference);
    }
    let paint_metadata: &PaintMetadata = &scene.paint_metadata[paint_index];
    let paint_clip_info = match draw_path.clip_path {
        None => TilingPaintClipInfo::Draw { path_id: draw_path_id, paint_metadata },
        Some(clip_path_id) => {
            match find_clip_build_result(clip_build_results, clip_path_id) {
                None => {
                    return Err(BuildError::InvalidClipReference);
                },
                Some(k) => TilingPaintClipInfo::DrawClipped {
                    path_id: draw_path_id,
                    clip_path_id,
                    paint_metadata,
                    clip_build_result: &clip_build_results[k],
                },
            }
        },
    };
    let tiling_path_info = TilingPathInfo {
        outline: &draw_path.outline,
        fill_rule: draw_path.fill_rule,
        paint_clip_info,
    };
    let mut tiler = Tiler::new(view_box, tiling_path_info);
    match tiler.generate_tiles() {
        Ok(()) => Ok(tiler.built_object),
        Err(error) => Err(error),
    }
}

/// The build result of the clip path with index `k`.
pub open spec fn spec_clip_result(scene: Scene, stage: StageView, k: int) -> ClipBuildResultView {
    ClipBuildResultView {
        alpha_tiles: spec_rebase_alpha_tiles(stage.objects[k].alpha_tiles, stage.bases[k]),
        tile_rect: stage.objects[k].tile_rect,
        tiles: spec_rebase_tiles(stage.objects[k].tiles, stage.bases[k]),
        path_id: ClipPathId(k as u32),
        fill_rule: scene.clip_paths[k].fill_rule,
    }
}

/// The build results of the clip paths of a stage.
pub open spec fn spec_clip_results(scene: Scene, stage: StageView) -> Seq<ClipBuildResultView> {
    Seq::new(stage.objects.len(), |k: int| spec_clip_result(scene, stage, k))
}

/// The build result of the draw path with index `k`.
pub open spec fn spec_draw_result(stage: StageView, k: int) -> DrawBuildResultView {
    DrawBuildResultView {
        alpha_tiles: spec_rebase_alpha_tiles(stage.objects[k].alpha_tiles, stage.bases[k]),
        path_id: DrawPathId(k as u32),
    }
}

/// The build results of the draw paths of a stage.
pub open spec fn spec_draw_results(stage: StageView) -> Seq<DrawBuildResultView> {
    Seq::new(stage.objects.len(), |k: int| spec_draw_result(stage, k))
}

/// The command that adds the fills of the path with index `k` of a stage.
pub open spec fn spec_fill_command(stage: StageView, render_stage: RenderStage, k: int) -> RenderCommandView {
    RenderCommandView::AddFills {
        fills: spec_rebase_fills(stage.objects[k].fills, stage.bases[k]),
        stage: render_stage,
    }
}

/// The commands that add the fills of the paths of a stage, one for each path.
pub open spec fn spec_fill_commands(stage: StageView, render_stage: RenderStage) -> Seq<
    RenderCommandView,
> {
    Seq::new(stage.objects.len(), |k: int| spec_fill_command(stage, render_stage, k))
}

/// The views of commands.
pub open spec fn spec_command_views(commands: Seq<RenderCommand>) -> Seq<RenderCommandView> {
    Seq::new(commands.len(), |i: int| commands[i]@)
}

/// The entries that a path makes into the Z-buffer: one for each of its solid tiles.
pub open spec fn spec_solid_updates(solid_tiles: Seq<Vector2I>, path_index: u32) -> Seq<ZUpdate> {
    Seq::new(solid_tiles.len(), |j: int| ZUpdate { coords: solid_tiles[j], path_index })
}

/// The cells of the Z-buffer after the paths from index `k` on have made their entries.
pub open spec fn spec_z_cells_from(
    rect: RectI,
    cells: Seq<u32>,
    objects: Seq<BuiltObjectView>,
    k: int,
) -> Seq<u32>
    decreases objects.len() - k,
{
    if k < 0 || k >= objects.len() {
        cells
    } else {
        spec_z_cells_from(
            rect,
            spec_update_all(rect, cells, spec_solid_updates(objects[k].solid_tiles, k as u32), 0),
            objects,
            k + 1,
        )
    }
}

/// Makes the build result of the clip path with index `k` and the one command that
/// adds its fills, of the clip stage, from the object that tiling the path gave. The
/// alpha tile indices of the path are moved into the block of the clip stage's indices
/// that starts at `base`; the tile records and the alpha tiles of the result and the
/// fills of the command carry the moved indices.
pub fn finish_clip_path(scene: &Scene, object: &BuiltObject, k: usize, base: u16) -> (finished: (
    ClipBuildResult,
    RenderCommand,
))
    requires
        k < scene.clip_paths.len(),
        k <= u32::MAX,
        object.wf(),
        spec_alpha_tiles_indexed(object@),
        base + object@.alpha_tile_count <= MAX_ALPHA_TILES,
    ensures
        finished.0@ == (ClipBuildResultView {
            alpha_tiles: spec_rebase_alpha_tiles(object@.alpha_tiles, base as int),
            tile_rect: object@.tile_rect,
            tiles: spec_rebase_tiles(object@.tiles, base as int),
            path_id: ClipPathId(k as u32),
            fill_rule: scene.clip_paths[k as int].fill_rule,
        }),
        finished.0.tiles.wf(),
        finished.1@ == (RenderCommandView::AddFills {
            fills: spec_rebase_fills(object@.fills, base as int),
            stage: RenderStage::Stage0,
        }),
{
    let (fills, alpha_tiles) = rebase_object(object, base);
    let build_result = ClipBuildResult {
        alpha_tiles,
        tiles: rebase_tile_map(object, base),
        path_id: ClipPathId(k as u32),
        fill_rule: scene.clip_paths[k].fill_rule,
    };
    (build_result, RenderCommand::AddFills { fills, stage: RenderStage::Stage0 })
}

/// Makes the build result of the draw path with index `k` and the one command that
/// adds its fills, of the draw stage, from the object that tiling the path gave. The
/// alpha tile indices of the path are moved into the block of the draw stage's indices
/// that starts at `base`; the alpha tiles of the result and the fills of the command
/// carry the moved indices.
pub fn finish_draw_path(object: &BuiltObject, k: usize, base: u16) -> (finished: (
    DrawBuildResult,
    RenderCommand,
))
    requires
        k <= u32::MAX,
        object.wf(),
        spec_alpha_tiles_indexed(object@),
        base + object@.alpha_tile_count <= MAX_ALPHA_TILES,
    ensures
        finished.0@ == (DrawBuildResultView {
            alpha_tiles: spec_rebase_alpha_tiles(object@.alpha_tiles, base as int),
            path_id: DrawPathId(k as u32),
        }),
        finished.1@ == (RenderCommandView::AddFills {
            fills: spec_rebase_fills(object@.fills, base as int),
            stage: RenderStage::Stage1,
        }),
{
    let (fills, alpha_tiles) = rebase_object(object, base);
    let build_result = DrawBuildResult { alpha_tiles, path_id: DrawPathId(k as u32) };
    (build_result, RenderCommand::AddFills { fills, stage: RenderStage::Stage1 })
}

/// What tiling each clip path of the scene gives.
pub open spec fn spec_clip_objects(scene: Scene, view_box: RectI) -> Seq<
    Result<BuiltObjectView, BuildError>,
> {
    Seq::new(scene.clip_paths.len() as nat, |k: int| spec_build_clip_path(scene, view_box, k))
}

/// What tiling each draw path of the scene gives.
pub open spec fn spec_draw_objects(
    scene: Scene,
    view_box: RectI,
    clips: Seq<ClipBuildResultView>,
) -> Seq<Result<BuiltObjectView, BuildError>> {
    Seq::new(
        scene.draw_paths.len() as nat,
        |k: int| spec_build_draw_path(scene, view_box, clips, k),
    )
}

/// The clip stage of a scene: all clip paths, tiled and merged in path order.
pub open spec fn spec_clip_stage(scene: Scene, view_box: RectI, first_index: int) -> Result<
    StageView,
    BuildError,
> {
    spec_stage_from(spec_clip_objects(scene, view_box), spec_stage_start(first_index), 0)
}

/// The draw stage of a scene: all draw paths, tiled and merged in path order.
pub open spec fn spec_draw_stage(
    scene: Scene,
    view_box: RectI,
    clips: Seq<ClipBuildResultView>,
    first_index: int,
) -> Result<StageView, BuildError> {
    spec_stage_from(spec_draw_objects(scene, view_box, clips), spec_stage_start(first_index), 0)
}

/// Makes the build results of the clip paths of a stage and the commands that add their
/// fills.
fn finish_clip_paths(
    scene: &Scene,
    objects: &Vec<Result<BuiltObject, BuildError>>,
    bases: &Vec<u16>,
    stage: Ghost<StageView>,
    first_index: Ghost<int>,
) -> (finished: (Vec<ClipBuildResult>, Vec<RenderCommand>))
    requires
        objects.len() == scene.clip_paths.len(),
        objects.len() <= u32::MAX,
        bases.len() == objects.len(),
        stage@.objects.len() == objects.len(),
        spec_stage_wf(stage@, first_index@),
        forall|k: int|
            0 <= k < objects.len() ==> (#[trigger] objects[k]) is Ok && stage@.objects[k]
                == objects[k]->Ok_0@ && stage@.bases[k] == bases[k],
    ensures
        spec_clip_views(finished.0@) == spec_clip_results(*scene, stage@),
        spec_command_views(finished.1@) == spec_fill_commands(stage@, RenderStage::Stage0),
        forall|k: int| 0 <= k < finished.0.len() ==> (#[trigger] finished.0[k]).tiles.wf(),
{
    let mut results: Vec<ClipBuildResult> = Vec::new();
    let mut commands: Vec<RenderCommand> = Vec::new();
    let mut k: usize = 0;
    while k < objects.len()
        invariant
            k <= objects.len(),
            objects.len() == scene.clip_paths.len(),
            objects.len() <= u32::MAX,
            bases.len() == objects.len(),
            stage@.objects.len() == objects.len(),
            spec_stage_wf(stage@, first_index@),
            forall|j: int|
                0 <= j < objects.len() ==> (#[trigger] objects[j]) is Ok && stage@.objects[j]
                    == objects[j]->Ok_0@ && stage@.bases[j] == bases[j],
            results.len() == k,
            commands.len() == k,
            forall|j: int|
                0 <= j < k ==> (#[trigger] results[j])@ == spec_clip_result(*scene, stage@, j)
                    && results[j].tiles.wf(),
            forall|j: int|
                0 <= j < k ==> (#[trigger] commands[j])@ == spec_fill_command(
                    stage@,
                    RenderStage::Stage0,
                    j,
                ),
        decreases objects.len() - k,
    {
        match &objects[k] {
            Err(_) => {},
            Ok(object) => {
                assert(stage@.objects[k as int].wf() && spec_alpha_tiles_indexed(
                    stage@.objects[k as int],
                ));
                assert(stage@.bases[k as int] + stage@.objects[k as int].alpha_tile_count
                    <= stage@.next_index);
                let (build_result, command) = finish_clip_path(scene, object, k, bases[k]);
                results.push(build_result);
                commands.push(command);
            },
        }
        k = k + 1;
    }
    assert(spec_clip_views(results@) =~= spec_clip_results(*scene, stage@));
    assert(spec_command_views(commands@) =~= spec_fill_commands(stage@, RenderStage::Stage0));
    (results, commands)
}

/// Makes the build results of the draw paths of a stage and the commands that add their
/// fills.
fn finish_draw_paths(
    objects: &Vec<Result<BuiltObject, BuildError>>,
    bases: &Vec<u16>,
    stage: Ghost<StageView>,
    first_index: Ghost<int>,
) -> (finished: (Vec<DrawBuildResult>, Vec<RenderCommand>))
    requires
        objects.len() <= u32::MAX,
        bases.len() == objects.len(),
        stage@.objects.len() == objects.len(),
        spec_stage_wf(stage@, first_index@),
        forall|k: int|
            0 <= k < objects.len() ==> (#[trigger] objects[k]) is Ok && stage@.objects[k]
                == objects[k]->Ok_0@ && stage@.bases[k] == bases[k],
    ensures
        spec_draw_views(finished.0@) == spec_draw_results(stage@),
        spec_command_views(finished.1@) == spec_fill_commands(stage@, RenderStage::Stage1),
{
    let mut results: Vec<DrawBuildResult> = Vec::new();
    let mut commands: Vec<RenderCommand> = Vec::new();
    let mut k: usize = 0;
    while k < objects.len()
        invariant
            k <= objects.len(),
            objects.len() <= u32::MAX,
            bases.len() == objects.len(),
            stage@.objects.len() == objects.len(),
            spec_stage_wf(stage@, first_index@),
            forall|j: int|
                0 <= j < objects.len() ==> (#[trigger] objects[j]) is Ok && stage@.objects[j]
                    == objects[j]->Ok_0@ && stage@.bases[j] == bases[j],
            results.len() == k,
            commands.len() == k,
            forall|j: int| 0 <= j < k ==> (#[trigger] results[j])@ == spec_draw_result(stage@, j),
            forall|j: int|
                0 <= j < k ==> (#[trigger] commands[j])@ == spec_fill_command(
                    stage@,
                    RenderStage::Stage1,
                    j,
                ),
        decreases objects.len() - k,
    {
        match &objects[k] {
            Err(_) => {},
            Ok(object) => {
                assert(stage@.objects[k as int].wf() && spec_alpha_tiles_indexed(
                    stage@.objects[k as int],
                ));
                assert(stage@.bases[k as int] + stage@.objects[k as int].alpha_tile_count
                    <= stage@.next_index);
                let (build_result, command) = finish_draw_path(object, k, bases[k]);
                results.push(build_result);
                commands.push(command);
            },
        }
        k = k + 1;
    }
    assert(spec_draw_views(results@) =~= spec_draw_results(stage@));
    assert(spec_command_views(commands@) =~= spec_fill_commands(stage@, RenderStage::Stage1));
    (results, commands)
}

/// Gives the clip paths of a scene their blocks of alpha tile indices, in path order,
/// and makes their build results and the commands that add their fills.
fn merge_clip_paths(
    scene: &Scene,
    view_box: RectI,
    objects: &Vec<Result<BuiltObject, BuildError>>,
    first_index: usize,
) -> (result: Result<(Vec<ClipBuildResult>, Vec<RenderCommand>, usize), BuildError>)
    requires
        objects.len() == scene.clip_paths.len(),
        scene.clip_paths.len() <= u32::MAX,
        first_index <= MAX_ALPHA_TILES,
        forall|k: int|
            0 <= k < objects.len() ==> spec_is_tiled(
                #[trigger] objects[k],
                spec_build_clip_path(*scene, view_box, k),
            ),
    ensures
        match spec_clip_stage(*scene, view_box, first_index as int) {
            Err(error) => result is Err && result->Err_0 == error,
            Ok(stage) => {
                &&& result is Ok
                &&& spec_clip_views(result->Ok_0.0@) == spec_clip_results(*scene, stage)
                &&& spec_command_views(result->Ok_0.1@) == spec_fill_commands(
                    stage,
                    RenderStage::Stage0,
                )
                &&& result->Ok_0.2 == stage.next_index
                &&& spec_stage_wf(stage, first_index as int)
                &&& forall|k: int|
                    0 <= k < result->Ok_0.0.len() ==> (#[trigger] result->Ok_0.0[k]).tiles.wf()
            },
        },
{
    let ghost expected = spec_clip_objects(*scene, view_box);
    let (bases, next_index) = match assign_blocks(objects, first_index, Ghost(expected)) {
        Ok(assigned) => assigned,
        Err(error) => {
            return Err(error);
        },
    };
    let ghost stage = spec_clip_stage(*scene, view_box, first_index as int)->Ok_0;
    let (results, commands) = finish_clip_paths(
        scene,
        objects,
        &bases,
        Ghost(stage),
        Ghost(first_index as int),
    );
    Ok((results, commands, next_index))
}

/// Gives the draw paths of a scene their blocks of alpha tile indices, in path order,
/// and makes their build results and the commands that add their fills.
fn merge_draw_paths(
    scene: &Scene,
    view_box: RectI,
    clips: Ghost<Seq<ClipBuildResultView>>,
    objects: &Vec<Result<BuiltObject, BuildError>>,
    first_index: usize,
) -> (result: Result<(Vec<DrawBuildResult>, Vec<RenderCommand>, usize), BuildError>)
    requires
        objects.len() == scene.draw_paths.len(),
        scene.draw_paths.len() <= u32::MAX,
        first_index <= MAX_ALPHA_TILES,
        forall|k: int|
            0 <= k < objects.len() ==> spec_is_tiled(
                #[trigger] objects[k],
                spec_build_draw_path(*scene, view_box, clips@, k),
            ),
    ensures
        match spec_draw_stage(*scene, view_box, clips@, first_index as int) {
            Err(error) => result is Err && result->Err_0 == error,
            Ok(stage) => {
                &&& result is Ok
                &&& spec_draw_views(result->Ok_0.0@) == spec_draw_results(stage)
                &&& spec_command_views(result->Ok_0.1@) == spec_fill_commands(
                    stage,
                    RenderStage::Stage1,
                )
                &&& result->Ok_0.2 == stage.next_index
                &&& spec_stage_wf(stage, first_index as int)
                &&& stage.objects.len() == objects.len()
                &&& forall|k: int|
                    0 <= k < objects.len() ==> (#[trigger] objects[k]) is Ok
                        && stage.objects[k] == objects[k]->Ok_0@
            },
        },
{
    let ghost expected = spec_draw_objects(*scene, view_box, clips@);
    let (bases, next_index) = match assign_blocks(objects, first_index, Ghost(expected)) {
        Ok(assigned) => assigned,
        Err(error) => {
            return Err(error);
        },
    };
    let ghost stage = spec_draw_stage(*scene, view_box, clips@, first_index as int)->Ok_0;
    let (results, commands) = finish_draw_paths(
        objects,
        &bases,
        Ghost(stage),
        Ghost(first_index as int),
    );
    Ok((results, commands, next_index))
}

/// Enters the solid tiles of the draw paths into the Z-buffer, in path order.
fn update_z_buffer(z_buffer: &mut ZBuffer, objects: &Vec<Result<BuiltObject, BuildError>>, stage: Ghost<StageView>)
    requires
        old(z_buffer).wf(),
        objects.len() < u32::MAX,
        stage@.objects.len() == objects.len(),
        forall|k: int|
            0 <= k < objects.len() ==> (#[trigger] objects[k]) is Ok && stage@.objects[k]
                == objects[k]->Ok_0@,
    ensures
        final(z_buffer).wf(),
        final(z_buffer).buffer.rect == old(z_buffer).buffer.rect,
        final(z_buffer).buffer.data@ == spec_z_cells_from(
            old(z_buffer).buffer.rect,
            old(z_buffer).buffer.data@,
            stage@.objects,
            0,
        ),
{
    let ghost rect = z_buffer.buffer.rect;
    let mut k: usize = 0;
    while k < objects.len()
        invariant
            z_buffer.wf(),
            z_buffer.buffer.rect == rect,
            rect == old(z_buffer).buffer.rect,
            k <= objects.len(),
            objects.len() < u32::MAX,
            stage@.objects.len() == objects.len(),
            forall|j: int|
                0 <= j < objects.len() ==> (#[trigger] objects[j]) is Ok && stage@.objects[j]
                    == objects[j]->Ok_0@,
            spec_z_cells_from(rect, z_buffer.buffer.data@, stage@.objects, k as int)
                == spec_z_cells_from(rect, old(z_buffer).buffer.data@, stage@.objects, 0),
        decreases objects.len() - k,
    {
        match &objects[k] {
            Err(_) => {},
            Ok(object) => {
                let ghost updates = spec_solid_updates(object@.solid_tiles, k as u32);
                let ghost cells = z_buffer.buffer.data@;
                let mut j: usize = 0;
                while j < object.solid_tiles.len()
                    invariant
                        z_buffer.wf(),
                        z_buffer.buffer.rect == rect,
                        j <= object.solid_tiles.len(),
                        k < u32::MAX,
                        updates == spec_solid_updates(object@.solid_tiles, k as u32),
                        spec_update_all(rect, z_buffer.buffer.data@, updates, j as int)
                            == spec_update_all(rect, cells, updates, 0),
                    decreases object.solid_tiles.len() - j,
                {
                    z_buffer.update(object.solid_tiles[j], k as u32);
                    j = j + 1;
                }
            },
        }
        k = k + 1;
    }
}

/// Sends commands to a listener, in order.
fn send_all<L: RenderCommandListener>(listener: &mut L, commands: Vec<RenderCommand>)
    ensures
        final(listener).sent() == old(listener).sent() + spec_command_views(commands@),
{
    let ghost all = commands@;
    let ghost before = listener.sent();
    assert(before + spec_command_views(all).take(0) =~= before);
    for command in pending: commands
        invariant
            pending.seq() == all,
            listener.sent() == before + spec_command_views(all).take(pending.index()),
    {
        listener.send(command);
        assert(listener.sent() =~= before + spec_command_views(all).take(pending.index() + 1));
    }
    assert(spec_command_views(all).take(all.len() as int) =~= spec_command_views(all));
}

/// The alpha tiles that are left after culling.
pub struct CulledTiles {
    /// The alpha tiles of draw paths that are still visible.
    pub draw: Vec<AlphaTile>,
    /// The alpha tiles of clip paths.
    pub clip: Vec<AlphaTile>,
}

impl CulledTiles {
    /// Makes the lists of a frame of which nothing has been kept yet.
    pub fn new() -> (tiles: CulledTiles)
        ensures
            tiles.draw@.len() == 0,
            tiles.clip@.len() == 0,
    {
        CulledTiles { draw: Vec::new(), clip: Vec::new() }
    }
}

/// How many tiles of each kind a frame holds.
#[derive(Clone, Copy, Debug, Default)]
pub struct TileStats {
    pub solid_tile_count: u32,
    pub alpha_tile_count: u32,
}

/// The alpha tiles of the clip paths from index `k` on, in path order. None is culled.
pub open spec fn spec_cull_clip_from(clips: Seq<ClipBuildResultView>, k: int) -> Seq<AlphaTile>
    decreases clips.len() - k,
{
    if k < 0 || k >= clips.len() {
        Seq::empty()
    } else {
        clips[k].alpha_tiles + spec_cull_clip_from(clips, k + 1)
    }
}

/// Those of the alpha tiles from index `j` on, of the draw path with index `path_index`,
/// that no opaque path above it covers in full.
pub open spec fn spec_visible_from(
    rect: RectI,
    cells: Seq<u32>,
    tiles: Seq<AlphaTile>,
    path_index: u32,
    j: int,
) -> Seq<AlphaTile>
    decreases tiles.len() - j,
{
    if j < 0 || j >= tiles.len() {
        Seq::empty()
    } else if spec_test(rect, cells, tiles[j].tile_coords, path_index) {
        seq![tiles[j]] + spec_visible_from(rect, cells, tiles, path_index, j + 1)
    } else {
        spec_visible_from(rect, cells, tiles, path_index, j + 1)
    }
}

/// The alpha tiles of the draw paths from index `k` on that are still visible, in path
/// order.
pub open spec fn spec_cull_draw_from(
    rect: RectI,
    cells: Seq<u32>,
    draws: Seq<DrawBuildResultView>,
    k: int,
) -> Seq<AlphaTile>
    decreases draws.len() - k,
{
    if k < 0 || k >= draws.len() {
        Seq::empty()
    } else {
        spec_visible_from(rect, cells, draws[k].alpha_tiles, draws[k].path_id.0, 0)
            + spec_cull_draw_from(rect, cells, draws, k + 1)
    }
}

/// The commands that draw the tiles of a frame: each list of tiles in a command of its
/// own, and no command for an empty list.
pub open spec fn spec_pack_commands(
    solid_tiles: Seq<SolidTile>,
    draw_tiles: Seq<AlphaTile>,
    clip_tiles: Seq<AlphaTile>,
) -> Seq<RenderCommandView> {
    (if solid_tiles.len() > 0 {
        seq![RenderCommandView::DrawSolidTiles(solid_tiles)]
    } else {
        Seq::empty()
    }) + (if draw_tiles.len() > 0 {
        seq![RenderCommandView::DrawAlphaTiles(draw_tiles)]
    } else {
        Seq::empty()
    }) + (if clip_tiles.len() > 0 {
        seq![RenderCommandView::DrawClipTiles(clip_tiles)]
    } else {
        Seq::empty()
    })
}

/// The commands that end the fills of a frame and draw its tiles.
pub open spec fn spec_finish_commands(
    scene: Scene,
    rect: RectI,
    cells: Seq<u32>,
    clips: Seq<ClipBuildResultView>,
    draws: Seq<DrawBuildResultView>,
) -> Seq<RenderCommandView> {
    seq![RenderCommandView::FlushFills] + spec_pack_commands(
        spec_solid_tiles_from(
            rect,
            cells,
            scene.draw_paths@,
            scene.paint_metadata@,
            0,
            scene.draw_paths.len() as u32,
            0,
        ),
        spec_cull_draw_from(rect, cells, draws, 0),
        spec_cull_clip_from(clips, 0),
    )
}

/// Whether every draw path of the scene names a paint that the scene holds.
pub open spec fn spec_paints_valid(scene: Scene) -> bool {
    forall|p: int|
        0 <= p < scene.draw_paths.len() ==> (#[trigger] scene.draw_paths[p]).paint.0
            < scene.paint_metadata.len()
}

/// What building a scene gives before its commands are sent.
pub struct FrameView {
    pub clip_stage: StageView,
    pub draw_stage: StageView,
    /// The cells of the Z-buffer after the draw paths have made their entries.
    pub z_cells: Seq<u32>,
}

/// What building a scene gives: all clip paths are tiled and merged, then all draw
/// paths, then the solid tiles of the draw paths are entered into the Z-buffer. The
/// error is that of the first path, in this order, that fails.
pub open spec fn spec_build_frame(
    scene: Scene,
    view_box: RectI,
    first_clip_index: int,
    first_draw_index: int,
    z_rect: RectI,
    z_cells: Seq<u32>,
) -> Result<FrameView, BuildError> {
    match spec_build_stages(scene, view_box, first_clip_index, first_draw_index) {
        Err(error) => Err(error),
        Ok(stages) => Ok(
            FrameView {
                clip_stage: stages.0,
                draw_stage: stages.1,
                z_cells: spec_z_cells_from(z_rect, z_cells, stages.1.objects, 0),
            },
        ),
    }
}

/// The two stages of a scene: all clip paths tiled and merged, then all draw paths.
pub open spec fn spec_build_stages(
    scene: Scene,
    view_box: RectI,
    first_clip_index: int,
    first_draw_index: int,
) -> Result<(StageView, StageView), BuildError> {
    match spec_clip_stage(scene, view_box, first_clip_index) {
        Err(error) => Err(error),
        Ok(clip_stage) => match spec_draw_stage(
            scene,
            view_box,
            spec_clip_results(scene, clip_stage),
            first_draw_index,
        ) {
            Err(error) => Err(error),
            Ok(draw_stage) => Ok((clip_stage, draw_stage)),
        },
    }
}

/// The commands of a frame but for the last, which ends the frame: the start, the paint
/// data, the fills of the clip paths, the fills of the draw paths, the flush, and the
/// tiles.
pub open spec fn spec_frame_commands(
    scene: Scene,
    options: PreparedBuildOptions,
    frame: FrameView,
    z_rect: RectI,
) -> Seq<RenderCommandView> {
    seq![
        RenderCommandView::Start {
            bounding_quad: options.bounding_quad,
            path_count: (scene.draw_paths.len() + scene.clip_paths.len()) as usize,
        },
        RenderCommandView::AddPaintData(scene.paint_data@),
    ] + spec_fill_commands(frame.clip_stage, RenderStage::Stage0) + spec_fill_commands(
        frame.draw_stage,
        RenderStage::Stage1,
    ) + spec_finish_commands(
        scene,
        z_rect,
        frame.z_cells,
        spec_clip_results(scene, frame.clip_stage),
        spec_draw_results(frame.draw_stage),
    )
}

/// All commands of a frame that took `build_time` to build.
pub open spec fn spec_build_commands(
    scene: Scene,
    options: PreparedBuildOptions,
    frame: FrameView,
    z_rect: RectI,
    build_time: Duration,
) -> Seq<RenderCommandView> {
    spec_frame_commands(scene, options, frame, z_rect).push(
        RenderCommandView::Finish { build_time },
    )
}

/// An alpha tile of a draw path survives culling exactly if its tile was visible before
/// the draw paths made their entries into the Z-buffer, and no path with a higher index
/// has a solid tile at its coordinates.
pub proof fn lemma_occlusion(
    rect: RectI,
    cells: Seq<u32>,
    objects: Seq<BuiltObjectView>,
    k: int,
    at: Vector2I,
    path_index: u32,
)
    requires
        rect.wf(),
        cells.len() == rect.spec_area(),
        rect.spec_contains_point(at),
        0 <= k <= objects.len(),
        objects.len() < u32::MAX,
    ensures
        spec_z_cells_from(rect, cells, objects, k).len() == cells.len(),
        spec_test(rect, spec_z_cells_from(rect, cells, objects, k), at, path_index) <==> (
        spec_test(rect, cells, at, path_index) && forall|q: int, j: int|
            k <= q < objects.len() && 0 <= j < objects[q].solid_tiles.len()
                && #[trigger] objects[q].solid_tiles[j] == at ==> q <= path_index),
    decreases objects.len() - k,
{
    if k < objects.len() {
        let updates = spec_solid_updates(objects[k].solid_tiles, k as u32);
        let next = spec_update_all(rect, cells, updates, 0);
        lemma_test_after_updates(rect, cells, updates, 0, at, path_index);
        lemma_occlusion(rect, next, objects, k + 1, at, path_index);
        let covered_later = forall|q: int, j: int|
            k + 1 <= q < objects.len() && 0 <= j < objects[q].solid_tiles.len()
                && #[trigger] objects[q].solid_tiles[j] == at ==> q <= path_index;
        let covered_here = forall|j: int|
            0 <= j < updates.len() && (#[trigger] updates[j]).coords == at ==> updates[j].path_index
                <= path_index;
        if spec_test(rect, cells, at, path_index) && covered_here && covered_later {
            assert forall|q: int, j: int|
                k <= q < objects.len() && 0 <= j < objects[q].solid_tiles.len()
                    && #[trigger] objects[q].solid_tiles[j] == at implies q <= path_index by {
                if q == k {
                    assert(updates[j].coords == at);
                }
            }
        }
        if forall|q: int, j: int|
            k <= q < objects.len() && 0 <= j < objects[q].solid_tiles.len()
                && #[trigger] objects[q].solid_tiles[j] == at ==> q <= path_index {
            assert forall|j: int|
                0 <= j < updates.len() && (#[trigger] updates[j]).coords == at implies updates[j].path_index
                <= path_index by {
                assert(objects[k].solid_tiles[j] == at);
            }
        }
    }
}

/// Whether a command draws tiles.
pub open spec fn spec_is_draw_command(command: RenderCommandView) -> bool {
    command is DrawSolidTiles || command is DrawAlphaTiles || command is DrawClipTiles
}

/// The commands of a frame come in a fixed order: the start is first and the paint data
/// second; then come the fills, those of the clip paths before those of the draw paths;
/// then the flush; then the commands that draw tiles; and the end of the frame is last.
pub proof fn lemma_command_order(
    scene: Scene,
    options: PreparedBuildOptions,
    frame: FrameView,
    z_rect: RectI,
    build_time: Duration,
)
    ensures
        ({
            let commands = spec_build_commands(scene, options, frame, z_rect, build_time);
            let clip_count = frame.clip_stage.objects.len() as int;
            let fill_count = clip_count + frame.draw_stage.objects.len();
            &&& 4 + fill_count <= commands.len() <= 7 + fill_count
            &&& commands[0] is Start
            &&& commands[1] is AddPaintData
            &&& forall|i: int|
                2 <= i < 2 + clip_count ==> (#[trigger] commands[i]) is AddFills
                    && commands[i]->AddFills_stage == RenderStage::Stage0
            &&& forall|i: int|
                2 + clip_count <= i < 2 + fill_count ==> (#[trigger] commands[i]) is AddFills
                    && commands[i]->AddFills_stage == RenderStage::Stage1
            &&& commands[2 + fill_count] is FlushFills
            &&& forall|i: int|
                2 + fill_count < i < commands.len() - 1 ==> spec_is_draw_command(
                    #[trigger] commands[i],
                )
            &&& commands[commands.len() - 1] is Finish
        }),
{
    let commands = spec_build_commands(scene, options, frame, z_rect, build_time);
    let clip_fills = spec_fill_commands(frame.clip_stage, RenderStage::Stage0);
    let draw_fills = spec_fill_commands(frame.draw_stage, RenderStage::Stage1);
    let tail = spec_finish_commands(
        scene,
        z_rect,
        frame.z_cells,
        spec_clip_results(scene, frame.clip_stage),
        spec_draw_results(frame.draw_stage),
    );
    let clip_count = clip_fills.len() as int;
    let fill_count = clip_count + draw_fills.len();
    assert(1 <= tail.len() <= 4);
    assert(tail[0] is FlushFills);
    assert forall|i: int| 1 <= i < tail.len() implies spec_is_draw_command(#[trigger] tail[i]) by {}
    assert forall|i: int| 2 <= i < 2 + clip_count implies (#[trigger] commands[i]) is AddFills
        && commands[i]->AddFills_stage == RenderStage::Stage0 by {
        assert(commands[i] == clip_fills[i - 2]);
    }
    assert forall|i: int| 2 + clip_count <= i < 2 + fill_count implies (
    #[trigger] commands[i]) is AddFills && commands[i]->AddFills_stage == RenderStage::Stage1 by {
        assert(commands[i] == draw_fills[i - 2 - clip_count]);
    }
    assert(commands[2 + fill_count] == tail[0]);
    assert forall|i: int| 2 + fill_count < i < commands.len() - 1 implies spec_is_draw_command(
        #[trigger] commands[i],
    ) by {
        assert(commands[i] == tail[i - 2 - fill_count]);
    }
}

/// Building is a function of the scene, the options and the state of the builder: two
/// builds that start alike send the same commands but for the time that the last command
/// tells, whatever executor tiles the paths.
pub proof fn lemma_build_deterministic(
    scene: Scene,
    options: PreparedBuildOptions,
    frame: FrameView,
    z_rect: RectI,
    first_time: Duration,
    second_time: Duration,
)
    ensures
        spec_build_commands(scene, options, frame, z_rect, first_time).drop_last()
            == spec_build_commands(scene, options, frame, z_rect, second_time).drop_last(),
        spec_build_commands(scene, options, frame, z_rect, first_time).last() is Finish,
        spec_build_commands(scene, options, frame, z_rect, second_time).last() is Finish,
{
    let commands = spec_frame_commands(scene, options, frame, z_rect);
    assert(commands.push(RenderCommandView::Finish { build_time: first_time }).drop_last()
        =~= commands);
    assert(commands.push(RenderCommandView::Finish { build_time: second_time }).drop_last()
        =~= commands);
}

/// Whether two objects have the same fills and as many alpha tiles.
pub open spec fn spec_same_fills(first: BuiltObjectView, second: BuiltObjectView) -> bool {
    first.fills == second.fills && first.alpha_tile_count == second.alpha_tile_count
}

/// Whether tiling gives the two the same fills and as many alpha tiles, or fails for
/// both with the same error.
pub open spec fn spec_same_fills_or_error(
    first: Result<BuiltObjectView, BuildError>,
    second: Result<BuiltObjectView, BuildError>,
) -> bool {
    match first {
        Ok(object) => second is Ok && spec_same_fills(object, second->Ok_0),
        Err(error) => second == Err::<BuiltObjectView, BuildError>(error),
    }
}

/// Whether two stages have given their paths the same blocks of alpha tile indices, and
/// the paths have the same fills.
pub open spec fn spec_same_blocks(first: StageView, second: StageView) -> bool {
    &&& first.objects.len() == second.objects.len()
    &&& first.bases == second.bases
    &&& first.next_index == second.next_index
    &&& forall|k: int|
        0 <= k < first.objects.len() ==> spec_same_fills(
            #[trigger] first.objects[k],
            second.objects[k],
        )
}

/// The fills of a path and the number of its alpha tiles do not depend on how its tiles
/// are packed: on its paint, on its clip path, on the kind of path it is.
pub proof fn lemma_fills_ignore_packing(
    segments: Seq<LineSegment>,
    view_box: RectI,
    first: PackingInfo,
    second: PackingInfo,
)
    ensures
        spec_tile_path(segments, view_box, first) is Some <==> spec_tile_path(
            segments,
            view_box,
            second,
        ) is Some,
        spec_tile_path(segments, view_box, first) is Some ==> spec_same_fills(
            spec_tile_path(segments, view_box, first)->Some_0,
            spec_tile_path(segments, view_box, second)->Some_0,
        ),
{
    let start = BuiltObjectView::spec_new(crate::tiles::spec_path_bounds(segments, view_box));
    let tiled = crate::tiles::spec_strips_from(
        start,
        segments,
        start.tile_rect.origin.y as int,
        start.tile_rect.lower_right.y as int,
    );
    if tiled is Some {
        lemma_pack_keeps_tiles(tiled->Some_0, first, 0);
        lemma_pack_keeps_tiles(tiled->Some_0, second, 0);
    }
}

/// Which build result belongs to a clip path depends on the path indices of the build
/// results alone.
pub proof fn lemma_find_clip_by_path_id(
    first: Seq<ClipBuildResultView>,
    second: Seq<ClipBuildResultView>,
    id: ClipPathId,
    k: int,
)
    requires
        first.len() == second.len(),
        forall|j: int| 0 <= j < first.len() ==> (#[trigger] first[j]).path_id == second[j].path_id,
    ensures
        spec_find_clip(first, id, k) == spec_find_clip(second, id, k),
    decreases first.len() - k,
{
    if 0 <= k < first.len() {
        assert(first[k].path_id == second[k].path_id);
        if first[k].path_id != id {
            lemma_find_clip_by_path_id(first, second, id, k + 1);
        }
    }
}

/// Stages that merge paths with the same fills give the paths the same blocks.
pub proof fn lemma_same_blocks(
    first: Seq<Result<BuiltObjectView, BuildError>>,
    second: Seq<Result<BuiltObjectView, BuildError>>,
    first_stage: StageView,
    second_stage: StageView,
    k: int,
)
    requires
        first.len() == second.len(),
        forall|j: int|
            0 <= j < first.len() ==> spec_same_fills_or_error(#[trigger] first[j], second[j]),
        spec_same_blocks(first_stage, second_stage),
        first_stage.objects.len() == first_stage.bases.len(),
        0 <= k,
    ensures
        match spec_stage_from(first, first_stage, k) {
            Ok(stage) => spec_stage_from(second, second_stage, k) is Ok && spec_same_blocks(
                stage,
                spec_stage_from(second, second_stage, k)->Ok_0,
            ) && stage.objects.len() == stage.bases.len(),
            Err(error) => spec_stage_from(second, second_stage, k) == Err::<
                StageView,
                BuildError,
            >(error),
        },
    decreases first.len() - k,
{
    if k < first.len() {
        assert(spec_same_fills_or_error(first[k], second[k]));
        if first[k] is Ok {
            let first_object = first[k]->Ok_0;
            let second_object = second[k]->Ok_0;
            if spec_merge(first_stage, first_object) is Ok {
                let first_next = spec_merge(first_stage, first_object)->Ok_0;
                let second_next = spec_merge(second_stage, second_object)->Ok_0;
                assert forall|j: int| 0 <= j < first_next.objects.len() implies spec_same_fills(
                    #[trigger] first_next.objects[j],
                    second_next.objects[j],
                ) by {
                    if j < first_stage.objects.len() {
                        assert(spec_same_fills(first_stage.objects[j], second_stage.objects[j]));
                    }
                }
                lemma_same_blocks(first, second, first_next, second_next, k + 1);
            }
        }
    }
}

/// The two stages count their alpha tiles apart: the fills of the draw paths, with
/// their alpha tile indices, do not depend on where the clip stage starts to count, and
/// the fills of the clip paths do not depend on where the draw stage starts to count.
pub proof fn lemma_stage_separation(
    scene: Scene,
    view_box: RectI,
    first_clip_index: int,
    other_clip_index: int,
    first_draw_index: int,
    other_draw_index: int,
)
    requires
        spec_build_stages(scene, view_box, first_clip_index, first_draw_index) is Ok,
        spec_build_stages(scene, view_box, other_clip_index, first_draw_index) is Ok,
        spec_build_stages(scene, view_box, first_clip_index, other_draw_index) is Ok,
    ensures
        spec_fill_commands(
            spec_build_stages(scene, view_box, first_clip_index, first_draw_index)->Ok_0.1,
            RenderStage::Stage1,
        ) == spec_fill_commands(
            spec_build_stages(scene, view_box, other_clip_index, first_draw_index)->Ok_0.1,
            RenderStage::Stage1,
        ),
        spec_fill_commands(
            spec_build_stages(scene, view_box, first_clip_index, first_draw_index)->Ok_0.0,
            RenderStage::Stage0,
        ) == spec_fill_commands(
            spec_build_stages(scene, view_box, first_clip_index, other_draw_index)->Ok_0.0,
            RenderStage::Stage0,
        ),
{
    let clip_stage = spec_clip_stage(scene, view_box, first_clip_index)->Ok_0;
    let other_clip_stage = spec_clip_stage(scene, view_box, other_clip_index)->Ok_0;
    let clips = spec_clip_results(scene, clip_stage);
    let other_clips = spec_clip_results(scene, other_clip_stage);
    let objects = spec_draw_objects(scene, view_box, clips);
    let other_objects = spec_draw_objects(scene, view_box, other_clips);
    lemma_stage_length(spec_clip_objects(scene, view_box), spec_stage_start(first_clip_index), 0);
    lemma_stage_length(spec_clip_objects(scene, view_box), spec_stage_start(other_clip_index), 0);
    assert forall|j: int| 0 <= j < objects.len() implies spec_same_fills_or_error(
        #[trigger] objects[j],
        other_objects[j],
    ) by {
        let path = scene.draw_paths[j];
        if path.paint.0 < scene.paint_metadata.len() {
            let paint = scene.paint_metadata[path.paint.0 as int];
            match path.clip_path {
                None => {},
                Some(clip_path_id) => {
                    lemma_find_clip_by_path_id(clips, other_clips, clip_path_id, 0);
                    match spec_find_clip(clips, clip_path_id, 0) {
                        None => {},
                        Some(found) => {
                            lemma_fills_ignore_packing(
                                path.outline.spec_segments(),
                                view_box,
                                PackingInfo {
                                    is_clip: false,
                                    path_id: j as u32,
                                    paint,
                                    fill_rule: path.fill_rule,
                                    clip: Some(clips[found]),
                                },
                                PackingInfo {
                                    is_clip: false,
                                    path_id: j as u32,
                                    paint,
                                    fill_rule: path.fill_rule,
                                    clip: Some(other_clips[found]),
                                },
                            );
                        },
                    }
                },
            }
        }
    }
    lemma_same_blocks(
        objects,
        other_objects,
        spec_stage_start(first_draw_index),
        spec_stage_start(first_draw_index),
        0,
    );
    let draw_stage = spec_stage_from(objects, spec_stage_start(first_draw_index), 0)->Ok_0;
    let other_draw_stage = spec_stage_from(
        other_objects,
        spec_stage_start(first_draw_index),
        0,
    )->Ok_0;
    assert(spec_fill_commands(draw_stage, RenderStage::Stage1) =~= spec_fill_commands(
        other_draw_stage,
        RenderStage::Stage1,
    )) by {
        assert forall|j: int| 0 <= j < draw_stage.objects.len() implies spec_fill_command(
            draw_stage,
            RenderStage::Stage1,
            j,
        ) == spec_fill_command(other_draw_stage, RenderStage::Stage1, j) by {
            assert(spec_same_fills(draw_stage.objects[j], other_draw_stage.objects[j]));
        }
    }
}

/// A stage holds one object and one block for each path that has been merged into it.
pub proof fn lemma_stage_length(
    expected: Seq<Result<BuiltObjectView, BuildError>>,
    stage: StageView,
    k: int,
)
    requires
        0 <= k <= expected.len(),
        stage.objects.len() == k,
        stage.bases.len() == k,
        spec_stage_from(expected, stage, k) is Ok,
    ensures
        spec_stage_from(expected, stage, k)->Ok_0.objects.len() == expected.len(),
        spec_stage_from(expected, stage, k)->Ok_0.bases.len() == expected.len(),
    decreases expected.len() - k,
{
    if k < expected.len() {
        lemma_stage_length(expected, spec_merge(stage, expected[k]->Ok_0)->Ok_0, k + 1);
    }
}

/// Declares `std::time::Instant`, a moment on the clock. Nothing is known of what a value
/// of it holds.
#[verifier::external_type_specification]
#[verifier::external_body]
pub struct ExInstant(std::time::Instant);

/// Reads the clock through `Instant::now`. Nothing is claimed of the moment it returns.
#[verifier::external_body]
fn clock_now() -> (now: Instant) {
    Instant::now()
}

/// Measures the time since `start` through `Instant::elapsed`. Nothing is claimed of the
/// duration it returns.
#[verifier::external_body]
fn clock_elapsed(start: &Instant) -> (elapsed: Duration) {
    start.elapsed()
}

/// Copies the paint data of a scene.
fn copy_bytes(bytes: &Vec<u8>) -> (copy: Vec<u8>)
    ensures
        copy@ == bytes@,
{
    let mut copy: Vec<u8> = Vec::new();
    let mut i: usize = 0;
    while i < bytes.len()
        invariant
            i <= bytes.len(),
            copy@ == bytes@.take(i as int),
        decreases bytes.len() - i,
    {
        copy.push(bytes[i]);
        assert(copy@ =~= bytes@.take(i + 1));
        i = i + 1;
    }
    assert(bytes@.take(bytes.len() as int) =~= bytes@);
    copy
}

/// Tiles all clip paths of a scene through an executor.
fn tile_clip_paths<E: Executor>(executor: &E, scene: &Scene, view_box: RectI) -> (objects: Vec<
    Result<BuiltObject, BuildError>,
>)
    requires
        view_box.wf(),
        view_box.spec_round_out_to_tile_bounds().spec_area() <= u32::MAX,
        scene.clip_paths.len() <= u32::MAX,
    ensures
        objects.len() == scene.clip_paths.len(),
        forall|k: int|
            0 <= k < objects.len() ==> spec_is_tiled(
                #[trigger] objects[k],
                spec_build_clip_path(*scene, view_box, k),
            ),
{
    let clip_path_count: usize = scene.clip_paths.len();
    let objects: Vec<Result<BuiltObject, BuildError>> = executor.build_vector(
        clip_path_count,
        |path_index: usize| -> (object: Result<BuiltObject, BuildError>)
            requires
                clip_path_count > path_index,
            ensures
                spec_is_tiled(object, spec_build_clip_path(*scene, view_box, path_index as int))
            { build_clip_path(ClipPathId(path_index as u32), view_box, scene) },
    );
    assert forall|k: int| 0 <= k < objects.len() implies spec_is_tiled(
        #[trigger] objects[k],
        spec_build_clip_path(*scene, view_box, k),
    ) by {
        let index = k as usize;
        assert(spec_is_tiled(
            objects[index as int],
            spec_build_clip_path(*scene, view_box, index as int),
        ));
    }
    objects
}

/// Tiles all draw paths of a scene through an executor.
fn tile_draw_paths<E: Executor>(
    executor: &E,
    scene: &Scene,
    view_box: RectI,
    clip_build_results: &Vec<ClipBuildResult>,
) -> (objects: Vec<Result<BuiltObject, BuildError>>)
    requires
        view_box.wf(),
        view_box.spec_round_out_to_tile_bounds().spec_area() <= u32::MAX,
        scene.draw_paths.len() <= u32::MAX,
        forall|k: int|
            0 <= k < clip_build_results.len() ==> (#[trigger] clip_build_results[k]).tiles.wf(),
    ensures
        objects.len() == scene.draw_paths.len(),
        forall|k: int|
            0 <= k < objects.len() ==> spec_is_tiled(
                #[trigger] objects[k],
                spec_build_draw_path(*scene, view_box, spec_clip_views(clip_build_results@), k),
            ),
{
    let draw_path_count: usize = scene.draw_paths.len();
    let ghost clips = spec_clip_views(clip_build_results@);
    let objects: Vec<Result<BuiltObject, BuildError>> = executor.build_vector(
        draw_path_count,
        |path_index: usize| -> (object: Result<BuiltObject, BuildError>)
            requires
                draw_path_count > path_index,
            ensures
                spec_is_tiled(
                    object,
                    spec_build_draw_path(*scene, view_box, clips, path_index as int),
                )
            { build_draw_path(DrawPathId(path_index as u32), view_box, scene, clip_build_results) },
    );
    assert forall|k: int| 0 <= k < objects.len() implies spec_is_tiled(
        #[trigger] objects[k],
        spec_build_draw_path(*scene, view_box, clips, k),
    ) by {
        let index = k as usize;
        assert(spec_is_tiled(
            objects[index as int],
            spec_build_draw_path(*scene, view_box, clips, index as int),
        ));
    }
    objects
}

/// The paths of a scene, tiled and merged, before anything is sent.
struct MergedPaths {
    clip_build_results: Vec<ClipBuildResult>,
    clip_fill_commands: Vec<RenderCommand>,
    next_stage_0: usize,
    draw_objects: Vec<Result<BuiltObject, BuildError>>,
    draw_build_results: Vec<DrawBuildResult>,
    draw_fill_commands: Vec<RenderCommand>,
    next_stage_1: usize,
}

impl MergedPaths {
    /// Whether the paths are those of the two stages.
    spec fn matches(
        &self,
        scene: Scene,
        clip_stage: StageView,
        draw_stage: StageView,
        first_clip_index: int,
        first_draw_index: int,
    ) -> bool {
        &&& spec_stage_wf(clip_stage, first_clip_index)
        &&& spec_stage_wf(draw_stage, first_draw_index)
        &&& spec_clip_views(self.clip_build_results@) == spec_clip_results(scene, clip_stage)
        &&& spec_command_views(self.clip_fill_commands@) == spec_fill_commands(
            clip_stage,
            RenderStage::Stage0,
        )
        &&& self.next_stage_0 == clip_stage.next_index
        &&& self.next_stage_0 <= MAX_ALPHA_TILES
        &&& spec_draw_views(self.draw_build_results@) == spec_draw_results(draw_stage)
        &&& spec_command_views(self.draw_fill_commands@) == spec_fill_commands(
            draw_stage,
            RenderStage::Stage1,
        )
        &&& self.next_stage_1 == draw_stage.next_index
        &&& self.next_stage_1 <= MAX_ALPHA_TILES
        &&& draw_stage.objects.len() == self.draw_objects.len()
        &&& self.draw_objects.len() == scene.draw_paths.len()
        &&& forall|k: int|
            0 <= k < self.draw_objects.len() ==> (#[trigger] self.draw_objects[k]) is Ok
                && draw_stage.objects[k] == self.draw_objects[k]->Ok_0@
        &&& spec_paints_valid(scene)
    }
}

/// Tiles and merges all paths of a scene: the clip paths first, then the draw paths.
fn build_stages<E: Executor>(
    executor: &E,
    scene: &Scene,
    view_box: RectI,
    first_clip_index: usize,
    first_draw_index: usize,
) -> (result: Result<MergedPaths, BuildError>)
    requires
        view_box.wf(),
        view_box.spec_round_out_to_tile_bounds().spec_area() <= u32::MAX,
        scene.clip_paths.len() <= u32::MAX,
        scene.draw_paths.len() <= u32::MAX,
        first_clip_index <= MAX_ALPHA_TILES,
        first_draw_index <= MAX_ALPHA_TILES,
    ensures
        match spec_build_stages(
            *scene,
            view_box,
            first_clip_index as int,
            first_draw_index as int,
        ) {
            Err(error) => result is Err && result->Err_0 == error,
            Ok(stages) => result is Ok && result->Ok_0.matches(
                *scene,
                stages.0,
                stages.1,
                first_clip_index as int,
                first_draw_index as int,
            ),
        },
{
    let clip_objects: Vec<Result<BuiltObject, BuildError>> = tile_clip_paths(
        executor,
        scene,
        view_box,
    );
    let (clip_build_results, clip_fill_commands, next_stage_0) = match merge_clip_paths(
        scene,
        view_box,
        &clip_objects,
        first_clip_index,
    ) {
        Ok(merged) => merged,
        Err(error) => {
            return Err(error);
        },
    };
    let draw_objects: Vec<Result<BuiltObject, BuildError>> = tile_draw_paths(
        executor,
        scene,
        view_box,
        &clip_build_results,
    );
    let (draw_build_results, draw_fill_commands, next_stage_1) = match merge_draw_paths(
        scene,
        view_box,
        Ghost(spec_clip_views(clip_build_results@)),
        &draw_objects,
        first_draw_index,
    ) {
        Ok(merged) => merged,
        Err(error) => {
            return Err(error);
        },
    };
    proof {
        assert forall|p: int| 0 <= p < scene.draw_paths.len() implies (
        #[trigger] scene.draw_paths[p]).paint.0 < scene.paint_metadata.len() by {
            assert(spec_is_tiled(
                draw_objects[p],
                spec_build_draw_path(*scene, view_box, spec_clip_views(clip_build_results@), p),
            ));
        }
    }
    Ok(
        MergedPaths {
            clip_build_results,
            clip_fill_commands,
            next_stage_0,
            draw_objects,
            draw_build_results,
            draw_fill_commands,
            next_stage_1,
        },
    )
}

/// Builds the render commands of a scene and sends them to a listener.
pub struct SceneBuilder<'a, L: RenderCommandListener> {
    pub scene: &'a Scene,
    pub built_options: &'a PreparedBuildOptions,
    /// The next alpha tile index of the clip stage that is free.
    pub next_stage_0_alpha_tile_index: usize,
    /// The next alpha tile index of the draw stage that is free.
    pub next_stage_1_alpha_tile_index: usize,
    pub z_buffer: ZBuffer,
    pub listener: L,
}

impl<'a, L: RenderCommandListener> SceneBuilder<'a, L> {
    /// The builder can build: its scene fits the machine, its Z-buffer covers the view
    /// box, and its counters lie within the range of the alpha tile indices.
    pub open spec fn wf(&self) -> bool {
        &&& spec_is_buildable(*self.scene, *self.built_options)
        &&& self.z_buffer.wf()
        &&& self.z_buffer.buffer.rect == self.scene.spec_effective_view_box(
            *self.built_options,
        ).spec_round_out_to_tile_bounds()
        &&& self.next_stage_0_alpha_tile_index <= MAX_ALPHA_TILES
        &&& self.next_stage_1_alpha_tile_index <= MAX_ALPHA_TILES
    }

    /// Makes the builder of a scene, with no alpha tile index taken and no tile covered.
    pub fn new(scene: &'a Scene, built_options: &'a PreparedBuildOptions, listener: L) -> (builder:
        SceneBuilder<'a, L>)
        requires
            spec_is_buildable(*scene, *built_options),
        ensures
            builder.wf(),
            builder.scene == scene,
            builder.built_options == built_options,
            builder.listener == listener,
            builder.next_stage_0_alpha_tile_index == 0,
            builder.next_stage_1_alpha_tile_index == 0,
            forall|i: int|
                0 <= i < builder.z_buffer.buffer.data.len() ==> builder.z_buffer.buffer.data[i]
                    == 0,
    {
        let effective_view_box: RectI = scene.effective_view_box(built_options);
        SceneBuilder {
            scene,
            built_options,
            next_stage_0_alpha_tile_index: 0,
            next_stage_1_alpha_tile_index: 0,
            z_buffer: ZBuffer::new(effective_view_box),
            listener,
        }
    }

    /// Builds the scene and sends its commands, in this order: the start of the frame,
    /// the paint data, the fills of each clip path, the fills of each draw path, the
    /// flush of the fills, the solid tiles, the alpha tiles of draw paths, the alpha
    /// tiles of clip paths, and the end of the frame. The paths of each kind are tiled
    /// through the executor, each on its own. Where a path fails, the build fails as a
    /// whole: no command is sent and the builder stays as it was.
    pub fn build<E: Executor>(&mut self, executor: &E) -> (result: Result<(), BuildError>)
        requires
            old(self).wf(),
        ensures
            final(self).wf(),
            final(self).scene == old(self).scene,
            final(self).built_options == old(self).built_options,
            final(self).z_buffer.buffer.rect == old(self).z_buffer.buffer.rect,
            match spec_build_frame(
                *old(self).scene,
                old(self).scene.spec_effective_view_box(*old(self).built_options),
                old(self).next_stage_0_alpha_tile_index as int,
                old(self).next_stage_1_alpha_tile_index as int,
                old(self).z_buffer.buffer.rect,
                old(self).z_buffer.buffer.data@,
            ) {
                Err(error) => {
                    &&& result == Err::<(), BuildError>(error)
                    &&& final(self).listener.sent() == old(self).listener.sent()
                    &&& final(self).z_buffer.buffer.data@ == old(self).z_buffer.buffer.data@
                    &&& final(self).next_stage_0_alpha_tile_index == old(
                        self,
                    ).next_stage_0_alpha_tile_index
                    &&& final(self).next_stage_1_alpha_tile_index == old(
                        self,
                    ).next_stage_1_alpha_tile_index
                },
                Ok(frame) => {
                    &&& result is Ok
                    &&& exists|build_time: Duration|
                        final(self).listener.sent() == old(self).listener.sent()
                            + #[trigger] spec_build_commands(
                            *old(self).scene,
                            *old(self).built_options,
                            frame,
                            old(self).z_buffer.buffer.rect,
                            build_time,
                        )
                    &&& final(self).z_buffer.buffer.data@ == frame.z_cells
                    &&& final(self).next_stage_0_alpha_tile_index == frame.clip_stage.next_index
                    &&& final(self).next_stage_1_alpha_tile_index == frame.draw_stage.next_index
                    &&& spec_stage_wf(
                        frame.clip_stage,
                        old(self).next_stage_0_alpha_tile_index as int,
                    )
                    &&& spec_stage_wf(
                        frame.draw_stage,
                        old(self).next_stage_1_alpha_tile_index as int,
                    )
                },
            },
    {
        let start_time: Instant = clock_now();
        let scene: &Scene = self.scene;
        let effective_view_box: RectI = scene.effective_view_box(self.built_options);
        let ghost before = self.listener.sent();
        let ghost z_rect = self.z_buffer.buffer.rect;
        let ghost z_cells = self.z_buffer.buffer.data@;
        let merged: MergedPaths = match build_stages(
            executor,
            scene,
            effective_view_box,
            self.next_stage_0_alpha_tile_index,
            self.next_stage_1_alpha_tile_index,
        ) {
            Ok(merged) => merged,
            Err(error) => {
                return Err(error);
            },
        };
        let ghost stages = spec_build_stages(
            *scene,
            effective_view_box,
            self.next_stage_0_alpha_tile_index as int,
            self.next_stage_1_alpha_tile_index as int,
        )->Ok_0;
        let ghost frame = FrameView {
            clip_stage: stages.0,
            draw_stage: stages.1,
            z_cells: spec_z_cells_from(z_rect, z_cells, stages.1.objects, 0),
        };
        update_z_buffer(&mut self.z_buffer, &merged.draw_objects, Ghost(stages.1));
        self.next_stage_0_alpha_tile_index = merged.next_stage_0;
        self.next_stage_1_alpha_tile_index = merged.next_stage_1;
        self.send_frame(
            merged.clip_build_results,
            merged.clip_fill_commands,
            merged.draw_build_results,
            merged.draw_fill_commands,
            &start_time,
            Ghost(stages.0),
            Ghost(stages.1),
        );
        proof {
            let build_time = choose|build_time: Duration|
                self.listener.sent() == before + #[trigger] spec_build_commands(
                    *scene,
                    *self.built_options,
                    frame,
                    z_rect,
                    build_time,
                );
            assert(self.listener.sent() == before + spec_build_commands(
                *scene,
                *self.built_options,
                frame,
                z_rect,
                build_time,
            ));
        }
        Ok(())
    }

    /// Sends the commands of a frame whose paths have been tiled and merged.
    fn send_frame(
        &mut self,
        clip_build_results: Vec<ClipBuildResult>,
        clip_fill_commands: Vec<RenderCommand>,
        draw_build_results: Vec<DrawBuildResult>,
        draw_fill_commands: Vec<RenderCommand>,
        start_time: &Instant,
        clip_stage: Ghost<StageView>,
        draw_stage: Ghost<StageView>,
    )
        requires
            old(self).z_buffer.wf(),
            old(self).scene.draw_paths.len() + old(self).scene.clip_paths.len() < u32::MAX,
            spec_paints_valid(*old(self).scene),
            spec_clip_views(clip_build_results@) == spec_clip_results(
                *old(self).scene,
                clip_stage@,
            ),
            spec_draw_views(draw_build_results@) == spec_draw_results(draw_stage@),
            spec_command_views(clip_fill_commands@) == spec_fill_commands(
                clip_stage@,
                RenderStage::Stage0,
            ),
            spec_command_views(draw_fill_commands@) == spec_fill_commands(
                draw_stage@,
                RenderStage::Stage1,
            ),
        ensures
            final(self).scene == old(self).scene,
            final(self).built_options == old(self).built_options,
            final(self).z_buffer == old(self).z_buffer,
            final(self).next_stage_0_alpha_tile_index == old(self).next_stage_0_alpha_tile_index,
            final(self).next_stage_1_alpha_tile_index == old(self).next_stage_1_alpha_tile_index,
            exists|build_time: Duration|
                final(self).listener.sent() == old(self).listener.sent()
                    + #[trigger] spec_build_commands(
                    *old(self).scene,
                    *old(self).built_options,
                    (FrameView {
                        clip_stage: clip_stage@,
                        draw_stage: draw_stage@,
                        z_cells: old(self).z_buffer.buffer.data@,
                    }),
                    old(self).z_buffer.buffer.rect,
                    build_time,
                ),
    {
        let scene: &Scene = self.scene;
        let total_path_count: usize = scene.draw_paths.len() + scene.clip_paths.len();
        let bounding_quad = self.built_options.bounding_quad();
        let ghost before = self.listener.sent();
        let ghost head = seq![
            RenderCommandView::Start { bounding_quad, path_count: total_path_count },
            RenderCommandView::AddPaintData(scene.paint_data@),
        ];
        let ghost clip_fills = spec_fill_commands(clip_stage@, RenderStage::Stage0);
        let ghost draw_fills = spec_fill_commands(draw_stage@, RenderStage::Stage1);
        let ghost tail = spec_finish_commands(
            *scene,
            self.z_buffer.buffer.rect,
            self.z_buffer.buffer.data@,
            spec_clip_results(*scene, clip_stage@),
            spec_draw_results(draw_stage@),
        );
        self.listener.send(
            RenderCommand::Start { bounding_quad, path_count: total_path_count },
        );
        self.listener.send(RenderCommand::AddPaintData(copy_bytes(&scene.paint_data)));
        assert(self.listener.sent() =~= before + head);
        send_all(&mut self.listener, clip_fill_commands);
        assert(self.listener.sent() =~= before + (head + clip_fills));
        send_all(&mut self.listener, draw_fill_commands);
        assert(self.listener.sent() =~= before + (head + clip_fills + draw_fills));
        self.finish_building(clip_build_results, draw_build_results);
        assert(self.listener.sent() =~= before + (head + clip_fills + draw_fills + tail));
        let build_time: Duration = clock_elapsed(start_time);
        self.listener.send(RenderCommand::Finish { build_time });
        assert(self.listener.sent() =~= before + spec_build_commands(
            *scene,
            *self.built_options,
            (FrameView {
                clip_stage: clip_stage@,
                draw_stage: draw_stage@,
                z_cells: self.z_buffer.buffer.data@,
            }),
            self.z_buffer.buffer.rect,
            build_time,
        ));
    }

    /// Culls the alpha tiles of a frame: those of clip paths all stay, and one of a draw
    /// path stays if no opaque path above it covers its tile in full.
    pub fn cull_tiles(
        &self,
        clip_build_results: Vec<ClipBuildResult>,
        draw_build_results: Vec<DrawBuildResult>,
    ) -> (result: CulledTiles)
        requires
            self.z_buffer.wf(),
        ensures
            result.clip@ == spec_cull_clip_from(spec_clip_views(clip_build_results@), 0),
            result.draw@ == spec_cull_draw_from(
                self.z_buffer.buffer.rect,
                self.z_buffer.buffer.data@,
                spec_draw_views(draw_build_results@),
                0,
            ),
    {
        let mut result = CulledTiles::new();
        let ghost clips = spec_clip_views(clip_build_results@);
        let ghost draws = spec_draw_views(draw_build_results@);
        let ghost rect = self.z_buffer.buffer.rect;
        let ghost cells = self.z_buffer.buffer.data@;
        assert(result.clip@ =~= Seq::<AlphaTile>::empty());
        assert(result.draw@ =~= Seq::<AlphaTile>::empty());
        let mut k: usize = 0;
        while k < clip_build_results.len()
            invariant
                k <= clip_build_results.len(),
                clips == spec_clip_views(clip_build_results@),
                result.draw@.len() == 0,
                result.clip@ + spec_cull_clip_from(clips, k as int) == spec_cull_clip_from(clips, 0),
            decreases clip_build_results.len() - k,
        {
            let alpha_tiles: &Vec<AlphaTile> = &clip_build_results[k].alpha_tiles;
            let ghost before = result.clip@;
            let mut j: usize = 0;
            while j < alpha_tiles.len()
                invariant
                    j <= alpha_tiles.len(),
                    result.draw@.len() == 0,
                    result.clip@ == before + alpha_tiles@.take(j as int),
                decreases alpha_tiles.len() - j,
            {
                result.clip.push(alpha_tiles[j]);
                assert(result.clip@ =~= before + alpha_tiles@.take(j + 1));
                j = j + 1;
            }
            assert(alpha_tiles@.take(alpha_tiles.len() as int) =~= alpha_tiles@);
            assert(clips[k as int].alpha_tiles == alpha_tiles@);
            assert(result.clip@ + spec_cull_clip_from(clips, k + 1) =~= before
                + spec_cull_clip_from(clips, k as int));
            k = k + 1;
        }
        assert(result.clip@ + Seq::<AlphaTile>::empty() =~= result.clip@);
        let mut k: usize = 0;
        while k < draw_build_results.len()
            invariant
                self.z_buffer.wf(),
                rect == self.z_buffer.buffer.rect,
                cells == self.z_buffer.buffer.data@,
                k <= draw_build_results.len(),
                draws == spec_draw_views(draw_build_results@),
                result.clip@ == spec_cull_clip_from(clips, 0),
                result.draw@ + spec_cull_draw_from(rect, cells, draws, k as int)
                    == spec_cull_draw_from(rect, cells, draws, 0),
            decreases draw_build_results.len() - k,
        {
            let alpha_tiles: &Vec<AlphaTile> = &draw_build_results[k].alpha_tiles;
            let path_index: u32 = draw_build_results[k].path_id.0;
            let ghost before = result.draw@;
            let mut j: usize = 0;
            while j < alpha_tiles.len()
                invariant
                    self.z_buffer.wf(),
                    rect == self.z_buffer.buffer.rect,
                    cells == self.z_buffer.buffer.data@,
                    j <= alpha_tiles.len(),
                    result.clip@ == spec_cull_clip_from(clips, 0),
                    result.draw@ + spec_visible_from(rect, cells, alpha_tiles@, path_index, j as int)
                        == before + spec_visible_from(rect, cells, alpha_tiles@, path_index, 0),
                decreases alpha_tiles.len() - j,
            {
                let draw_alpha_tile: AlphaTile = alpha_tiles[j];
                let ghost kept = result.draw@;
                if self.z_buffer.test(draw_alpha_tile.tile_coords, path_index) {
                    result.draw.push(draw_alpha_tile);
                    assert(result.draw@ + spec_visible_from(
                        rect,
                        cells,
                        alpha_tiles@,
                        path_index,
                        j + 1,
                    ) =~= kept + spec_visible_from(rect, cells, alpha_tiles@, path_index, j as int));
                }
                j = j + 1;
            }
            assert(result.draw@ + Seq::<AlphaTile>::empty() =~= result.draw@);
            assert(draws[k as int].alpha_tiles == alpha_tiles@);
            assert(draws[k as int].path_id.0 == path_index);
            assert(result.draw@ + spec_cull_draw_from(rect, cells, draws, k + 1) =~= before
                + spec_cull_draw_from(rect, cells, draws, k as int));
            k = k + 1;
        }
        assert(result.draw@ + Seq::<AlphaTile>::empty() =~= result.draw@);
        result
    }

    /// Sends the commands that draw the tiles of a frame: the solid tiles that the
    /// Z-buffer holds for the draw paths, the alpha tiles of draw paths, and those of
    /// clip paths. An empty list is not sent.
    pub fn pack_tiles(&mut self, culled_tiles: CulledTiles)
        requires
            old(self).z_buffer.wf(),
            old(self).scene.draw_paths.len() <= u32::MAX,
            spec_paints_valid(*old(self).scene),
        ensures
            final(self).scene == old(self).scene,
            final(self).built_options == old(self).built_options,
            final(self).z_buffer == old(self).z_buffer,
            final(self).next_stage_0_alpha_tile_index == old(self).next_stage_0_alpha_tile_index,
            final(self).next_stage_1_alpha_tile_index == old(self).next_stage_1_alpha_tile_index,
            final(self).listener.sent() == old(self).listener.sent() + spec_pack_commands(
                spec_solid_tiles_from(
                    old(self).z_buffer.buffer.rect,
                    old(self).z_buffer.buffer.data@,
                    old(self).scene.draw_paths@,
                    old(self).scene.paint_metadata@,
                    0,
                    old(self).scene.draw_paths.len() as u32,
                    0,
                ),
                culled_tiles.draw@,
                culled_tiles.clip@,
            ),
    {
        let draw_path_count: u32 = self.scene.draw_paths.len() as u32;
        let solid_tiles: Vec<SolidTile> = self.z_buffer.build_solid_tiles(
            &self.scene.draw_paths,
            &self.scene.paint_metadata,
            0..draw_path_count,
        );
        let ghost before = self.listener.sent();
        let ghost solid = solid_tiles@;
        if !solid_tiles.is_empty() {
            self.listener.send(RenderCommand::DrawSolidTiles(solid_tiles));
        }
        if !culled_tiles.draw.is_empty() {
            self.listener.send(RenderCommand::DrawAlphaTiles(culled_tiles.draw));
        }
        if !culled_tiles.clip.is_empty() {
            self.listener.send(RenderCommand::DrawClipTiles(culled_tiles.clip));
        }
        assert(self.listener.sent() =~= before + spec_pack_commands(
            solid,
            culled_tiles.draw@,
            culled_tiles.clip@,
        ));
    }

    /// Ends the fills of a frame and draws its tiles: asks for the fills to be
    /// rasterized, culls the alpha tiles and sends the tiles that are left.
    pub fn finish_building(
        &mut self,
        clip_build_results: Vec<ClipBuildResult>,
        draw_build_results: Vec<DrawBuildResult>,
    )
        requires
            old(self).z_buffer.wf(),
            old(self).scene.draw_paths.len() <= u32::MAX,
            spec_paints_valid(*old(self).scene),
        ensures
            final(self).scene == old(self).scene,
            final(self).built_options == old(self).built_options,
            final(self).z_buffer == old(self).z_buffer,
            final(self).next_stage_0_alpha_tile_index == old(self).next_stage_0_alpha_tile_index,
            final(self).next_stage_1_alpha_tile_index == old(self).next_stage_1_alpha_tile_index,
            final(self).listener.sent() == old(self).listener.sent() + spec_finish_commands(
                *old(self).scene,
                old(self).z_buffer.buffer.rect,
                old(self).z_buffer.buffer.data@,
                spec_clip_views(clip_build_results@),
                spec_draw_views(draw_build_results@),
            ),
    {
        let ghost before = self.listener.sent();
        self.listener.send(RenderCommand::FlushFills);
        let culled_tiles: CulledTiles = self.cull_tiles(clip_build_results, draw_build_results);
        self.pack_tiles(culled_tiles);
        assert(self.listener.sent() =~= before + spec_finish_commands(
            *old(self).scene,
            old(self).z_buffer.buffer.rect,
            old(self).z_buffer.buffer.data@,
            spec_clip_views(clip_build_results@),
            spec_draw_views(draw_build_results@),
        ));
    }
}

} // verus!
