use scene_builder::builder::{
    is_buildable, ClipBuildResult, CulledTiles, DrawBuildResult, SceneBuilder, TileStats,
};
use scene_builder::built_object::BuiltObject;
use scene_builder::error::BuildError;
use scene_builder::executor::{Executor, SequentialExecutor};
use scene_builder::geometry::{
    floor_div, interpolate, tile_ceil, tile_floor, LineSegment, RectI, Vector2I, TILE_HEIGHT,
    TILE_WIDTH,
};
use scene_builder::gpu_data::{
    AlphaTile, BoundingQuad, FillBatchPrimitive, PaintMetadata, RenderCommand, RenderStage,
    TileObjectPrimitive, NO_ALPHA_TILE,
};
use scene_builder::options::{CommandBuffer, PreparedBuildOptions, RenderCommandListener};
use scene_builder::scene::{
    bounds_of_segments, ClipPathId, Contour, DrawPath, DrawPathId, FillRule, Outline, PaintId,
    Scene,
};
use scene_builder::tile_map::DenseTileMap;
use scene_builder::tiles::{Tiler, TilingPaintClipInfo, TilingPathInfo};
use scene_builder::z_buffer::ZBuffer;

fn v(x: i32, y: i32) -> Vector2I {
    Vector2I { x, y }
}

fn rect(min_x: i32, min_y: i32, max_x: i32, max_y: i32) -> RectI {
    RectI { origin: v(min_x, min_y), lower_right: v(max_x, max_y) }
}

fn segment(from: (i32, i32), to: (i32, i32)) -> LineSegment {
    LineSegment { from: v(from.0, from.1), to: v(to.0, to.1) }
}

fn paint(is_opaque: bool) -> PaintMetadata {
    PaintMetadata { tex_rect: rect(0, 0, 1, 1), is_opaque }
}

#[test]
fn tiles_are_sixteen_pixels_wide_and_high() {
    assert_eq!(TILE_WIDTH, 16);
    assert_eq!(TILE_HEIGHT, 16);
}

#[test]
fn floor_division_rounds_toward_negative_infinity() {
    assert_eq!(floor_div(7, 2), 3);
    assert_eq!(floor_div(-7, 2), -4);
    assert_eq!(floor_div(-8, 2), -4);
    assert_eq!(floor_div(0, 5), 0);
}

#[test]
fn tile_of_a_coordinate_rounds_down_and_boundary_rounds_up() {
    assert_eq!(tile_floor(0), 0);
    assert_eq!(tile_floor(4095), 0);
    assert_eq!(tile_floor(4096), 1);
    assert_eq!(tile_floor(-1), -1);
    assert_eq!(tile_floor(-4096), -1);
    assert_eq!(tile_floor(-4097), -2);
    assert_eq!(tile_floor(i32::MIN), -524288);
    assert_eq!(tile_ceil(0), 0);
    assert_eq!(tile_ceil(1), 1);
    assert_eq!(tile_ceil(4096), 1);
    assert_eq!(tile_ceil(4097), 2);
    assert_eq!(tile_ceil(-1), 0);
    assert_eq!(tile_ceil(-4096), -1);
    assert_eq!(tile_ceil(i32::MAX - 4096), 524287);
    assert_eq!(tile_ceil(i32::MAX - 4095), 524287);
    assert_eq!(tile_ceil(i32::MAX - 4094), 524288);
    assert_eq!(tile_ceil(i32::MAX), 524288);
    assert_eq!(tile_ceil(i32::MIN), -524288);
}

#[test]
fn interpolation_rounds_down_and_meets_the_ends() {
    assert_eq!(interpolate(0, 10, 0, 5, 3), 1);
    assert_eq!(interpolate(0, 10, 5, 0, 3), 3);
    assert_eq!(interpolate(0, 10, 100, 200, 0), 100);
    assert_eq!(interpolate(0, 10, 100, 200, 10), 200);
    assert_eq!(interpolate(i32::MIN, i32::MAX, i32::MIN, i32::MAX, 0), 0);
    assert_eq!(interpolate(i32::MIN, i32::MAX, i32::MAX, i32::MIN, i32::MAX), i32::MIN);
}

#[test]
fn segment_is_solved_alike_in_both_directions() {
    let forward = segment((0, 0), (7, 21));
    let backward = segment((7, 21), (0, 0));
    for y in 0..=21 {
        assert_eq!(forward.solve_x_for_y(y), backward.solve_x_for_y(y));
    }
    for x in 0..=7 {
        assert_eq!(forward.solve_y_for_x(x), backward.solve_y_for_x(x));
    }
    assert_eq!(forward.solve_x_for_y(10), 3);
    assert_eq!(forward.solve_y_for_x(1), 3);
    assert_eq!(forward.min_x(), 0);
    assert_eq!(backward.max_y(), 21);
}

#[test]
fn rectangle_rounds_out_to_whole_tiles() {
    let bounds = rect(2048, -1, 18432, 4096);
    assert_eq!(bounds.round_out_to_tile_bounds(), rect(0, -1, 5, 1));
    assert_eq!(bounds.width(), 16384);
    assert_eq!(bounds.height(), 4097);
    assert_eq!(bounds.area(), 16384 * 4097);
    assert!(!bounds.is_empty());
    assert!(rect(3, 3, 3, 9).is_empty());
}

#[test]
fn rectangles_that_do_not_meet_intersect_in_the_zero_rectangle() {
    assert_eq!(rect(0, 0, 10, 10).intersection(rect(5, 6, 20, 8)), rect(5, 6, 10, 8));
    assert_eq!(rect(0, 0, 10, 10).intersection(rect(11, 0, 20, 10)), rect(0, 0, 0, 0));
    assert!(rect(0, 0, 10, 10).contains_point(v(0, 9)));
    assert!(!rect(0, 0, 10, 10).contains_point(v(10, 9)));
}

#[test]
fn tile_map_maps_coordinates_and_indices_both_ways() {
    let map: DenseTileMap<u32> = DenseTileMap::new(rect(-2, 3, 5, 7));
    assert_eq!(map.data, vec![0u32; 28]);
    assert_eq!(map.coords_to_index(v(-2, 3)), Some(0));
    assert_eq!(map.coords_to_index(v(4, 3)), Some(6));
    assert_eq!(map.coords_to_index(v(-2, 4)), Some(7));
    assert_eq!(map.coords_to_index(v(4, 6)), Some(27));
    assert_eq!(map.coords_to_index(v(5, 3)), None);
    assert_eq!(map.coords_to_index(v(-3, 3)), None);
    assert_eq!(map.coords_to_index(v(0, 7)), None);
    assert_eq!(map.coords_to_index_unchecked(v(1, 5)), 17);
    assert_eq!(map.index_to_coords(17), v(1, 5));
    for index in 0..28 {
        let coords = map.index_to_coords(index);
        assert_eq!(map.coords_to_index_unchecked(coords), index);
    }
}

#[test]
fn tile_map_of_an_empty_rectangle_holds_nothing() {
    let map: DenseTileMap<TileObjectPrimitive> = DenseTileMap::new(rect(4, 4, 4, 9));
    assert!(map.data.is_empty());
    assert_eq!(map.coords_to_index(v(4, 4)), None);
}

#[test]
fn default_tile_record_has_no_backdrop_and_no_alpha_tile() {
    let tile = TileObjectPrimitive::default();
    assert_eq!(tile.backdrop, 0);
    assert_eq!(tile.alpha_tile_index, 0xFFFF);
    assert!(tile.is_solid());
    assert!(!TileObjectPrimitive { backdrop: 0, alpha_tile_index: 3 }.is_solid());
}

#[test]
fn fill_is_laid_out_in_eight_bytes() {
    let fill = FillBatchPrimitive::pack(0x0A12, 0x0B34, 0x0C56, 0x0D78, 0xBEEF);
    assert_eq!(fill.px.from, 0xAB);
    assert_eq!(fill.px.to, 0xCD);
    assert_eq!(fill.subpx.from_x, 0x12);
    assert_eq!(fill.subpx.from_y, 0x34);
    assert_eq!(fill.subpx.to_x, 0x56);
    assert_eq!(fill.subpx.to_y, 0x78);
    assert_eq!(fill.to_bytes(), [0xAB, 0xCD, 0x12, 0x34, 0x56, 0x78, 0xEF, 0xBE]);
}

#[test]
fn z_buffer_keeps_the_topmost_path() {
    let mut z_buffer = ZBuffer::new(rect(0, 0, 2 * 4096, 4096));
    assert_eq!(z_buffer.buffer.rect, rect(0, 0, 2, 1));
    assert_eq!(z_buffer.buffer.data, vec![0, 0]);
    assert!(z_buffer.test(v(0, 0), 0));
    z_buffer.update(v(0, 0), 3);
    assert_eq!(z_buffer.buffer.data, vec![4, 0]);
    z_buffer.update(v(0, 0), 1);
    assert_eq!(z_buffer.buffer.data, vec![4, 0]);
    z_buffer.update(v(9, 9), 7);
    assert_eq!(z_buffer.buffer.data, vec![4, 0]);
    assert!(!z_buffer.test(v(0, 0), 2));
    assert!(z_buffer.test(v(0, 0), 3));
    assert!(z_buffer.test(v(0, 0), 4));
    assert!(z_buffer.test(v(1, 0), 0));
    assert!(z_buffer.test(v(9, 9), 0));
    assert!(z_buffer.test(v(0, 0), u32::MAX));
}

fn plain_path(paint: u16) -> DrawPath {
    DrawPath {
        outline: Outline { contours: vec![] },
        paint: PaintId(paint),
        clip_path: None,
        fill_rule: FillRule::Winding,
    }
}

#[test]
fn z_buffer_lists_the_solid_tiles_of_the_paths_in_range() {
    let mut z_buffer = ZBuffer::new(rect(0, 0, 2 * 4096, 2 * 4096));
    z_buffer.update(v(1, 0), 0);
    z_buffer.update(v(0, 1), 2);
    z_buffer.update(v(1, 1), 1);
    let paths = vec![plain_path(1), plain_path(0), plain_path(1)];
    let paints = vec![paint(true), paint(false)];
    let all = z_buffer.build_solid_tiles(&paths, &paints, 0..3);
    assert_eq!(all.len(), 3);
    assert_eq!((all[0].tile_coords, all[0].path_id, all[0].paint), (v(1, 0), 0, paint(false)));
    assert_eq!((all[1].tile_coords, all[1].path_id, all[1].paint), (v(0, 1), 2, paint(false)));
    assert_eq!((all[2].tile_coords, all[2].path_id, all[2].paint), (v(1, 1), 1, paint(true)));
    let some = z_buffer.build_solid_tiles(&paths, &paints, 1..2);
    assert_eq!(some.len(), 1);
    assert_eq!(some[0].path_id, 1);
    assert!(z_buffer.build_solid_tiles(&paths, &paints, 0..0).is_empty());
}

#[test]
fn new_built_object_covers_the_tiles_of_its_bounds() {
    let object = BuiltObject::new(rect(100, 5000, 9000, 8192));
    assert_eq!(object.tile_rect(), rect(0, 1, 3, 2));
    assert_eq!(object.tiles.data, vec![TileObjectPrimitive::default(); 3]);
    assert!(object.fills.is_empty());
    assert!(object.alpha_tiles.is_empty());
    assert_eq!(object.alpha_tile_count, 0);
    assert_eq!(object.tile_coords_to_local_index(v(2, 1)), Some(2));
    assert_eq!(object.tile_coords_to_local_index(v(3, 1)), None);
    assert_eq!(object.local_tile_index_to_coords(1), v(1, 1));
}

#[test]
fn fill_is_clamped_into_its_tile() {
    let mut object = BuiltObject::new(rect(0, 0, 8192, 8192));
    assert_eq!(object.add_fill(segment((4000, -50), (9000, 5000)), v(1, 0)), Ok(()));
    assert_eq!(object.fills, vec![FillBatchPrimitive::pack(0, 0, 4095, 4095, 0)]);
    assert_eq!(object.tiles.data[1].alpha_tile_index, 0);
    assert_eq!(object.alpha_tile_count, 1);
}

#[test]
fn fill_outside_the_grid_and_upright_fill_are_passed_over() {
    let mut object = BuiltObject::new(rect(0, 0, 8192, 8192));
    assert_eq!(object.add_fill(segment((0, 0), (100, 100)), v(2, 0)), Ok(()));
    assert_eq!(object.add_fill(segment((0, 0), (100, 100)), v(0, -1)), Ok(()));
    assert_eq!(object.add_fill(segment((70, 0), (70, 100)), v(0, 0)), Ok(()));
    // Both ends lie left of the tile and are clamped to its left edge.
    assert_eq!(object.add_fill(segment((70, 0), (90, 100)), v(1, 0)), Ok(()));
    assert!(object.fills.is_empty());
    assert_eq!(object.alpha_tile_count, 0);
    assert!(object.tiles.data.iter().all(|tile| tile.alpha_tile_index == NO_ALPHA_TILE));
}

#[test]
fn tile_gets_its_alpha_tile_index_once() {
    let mut object = BuiltObject::new(rect(0, 0, 8192, 8192));
    assert_eq!(object.get_or_allocate_alpha_tile_index(v(1, 1)), Ok(0));
    assert_eq!(object.get_or_allocate_alpha_tile_index(v(0, 0)), Ok(1));
    assert_eq!(object.get_or_allocate_alpha_tile_index(v(1, 1)), Ok(0));
    assert_eq!(object.get_or_allocate_alpha_tile_index(v(0, 0)), Ok(1));
    assert_eq!(object.alpha_tile_count, 2);
    assert_eq!(object.tiles.data[3].alpha_tile_index, 0);
    assert_eq!(object.tiles.data[0].alpha_tile_index, 1);
    assert_eq!(object.tiles.data[1].alpha_tile_index, NO_ALPHA_TILE);
}

#[test]
fn alpha_tile_index_is_refused_when_none_is_left() {
    let mut object = BuiltObject::new(rect(0, 0, 8192, 4096));
    object.alpha_tile_count = 0xFFFF;
    assert_eq!(
        object.get_or_allocate_alpha_tile_index(v(0, 0)),
        Err(BuildError::AlphaTileOverflow)
    );
    assert_eq!(
        object.add_fill(segment((0, 0), (100, 100)), v(0, 0)),
        Err(BuildError::AlphaTileOverflow)
    );
    assert!(object.fills.is_empty());
    object.alpha_tile_count = 0xFFFE;
    assert_eq!(object.get_or_allocate_alpha_tile_index(v(0, 0)), Ok(0xFFFE));
    assert_eq!(object.get_or_allocate_alpha_tile_index(v(0, 0)), Ok(0xFFFE));
    assert_eq!(
        object.get_or_allocate_alpha_tile_index(v(1, 0)),
        Err(BuildError::AlphaTileOverflow)
    );
}

#[test]
fn active_fill_adds_one_fill_for_each_winding() {
    let mut object = BuiltObject::new(rect(0, 0, 8192, 8192));
    assert_eq!(object.add_active_fill(4096 + 100, 4096 + 900, 2, v(1, 1)), Ok(()));
    let leftward = FillBatchPrimitive::pack(900, 0, 100, 0, 0);
    assert_eq!(object.fills, vec![leftward, leftward]);
    assert_eq!(object.add_active_fill(4096 + 100, 4096 + 900, -1, v(1, 1)), Ok(()));
    assert_eq!(object.fills[2], FillBatchPrimitive::pack(100, 0, 900, 0, 0));
    assert_eq!(object.add_active_fill(100, 900, 0, v(0, 0)), Ok(()));
    assert_eq!(object.add_active_fill(100, 900, 3, v(5, 5)), Ok(()));
    assert_eq!(object.fills.len(), 3);
}

#[test]
fn line_is_cut_at_the_tile_boundaries_it_crosses() {
    let mut object = BuiltObject::new(rect(0, 0, 3 * 4096, 4096));
    let line = segment((1000, 1000), (3 * 4096 - 1000, 3000));
    assert_eq!(object.generate_fill_primitives_for_line(line, 0), Ok(()));
    let at_first = line.solve_y_for_x(4096) as u16;
    let at_second = line.solve_y_for_x(8192) as u16;
    assert_eq!(at_first, 1000 + ((2000i64 * 3096) / 10288) as u16);
    assert_eq!(
        object.fills,
        vec![
            FillBatchPrimitive::pack(1000, 1000, 4095, at_first, 0),
            FillBatchPrimitive::pack(0, at_first, 4095, at_second, 1),
            FillBatchPrimitive::pack(0, at_second, 4096 - 1000, 3000, 2),
        ]
    );
}

#[test]
fn line_running_leftward_is_cut_alike() {
    let mut object = BuiltObject::new(rect(0, 0, 2 * 4096, 4096));
    let line = segment((6000, 100), (2000, 100));
    assert_eq!(object.generate_fill_primitives_for_line(line, 0), Ok(()));
    assert_eq!(
        object.fills,
        vec![
            FillBatchPrimitive::pack(4095, 100, 2000, 100, 0),
            FillBatchPrimitive::pack(6000 - 4096, 100, 0, 100, 1),
        ]
    );
}

#[test]
fn outline_closes_each_contour() {
    let outline = Outline {
        contours: vec![
            Contour { points: vec![v(0, 0), v(10, 0), v(0, 10)] },
            Contour { points: vec![] },
            Contour { points: vec![v(5, 5)] },
        ],
    };
    let segments = outline.segments();
    assert_eq!(
        segments,
        vec![
            segment((0, 0), (10, 0)),
            segment((10, 0), (0, 10)),
            segment((0, 10), (0, 0)),
            segment((5, 5), (5, 5)),
        ]
    );
    assert_eq!(outline.bounds(), rect(0, 0, 10, 10));
    assert_eq!(bounds_of_segments(&vec![]), rect(0, 0, 0, 0));
    assert_eq!(bounds_of_segments(&vec![segment((-3, 7), (4, -9))]), rect(-3, -9, 4, 7));
}

#[test]
fn tiler_of_a_clip_path_belongs_to_the_first_stage() {
    let outline = Outline { contours: vec![Contour { points: vec![v(0, 0), v(8192, 0), v(0, 8192)] }] };
    let clip_info = TilingPathInfo {
        outline: &outline,
        fill_rule: FillRule::Winding,
        paint_clip_info: TilingPaintClipInfo::Clip { path_id: ClipPathId(0) },
    };
    assert_eq!(clip_info.render_stage(), RenderStage::Stage0);
    let opaque = paint(true);
    let draw_info = TilingPathInfo {
        outline: &outline,
        fill_rule: FillRule::Winding,
        paint_clip_info: TilingPaintClipInfo::Draw { path_id: DrawPathId(0), paint_metadata: &opaque },
    };
    assert_eq!(draw_info.render_stage(), RenderStage::Stage1);
    let mut tiler = Tiler::new(rect(0, 0, 8192, 8192), draw_info);
    assert_eq!(tiler.built_object.tile_rect(), rect(0, 0, 2, 2));
    assert_eq!(tiler.generate_tiles(), Ok(()));
    assert_eq!(tiler.built_object.solid_tiles, vec![v(0, 0)]);
    assert_eq!(tiler.built_object.alpha_tiles.len(), 2);
    assert_eq!(tiler.built_object.tiles.data[2].backdrop, -1);
    assert_eq!(tiler.built_object.tiles.data[3], TileObjectPrimitive::default());
    let mut clip_tiler = Tiler::new(rect(0, 0, 8192, 8192), clip_info);
    assert_eq!(clip_tiler.generate_tiles(), Ok(()));
    assert!(clip_tiler.built_object.solid_tiles.is_empty());
    assert_eq!(clip_tiler.built_object.alpha_tiles.len(), 2);
    assert_eq!(clip_tiler.built_object.tiles.data[0].backdrop, -1);
}

#[test]
fn tiler_sees_the_winding_of_edges_left_of_the_view_box() {
    // A square that starts two tiles left of the view box and ends inside it.
    let outline = Outline {
        contours: vec![Contour {
            points: vec![v(-8192, 0), v(8192, 0), v(8192, 8192), v(-8192, 8192)],
        }],
    };
    let opaque = paint(true);
    let info = TilingPathInfo {
        outline: &outline,
        fill_rule: FillRule::Winding,
        paint_clip_info: TilingPaintClipInfo::Draw { path_id: DrawPathId(0), paint_metadata: &opaque },
    };
    let mut tiler = Tiler::new(rect(0, 0, 4 * 4096, 2 * 4096), info);
    assert_eq!(tiler.built_object.tile_rect(), rect(0, 0, 2, 2));
    assert_eq!(tiler.generate_tiles(), Ok(()));
    assert_eq!(tiler.built_object.solid_tiles, vec![v(0, 0), v(1, 0), v(0, 1), v(1, 1)]);
    assert!(tiler.built_object.fills.is_empty());
}

#[test]
fn sequential_executor_collects_in_index_order() {
    let items = SequentialExecutor.build_vector(5, |index| index * index);
    assert_eq!(items, vec![0, 1, 4, 9, 16]);
    let none: Vec<usize> = SequentialExecutor.build_vector(0, |index| index);
    assert!(none.is_empty());
}

#[test]
fn command_buffer_keeps_commands_in_order() {
    let mut buffer = CommandBuffer::new();
    buffer.send(RenderCommand::FlushFills);
    buffer.send(RenderCommand::AddPaintData(vec![7]));
    assert_eq!(
        buffer.commands,
        vec![RenderCommand::FlushFills, RenderCommand::AddPaintData(vec![7])]
    );
}

fn small_scene() -> Scene {
    Scene {
        draw_paths: vec![plain_path(0)],
        clip_paths: vec![],
        paint_data: vec![],
        paint_metadata: vec![paint(true)],
        view_box: rect(0, 0, 2 * 4096, 4096),
    }
}

fn plain_options(subpixel_aa_enabled: bool) -> PreparedBuildOptions {
    let corner = v(1, 2);
    PreparedBuildOptions {
        bounding_quad: BoundingQuad {
            upper_left: corner,
            upper_right: corner,
            lower_right: corner,
            lower_left: corner,
        },
        subpixel_aa_enabled,
    }
}

#[test]
fn view_box_is_three_times_as_wide_with_subpixel_rendering() {
    let mut scene = small_scene();
    assert_eq!(scene.effective_view_box(&plain_options(false)), rect(0, 0, 8192, 4096));
    assert_eq!(scene.effective_view_box(&plain_options(true)), rect(0, 0, 3 * 8192, 4096));
    scene.view_box = rect(i32::MIN, 0, i32::MAX, 1);
    assert_eq!(scene.effective_view_box(&plain_options(true)), rect(i32::MIN, 0, i32::MAX, 1));
    let options = plain_options(true);
    let scene = small_scene();
    let builder = SceneBuilder::new(&scene, &options, CommandBuffer::new());
    assert_eq!(builder.z_buffer.buffer.rect, rect(0, 0, 6, 1));
    assert_eq!(options.bounding_quad().upper_left, v(1, 2));
}

#[test]
fn scene_with_a_disordered_view_box_is_not_buildable() {
    let mut scene = small_scene();
    assert!(is_buildable(&scene, &plain_options(false)));
    scene.view_box = rect(10, 0, 0, 10);
    assert!(!is_buildable(&scene, &plain_options(false)));
    scene.view_box = rect(i32::MIN, i32::MIN, i32::MAX, i32::MAX);
    assert!(!is_buildable(&scene, &plain_options(false)));
}

fn alpha_tile(x: i32, y: i32, path_id: u32) -> AlphaTile {
    AlphaTile {
        tile_coords: v(x, y),
        path_id,
        backdrop: 0,
        alpha_tile_index: 0,
        clip_alpha_tile_index: NO_ALPHA_TILE,
        paint: paint(false),
    }
}

#[test]
fn culling_keeps_clip_tiles_and_visible_draw_tiles() {
    let scene = small_scene();
    let options = plain_options(false);
    let mut builder = SceneBuilder::new(&scene, &options, CommandBuffer::new());
    builder.z_buffer.update(v(1, 0), 1);
    let clips = vec![ClipBuildResult {
        alpha_tiles: vec![alpha_tile(1, 0, 0)],
        tiles: DenseTileMap::new(rect(0, 0, 0, 0)),
        path_id: ClipPathId(0),
        fill_rule: FillRule::Winding,
    }];
    let draws = vec![
        DrawBuildResult {
            alpha_tiles: vec![alpha_tile(0, 0, 0), alpha_tile(1, 0, 0)],
            path_id: DrawPathId(0),
        },
        DrawBuildResult { alpha_tiles: vec![alpha_tile(1, 0, 1)], path_id: DrawPathId(1) },
    ];
    let culled = builder.cull_tiles(clips, draws);
    assert_eq!(culled.clip, vec![alpha_tile(1, 0, 0)]);
    assert_eq!(culled.draw, vec![alpha_tile(0, 0, 0), alpha_tile(1, 0, 1)]);
}

#[test]
fn packing_sends_no_command_for_an_empty_list() {
    let scene = small_scene();
    let options = plain_options(false);
    let mut builder = SceneBuilder::new(&scene, &options, CommandBuffer::new());
    builder.pack_tiles(CulledTiles::new());
    assert!(builder.listener.commands.is_empty());
    builder.pack_tiles(CulledTiles { draw: vec![], clip: vec![alpha_tile(0, 0, 0)] });
    assert_eq!(
        builder.listener.commands,
        vec![RenderCommand::DrawClipTiles(vec![alpha_tile(0, 0, 0)])]
    );
    builder.z_buffer.update(v(0, 0), 0);
    builder.finish_building(vec![], vec![]);
    assert_eq!(builder.listener.commands.len(), 3);
    assert_eq!(builder.listener.commands[1], RenderCommand::FlushFills);
    assert!(matches!(&builder.listener.commands[2], RenderCommand::DrawSolidTiles(tiles) if tiles.len() == 1));
}

#[test]
fn tile_stats_start_at_zero() {
    let stats = TileStats::default();
    assert_eq!(stats.solid_tile_count, 0);
    assert_eq!(stats.alpha_tile_count, 0);
}

#[test]
fn failed_active_fill_leaves_the_object_as_it_was() {
    let mut object = BuiltObject::new(rect(0, 0, 8192, 4096));
    assert_eq!(object.add_fill(segment((0, 0), (100, 100)), v(0, 0)), Ok(()));
    object.alpha_tile_count = 0xFFFF;
    let fills = object.fills.clone();
    let tiles = object.tiles.data.clone();
    assert_eq!(
        object.add_active_fill(4096 + 100, 4096 + 900, 3, v(1, 0)),
        Err(BuildError::AlphaTileOverflow)
    );
    assert_eq!(object.fills, fills);
    assert_eq!(object.tiles.data, tiles);
    assert_eq!(object.alpha_tile_count, 0xFFFF);
    // The tile that has its index takes fills as before.
    assert_eq!(object.add_active_fill(100, 900, -2, v(0, 0)), Ok(()));
    assert_eq!(object.fills.len(), 3);
}

#[test]
fn failed_line_keeps_the_fills_added_before_it_failed() {
    let mut object = BuiltObject::new(rect(0, 0, 3 * 4096, 4096));
    object.alpha_tile_count = 0xFFFE;
    let line = segment((1000, 1000), (3 * 4096 - 1000, 3000));
    assert_eq!(
        object.generate_fill_primitives_for_line(line, 0),
        Err(BuildError::AlphaTileOverflow)
    );
    assert_eq!(object.fills.len(), 1);
    assert_eq!(object.fills[0].alpha_tile_index, 0xFFFE);
    assert_eq!(object.tiles.data[0].alpha_tile_index, 0xFFFE);
    assert_eq!(object.tiles.data[1].alpha_tile_index, NO_ALPHA_TILE);
}
