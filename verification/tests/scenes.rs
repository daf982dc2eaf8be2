use scene_builder::builder::{
    build_clip_path, build_draw_path, finish_clip_path, finish_draw_path, SceneBuilder,
};
use scene_builder::scene::DrawPathId;
use scene_builder::error::BuildError;
use scene_builder::executor::{Executor, SequentialExecutor};
use scene_builder::geometry::{RectI, Vector2I};
use scene_builder::gpu_data::{
    AlphaTile, BoundingQuad, FillBatchPrimitive, PaintMetadata, RenderCommand, RenderStage,
    SolidTile, NO_ALPHA_TILE,
};
use scene_builder::options::{CommandBuffer, PreparedBuildOptions};
use scene_builder::scene::{
    ClipPath, ClipPathId, Contour, DrawPath, FillRule, Outline, PaintId, Scene,
};

fn px(v: i32) -> i32 {
    v * 256
}

fn point(x: i32, y: i32) -> Vector2I {
    Vector2I { x: px(x), y: px(y) }
}

fn polygon(points: &[(i32, i32)]) -> Outline {
    Outline {
        contours: vec![Contour { points: points.iter().map(|&(x, y)| point(x, y)).collect() }],
    }
}

fn square(left: i32, top: i32, right: i32, bottom: i32) -> Outline {
    polygon(&[(left, top), (right, top), (right, bottom), (left, bottom)])
}

fn view_box(width: i32, height: i32) -> RectI {
    RectI { origin: Vector2I { x: 0, y: 0 }, lower_right: point(width, height) }
}

fn paint(is_opaque: bool) -> PaintMetadata {
    PaintMetadata { tex_rect: view_box(1, 1), is_opaque }
}

fn options() -> PreparedBuildOptions {
    let zero = Vector2I { x: 0, y: 0 };
    PreparedBuildOptions {
        bounding_quad: BoundingQuad {
            upper_left: zero,
            upper_right: zero,
            lower_right: zero,
            lower_left: zero,
        },
        subpixel_aa_enabled: false,
    }
}

fn draw_path(outline: Outline, paint: u16, clip_path: Option<u32>) -> DrawPath {
    DrawPath {
        outline,
        paint: PaintId(paint),
        clip_path: clip_path.map(ClipPathId),
        fill_rule: FillRule::Winding,
    }
}

fn scene(draw_paths: Vec<DrawPath>, clip_paths: Vec<ClipPath>, width: i32, height: i32) -> Scene {
    Scene {
        draw_paths,
        clip_paths,
        paint_data: vec![1, 2, 3],
        paint_metadata: vec![paint(true), paint(false)],
        view_box: view_box(width, height),
    }
}

fn build_with<E: Executor>(scene: &Scene, executor: &E) -> Result<Vec<RenderCommand>, BuildError> {
    let options = options();
    let mut builder = SceneBuilder::new(scene, &options, CommandBuffer::new());
    builder.build(executor)?;
    Ok(builder.listener.commands)
}

fn build(scene: &Scene) -> Result<Vec<RenderCommand>, BuildError> {
    build_with(scene, &SequentialExecutor)
}

fn kinds(commands: &[RenderCommand]) -> Vec<&'static str> {
    commands
        .iter()
        .map(|command| match command {
            RenderCommand::Start { .. } => "Start",
            RenderCommand::AddPaintData(_) => "AddPaintData",
            RenderCommand::AddFills { .. } => "AddFills",
            RenderCommand::FlushFills => "FlushFills",
            RenderCommand::DrawSolidTiles(_) => "DrawSolidTiles",
            RenderCommand::DrawAlphaTiles(_) => "DrawAlphaTiles",
            RenderCommand::DrawClipTiles(_) => "DrawClipTiles",
            RenderCommand::Finish { .. } => "Finish",
        })
        .collect()
}

fn fills_of(commands: &[RenderCommand], wanted: RenderStage) -> Vec<FillBatchPrimitive> {
    let mut all = vec![];
    for command in commands {
        if let RenderCommand::AddFills { fills, stage } = command {
            if *stage == wanted {
                all.extend(fills.iter().copied());
            }
        }
    }
    all
}

fn solid_tiles_of(commands: &[RenderCommand]) -> Vec<SolidTile> {
    let mut all = vec![];
    for command in commands {
        if let RenderCommand::DrawSolidTiles(tiles) = command {
            all.extend(tiles.iter().copied());
        }
    }
    all
}

fn alpha_tiles_of(commands: &[RenderCommand]) -> Vec<AlphaTile> {
    let mut all = vec![];
    for command in commands {
        if let RenderCommand::DrawAlphaTiles(tiles) = command {
            all.extend(tiles.iter().copied());
        }
    }
    all
}

fn clip_tiles_of(commands: &[RenderCommand]) -> Vec<AlphaTile> {
    let mut all = vec![];
    for command in commands {
        if let RenderCommand::DrawClipTiles(tiles) = command {
            all.extend(tiles.iter().copied());
        }
    }
    all
}

fn coords(x: i32, y: i32) -> Vector2I {
    Vector2I { x, y }
}

#[test]
fn empty_scene_sends_the_four_fixed_commands() {
    let mut empty = scene(vec![], vec![], 64, 64);
    empty.paint_data = vec![];
    empty.paint_metadata = vec![];
    let commands = build(&empty).unwrap();
    assert_eq!(kinds(&commands), vec!["Start", "AddPaintData", "FlushFills", "Finish"]);
    assert!(matches!(commands[0], RenderCommand::Start { path_count: 0, .. }));
    assert_eq!(commands[1], RenderCommand::AddPaintData(vec![]));
}

#[test]
fn aligned_opaque_square_gives_sixteen_solid_tiles_and_no_fills() {
    let commands = build(&scene(vec![draw_path(square(0, 0, 64, 64), 0, None)], vec![], 64, 64))
        .unwrap();
    assert_eq!(
        kinds(&commands),
        vec!["Start", "AddPaintData", "AddFills", "FlushFills", "DrawSolidTiles", "Finish"]
    );
    assert!(matches!(commands[0], RenderCommand::Start { path_count: 1, .. }));
    assert_eq!(commands[1], RenderCommand::AddPaintData(vec![1, 2, 3]));
    assert_eq!(
        commands[2],
        RenderCommand::AddFills { fills: vec![], stage: RenderStage::Stage1 }
    );
    let solid = solid_tiles_of(&commands);
    assert_eq!(solid.len(), 16);
    for y in 0..4 {
        for x in 0..4 {
            let tile = solid[(y * 4 + x) as usize];
            assert_eq!(tile.tile_coords, coords(x, y));
            assert_eq!(tile.path_id, 0);
            assert_eq!(tile.paint, paint(true));
        }
    }
    assert!(alpha_tiles_of(&commands).is_empty());
}

#[test]
fn offset_opaque_square_gives_nine_solid_and_sixteen_alpha_tiles() {
    let commands = build(&scene(vec![draw_path(square(8, 8, 72, 72), 0, None)], vec![], 80, 80))
        .unwrap();
    assert_eq!(
        kinds(&commands),
        vec![
            "Start",
            "AddPaintData",
            "AddFills",
            "FlushFills",
            "DrawSolidTiles",
            "DrawAlphaTiles",
            "Finish"
        ]
    );
    let solid = solid_tiles_of(&commands);
    assert_eq!(solid.len(), 9);
    for tile in &solid {
        assert!((1..4).contains(&tile.tile_coords.x) && (1..4).contains(&tile.tile_coords.y));
    }
    let alpha = alpha_tiles_of(&commands);
    assert_eq!(alpha.len(), 16);
    for tile in &alpha {
        let on_border = tile.tile_coords.x == 0
            || tile.tile_coords.x == 4
            || tile.tile_coords.y == 0
            || tile.tile_coords.y == 4;
        assert!(on_border);
        assert_ne!(tile.alpha_tile_index, NO_ALPHA_TILE);
    }
    let fills = fills_of(&commands, RenderStage::Stage1);
    // Five along the top edge, two for each of the three rows between, and seven in the
    // last row: two along the top of its corner tiles and five along the bottom edge.
    assert_eq!(fills.len(), 5 + 6 + 7);
    for tile in &alpha {
        let count = fills.iter().filter(|fill| fill.alpha_tile_index == tile.alpha_tile_index).count();
        let corner_below = tile.tile_coords.y == 4 && (tile.tile_coords.x == 0 || tile.tile_coords.x == 4);
        assert_eq!(count, if corner_below { 2 } else { 1 });
    }
    // The first fill runs along the top edge of the square within the first tile.
    assert_eq!(fills[0].px.from, (8 << 4) | 8);
    assert_eq!(fills[0].px.to, (15 << 4) | 8);
    assert_eq!(fills[0].subpx.from_x, 0);
    assert_eq!(fills[0].subpx.to_x, 255);
    assert_eq!(fills[0].subpx.from_y, 0);
    assert_eq!(fills[0].subpx.to_y, 0);
    assert_eq!(fills[0].alpha_tile_index, 0);
}

#[test]
fn inner_opaque_square_takes_the_tiles_it_covers() {
    let mut two = scene(
        vec![
            draw_path(square(0, 0, 64, 64), 0, None),
            draw_path(square(16, 16, 48, 48), 2, None),
        ],
        vec![],
        64,
        64,
    );
    two.paint_metadata.push(paint(true));
    let commands = build(&two).unwrap();
    let solid = solid_tiles_of(&commands);
    assert_eq!(solid.len(), 16);
    for tile in &solid {
        let inner = (1..3).contains(&tile.tile_coords.x) && (1..3).contains(&tile.tile_coords.y);
        assert_eq!(tile.path_id, if inner { 1 } else { 0 });
    }
    assert!(alpha_tiles_of(&commands).is_empty());
}

#[test]
fn alpha_tiles_under_a_later_opaque_path_are_culled() {
    let covered = scene(
        vec![
            draw_path(square(8, 8, 72, 72), 0, None),
            draw_path(square(0, 0, 48, 80), 0, None),
        ],
        vec![],
        80,
        80,
    );
    let commands = build(&covered).unwrap();
    let alpha = alpha_tiles_of(&commands);
    // The second square covers the tile columns 0 to 2 in full: of the sixteen alpha
    // tiles of the first square those in the columns 3 and 4 are left.
    assert_eq!(alpha.len(), 7);
    for tile in &alpha {
        assert_eq!(tile.path_id, 0);
        assert!(tile.tile_coords.x >= 3);
    }
    let solid = solid_tiles_of(&commands);
    assert_eq!(solid.iter().filter(|tile| tile.path_id == 1).count(), 15);
    assert_eq!(solid.iter().filter(|tile| tile.path_id == 0).count(), 3);
}

#[test]
fn alpha_tiles_above_an_opaque_path_survive() {
    let below = scene(
        vec![
            draw_path(square(0, 0, 48, 80), 0, None),
            draw_path(square(8, 8, 72, 72), 0, None),
        ],
        vec![],
        80,
        80,
    );
    let commands = build(&below).unwrap();
    assert_eq!(alpha_tiles_of(&commands).len(), 16);
}

#[test]
fn triangle_gives_one_solid_tile_and_two_alpha_tiles() {
    let commands = build(&scene(
        vec![draw_path(polygon(&[(0, 0), (32, 0), (0, 32)]), 0, None)],
        vec![],
        32,
        32,
    ))
    .unwrap();
    let solid = solid_tiles_of(&commands);
    assert_eq!(solid.len(), 1);
    assert_eq!(solid[0].tile_coords, coords(0, 0));
    let alpha = alpha_tiles_of(&commands);
    assert_eq!(alpha.len(), 2);
    assert_eq!(alpha[0].tile_coords, coords(1, 0));
    assert_eq!(alpha[1].tile_coords, coords(0, 1));
    assert_ne!(alpha[1].backdrop, 0);
    assert_eq!(fills_of(&commands, RenderStage::Stage1).len(), 2);
}

#[test]
fn clipped_draw_path_is_masked_by_the_tiles_of_its_clip_path() {
    let clipped = scene(
        vec![draw_path(square(0, 0, 32, 32), 0, Some(0))],
        vec![ClipPath { outline: square(8, 8, 24, 24), fill_rule: FillRule::Winding }],
        32,
        32,
    );
    let commands = build(&clipped).unwrap();
    assert_eq!(
        kinds(&commands),
        vec![
            "Start",
            "AddPaintData",
            "AddFills",
            "AddFills",
            "FlushFills",
            "DrawAlphaTiles",
            "DrawClipTiles",
            "Finish"
        ]
    );
    assert!(matches!(commands[0], RenderCommand::Start { path_count: 2, .. }));
    assert!(matches!(commands[2], RenderCommand::AddFills { stage: RenderStage::Stage0, .. }));
    assert!(matches!(commands[3], RenderCommand::AddFills { stage: RenderStage::Stage1, .. }));
    let clip = clip_tiles_of(&commands);
    assert_eq!(clip.len(), 4);
    let draw = alpha_tiles_of(&commands);
    assert_eq!(draw.len(), 4);
    for (draw_tile, clip_tile) in draw.iter().zip(clip.iter()) {
        assert_eq!(draw_tile.tile_coords, clip_tile.tile_coords);
        assert_eq!(draw_tile.clip_alpha_tile_index, clip_tile.alpha_tile_index);
        assert_eq!(draw_tile.alpha_tile_index, NO_ALPHA_TILE);
        assert_ne!(clip_tile.alpha_tile_index, NO_ALPHA_TILE);
    }
    assert!(fills_of(&commands, RenderStage::Stage1).is_empty());
    assert!(!fills_of(&commands, RenderStage::Stage0).is_empty());
}

#[test]
fn draw_tiles_outside_the_clip_path_are_dropped() {
    let clipped = scene(
        vec![draw_path(square(0, 0, 64, 64), 0, Some(0))],
        vec![ClipPath { outline: square(0, 0, 32, 32), fill_rule: FillRule::Winding }],
        64,
        64,
    );
    let commands = build(&clipped).unwrap();
    let solid = solid_tiles_of(&commands);
    assert_eq!(solid.len(), 4);
    for tile in &solid {
        assert!(tile.tile_coords.x < 2 && tile.tile_coords.y < 2);
    }
    assert!(alpha_tiles_of(&commands).is_empty());
    assert!(clip_tiles_of(&commands).is_empty());
}

#[test]
fn translucent_square_gives_alpha_tiles_without_fills() {
    let commands = build(&scene(vec![draw_path(square(0, 0, 32, 32), 1, None)], vec![], 32, 32))
        .unwrap();
    assert!(solid_tiles_of(&commands).is_empty());
    let alpha = alpha_tiles_of(&commands);
    assert_eq!(alpha.len(), 4);
    for tile in &alpha {
        assert_eq!(tile.alpha_tile_index, NO_ALPHA_TILE);
        assert_ne!(tile.backdrop, 0);
        assert_eq!(tile.paint, paint(false));
    }
}

#[test]
fn even_odd_rule_leaves_doubly_wound_tiles_empty() {
    let outline = Outline {
        contours: vec![
            Contour { points: vec![point(0, 0), point(32, 0), point(32, 32), point(0, 32)] },
            Contour { points: vec![point(0, 0), point(32, 0), point(32, 32), point(0, 32)] },
        ],
    };
    let mut path = draw_path(outline, 0, None);
    path.fill_rule = FillRule::EvenOdd;
    let commands = build(&scene(vec![path], vec![], 32, 32)).unwrap();
    assert_eq!(kinds(&commands), vec!["Start", "AddPaintData", "AddFills", "FlushFills", "Finish"]);
}

#[test]
fn path_outside_the_view_box_adds_only_its_empty_fills() {
    let commands = build(&scene(vec![draw_path(square(100, 100, 120, 120), 0, None)], vec![], 64, 64))
        .unwrap();
    assert_eq!(kinds(&commands), vec!["Start", "AddPaintData", "AddFills", "FlushFills", "Finish"]);
    assert_eq!(
        commands[2],
        RenderCommand::AddFills { fills: vec![], stage: RenderStage::Stage1 }
    );
}

#[test]
fn missing_clip_path_fails_the_build() {
    let broken = scene(vec![draw_path(square(0, 0, 32, 32), 0, Some(3))], vec![], 32, 32);
    assert_eq!(build(&broken), Err(BuildError::InvalidClipReference));
}

#[test]
fn missing_paint_fails_the_build() {
    let broken = scene(vec![draw_path(square(0, 0, 32, 32), 7, None)], vec![], 32, 32);
    assert_eq!(build(&broken), Err(BuildError::InvalidPaintReference));
}

#[test]
fn failed_build_sends_nothing() {
    let broken = scene(
        vec![draw_path(square(0, 0, 32, 32), 0, None), draw_path(square(0, 0, 32, 32), 9, None)],
        vec![],
        32,
        32,
    );
    let options = options();
    let mut builder = SceneBuilder::new(&broken, &options, CommandBuffer::new());
    assert_eq!(builder.build(&SequentialExecutor), Err(BuildError::InvalidPaintReference));
    assert!(builder.listener.commands.is_empty());
    assert_eq!(builder.next_stage_1_alpha_tile_index, 0);
    assert!(builder.z_buffer.buffer.data.iter().all(|&depth| depth == 0));
}

fn sliver(tiles: i32) -> Outline {
    Outline {
        contours: vec![Contour {
            points: vec![
                Vector2I { x: 0, y: 2048 },
                Vector2I { x: tiles * 4096, y: 2048 },
                Vector2I { x: 0, y: 2049 },
            ],
        }],
    }
}

#[test]
fn path_with_too_many_alpha_tiles_fails_the_build() {
    let mut wide = scene(vec![draw_path(sliver(65536), 0, None)], vec![], 16, 16);
    wide.view_box = RectI {
        origin: Vector2I { x: 0, y: 0 },
        lower_right: Vector2I { x: 65536 * 4096, y: 4096 },
    };
    assert_eq!(build(&wide), Err(BuildError::AlphaTileOverflow));
}

#[test]
fn stage_with_too_many_alpha_tiles_fails_the_build() {
    let mut wide = scene(
        vec![draw_path(sliver(40000), 0, None), draw_path(sliver(40000), 0, None)],
        vec![],
        16,
        16,
    );
    wide.view_box = RectI {
        origin: Vector2I { x: 0, y: 0 },
        lower_right: Vector2I { x: 40000 * 4096, y: 4096 },
    };
    assert_eq!(build(&wide), Err(BuildError::AlphaTileOverflow));
}

#[test]
fn stages_count_their_alpha_tiles_apart() {
    let mut wide = scene(
        vec![draw_path(sliver(40000), 0, None)],
        vec![ClipPath { outline: sliver(40000), fill_rule: FillRule::Winding }],
        16,
        16,
    );
    wide.view_box = RectI {
        origin: Vector2I { x: 0, y: 0 },
        lower_right: Vector2I { x: 40000 * 4096, y: 4096 },
    };
    let options = options();
    let mut builder = SceneBuilder::new(&wide, &options, CommandBuffer::new());
    assert_eq!(builder.build(&SequentialExecutor), Ok(()));
    assert_eq!(builder.next_stage_0_alpha_tile_index, 40000);
    assert_eq!(builder.next_stage_1_alpha_tile_index, 40000);
}

#[test]
fn alpha_tile_indices_of_one_stage_are_all_distinct() {
    let many = scene(
        vec![
            draw_path(square(8, 8, 72, 72), 1, None),
            draw_path(polygon(&[(0, 0), (32, 0), (0, 32)]), 1, None),
            draw_path(square(4, 4, 20, 20), 1, None),
        ],
        vec![],
        80,
        80,
    );
    let commands = build(&many).unwrap();
    let mut indices: Vec<u16> = alpha_tiles_of(&commands)
        .iter()
        .map(|tile| tile.alpha_tile_index)
        .filter(|&index| index != NO_ALPHA_TILE)
        .collect();
    let count = indices.len();
    assert_eq!(count, 16 + 2 + 4);
    indices.sort();
    indices.dedup();
    assert_eq!(indices.len(), count);
    assert_eq!(indices, (0..count as u16).collect::<Vec<u16>>());
    for fill in fills_of(&commands, RenderStage::Stage1) {
        assert!((fill.alpha_tile_index as usize) < count);
    }
}

#[test]
fn every_fill_lies_within_its_tile_and_is_not_degenerate() {
    let commands = build(&scene(
        vec![
            draw_path(polygon(&[(3, 5), (70, 11), (45, 77), (9, 60)]), 0, None),
            draw_path(polygon(&[(0, 0), (32, 0), (0, 32)]), 1, None),
        ],
        vec![],
        80,
        80,
    ))
    .unwrap();
    let fills = fills_of(&commands, RenderStage::Stage1);
    assert!(!fills.is_empty());
    for fill in fills {
        let from_x = (fill.px.from as u32 >> 4) * 256 + fill.subpx.from_x as u32;
        let to_x = (fill.px.to as u32 >> 4) * 256 + fill.subpx.to_x as u32;
        assert!(from_x < 4096 && to_x < 4096);
        assert_ne!(from_x, to_x);
    }
}

struct BackwardExecutor;

impl Executor for BackwardExecutor {
    fn build_vector<T, F>(&self, length: usize, builder: F) -> Vec<T>
    where
        T: Send,
        F: Fn(usize) -> T + Send + Sync,
    {
        let mut items: Vec<T> = (0..length).rev().map(|index| builder(index)).collect();
        items.reverse();
        items
    }
}

fn without_time(mut commands: Vec<RenderCommand>) -> Vec<RenderCommand> {
    assert!(matches!(commands.pop(), Some(RenderCommand::Finish { .. })));
    commands
}

fn busy_scene() -> Scene {
    scene(
        vec![
            draw_path(square(8, 8, 72, 72), 0, Some(1)),
            draw_path(polygon(&[(0, 0), (32, 0), (0, 32)]), 1, None),
            draw_path(square(16, 16, 48, 48), 0, Some(0)),
        ],
        vec![
            ClipPath { outline: square(8, 8, 24, 24), fill_rule: FillRule::Winding },
            ClipPath { outline: polygon(&[(0, 0), (80, 0), (0, 80)]), fill_rule: FillRule::Winding },
        ],
        80,
        80,
    )
}

#[test]
fn executors_that_differ_in_order_give_the_same_commands() {
    let scene = busy_scene();
    let forward = without_time(build_with(&scene, &SequentialExecutor).unwrap());
    let backward = without_time(build_with(&scene, &BackwardExecutor).unwrap());
    assert_eq!(forward, backward);
}

#[test]
fn building_a_scene_twice_gives_the_same_commands() {
    let scene = busy_scene();
    let first = without_time(build(&scene).unwrap());
    let second = without_time(build(&scene).unwrap());
    assert_eq!(first, second);
    assert!(first.len() > 4);
}

#[test]
fn commands_come_in_the_fixed_order() {
    let commands = build(&busy_scene()).unwrap();
    let kinds = kinds(&commands);
    assert_eq!(kinds.first(), Some(&"Start"));
    assert_eq!(kinds.last(), Some(&"Finish"));
    let flush = kinds.iter().position(|kind| *kind == "FlushFills").unwrap();
    let paint = kinds.iter().position(|kind| *kind == "AddPaintData").unwrap();
    for (index, kind) in kinds.iter().enumerate() {
        if kind.starts_with("Draw") {
            assert!(flush < index);
        }
        if *kind == "AddFills" {
            assert!(paint < index && index < flush);
        }
    }
    assert_eq!(kinds.iter().filter(|kind| **kind == "AddFills").count(), 5);
}

#[test]
fn no_tile_is_sent_that_saw_neither_winding_nor_edge() {
    let commands = build(&scene(
        vec![
            draw_path(square(8, 8, 72, 72), 1, None),
            draw_path(polygon(&[(0, 0), (32, 0), (0, 32)]), 0, None),
        ],
        vec![],
        80,
        80,
    ))
    .unwrap();
    let fills = fills_of(&commands, RenderStage::Stage1);
    for tile in alpha_tiles_of(&commands) {
        let has_fills = tile.alpha_tile_index != NO_ALPHA_TILE
            && fills.iter().any(|fill| fill.alpha_tile_index == tile.alpha_tile_index);
        assert!(has_fills || tile.backdrop != 0);
    }
    // The lower right tile of the triangle's grid saw nothing and is not sent.
    assert!(!alpha_tiles_of(&commands)
        .iter()
        .any(|tile| tile.path_id == 1 && tile.tile_coords == coords(1, 1)));
    assert!(!solid_tiles_of(&commands).iter().any(|tile| tile.tile_coords == coords(1, 1)));
}

#[test]
fn backdrop_is_the_winding_number_that_enters_from_the_left() {
    // Two squares that run the same way round, one within the other.
    let outline = Outline {
        contours: vec![
            Contour { points: vec![point(0, 0), point(96, 0), point(96, 96), point(0, 96)] },
            Contour { points: vec![point(32, 0), point(64, 0), point(64, 96), point(32, 96)] },
        ],
    };
    let commands = build(&scene(vec![draw_path(outline, 1, None)], vec![], 96, 96)).unwrap();
    let alpha = alpha_tiles_of(&commands);
    assert_eq!(alpha.len(), 36);
    for tile in &alpha {
        let within_both = (2..4).contains(&tile.tile_coords.x);
        assert_eq!(tile.backdrop, if within_both { -2 } else { -1 });
        assert_eq!(tile.alpha_tile_index, NO_ALPHA_TILE);
    }
}

#[test]
fn contour_that_runs_the_other_way_round_cuts_a_hole() {
    let outline = Outline {
        contours: vec![
            Contour { points: vec![point(0, 0), point(96, 0), point(96, 96), point(0, 96)] },
            Contour { points: vec![point(32, 96), point(64, 96), point(64, 0), point(32, 0)] },
        ],
    };
    let commands = build(&scene(vec![draw_path(outline, 0, None)], vec![], 96, 96)).unwrap();
    let solid = solid_tiles_of(&commands);
    assert_eq!(solid.len(), 24);
    for tile in &solid {
        assert!(!(2..4).contains(&tile.tile_coords.x));
    }
    assert!(alpha_tiles_of(&commands).is_empty());
    assert!(fills_of(&commands, RenderStage::Stage1).is_empty());
}

#[test]
fn path_whose_bounds_hold_no_tile_adds_only_its_empty_fills() {
    let outline = Outline { contours: vec![Contour { points: vec![point(16, 16)] }] };
    let commands = build(&scene(vec![draw_path(outline, 0, None)], vec![], 64, 64)).unwrap();
    assert_eq!(kinds(&commands), vec!["Start", "AddPaintData", "AddFills", "FlushFills", "Finish"]);
}

#[test]
fn scene_left_of_the_origin_is_tiled_alike() {
    let mut shifted =
        scene(vec![draw_path(square(-40, -40, 24, 24), 0, None)], vec![], 32, 32);
    shifted.view_box = RectI { origin: point(-48, -48), lower_right: point(32, 32) };
    let commands = build(&shifted).unwrap();
    let solid = solid_tiles_of(&commands);
    assert_eq!(solid.len(), 9);
    for tile in &solid {
        assert!((-2..1).contains(&tile.tile_coords.x) && (-2..1).contains(&tile.tile_coords.y));
    }
    assert_eq!(alpha_tiles_of(&commands).len(), 16);
}

#[test]
fn draw_fills_do_not_depend_on_where_the_clip_stage_counts_from() {
    let scene = busy_scene();
    let options = options();
    let fresh = build(&scene).unwrap();
    let mut builder = SceneBuilder::new(&scene, &options, CommandBuffer::new());
    builder.next_stage_0_alpha_tile_index = 100;
    assert_eq!(builder.build(&SequentialExecutor), Ok(()));
    let shifted = builder.listener.commands;
    assert_eq!(fills_of(&fresh, RenderStage::Stage1), fills_of(&shifted, RenderStage::Stage1));
    let clip_fills = fills_of(&fresh, RenderStage::Stage0);
    let shifted_clip_fills = fills_of(&shifted, RenderStage::Stage0);
    assert_eq!(clip_fills.len(), shifted_clip_fills.len());
    for (fill, shifted_fill) in clip_fills.iter().zip(shifted_clip_fills.iter()) {
        assert_eq!(fill.alpha_tile_index + 100, shifted_fill.alpha_tile_index);
        assert_eq!(fill.px, shifted_fill.px);
        assert_eq!(fill.subpx, shifted_fill.subpx);
    }
}

#[test]
fn finished_clip_path_has_its_path_id_and_one_command_of_the_clip_stage() {
    let clipped = scene(
        vec![draw_path(square(0, 0, 32, 32), 0, Some(0))],
        vec![ClipPath { outline: square(8, 8, 24, 24), fill_rule: FillRule::EvenOdd }],
        32,
        32,
    );
    let object = build_clip_path(ClipPathId(0), clipped.view_box, &clipped).unwrap();
    assert_eq!(object.alpha_tile_count, 4);
    assert!(object.fills.iter().all(|fill| fill.alpha_tile_index < 4));
    let (result, command) = finish_clip_path(&clipped, &object, 0, 100);
    assert_eq!(result.path_id, ClipPathId(0));
    assert_eq!(result.fill_rule, FillRule::EvenOdd);
    assert_eq!(result.tiles.rect, object.tiles.rect);
    assert_eq!(result.alpha_tiles.len(), 4);
    for (tile, local) in result.alpha_tiles.iter().zip(object.alpha_tiles.iter()) {
        assert_eq!(tile.alpha_tile_index, local.alpha_tile_index + 100);
        assert_eq!(tile.tile_coords, local.tile_coords);
    }
    for (tile, local) in result.tiles.data.iter().zip(object.tiles.data.iter()) {
        assert_eq!(tile.alpha_tile_index, local.alpha_tile_index + 100);
        assert_eq!(tile.backdrop, local.backdrop);
    }
    match command {
        RenderCommand::AddFills { fills, stage } => {
            assert_eq!(stage, RenderStage::Stage0);
            assert_eq!(fills.len(), object.fills.len());
            for (fill, local) in fills.iter().zip(object.fills.iter()) {
                assert_eq!(fill.alpha_tile_index, local.alpha_tile_index + 100);
                assert_eq!((fill.px, fill.subpx), (local.px, local.subpx));
            }
        }
        _ => panic!("a command that adds no fills"),
    }

    let (clip_result, _) = finish_clip_path(&clipped, &object, 0, 0);
    let draw_object =
        build_draw_path(DrawPathId(0), clipped.view_box, &clipped, &vec![clip_result]).unwrap();
    let (draw_result, draw_command) = finish_draw_path(&draw_object, 0, 9);
    assert_eq!(draw_result.path_id, DrawPathId(0));
    assert_eq!(draw_result.alpha_tiles.len(), 4);
    for tile in &draw_result.alpha_tiles {
        // The tiles of the draw path have no fills, so no index is there to be moved.
        assert_eq!(tile.alpha_tile_index, NO_ALPHA_TILE);
    }
    assert_eq!(
        draw_command,
        RenderCommand::AddFills { fills: vec![], stage: RenderStage::Stage1 }
    );
}

#[test]
fn finished_draw_path_carries_the_moved_indices() {
    let one = scene(vec![draw_path(polygon(&[(0, 0), (32, 0), (0, 32)]), 1, None)], vec![], 32, 32);
    let object = build_draw_path(DrawPathId(0), one.view_box, &one, &vec![]).unwrap();
    let (result, command) = finish_draw_path(&object, 0, 40);
    let indices: Vec<u16> = result.alpha_tiles.iter().map(|tile| tile.alpha_tile_index).collect();
    assert_eq!(indices, vec![NO_ALPHA_TILE, 40, 41]);
    match command {
        RenderCommand::AddFills { fills, stage } => {
            assert_eq!(stage, RenderStage::Stage1);
            let fill_indices: Vec<u16> = fills.iter().map(|fill| fill.alpha_tile_index).collect();
            assert_eq!(fill_indices, vec![40, 41]);
        }
        _ => panic!("a command that adds no fills"),
    }
}

#[test]
fn fills_and_alpha_tiles_belong_together() {
    let commands = build(&scene(
        vec![
            draw_path(square(8, 8, 72, 72), 0, None),
            draw_path(polygon(&[(3, 5), (70, 11), (45, 77), (9, 60)]), 1, None),
        ],
        vec![],
        80,
        80,
    ))
    .unwrap();
    let fills = fills_of(&commands, RenderStage::Stage1);
    let build_tiles = {
        // Culling may hide alpha tiles; take them from the paths as they were tiled.
        let tiled = scene(
            vec![
                draw_path(square(8, 8, 72, 72), 0, None),
                draw_path(polygon(&[(3, 5), (70, 11), (45, 77), (9, 60)]), 1, None),
            ],
            vec![],
            80,
            80,
        );
        let first = build_draw_path(DrawPathId(0), tiled.view_box, &tiled, &vec![]).unwrap();
        let second = build_draw_path(DrawPathId(1), tiled.view_box, &tiled, &vec![]).unwrap();
        let (first_result, _) = finish_draw_path(&first, 0, 0);
        let (second_result, _) = finish_draw_path(&second, 1, first.alpha_tile_count);
        let mut coords = vec![];
        for tile in first.alpha_tiles.iter() {
            coords.push(tile.tile_coords);
        }
        let count = coords.len();
        coords.sort_by_key(|c| (c.y, c.x));
        coords.dedup();
        assert_eq!(coords.len(), count);
        for solid in &first.solid_tiles {
            assert!(!coords.contains(solid));
        }
        let mut all = first_result.alpha_tiles;
        all.extend(second_result.alpha_tiles);
        all
    };
    for fill in &fills {
        assert!(build_tiles.iter().any(|tile| tile.alpha_tile_index == fill.alpha_tile_index));
    }
    for tile in &build_tiles {
        if tile.alpha_tile_index != NO_ALPHA_TILE {
            assert!(fills.iter().any(|fill| fill.alpha_tile_index == tile.alpha_tile_index));
        }
    }
}
