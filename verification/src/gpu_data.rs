//! The records and commands that the builder hands to the rasterizer.

use vstd::prelude::*;
use core::time::Duration;
use crate::geometry::{RectI, Vector2I};

verus! {

/// The alpha tile index of a tile for which none has been allocated.
pub const NO_ALPHA_TILE: u16 = 0xFFFF;

/// The largest intra-tile coordinate: one less than the subpixels along a tile side.
pub const MAX_TILE_SUBPIXEL: i32 = 4095;

/// The ordering bucket of a fill: clip paths rasterize before the draw paths that use them.
#[derive(Clone, Copy, Debug, PartialEq, Eq, Structural)]
pub enum RenderStage {
    /// Fills of clip paths.
    Stage0,
    /// Fills of draw paths.
    Stage1,
}

/// What one path records about one tile of its grid.
#[derive(Clone, Copy, Debug, PartialEq, Eq, Structural)]
pub struct TileObjectPrimitive {
    /// The winding number carried into the tile from the left of its row.
    pub backdrop: i8,
    /// The tile's alpha tile index, or `NO_ALPHA_TILE`.
    pub alpha_tile_index: u16,
}

impl TileObjectPrimitive {
    /// No edge has entered a solid tile: it has no alpha tile index.
    pub open spec fn spec_is_solid(&self) -> bool {
        self.alpha_tile_index == NO_ALPHA_TILE
    }

    /// Tells whether no edge has entered the tile.
    pub fn is_solid(&self) -> (solid: bool)
        ensures
            solid == self.spec_is_solid(),
    {
        self.alpha_tile_index == NO_ALPHA_TILE
    }
}

impl Default for TileObjectPrimitive {
    fn default() -> (tile: TileObjectPrimitive)
        ensures
            tile == (TileObjectPrimitive { backdrop: 0, alpha_tile_index: NO_ALPHA_TILE }),
    {
        TileObjectPrimitive { backdrop: 0, alpha_tile_index: NO_ALPHA_TILE }
    }
}

/// Two endpoints in whole pixels within a tile, each packed into one byte.
#[derive(Clone, Copy, Debug, PartialEq, Eq, Structural)]
pub struct LineSegmentU4 {
    pub from: u8,
    pub to: u8,
}

/// The subpixel fractions of two endpoints within a tile.
#[derive(Clone, Copy, Debug, PartialEq, Eq, Structural)]
pub struct LineSegmentU8 {
    pub from_x: u8,
    pub from_y: u8,
    pub to_x: u8,
    pub to_y: u8,
}

/// One fill instance: a line segment clipped into a tile, in 4.8 fixed point.
#[derive(Clone, Copy, Debug, PartialEq, Eq, Structural)]
pub struct FillBatchPrimitive {
    pub px: LineSegmentU4,
    pub subpx: LineSegmentU8,
    pub alpha_tile_index: u16,
}

/// The byte that holds the whole pixels of one endpoint: the horizontal position in the
/// high four bits, the vertical position in the low four.
pub open spec fn spec_pack_px(x: u16, y: u16) -> u8 {
    (((x >> 8) << 4) | (y >> 8)) as u8
}

/// The byte that holds the subpixel fraction of one coordinate.
pub open spec fn spec_pack_subpx(v: u16) -> u8 {
    (v & 0xFF) as u8
}

/// The fill that stands for a segment with the given intra-tile coordinates.
pub open spec fn spec_pack_fill(
    from_x: u16,
    from_y: u16,
    to_x: u16,
    to_y: u16,
    alpha_tile_index: u16,
) -> FillBatchPrimitive {
    FillBatchPrimitive {
        px: LineSegmentU4 { from: spec_pack_px(from_x, from_y), to: spec_pack_px(to_x, to_y) },
        subpx: LineSegmentU8 {
            from_x: spec_pack_subpx(from_x),
            from_y: spec_pack_subpx(from_y),
            to_x: spec_pack_subpx(to_x),
            to_y: spec_pack_subpx(to_y),
        },
        alpha_tile_index,
    }
}

/// Packing splits a coordinate below 4096 into its whole pixels and its fraction.
pub proof fn lemma_pack_arithmetic(x: u16, y: u16)
    requires
        x < 4096,
        y < 4096,
    ensures
        spec_pack_px(x, y) == (x / 256) * 16 + y / 256,
        spec_pack_px(x, y) >> 4 == x / 256,
        spec_pack_px(x, y) & 0xF == y / 256,
        spec_pack_subpx(x) == x % 256,
{
    assert((((x >> 8) << 4) | (y >> 8)) == (x / 256) * 16 + y / 256) by (bit_vector)
        requires
            x < 4096,
            y < 4096,
    ;
    assert((((x >> 8) << 4) | (y >> 8)) < 256) by (bit_vector)
        requires
            x < 4096,
            y < 4096,
    ;
    assert(((((x >> 8) << 4) | (y >> 8)) as u8) >> 4 == x / 256) by (bit_vector)
        requires
            x < 4096,
            y < 4096,
    ;
    assert(((((x >> 8) << 4) | (y >> 8)) as u8) & 0xF == y / 256) by (bit_vector)
        requires
            x < 4096,
            y < 4096,
    ;
    assert(x & 0xFF == x % 256) by (bit_vector);
}

/// Every coordinate of a fill lies within its tile: at least zero and below the 4096
/// subpixels that a tile spans.
pub proof fn lemma_fill_within_tile(fill: FillBatchPrimitive)
    ensures
        0 <= fill.spec_from_x() < 4096,
        0 <= fill.spec_from_y() < 4096,
        0 <= fill.spec_to_x() < 4096,
        0 <= fill.spec_to_y() < 4096,
{
    let from = fill.px.from;
    let to = fill.px.to;
    assert(from >> 4 <= 15 && from & 0xF <= 15) by (bit_vector);
    assert(to >> 4 <= 15 && to & 0xF <= 15) by (bit_vector);
}

impl FillBatchPrimitive {
    /// The horizontal intra-tile position of the first endpoint, in subpixels.
    pub open spec fn spec_from_x(&self) -> int {
        (self.px.from >> 4) * 256 + self.subpx.from_x
    }

    /// The vertical intra-tile position of the first endpoint, in subpixels.
    pub open spec fn spec_from_y(&self) -> int {
        (self.px.from & 0xF) * 256 + self.subpx.from_y
    }

    /// The horizontal intra-tile position of the second endpoint, in subpixels.
    pub open spec fn spec_to_x(&self) -> int {
        (self.px.to >> 4) * 256 + self.subpx.to_x
    }

    /// The vertical intra-tile position of the second endpoint, in subpixels.
    pub open spec fn spec_to_y(&self) -> int {
        (self.px.to & 0xF) * 256 + self.subpx.to_y
    }

    /// A fill is sound when its endpoints differ in their horizontal position.
    pub open spec fn spec_is_valid(&self) -> bool {
        self.spec_from_x() != self.spec_to_x()
    }

    /// The eight bytes of the fill as the rasterizer reads them.
    pub open spec fn spec_to_bytes(&self) -> Seq<u8> {
        seq![
            self.px.from,
            self.px.to,
            self.subpx.from_x,
            self.subpx.from_y,
            self.subpx.to_x,
            self.subpx.to_y,
            (self.alpha_tile_index & 0xFF) as u8,
            (self.alpha_tile_index >> 8) as u8,
        ]
    }

    /// Packs a segment with intra-tile coordinates below 4096 into a fill.
    pub fn pack(from_x: u16, from_y: u16, to_x: u16, to_y: u16, alpha_tile_index: u16) -> (fill:
        FillBatchPrimitive)
        requires
            from_x < 4096,
            from_y < 4096,
            to_x < 4096,
            to_y < 4096,
        ensures
            fill == spec_pack_fill(from_x, from_y, to_x, to_y, alpha_tile_index),
            fill.spec_from_x() == from_x,
            fill.spec_from_y() == from_y,
            fill.spec_to_x() == to_x,
            fill.spec_to_y() == to_y,
    {
        proof {
            lemma_pack_arithmetic(from_x, from_y);
            lemma_pack_arithmetic(to_x, to_y);
            lemma_pack_arithmetic(from_y, from_x);
            lemma_pack_arithmetic(to_y, to_x);
        }
        FillBatchPrimitive {
            px: LineSegmentU4 {
                from: ((from_x / 256) * 16 + from_y / 256) as u8,
                to: ((to_x / 256) * 16 + to_y / 256) as u8,
            },
            subpx: LineSegmentU8 {
                from_x: (from_x % 256) as u8,
                from_y: (from_y % 256) as u8,
                to_x: (to_x % 256) as u8,
                to_y: (to_y % 256) as u8,
            },
            alpha_tile_index,
        }
    }

    /// Lays the fill out as the eight bytes that the rasterizer reads.
    pub fn to_bytes(&self) -> (bytes: [u8; 8])
        ensures
            bytes@ == self.spec_to_bytes(),
    {
        let low: u8 = (self.alpha_tile_index & 0xFF) as u8;
        let high: u8 = (self.alpha_tile_index >> 8) as u8;
        let bytes: [u8; 8] = [
            self.px.from,
            self.px.to,
            self.subpx.from_x,
            self.subpx.from_y,
            self.subpx.to_x,
            self.subpx.to_y,
            low,
            high,
        ];
        assert(bytes@ =~= self.spec_to_bytes());
        bytes
    }
}

/// What the rasterizer needs to know of a path's paint.
#[derive(Clone, Copy, Debug, PartialEq, Eq, Structural)]
pub struct PaintMetadata {
    /// Where the paint lies in the paint texture.
    pub tex_rect: RectI,
    /// Whether the paint hides everything beneath it.
    pub is_opaque: bool,
}

/// A tile that a path covers only in part, or covers with a paint or a clip that lets
/// what lies beneath show through.
#[derive(Clone, Copy, Debug, PartialEq, Eq, Structural)]
pub struct AlphaTile {
    pub tile_coords: Vector2I,
    /// The index of the path within its list of the scene.
    pub path_id: u32,
    pub backdrop: i8,
    /// The fill-accumulation region of the tile, or `NO_ALPHA_TILE` where the tile has no
    /// fills and its coverage is the backdrop alone.
    pub alpha_tile_index: u16,
    /// The fill-accumulation region of the clip path's tile that masks this tile, or
    /// `NO_ALPHA_TILE` where nothing masks it.
    pub clip_alpha_tile_index: u16,
    pub paint: PaintMetadata,
}

/// A tile that an opaque path covers in full.
#[derive(Clone, Copy, Debug, PartialEq, Eq, Structural)]
pub struct SolidTile {
    pub tile_coords: Vector2I,
    /// The index of the draw path that covers the tile.
    pub path_id: u32,
    pub paint: PaintMetadata,
}

/// The corners of the area that a frame covers, in subpixels.
#[derive(Clone, Copy, Debug, PartialEq, Eq, Structural)]
pub struct BoundingQuad {
    pub upper_left: Vector2I,
    pub upper_right: Vector2I,
    pub lower_right: Vector2I,
    pub lower_left: Vector2I,
}

/// One command of the stream that reproduces a scene.
#[derive(Debug, PartialEq, Eq)]
pub enum RenderCommand {
    /// Starts a frame.
    Start { bounding_quad: BoundingQuad, path_count: usize },
    /// Uploads the paint data of the scene.
    AddPaintData(Vec<u8>),
    /// Adds the fills of one path.
    AddFills { fills: Vec<FillBatchPrimitive>, stage: RenderStage },
    /// Asks for all fills added so far to be rasterized.
    FlushFills,
    /// Draws tiles that opaque paths cover in full.
    DrawSolidTiles(Vec<SolidTile>),
    /// Draws the alpha tiles of draw paths.
    DrawAlphaTiles(Vec<AlphaTile>),
    /// Draws the alpha tiles of clip paths.
    DrawClipTiles(Vec<AlphaTile>),
    /// Ends the frame.
    Finish { build_time: Duration },
}

/// A render command as a mathematical value.
pub enum RenderCommandView {
    Start { bounding_quad: BoundingQuad, path_count: usize },
    AddPaintData(Seq<u8>),
    AddFills { fills: Seq<FillBatchPrimitive>, stage: RenderStage },
    FlushFills,
    DrawSolidTiles(Seq<SolidTile>),
    DrawAlphaTiles(Seq<AlphaTile>),
    DrawClipTiles(Seq<AlphaTile>),
    Finish { build_time: Duration },
}

impl View for RenderCommand {
    type V = RenderCommandView;

    open spec fn view(&self) -> RenderCommandView {
        match *self {
            RenderCommand::Start { bounding_quad, path_count } => RenderCommandView::Start {
                bounding_quad,
                path_count,
            },
            RenderCommand::AddPaintData(data) => RenderCommandView::AddPaintData(data@),
            RenderCommand::AddFills { fills, stage } => RenderCommandView::AddFills {
                fills: fills@,
                stage,
            },
            RenderCommand::FlushFills => RenderCommandView::FlushFills,
            RenderCommand::DrawSolidTiles(tiles) => RenderCommandView::DrawSolidTiles(tiles@),
            RenderCommand::DrawAlphaTiles(tiles) => RenderCommandView::DrawAlphaTiles(tiles@),
            RenderCommand::DrawClipTiles(tiles) => RenderCommandView::DrawClipTiles(tiles@),
            RenderCommand::Finish { build_time } => RenderCommandView::Finish { build_time },
        }
    }
}

} // verus!
