//! The scene: draw paths and clip paths over a view box.

use vstd::prelude::*;
use crate::geometry::{spec_clamp, spec_max, spec_min, LineSegment, RectI, Vector2I};
use crate::gpu_data::PaintMetadata;
use crate::options::PreparedBuildOptions;

verus! {

/// The index of a draw path in its scene.
#[derive(Clone, Copy, Debug, PartialEq, Eq, Structural)]
pub struct DrawPathId(pub u32);

/// The index of a clip path in its scene.
#[derive(Clone, Copy, Debug, PartialEq, Eq, Structural)]
pub struct ClipPathId(pub u32);

/// The index of a paint in its scene.
#[derive(Clone, Copy, Debug, PartialEq, Eq, Structural)]
pub struct PaintId(pub u16);

/// Which winding numbers count as inside a path.
#[derive(Clone, Copy, Debug, PartialEq, Eq, Structural)]
pub enum FillRule {
    /// Every winding number but zero.
    Winding,
    /// The odd winding numbers.
    EvenOdd,
}

/// A closed polygon: each point is joined to the next, and the last to the first.
pub struct Contour {
    pub points: Vec<Vector2I>,
}

/// A flattened outline: closed contours of line segments, in subpixels.
pub struct Outline {
    pub contours: Vec<Contour>,
}

/// A filled path.
pub struct DrawPath {
    pub outline: Outline,
    pub paint: PaintId,
    pub clip_path: Option<ClipPathId>,
    pub fill_rule: FillRule,
}

/// A path that masks the draw paths that name it.
pub struct ClipPath {
    pub outline: Outline,
    pub fill_rule: FillRule,
}

/// Everything that a build reads.
pub struct Scene {
    pub draw_paths: Vec<DrawPath>,
    pub clip_paths: Vec<ClipPath>,
    /// The paint data of the scene, as the rasterizer takes it.
    pub paint_data: Vec<u8>,
    /// One entry for each paint of the scene.
    pub paint_metadata: Vec<PaintMetadata>,
    /// The visible region, in subpixels.
    pub view_box: RectI,
}

/// The segments of the closed polygon through `points`.
pub open spec fn spec_contour_segments(points: Seq<Vector2I>) -> Seq<LineSegment> {
    Seq::new(
        points.len(),
        |i: int| LineSegment { from: points[i], to: points[(i + 1) % (points.len() as int)] },
    )
}

/// The segments of the contours from index `k` on, in order.
pub open spec fn spec_segments_from(contours: Seq<Contour>, k: int) -> Seq<LineSegment>
    decreases contours.len() - k,
{
    if k < 0 || k >= contours.len() {
        Seq::empty()
    } else {
        spec_contour_segments(contours[k].points@) + spec_segments_from(contours, k + 1)
    }
}

/// The rectangle grown to hold `point` as a corner or inside.
pub open spec fn spec_union_point(rect: RectI, point: Vector2I) -> RectI {
    RectI {
        origin: Vector2I {
            x: spec_min(rect.origin.x as int, point.x as int) as i32,
            y: spec_min(rect.origin.y as int, point.y as int) as i32,
        },
        lower_right: Vector2I {
            x: spec_max(rect.lower_right.x as int, point.x as int) as i32,
            y: spec_max(rect.lower_right.y as int, point.y as int) as i32,
        },
    }
}

/// The rectangle grown to hold the endpoints of the segments from index `k` on.
pub open spec fn spec_bounds_from(rect: RectI, segments: Seq<LineSegment>, k: int) -> RectI
    decreases segments.len() - k,
{
    if k < 0 || k >= segments.len() {
        rect
    } else {
        spec_bounds_from(
            spec_union_point(spec_union_point(rect, segments[k].from), segments[k].to),
            segments,
            k + 1,
        )
    }
}

/// The smallest rectangle that holds the endpoints of all segments; the zero rectangle
/// where there is none.
pub open spec fn spec_bounds(segments: Seq<LineSegment>) -> RectI {
    if segments.len() == 0 {
        RectI { origin: Vector2I { x: 0, y: 0 }, lower_right: Vector2I { x: 0, y: 0 } }
    } else {
        spec_bounds_from(
            RectI { origin: segments[0].from, lower_right: segments[0].from },
            segments,
            0,
        )
    }
}

/// Grows a rectangle to hold a point.
fn union_point(rect: RectI, point: Vector2I) -> (grown: RectI)
    ensures
        grown == spec_union_point(rect, point),
        rect.wf() ==> grown.wf(),
{
    RectI {
        origin: Vector2I {
            x: if rect.origin.x <= point.x {
                rect.origin.x
            } else {
                point.x
            },
            y: if rect.origin.y <= point.y {
                rect.origin.y
            } else {
                point.y
            },
        },
        lower_right: Vector2I {
            x: if rect.lower_right.x >= point.x {
                rect.lower_right.x
            } else {
                point.x
            },
            y: if rect.lower_right.y >= point.y {
                rect.lower_right.y
            } else {
                point.y
            },
        },
    }
}

/// Computes the smallest rectangle that holds the endpoints of all segments.
pub fn bounds_of_segments(segments: &Vec<LineSegment>) -> (bounds: RectI)
    ensures
        bounds == spec_bounds(segments@),
        bounds.wf(),
{
    if segments.len() == 0 {
        return RectI { origin: Vector2I { x: 0, y: 0 }, lower_right: Vector2I { x: 0, y: 0 } };
    }
    let first: Vector2I = segments[0].from;
    let mut bounds: RectI = RectI { origin: first, lower_right: first };
    let mut k: usize = 0;
    while k < segments.len()
        invariant
            k <= segments.len(),
            bounds.wf(),
            spec_bounds_from(bounds, segments@, k as int) == spec_bounds(segments@),
        decreases segments.len() - k,
    {
        bounds = union_point(union_point(bounds, segments[k].from), segments[k].to);
        k = k + 1;
    }
    bounds
}

impl Contour {
    /// The segments of the contour, in order.
    pub open spec fn spec_segments(&self) -> Seq<LineSegment> {
        spec_contour_segments(self.points@)
    }
}

impl Outline {
    /// The segments of all contours of the outline, in order.
    pub open spec fn spec_segments(&self) -> Seq<LineSegment> {
        spec_segments_from(self.contours@, 0)
    }

    /// The smallest rectangle that holds the outline.
    pub open spec fn spec_bounds(&self) -> RectI {
        spec_bounds(self.spec_segments())
    }

    /// Lists the segments of all contours of the outline, in order.
    pub fn segments(&self) -> (segments: Vec<LineSegment>)
        ensures
            segments@ == self.spec_segments(),
    {
        let mut segments: Vec<LineSegment> = Vec::new();
        let mut k: usize = 0;
        while k < self.contours.len()
            invariant
                k <= self.contours.len(),
                segments@ + spec_segments_from(self.contours@, k as int) == self.spec_segments(),
            decreases self.contours.len() - k,
        {
            let points: &Vec<Vector2I> = &self.contours[k].points;
            let count: usize = points.len();
            let ghost before = segments@;
            let mut i: usize = 0;
            while i < count
                invariant
                    i <= count,
                    count == points.len(),
                    segments@ == before + spec_contour_segments(points@).take(i as int),
                decreases count - i,
            {
                let next: usize = if i + 1 == count {
                    0
                } else {
                    i + 1
                };
                assert((i + 1) % (count as int) == next) by {
                    if i + 1 == count {
                        vstd::arithmetic::div_mod::lemma_mod_self_0(count as int);
                    } else {
                        vstd::arithmetic::div_mod::lemma_small_mod((i + 1) as nat, count as nat);
                    }
                }
                segments.push(LineSegment { from: points[i], to: points[next] });
                assert(segments@ =~= before + spec_contour_segments(points@).take(i + 1));
                i = i + 1;
            }
            assert(spec_contour_segments(points@).take(count as int) =~= spec_contour_segments(
                points@,
            ));
            assert(segments@ + spec_segments_from(self.contours@, k + 1) =~= before
                + spec_segments_from(self.contours@, k as int));
            k = k + 1;
        }
        assert(segments@ + spec_segments_from(self.contours@, k as int) =~= segments@);
        segments
    }

    /// Computes the smallest rectangle that holds the outline.
    pub fn bounds(&self) -> (bounds: RectI)
        ensures
            bounds == self.spec_bounds(),
            bounds.wf(),
    {
        let segments: Vec<LineSegment> = self.segments();
        bounds_of_segments(&segments)
    }
}

/// A horizontal position scaled by three, kept within the range of the coordinates.
pub open spec fn spec_scale_by_three(v: int) -> int {
    spec_clamp(v * 3, i32::MIN as int, i32::MAX as int)
}

/// Scales a horizontal position by three, saturating at the ends of the range.
fn scale_by_three(v: i32) -> (scaled: i32)
    ensures
        scaled == spec_scale_by_three(v as int),
{
    let wide: i64 = v as i64 * 3;
    if wide < i32::MIN as i64 {
        i32::MIN
    } else if wide > i32::MAX as i64 {
        i32::MAX
    } else {
        wide as i32
    }
}

impl Scene {
    /// The view box as the build sees it: three times as wide where each pixel is
    /// rendered as three subpixels.
    pub open spec fn spec_effective_view_box(&self, options: PreparedBuildOptions) -> RectI {
        if options.subpixel_aa_enabled {
            RectI {
                origin: Vector2I {
                    x: spec_scale_by_three(self.view_box.origin.x as int) as i32,
                    y: self.view_box.origin.y,
                },
                lower_right: Vector2I {
                    x: spec_scale_by_three(self.view_box.lower_right.x as int) as i32,
                    y: self.view_box.lower_right.y,
                },
            }
        } else {
            self.view_box
        }
    }

    /// Computes the view box as the build sees it.
    pub fn effective_view_box(&self, options: &PreparedBuildOptions) -> (view_box: RectI)
        ensures
            view_box == self.spec_effective_view_box(*options),
            self.view_box.wf() ==> view_box.wf(),
    {
        if options.subpixel_aa_enabled {
            RectI {
                origin: Vector2I {
                    x: scale_by_three(self.view_box.origin.x),
                    y: self.view_box.origin.y,
                },
                lower_right: Vector2I {
                    x: scale_by_three(self.view_box.lower_right.x),
                    y: self.view_box.lower_right.y,
                },
            }
        } else {
            self.view_box
        }
    }
}

} // verus!
