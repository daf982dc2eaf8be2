//! A dense grid of per-tile records over a rectangle of tile coordinates.

use vstd::prelude::*;
use vstd::arithmetic::div_mod::lemma_fundamental_div_mod_converse;
use crate::geometry::{RectI, Vector2I};

verus! {

/// The flat index of the tile at `coords` in a row-major grid over `rect`.
pub open spec fn spec_coords_to_index_unchecked(rect: RectI, coords: Vector2I) -> int {
    (coords.y - rect.origin.y) * rect.spec_width() + (coords.x - rect.origin.x)
}

/// The flat index of the tile at `coords`, or `None` where `rect` does not hold it.
pub open spec fn spec_coords_to_index(rect: RectI, coords: Vector2I) -> Option<int> {
    if rect.spec_contains_point(coords) {
        Some(spec_coords_to_index_unchecked(rect, coords))
    } else {
        None
    }
}

/// The tile coordinates that flat index `index` stands for.
pub open spec fn spec_index_to_coords(rect: RectI, index: int) -> Vector2I {
    Vector2I {
        x: (rect.origin.x + index % rect.spec_width()) as i32,
        y: (rect.origin.y + index / rect.spec_width()) as i32,
    }
}

/// Every tile inside the rectangle has a flat index below the rectangle's area.
pub proof fn lemma_index_in_range(rect: RectI, coords: Vector2I)
    requires
        rect.wf(),
        rect.spec_contains_point(coords),
    ensures
        0 <= spec_coords_to_index_unchecked(rect, coords) < rect.spec_area(),
{
    let w = rect.spec_width();
    let h = rect.spec_height();
    let dx = coords.x - rect.origin.x;
    let dy = coords.y - rect.origin.y;
    assert(0 <= dy * w + dx < w * h) by (nonlinear_arith)
        requires
            0 <= dx < w,
            0 <= dy < h,
    ;
}

/// Mapping tile coordinates to a flat index and back gives the coordinates again.
pub proof fn lemma_coords_round_trip(rect: RectI, coords: Vector2I)
    requires
        rect.wf(),
        rect.spec_contains_point(coords),
    ensures
        spec_index_to_coords(rect, spec_coords_to_index_unchecked(rect, coords)) == coords,
{
    let w = rect.spec_width();
    let dx = coords.x - rect.origin.x;
    let dy = coords.y - rect.origin.y;
    lemma_fundamental_div_mod_converse(dy * w + dx, w, dy, dx);
}

/// Mapping a flat index to tile coordinates and back gives the index again, and the
/// coordinates lie inside the rectangle.
pub proof fn lemma_index_round_trip(rect: RectI, index: int)
    requires
        rect.wf(),
        0 <= index < rect.spec_area(),
    ensures
        rect.spec_width() > 0,
        0 <= index % rect.spec_width() < rect.spec_width(),
        0 <= index / rect.spec_width() < rect.spec_height(),
        rect.spec_contains_point(spec_index_to_coords(rect, index)),
        spec_coords_to_index_unchecked(rect, spec_index_to_coords(rect, index)) == index,
{
    let w = rect.spec_width();
    let h = rect.spec_height();
    assert(w > 0) by (nonlinear_arith)
        requires
            0 <= index < w * h,
            w >= 0,
    ;
    vstd::arithmetic::div_mod::lemma_fundamental_div_mod(index, w);
    vstd::arithmetic::div_mod::lemma_mod_bound(index, w);
    let q = index / w;
    let r = index % w;
    assert(0 <= q < h) by (nonlinear_arith)
        requires
            0 <= index < w * h,
            index == w * q + r,
            0 <= r < w,
            h >= 0,
    ;
    assert(q * w + r == index) by (nonlinear_arith)
        requires
            index == w * q + r,
    ;
}

/// Two tiles inside the rectangle with the same flat index are the same tile.
pub proof fn lemma_index_injective(rect: RectI, a: Vector2I, b: Vector2I)
    requires
        rect.wf(),
        rect.spec_contains_point(a),
        rect.spec_contains_point(b),
        spec_coords_to_index_unchecked(rect, a) == spec_coords_to_index_unchecked(rect, b),
    ensures
        a == b,
{
    lemma_coords_round_trip(rect, a);
    lemma_coords_round_trip(rect, b);
}

/// A grid that holds one record for each tile of a rectangle, row by row.
pub struct DenseTileMap<T> {
    pub data: Vec<T>,
    pub rect: RectI,
}

impl<T> DenseTileMap<T> {
    /// The grid holds exactly one record per tile of its rectangle.
    pub open spec fn wf(&self) -> bool {
        self.rect.wf() && self.data.len() == self.rect.spec_area()
    }

    /// Allocates one default record for each tile of `rect`.
    pub fn new(rect: RectI) -> (map: DenseTileMap<T>) where T: Default
        requires
            rect.wf(),
            rect.spec_area() <= usize::MAX,
        ensures
            map.wf(),
            map.rect == rect,
            forall|i: int|
                0 <= i < map.data.len() ==> call_ensures(T::default, (), #[trigger] map.data[i]),
    {
        let length: u64 = rect.area();
        let mut data: Vec<T> = Vec::new();
        let mut i: u64 = 0;
        while i < length
            invariant
                i <= length,
                data.len() == i,
                length <= usize::MAX,
                forall|j: int| 0 <= j < data.len() ==> call_ensures(T::default, (), #[trigger] data[j]),
            decreases length - i,
        {
            data.push(T::default());
            i = i + 1;
        }
        DenseTileMap { data, rect }
    }

    /// Maps tile coordinates to a flat index, or `None` outside the rectangle.
    pub fn coords_to_index(&self, coords: Vector2I) -> (index: Option<usize>)
        requires
            self.wf(),
        ensures
            match index {
                Some(i) => spec_coords_to_index(self.rect, coords) == Some(i as int) && i
                    < self.data.len(),
                None => spec_coords_to_index(self.rect, coords).is_none(),
            },
    {
        if self.rect.contains_point(coords) {
            Some(self.coords_to_index_unchecked(coords))
        } else {
            None
        }
    }

    /// Maps tile coordinates that lie inside the rectangle to a flat index.
    pub fn coords_to_index_unchecked(&self, coords: Vector2I) -> (index: usize)
        requires
            self.wf(),
            self.rect.spec_contains_point(coords),
        ensures
            index == spec_coords_to_index_unchecked(self.rect, coords),
            index < self.data.len(),
    {
        proof {
            lemma_index_in_range(self.rect, coords);
        }
        let width: u64 = self.rect.width() as u64;
        let dx: u64 = (coords.x as i64 - self.rect.origin.x as i64) as u64;
        let dy: u64 = (coords.y as i64 - self.rect.origin.y as i64) as u64;
        assert(dy * width <= 0xFFFF_FFFF * 0xFFFF_FFFF) by (nonlinear_arith)
            requires
                dy <= 0xFFFF_FFFF,
                width <= 0xFFFF_FFFF,
        ;
        (dy * width + dx) as usize
    }

    /// Maps a flat index back to tile coordinates.
    pub fn index_to_coords(&self, index: usize) -> (coords: Vector2I)
        requires
            self.wf(),
            index < self.data.len(),
        ensures
            coords == spec_index_to_coords(self.rect, index as int),
            self.rect.spec_contains_point(coords),
            spec_coords_to_index_unchecked(self.rect, coords) == index,
    {
        proof {
            lemma_index_round_trip(self.rect, index as int);
        }
        let width: u64 = self.rect.width() as u64;
        let column: u64 = index as u64 % width;
        let row: u64 = index as u64 / width;
        Vector2I {
            x: (self.rect.origin.x as i64 + column as i64) as i32,
            y: (self.rect.origin.y as i64 + row as i64) as i32,
        }
    }
}

} // verus!
