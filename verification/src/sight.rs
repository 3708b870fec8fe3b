//! Lines of sight.
//!
//! What can be seen from a tile is computed by the recursive shadow casting
//! of `rltk`. This module lets `rltk` read a [`TileMap`], hands it the
//! question, and gives the answer a name, so that the rest of the library can
//! say exactly what it does with the answer without saying how the answer is
//! found.

use vstd::prelude::*;
use crate::components::Coord;
use crate::map::{GridView, TileMap, TileType};

verus! {

/// The farthest that an entity can look. There has to be a limit, because
/// `rltk` sets memory aside for a square of twice this side before it looks.
pub const MAX_RANGE: i32 = 255;

/// `rltk::Point`, the coordinate type of `rltk`. The library makes such a
/// value with `rltk::Point::constant` and reads one with
/// `rltk::Point::to_tuple`, and looks into it in no other way.
#[verifier::external_type_specification]
#[verifier::external_body]
pub struct ExPoint(rltk::Point);

/// The set of coordinates that `rltk::field_of_view` returns for a map with
/// this content, a start on the map and a range from 0 to [`MAX_RANGE`].
pub uninterp spec fn sight(map: GridView, start: Coord, range: i32) -> Set<Coord>;

/// The coordinates that `rltk::Point::to_tuple` returns for a point: first
/// its `x`, then its `y`.
pub uninterp spec fn point_tuple(p: rltk::Point) -> (i32, i32);

/// Calls `rltk::Point::constant`, which makes the point that has `c.x` for
/// its `x` and `c.y` for its `y`.
#[verifier::external_body]
fn to_point(c: Coord) -> (p: rltk::Point)
    ensures
        point_tuple(p) == (c.x, c.y),
{
    rltk::Point::constant(c.x, c.y)
}

/// Calls `rltk::Point::to_tuple`, which returns the `x` and the `y` of the
/// point.
#[verifier::external_body]
fn to_coord(p: rltk::Point) -> (c: Coord)
    ensures
        (c.x, c.y) == point_tuple(p),
{
    let (x, y) = p.to_tuple();
    Coord { x, y }
}

/// Calls `rltk::field_of_view` for the tiles in sight of `start`.
///
/// The call is made only for a start on the map and a range from 0 to
/// [`MAX_RANGE`]: `rltk` squares the range and adds it to the coordinates of
/// the start in 32-bit arithmetic, which cannot overflow on a map whose sides
/// are at most `MAX_SIDE`. It reads the map through the four methods that
/// [`TileMap`] implements below, none of which can fail.
///
/// `rltk` collects the visible coordinates in a hash set, puts the start in
/// first, drops what is off the map at the end, and returns the set as a
/// vector. So the result holds the start and lies on the map; in which order
/// it comes is left open. Which coordinates it holds is a matter of the map,
/// the start and the range alone; that set is called [`sight`].
#[verifier::external_body]
fn shadow_cast(map: &TileMap, start: Coord, range: i32) -> (seen: Vec<Coord>)
    requires
        map@.wf(),
        map@.in_bounds(start.x as int, start.y as int),
        0 <= range <= MAX_RANGE,
    ensures
        seen@.to_set() == sight(map@, start, range),
        seen@.contains(start),
        forall|i: int| 0 <= i < seen@.len() ==> map@.in_bounds(seen@[i].x as int, seen@[i].y as int),
{
    rltk::field_of_view(rltk::Point { x: start.x, y: start.y }, range, map)
        .into_iter()
        .map(|p| Coord { x: p.x, y: p.y })
        .collect()
}

impl rltk::BaseMap for TileMap {
    /// Everything but a floor tile blocks the view, and so does an index
    /// without a tile.
    fn is_opaque(&self, idx: usize) -> (opaque: bool)
        ensures
            opaque == !(idx < self@.tiles.len() && self@.tiles[idx as int] == TileType::Floor),
    {
        match self.tile(idx) {
            Some(TileType::Floor) => false,
            _ => true,
        }
    }
}

impl rltk::Algorithm2D for TileMap {
    /// The width of the map for `x` and its height for `y`: the first
    /// coordinates beyond the map.
    fn dimensions(&self) -> (d: rltk::Point)
        ensures
            point_tuple(d).0 == self@.width,
            point_tuple(d).1 == self@.height,
    {
        to_point(Coord { x: self.width(), y: self.height() })
    }

    /// Whether the coordinates of `pos` lie on the map.
    fn in_bounds(&self, pos: rltk::Point) -> bool
        returns
            self@.in_bounds(point_tuple(pos).0 as int, point_tuple(pos).1 as int),
    {
        let at = to_coord(pos);
        TileMap::in_bounds(self, at.x, at.y)
    }

    /// The place of the tile at `pt`; for a coordinate off the map, the
    /// first index without a tile.
    fn point2d_to_index(&self, pt: rltk::Point) -> (idx: usize)
        ensures
            idx == if self@.in_bounds(point_tuple(pt).0 as int, point_tuple(pt).1 as int) {
                self@.index_of(point_tuple(pt).0 as int, point_tuple(pt).1 as int)
            } else {
                self@.tiles.len() as int
            },
    {
        let at = to_coord(pt);
        if TileMap::in_bounds(self, at.x, at.y) {
            self.get_index(at.x, at.y)
        } else {
            self.tile_count()
        }
    }
}

impl GridView {
    /// Whether the sight from `start` over `range` tiles can be computed: the
    /// start is on the map and the range is one that an entity can have.
    pub open spec fn can_see_from(self, start: Coord, range: i32) -> bool {
        self.in_bounds(start.x as int, start.y as int) && 0 <= range <= MAX_RANGE
    }

    /// Whether `tiles` lists what is in sight of `start` within `range`: the
    /// coordinates of [`sight`]. The start is among them, and they all lie
    /// on the map.
    pub open spec fn shows(self, start: Coord, range: i32, tiles: Seq<Coord>) -> bool {
        &&& tiles.to_set() == sight(self, start, range)
        &&& tiles.contains(start)
        &&& forall|i: int| 0 <= i < tiles.len() ==> self.in_bounds(tiles[i].x as int, tiles[i].y as int)
    }
}

impl TileMap {
    /// Whether the sight from `start` over `range` tiles can be computed.
    pub fn can_see_from(&self, start: Coord, range: i32) -> (able: bool)
        ensures
            able == self@.can_see_from(start, range),
    {
        self.in_bounds(start.x, start.y) && 0 <= range && range <= MAX_RANGE
    }

    /// The tiles in sight of `start` within `range`, if the start is on the
    /// map and the range lies between 0 and [`MAX_RANGE`]; nothing otherwise.
    pub fn field_of_view(&self, start: Coord, range: i32) -> (seen: Option<Vec<Coord>>)
        ensures
            seen is Some <==> self@.can_see_from(start, range),
            seen matches Some(tiles) ==> self@.shows(start, range, tiles@),
    {
        if self.can_see_from(start, range) {
            let _ = self.grid();
            Some(shadow_cast(self, start, range))
        } else {
            None
        }
    }
}

} // verus!
