//! The tile grid: its bounds and which tiles can be walked on.

use vstd::prelude::*;

verus! {

/// The longest side that a grid can have. It leaves room for a range of sight
/// beyond the last coordinate in 32-bit arithmetic.
pub const MAX_SIDE: i32 = 0x4000_0000;

#[derive(Clone, Copy, Debug, PartialEq, Eq, Structural)]
pub enum TileType {
    Wall,
    Floor,
}

/// The mathematical content of a [`TileMap`]: `tiles` holds the grid row by row.
pub struct GridView {
    pub width: int,
    pub height: int,
    pub tiles: Seq<TileType>,
}

impl GridView {
    /// A grid has at least one tile, no side longer than [`MAX_SIDE`], and
    /// exactly one tile per coordinate.
    pub open spec fn wf(self) -> bool {
        &&& 0 < self.width <= MAX_SIDE
        &&& 0 < self.height <= MAX_SIDE
        &&& self.tiles.len() == self.width * self.height
    }

    /// The largest x coordinate on the grid.
    pub open spec fn max_x(self) -> int {
        self.width - 1
    }

    /// The largest y coordinate on the grid.
    pub open spec fn max_y(self) -> int {
        self.height - 1
    }

    pub open spec fn in_bounds(self, x: int, y: int) -> bool {
        0 <= x <= self.max_x() && 0 <= y <= self.max_y()
    }

    /// Where the tile at `(x, y)` is kept in `tiles`.
    pub open spec fn index_of(self, x: int, y: int) -> int {
        y * self.width + x
    }

    /// Whether an entity may step onto `(x, y)`. There is nothing to step on
    /// outside the grid.
    pub open spec fn walkable(self, x: int, y: int) -> bool {
        self.in_bounds(x, y) && self.tiles[self.index_of(x, y)] != TileType::Wall
    }
}

/// Every coordinate on the grid has its own place in `tiles`.
pub proof fn lemma_index_in_range(m: GridView, x: int, y: int)
    requires
        m.wf(),
        m.in_bounds(x, y),
    ensures
        0 <= m.index_of(x, y) < m.tiles.len(),
{
    assert(y * m.width <= (m.height - 1) * m.width) by (nonlinear_arith)
        requires
            0 <= y <= m.height - 1,
            0 < m.width,
    ;
    assert((m.height - 1) * m.width == m.height * m.width - m.width) by (nonlinear_arith);
    assert(0 <= y * m.width) by (nonlinear_arith)
        requires
            0 <= y,
            0 < m.width,
    ;
    assert(m.width * m.height == m.height * m.width) by (nonlinear_arith);
}

/// The tile map. It is always a proper grid: both sides are positive and at
/// most [`MAX_SIDE`] long, and there is exactly one tile per coordinate.
#[derive(Debug, PartialEq, Eq)]
pub struct TileMap {
    width: i32,
    height: i32,
    tiles: Vec<TileType>,
}

impl View for TileMap {
    type V = GridView;

    closed spec fn view(&self) -> GridView {
        GridView { width: self.width as int, height: self.height as int, tiles: self.tiles@ }
    }
}

impl Clone for TileMap {
    fn clone(&self) -> (copy: TileMap)
        ensures
            copy@ == self@,
    {
        proof {
            use_type_invariant(self);
        }
        let mut tiles: Vec<TileType> = Vec::with_capacity(self.tiles.len());
        let mut i: usize = 0;
        while i < self.tiles.len()
            invariant
                i <= self.tiles.len(),
                tiles@ == self.tiles@.take(i as int),
            decreases self.tiles.len() - i,
        {
            tiles.push(self.tiles[i]);
            assert(tiles@ =~= self.tiles@.take(i + 1));
            i += 1;
        }
        assert(tiles@ =~= self.tiles@);
        TileMap { width: self.width, height: self.height, tiles }
    }
}

impl TileMap {
    #[verifier::type_invariant]
    spec fn inv(self) -> bool {
        self@.wf()
    }

    /// Builds a grid of `width` by `height` tiles from its rows laid end to
    /// end. There is no such grid unless both sides are positive and at most
    /// [`MAX_SIDE`] long and `tiles` holds exactly one tile per coordinate.
    pub fn new(width: i32, height: i32, tiles: Vec<TileType>) -> (made: Option<TileMap>)
        ensures
            made is Some <==> 0 < width <= MAX_SIDE && 0 < height <= MAX_SIDE && tiles@.len()
                == width * height,
            made matches Some(m) ==> m@ == (GridView {
                width: width as int,
                height: height as int,
                tiles: tiles@,
            }) && m@.wf(),
    {
        if width <= 0 || height <= 0 || width > MAX_SIDE || height > MAX_SIDE {
            return None;
        }
        assert(0 < width * height <= 0x7fff_ffff * 0x7fff_ffff) by (nonlinear_arith)
            requires
                0 < width <= 0x7fff_ffff,
                0 < height <= 0x7fff_ffff,
        ;
        let area: u64 = (width as u64) * (height as u64);
        if tiles.len() as u64 != area {
            return None;
        }
        Some(TileMap { width, height, tiles })
    }

    /// The content of this map, which is always a proper grid.
    pub fn grid(&self) -> (g: Ghost<GridView>)
        ensures
            g@ == self@,
            self@.wf(),
    {
        proof {
            use_type_invariant(self);
        }
        Ghost(self@)
    }

    pub fn width(&self) -> (w: i32)
        ensures
            w == self@.width,
            self@.wf(),
    {
        proof {
            use_type_invariant(self);
        }
        self.width
    }

    pub fn height(&self) -> (h: i32)
        ensures
            h == self@.height,
            self@.wf(),
    {
        proof {
            use_type_invariant(self);
        }
        self.height
    }

    /// The largest x coordinate on the grid.
    pub fn max_x(&self) -> (x: i32)
        ensures
            x == self@.max_x(),
    {
        proof {
            use_type_invariant(self);
        }
        self.width - 1
    }

    /// The largest y coordinate on the grid.
    pub fn max_y(&self) -> (y: i32)
        ensures
            y == self@.max_y(),
    {
        proof {
            use_type_invariant(self);
        }
        self.height - 1
    }

    pub fn in_bounds(&self, x: i32, y: i32) -> (inside: bool)
        ensures
            inside == self@.in_bounds(x as int, y as int),
    {
        0 <= x && x < self.width && 0 <= y && y < self.height
    }

    /// The place of the tile at `(x, y)` in the row-by-row tile storage.
    pub fn get_index(&self, x: i32, y: i32) -> (idx: usize)
        requires
            self@.in_bounds(x as int, y as int),
        ensures
            idx == self@.index_of(x as int, y as int),
            idx < self@.tiles.len(),
    {
        proof {
            use_type_invariant(self);
            lemma_index_in_range(self@, x as int, y as int);
            assert(0 <= y * self.width) by (nonlinear_arith)
                requires
                    0 <= y,
                    0 < self.width,
            ;
            assert(self.tiles@.len() == self.tiles.len() <= usize::MAX);
        }
        (y as usize) * (self.width as usize) + (x as usize)
    }

    /// Whether the tile kept at `idx` can be walked on.
    pub fn is_walkable(&self, idx: usize) -> (free: bool)
        requires
            idx < self@.tiles.len(),
        ensures
            free == (self@.tiles[idx as int] != TileType::Wall),
    {
        match self.tiles[idx] {
            TileType::Wall => false,
            TileType::Floor => true,
        }
    }

    /// How many tiles the grid has.
    pub fn tile_count(&self) -> (n: usize)
        ensures
            n == self@.tiles.len(),
    {
        self.tiles.len()
    }

    /// The tile kept at `idx`, if there is one.
    pub fn tile(&self, idx: usize) -> (tile: Option<TileType>)
        ensures
            tile == if idx < self@.tiles.len() {
                Some(self@.tiles[idx as int])
            } else {
                None
            },
    {
        if idx < self.tiles.len() {
            Some(self.tiles[idx])
        } else {
            None
        }
    }

    /// The tile at `(x, y)`, if the coordinate is on the grid.
    pub fn tile_at(&self, x: i32, y: i32) -> (tile: Option<TileType>)
        ensures
            tile == if self@.in_bounds(x as int, y as int) {
                Some(self@.tiles[self@.index_of(x as int, y as int)])
            } else {
                None
            },
    {
        if self.in_bounds(x, y) {
            let idx = self.get_index(x, y);
            Some(self.tiles[idx])
        } else {
            None
        }
    }

    /// Whether an entity may step onto `(x, y)`: the coordinate is on the grid
    /// and its tile is no wall.
    pub fn walkable(&self, x: i32, y: i32) -> (free: bool)
        ensures
            free == self@.walkable(x as int, y as int),
    {
        if self.in_bounds(x, y) {
            let idx = self.get_index(x, y);
            self.is_walkable(idx)
        } else {
            false
        }
    }
}

} // verus!
