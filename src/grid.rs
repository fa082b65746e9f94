use vstd::prelude::*;
use crate::tile::TileType;

verus! {

/// A grid coordinate `(x, y)`.
pub type Coord = (i32, i32);

/// The grid index: one tile per coordinate of a dense `width` x `height`
/// stage, stored row by row.
pub struct TileMap {
    pub width: i32,
    pub height: i32,
    pub tiles: Vec<TileType>,
}

/// Row-major position of `(x, y)` in a grid of the given width.
pub open spec fn cell_index(width: int, x: int, y: int) -> int {
    y * width + x
}

pub proof fn lemma_cell_index_bounds(width: int, height: int, x: int, y: int)
    requires
        0 <= x < width,
        0 <= y < height,
    ensures
        0 <= cell_index(width, x, y) < width * height,
{
    assert(0 <= y * width) by (nonlinear_arith)
        requires 0 <= y, 0 <= width;
    assert(y * width + x < width * height) by (nonlinear_arith)
        requires 0 <= x < width, 0 <= y < height;
}

pub proof fn lemma_cell_index_injective(width: int, height: int, a: int, b: int, x: int, y: int)
    requires
        0 <= a < width,
        0 <= b < height,
        0 <= x < width,
        0 <= y < height,
        cell_index(width, a, b) == cell_index(width, x, y),
    ensures
        a == x,
        b == y,
{
    if b < y {
        assert(b * width + width <= y * width) by (nonlinear_arith)
            requires b < y, 0 <= width;
    } else if y < b {
        assert(y * width + width <= b * width) by (nonlinear_arith)
            requires y < b, 0 <= width;
    }
}

impl TileMap {
    pub open spec fn wf(&self) -> bool {
        &&& 0 <= self.width
        &&& 0 <= self.height
        &&& self.tiles@.len() == self.width * self.height
    }

    pub open spec fn in_bounds(&self, x: int, y: int) -> bool {
        0 <= x < self.width && 0 <= y < self.height
    }

    /// The tile at `(x, y)`, or `None` where the grid has no such coordinate.
    pub open spec fn tile_at(&self, x: int, y: int) -> Option<TileType> {
        if self.in_bounds(x, y) {
            Some(self.tiles@[cell_index(self.width as int, x, y)])
        } else {
            None
        }
    }

    /// A tile is present at `(x, y)` and it is not corrupted.
    pub open spec fn is_live(&self, x: int, y: int) -> bool {
        self.tile_at(x, y) is Some && !(self.tile_at(x, y)->Some_0 is Corruption)
    }

    /// A tile is present at `(x, y)` and it is corrupted.
    pub open spec fn is_corrupted(&self, x: int, y: int) -> bool {
        self.tile_at(x, y) == Some(TileType::Corruption)
    }

    /// A `width` x `height` grid of green tiles.
    pub fn new(width: i32, height: i32) -> (r: TileMap)
        requires
            0 <= width,
            0 <= height,
            width * height <= usize::MAX,
        ensures
            r.wf(),
            r.width == width,
            r.height == height,
            forall|x: int, y: int|
                r.in_bounds(x, y) ==> #[trigger] r.tile_at(x, y) == Some(TileType::Green),
    {
        let n: usize = (width as usize) * (height as usize);
        let mut tiles: Vec<TileType> = Vec::with_capacity(n);
        let mut i: usize = 0;
        while i < n
            invariant
                n == width * height,
                i <= n,
                tiles@.len() == i,
                forall|k: int| 0 <= k < i ==> tiles@[k] == TileType::Green,
            decreases n - i,
        {
            tiles.push(TileType::Green);
            i = i + 1;
        }
        let r = TileMap { width, height, tiles };
        assert forall|x: int, y: int| r.in_bounds(x, y) implies #[trigger] r.tile_at(x, y)
            == Some(TileType::Green) by {
            lemma_cell_index_bounds(width as int, height as int, x, y);
        }
        r
    }

    fn index(&self, x: i32, y: i32) -> (r: usize)
        requires
            self.wf(),
            self.in_bounds(x as int, y as int),
        ensures
            r == cell_index(self.width as int, x as int, y as int),
            r < self.tiles@.len(),
    {
        // a vector's length fits in usize, and so does every index below it
        let _len = self.tiles.len();
        proof {
            lemma_cell_index_bounds(self.width as int, self.height as int, x as int, y as int);
            assert(y * self.width <= cell_index(self.width as int, x as int, y as int));
        }
        (y as usize) * (self.width as usize) + (x as usize)
    }

    /// The tile at `(x, y)`; `None` outside the grid.
    pub fn get(&self, x: i32, y: i32) -> (r: Option<TileType>)
        requires
            self.wf(),
        ensures
            r == self.tile_at(x as int, y as int),
    {
        if 0 <= x && x < self.width && 0 <= y && y < self.height {
            let i = self.index(x, y);
            Some(self.tiles[i])
        } else {
            None
        }
    }

    /// Replaces the tile at `(x, y)`; every other coordinate keeps its tile.
    pub fn set(&mut self, x: i32, y: i32, kind: TileType)
        requires
            old(self).wf(),
            old(self).in_bounds(x as int, y as int),
        ensures
            final(self).wf(),
            final(self).width == old(self).width,
            final(self).height == old(self).height,
            final(self).tiles@ == old(self).tiles@.update(
                cell_index(old(self).width as int, x as int, y as int),
                kind,
            ),
            forall|a: int, b: int|
                #[trigger] final(self).tile_at(a, b) == if a == x && b == y {
                    Some(kind)
                } else {
                    old(self).tile_at(a, b)
                },
    {
        let i = self.index(x, y);
        self.tiles.set(i, kind);
        proof {
            assert forall|a: int, b: int|
                #[trigger] final(self).tile_at(a, b) == if a == x && b == y {
                    Some(kind)
                } else {
                    old(self).tile_at(a, b)
                } by {
                if self.in_bounds(a, b) && !(a == x && b == y) {
                    lemma_cell_index_bounds(self.width as int, self.height as int, a, b);
                    if cell_index(self.width as int, a, b) == i {
                        lemma_cell_index_injective(
                            self.width as int,
                            self.height as int,
                            a,
                            b,
                            x as int,
                            y as int,
                        );
                    }
                }
            }
        }
    }

    /// Whether a corrupted tile stands at `(x, y)`.
    pub fn is_corrupted_at(&self, x: i32, y: i32) -> (r: bool)
        requires
            self.wf(),
        ensures
            r == self.is_corrupted(x as int, y as int),
    {
        match self.get(x, y) {
            Some(t) => t.is_corrupted_tile(),
            None => false,
        }
    }

    /// Whether `(x, y)` holds a tile that is not corrupted: the player may
    /// step there, and a corruption event may take it.
    pub fn is_walkable(&self, x: i32, y: i32) -> (r: bool)
        requires
            self.wf(),
        ensures
            r == self.is_live(x as int, y as int),
    {
        match self.get(x, y) {
            Some(t) => !t.is_corrupted_tile(),
            None => false,
        }
    }
}

} // verus!
