use vstd::prelude::*;
use crate::grid::{Coord, TileMap};
use crate::random::choose_index;

verus! {

/// The frontier: coordinates that may be corrupted next. Entries are only
/// appended; a coordinate may appear more than once, which weights it more
/// heavily when one entry is drawn at random.
pub struct PotentiallyCorruptedTiles {
    pub tiles: Vec<Coord>,
}

/// `(x, y)` as a one-entry sequence when a live tile stands there, else empty.
pub open spec fn live_entry(map: TileMap, x: int, y: int) -> Seq<Coord> {
    if map.is_live(x, y) {
        seq![(x as i32, y as i32)]
    } else {
        Seq::empty()
    }
}

/// What expanding from `(x, y)` appends to the frontier: each of the four
/// axis-aligned neighbours that holds a live tile, in the order up, down,
/// right, left.
pub open spec fn neighbor_pushes(map: TileMap, x: int, y: int) -> Seq<Coord> {
    live_entry(map, x, y + 1) + live_entry(map, x, y - 1) + live_entry(map, x + 1, y)
        + live_entry(map, x - 1, y)
}

/// One of the four axis-aligned neighbours of `(x, y)`.
pub open spec fn is_neighbor(c: Coord, x: int, y: int) -> bool {
    ||| (c.0 == x && c.1 == y + 1)
    ||| (c.0 == x && c.1 == y - 1)
    ||| (c.0 == x + 1 && c.1 == y)
    ||| (c.0 == x - 1 && c.1 == y)
}

/// Expanding from `(x, y)` appends exactly the neighbours of `(x, y)` that hold
/// a live tile: every entry is such a neighbour, and every such neighbour is
/// among the entries.
pub proof fn lemma_neighbor_pushes(map: TileMap, x: i32, y: i32)
    ensures
        forall|i: int|
            0 <= i < neighbor_pushes(map, x as int, y as int).len() ==> {
                let c = #[trigger] neighbor_pushes(map, x as int, y as int)[i];
                is_neighbor(c, x as int, y as int) && map.is_live(c.0 as int, c.1 as int)
            },
        forall|c: Coord|
            is_neighbor(c, x as int, y as int) && map.is_live(c.0 as int, c.1 as int)
                ==> neighbor_pushes(map, x as int, y as int).contains(c),
        neighbor_pushes(map, x as int, y as int).len() <= 4,
{
    let a = live_entry(map, x as int, y as int + 1);
    let b = live_entry(map, x as int, y as int - 1);
    let c = live_entry(map, x as int + 1, y as int);
    let d = live_entry(map, x as int - 1, y as int);
    let s = neighbor_pushes(map, x as int, y as int);
    assert(s == a + b + c + d);
    assert forall|i: int| 0 <= i < s.len() implies {
        let e = #[trigger] s[i];
        is_neighbor(e, x as int, y as int) && map.is_live(e.0 as int, e.1 as int)
    } by {
        if i < a.len() {
            assert(s[i] == a[i]);
        } else if i < a.len() + b.len() {
            assert(s[i] == b[i - a.len()]);
        } else if i < a.len() + b.len() + c.len() {
            assert(s[i] == c[i - a.len() - b.len()]);
        } else {
            assert(s[i] == d[i - a.len() - b.len() - c.len()]);
        }
    }
    assert forall|e: Coord|
        is_neighbor(e, x as int, y as int) && map.is_live(e.0 as int, e.1 as int) implies s.contains(
        e,
    ) by {
        if e.0 == x && e.1 == y + 1 {
            assert(s[0] == e);
        } else if e.0 == x && e.1 == y - 1 {
            assert(s[a.len() as int] == e);
        } else if e.0 == x + 1 && e.1 == y {
            assert(s[(a.len() + b.len()) as int] == e);
        } else {
            assert(s[(a.len() + b.len() + c.len()) as int] == e);
        }
    }
}

impl PotentiallyCorruptedTiles {
    /// An empty frontier.
    pub fn new() -> (r: PotentiallyCorruptedTiles)
        ensures
            r.tiles@ == Seq::<Coord>::empty(),
    {
        PotentiallyCorruptedTiles { tiles: Vec::new() }
    }

    /// Appends one entry.
    pub fn push(&mut self, c: Coord)
        ensures
            final(self).tiles@ == old(self).tiles@.push(c),
    {
        self.tiles.push(c);
    }

    pub fn len(&self) -> (r: usize)
        ensures
            r == self.tiles@.len(),
    {
        self.tiles.len()
    }

    pub fn is_empty(&self) -> (r: bool)
        ensures
            r == (self.tiles@.len() == 0),
    {
        self.tiles.len() == 0
    }

    /// One entry drawn uniformly at random, left in place; `None` when the
    /// frontier is empty.
    pub fn pick_random(&self) -> (r: Option<Coord>)
        ensures
            r is None <==> self.tiles@.len() == 0,
            r matches Some(c) ==> self.tiles@.contains(c),
    {
        let n = self.tiles.len();
        let mut positions: Vec<usize> = Vec::with_capacity(n);
        let mut i: usize = 0;
        while i < n
            invariant
                n == self.tiles@.len(),
                i <= n,
                positions@.len() == i,
                forall|k: int| 0 <= k < i ==> positions@[k] == k,
            decreases n - i,
        {
            positions.push(i);
            i = i + 1;
        }
        match choose_index(&positions) {
            None => None,
            Some(p) => {
                proof {
                    let k = choose|k: int| 0 <= k < positions@.len() && positions@[k] == p;
                    assert(self.tiles@[p as int] == self.tiles@[k]);
                }
                Some(self.tiles[p])
            },
        }
    }

    fn push_if_live(&mut self, map: &TileMap, x: i32, y: i32)
        requires
            map.wf(),
        ensures
            final(self).tiles@ == old(self).tiles@ + live_entry(*map, x as int, y as int),
    {
        if map.is_walkable(x, y) {
            self.tiles.push((x, y));
        } else {
            assert(self.tiles@ == self.tiles@ + live_entry(*map, x as int, y as int));
        }
    }
}

/// Appends to the frontier every axis-aligned neighbour of `(x, y)` that holds
/// a live tile. Coordinates outside the grid are no neighbour at all.
pub fn find_and_push_neighbors(
    tile_map: &TileMap,
    x: i32,
    y: i32,
    candidates: &mut PotentiallyCorruptedTiles,
)
    requires
        tile_map.wf(),
    ensures
        final(candidates).tiles@ == old(candidates).tiles@ + neighbor_pushes(
            *tile_map,
            x as int,
            y as int,
        ),
{
    let ghost start = candidates.tiles@;
    if y < i32::MAX {
        candidates.push_if_live(tile_map, x, y + 1);
    }
    if y > i32::MIN {
        candidates.push_if_live(tile_map, x, y - 1);
    }
    if x < i32::MAX {
        candidates.push_if_live(tile_map, x + 1, y);
    }
    if x > i32::MIN {
        candidates.push_if_live(tile_map, x - 1, y);
    }
    proof {
        let a = live_entry(*tile_map, x as int, y as int + 1);
        let b = live_entry(*tile_map, x as int, y as int - 1);
        let c = live_entry(*tile_map, x as int + 1, y as int);
        let d = live_entry(*tile_map, x as int - 1, y as int);
        assert(candidates.tiles@ == start + a + b + c + d);
        assert(start + a + b + c + d == start + (a + b + c + d));
    }
}

} // verus!
