use vstd::prelude::*;
use vstd::arithmetic::div_mod::lemma_fundamental_div_mod_converse;
use crate::candidates::{find_and_push_neighbors, neighbor_pushes, PotentiallyCorruptedTiles};
use crate::grid::{Coord, TileMap};
use crate::random::roll_below;
use crate::tile::TileType;

verus! {

/// Width of a stage, in tiles.
pub const STAGE_WIDTH: i32 = 128;

/// Height of a stage, in tiles.
pub const STAGE_HEIGHT: i32 = 128;

/// Side of a tile, in pixels.
pub const TILE_SIZE: i32 = 8;

/// The centre tile of the stage, where the player spawns: half of
/// `STAGE_WIDTH` and half of `STAGE_HEIGHT`.
pub const SPAWN_TILE_X: i32 = 64;

pub const SPAWN_TILE_Y: i32 = 64;

/// The player's spawn point, in pixels.
pub const SPAWN_X: i32 = SPAWN_TILE_X * TILE_SIZE;

pub const SPAWN_Y: i32 = SPAWN_TILE_Y * TILE_SIZE;

/// The spawn tile is the centre of the stage.
pub proof fn lemma_spawn_is_centre()
    ensures
        SPAWN_TILE_X == STAGE_WIDTH / 2,
        SPAWN_TILE_Y == STAGE_HEIGHT / 2,
        SPAWN_X == 512,
        SPAWN_Y == 512,
{
}

/// No tile closer than this many pixels to the spawn point starts corrupted.
pub const SAFE_RADIUS: i32 = 360;

/// The most tiles that start corrupted.
pub const MAX_CORRUPTION: u32 = 24;

/// Each tile draws a roll below this bound, which picks its kind.
pub const ROLL_RANGE: u32 = 100;

/// Rolls below this may seed a corrupted tile.
pub const CORRUPT_BELOW: u32 = 2;

pub const GRASS_BELOW: u32 = 5;

pub const FLOWER_BELOW: u32 = 7;

pub const SAND_BELOW: u32 = 8;

/// The tile `(x, y)` lies on the stage's first row or first column.
pub open spec fn on_seed_border(x: int, y: int) -> bool {
    x == 0 || y == 0
}

/// The position of tile `(x, y)` is at least `SAFE_RADIUS` pixels from the
/// player's spawn point.
pub open spec fn outside_safe_radius(x: int, y: int) -> bool {
    let dx = x * TILE_SIZE - SPAWN_X;
    let dy = y * TILE_SIZE - SPAWN_Y;
    dx * dx + dy * dy >= SAFE_RADIUS * SAFE_RADIUS
}

/// The kind that roll `roll` gives tile `(x, y)` when `seeded` tiles have
/// started corrupted so far. A low roll that may not seed corruption (too
/// many seeds, off the border, or too near the spawn point) gives grass.
pub open spec fn kind_for_roll(roll: int, seeded: int, x: int, y: int) -> TileType {
    if roll < CORRUPT_BELOW && seeded < MAX_CORRUPTION && on_seed_border(x, y)
        && outside_safe_radius(x, y) {
        TileType::Corruption
    } else if roll < GRASS_BELOW {
        TileType::Grass
    } else if roll < FLOWER_BELOW {
        TileType::Flower
    } else if roll < SAND_BELOW {
        TileType::Sand
    } else {
        TileType::Green
    }
}

/// The first `n` tiles of a stage of the given width, generated row by row
/// from `rolls`, and how many of them started corrupted.
pub open spec fn stage_tiles(rolls: Seq<u32>, width: int, n: nat) -> (Seq<TileType>, nat)
    decreases n,
{
    if n == 0 {
        (Seq::empty(), 0)
    } else {
        let k = n - 1;
        let (prev, seeded) = stage_tiles(rolls, width, (n - 1) as nat);
        let kind = kind_for_roll(rolls[k] as int, seeded as int, k % width, k / width);
        (prev.push(kind), if kind is Corruption {
            seeded + 1
        } else {
            seeded
        })
    }
}

/// The frontier that the first `n` tiles of `m` plant: the live neighbours of
/// each corrupted one, in row-major order.
pub open spec fn seed_pushes(m: TileMap, n: nat) -> Seq<Coord>
    decreases n,
{
    if n == 0 {
        Seq::empty()
    } else {
        let k = n - 1;
        seed_pushes(m, (n - 1) as nat) + if m.tiles@[k] is Corruption {
            neighbor_pushes(m, k % (m.width as int), k / (m.width as int))
        } else {
            Seq::empty()
        }
    }
}

/// The kind that `roll` gives tile `(x, y)` with `seeded` seeds so far.
pub fn tile_kind_for_roll(roll: u32, seeded: u32, x: i32, y: i32) -> (r: TileType)
    ensures
        r == kind_for_roll(roll as int, seeded as int, x as int, y as int),
{
    if roll < CORRUPT_BELOW && seeded < MAX_CORRUPTION && (x == 0 || y == 0) {
        let dx: i128 = (x as i128) * (TILE_SIZE as i128) - (SPAWN_X as i128);
        let dy: i128 = (y as i128) * (TILE_SIZE as i128) - (SPAWN_Y as i128);
        assert(dx * dx <= 0x1_0000_0000_0000_0000_0000) by (nonlinear_arith)
            requires -0x10_0000_0000 <= dx <= 0x10_0000_0000;
        assert(dy * dy <= 0x1_0000_0000_0000_0000_0000) by (nonlinear_arith)
            requires -0x10_0000_0000 <= dy <= 0x10_0000_0000;
        assert(0 <= dx * dx) by (nonlinear_arith);
        assert(0 <= dy * dy) by (nonlinear_arith);
        let r2: i128 = (SAFE_RADIUS as i128) * (SAFE_RADIUS as i128);
        if dx * dx + dy * dy >= r2 {
            return TileType::Corruption;
        }
    }
    if roll < GRASS_BELOW {
        TileType::Grass
    } else if roll < FLOWER_BELOW {
        TileType::Flower
    } else if roll < SAND_BELOW {
        TileType::Sand
    } else {
        TileType::Green
    }
}

proof fn lemma_row_major(width: int, height: int, k: int, x: int, y: int)
    requires
        0 <= x < width,
        0 <= y,
        k == y * width + x,
        k < width * height,
    ensures
        x == k % width,
        y == k / width,
        y < height,
        (y + 1) * width == y * width + width,
{
    lemma_fundamental_div_mod_converse(k, width, y, x);
    assert(y < height) by (nonlinear_arith)
        requires y * width <= k, k < width * height, 0 < width;
    assert((y + 1) * width == y * width + width) by (nonlinear_arith);
}

/// A `width` x `height` stage generated from one roll per tile, in row-major
/// order, and the frontier that its initially corrupted tiles plant.
pub fn generate_stage_from_rolls(width: i32, height: i32, rolls: &Vec<u32>) -> (r: (
    TileMap,
    PotentiallyCorruptedTiles,
))
    requires
        0 <= width,
        0 <= height,
        width * height <= usize::MAX,
        rolls@.len() == width * height,
    ensures
        r.0.wf(),
        r.0.width == width,
        r.0.height == height,
        r.0.tiles@ == stage_tiles(rolls@, width as int, (width * height) as nat).0,
        r.1.tiles@ == seed_pushes(r.0, (width * height) as nat),
{
    let n: usize = (width as usize) * (height as usize);
    let mut tiles: Vec<TileType> = Vec::with_capacity(n);
    let mut seeded: u32 = 0;
    let mut x: i32 = 0;
    let mut y: i32 = 0;
    let mut k: usize = 0;
    while k < n
        invariant
            n == width * height,
            rolls@.len() == n,
            0 <= width,
            0 <= height,
            k <= n,
            k == y * width + x,
            0 <= x,
            0 <= y,
            k < n ==> x < width,
            tiles@.len() == k,
            tiles@ == stage_tiles(rolls@, width as int, k as nat).0,
            seeded == stage_tiles(rolls@, width as int, k as nat).1,
            seeded <= MAX_CORRUPTION,
        decreases n - k,
    {
        proof {
            lemma_row_major(width as int, height as int, k as int, x as int, y as int);
        }
        let kind = tile_kind_for_roll(rolls[k], seeded, x, y);
        tiles.push(kind);
        if kind.is_corrupted_tile() {
            seeded = seeded + 1;
        }
        k = k + 1;
        if x + 1 == width {
            x = 0;
            y = y + 1;
        } else {
            x = x + 1;
        }
    }
    let map = TileMap { width, height, tiles };
    let mut candidates = PotentiallyCorruptedTiles::new();
    k = 0;
    x = 0;
    y = 0;
    while k < n
        invariant
            map.wf(),
            map.width == width,
            map.height == height,
            n == width * height,
            k <= n,
            k == y * width + x,
            0 <= x,
            0 <= y,
            k < n ==> x < width,
            candidates.tiles@ == seed_pushes(map, k as nat),
        decreases n - k,
    {
        proof {
            lemma_row_major(width as int, height as int, k as int, x as int, y as int);
        }
        if map.tiles[k].is_corrupted_tile() {
            find_and_push_neighbors(&map, x, y, &mut candidates);
        } else {
            assert(candidates.tiles@ + Seq::<Coord>::empty() =~= candidates.tiles@);
        }
        k = k + 1;
        if x + 1 == width {
            x = 0;
            y = y + 1;
        } else {
            x = x + 1;
        }
    }
    (map, candidates)
}

/// Initial seeding: a generated stage has at most `MAX_CORRUPTION` corrupted
/// tiles, each on the first row or first column and outside the safe radius
/// around the spawn point.
pub proof fn lemma_seed_placement(rolls: Seq<u32>, width: int, n: nat)
    requires
        0 < width,
        n <= rolls.len(),
    ensures
        stage_tiles(rolls, width, n).0.len() == n,
        stage_tiles(rolls, width, n).1 <= MAX_CORRUPTION,
        forall|k: int|
            0 <= k < n && (#[trigger] stage_tiles(rolls, width, n).0[k] is Corruption) ==> {
                &&& on_seed_border(k % width, k / width)
                &&& outside_safe_radius(k % width, k / width)
            },
    decreases n,
{
    if n > 0 {
        lemma_seed_placement(rolls, width, (n - 1) as nat);
        let prev = stage_tiles(rolls, width, (n - 1) as nat).0;
        let cur = stage_tiles(rolls, width, n).0;
        assert forall|k: int|
            0 <= k < n && (#[trigger] cur[k] is Corruption) implies {
                &&& on_seed_border(k % width, k / width)
                &&& outside_safe_radius(k % width, k / width)
            } by {
            if k < n - 1 {
                assert(cur[k] == prev[k]);
            }
        }
    }
}

/// A `width` x `height` stage generated from fresh random rolls, one per
/// tile, each below `ROLL_RANGE`.
pub fn generate_stage(width: i32, height: i32) -> (r: (TileMap, PotentiallyCorruptedTiles))
    requires
        0 <= width,
        0 <= height,
        width * height <= usize::MAX,
    ensures
        r.0.wf(),
        r.0.width == width,
        r.0.height == height,
        exists|rolls: Seq<u32>|
            {
                &&& rolls.len() == width * height
                &&& forall|i: int| 0 <= i < rolls.len() ==> rolls[i] < ROLL_RANGE
                &&& r.0.tiles@ == stage_tiles(rolls, width as int, (width * height) as nat).0
                &&& r.1.tiles@ == seed_pushes(r.0, (width * height) as nat)
            },
{
    let n: usize = (width as usize) * (height as usize);
    let mut rolls: Vec<u32> = Vec::with_capacity(n);
    while rolls.len() < n
        invariant
            rolls@.len() <= n,
            forall|i: int| 0 <= i < rolls@.len() ==> rolls@[i] < ROLL_RANGE,
        decreases n - rolls@.len(),
    {
        rolls.push(roll_below(ROLL_RANGE));
    }
    generate_stage_from_rolls(width, height, &rolls)
}

} // verus!
