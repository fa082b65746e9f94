use vstd::prelude::*;
use crate::candidates::{find_and_push_neighbors, neighbor_pushes, PotentiallyCorruptedTiles};
use crate::clock::{decay_once, CorruptionTimer};
use crate::grid::{cell_index, Coord, TileMap};
use crate::random::choose_index;
use crate::tile::TileType;

verus! {

/// Corrupting the live tile at `(x, y)` takes grid `m0` and frontier `c0` to
/// `m1` and `c1`: that one tile becomes corrupted, and the live neighbours
/// of `(x, y)` are appended to the frontier.
pub open spec fn spread_to(
    m0: TileMap,
    c0: Seq<Coord>,
    m1: TileMap,
    c1: Seq<Coord>,
    x: int,
    y: int,
) -> bool {
    &&& m0.is_live(x, y)
    &&& m1.width == m0.width
    &&& m1.height == m0.height
    &&& m1.tiles@ == m0.tiles@.update(cell_index(m0.width as int, x, y), TileType::Corruption)
    &&& c1 == c0 + neighbor_pushes(m1, x, y)
}

/// Entry `i` of frontier `c` names a live tile of `m`.
pub open spec fn live_at(m: TileMap, c: Seq<Coord>, i: int) -> bool {
    0 <= i < c.len() && m.is_live(c[i].0 as int, c[i].1 as int)
}

/// Some entry of frontier `c` names a live tile of `m`.
pub open spec fn has_live_candidate(m: TileMap, c: Seq<Coord>) -> bool {
    exists|i: int| #[trigger] live_at(m, c, i)
}

/// How one tick may change the state: the grid keeps its shape, and either
/// grid and frontier stay as they were, or exactly one live tile is corrupted.
pub open spec fn tick_step(s0: CorruptionState, s1: CorruptionState) -> bool {
    &&& s1.tile_map.width == s0.tile_map.width
    &&& s1.tile_map.height == s0.tile_map.height
    &&& {
        ||| (s1.tile_map == s0.tile_map && s1.candidates == s0.candidates)
        ||| exists|x: int, y: int|
            spread_to(
                s0.tile_map,
                s0.candidates.tiles@,
                s1.tile_map,
                s1.candidates.tiles@,
                x,
                y,
            )
    }
}

/// The number of corrupted tiles in `s`.
pub open spec fn count_corrupted(s: Seq<TileType>) -> nat
    decreases s.len(),
{
    if s.len() == 0 {
        0
    } else {
        count_corrupted(s.drop_last()) + if s.last() is Corruption {
            1nat
        } else {
            0nat
        }
    }
}

proof fn lemma_count_corrupted_update(s: Seq<TileType>, i: int)
    requires
        0 <= i < s.len(),
        !(s[i] is Corruption),
    ensures
        count_corrupted(s.update(i, TileType::Corruption)) == count_corrupted(s) + 1,
    decreases s.len(),
{
    let t = s.update(i, TileType::Corruption);
    if i == s.len() - 1 {
        assert(t.drop_last() == s.drop_last());
    } else {
        assert(t.drop_last() == s.drop_last().update(i, TileType::Corruption));
        lemma_count_corrupted_update(s.drop_last(), i);
    }
}

/// Everything the spread of corruption works on: the grid index, the
/// frontier, and the clock.
pub struct CorruptionState {
    pub tile_map: TileMap,
    pub candidates: PotentiallyCorruptedTiles,
    pub timer: CorruptionTimer,
}

impl CorruptionState {
    pub open spec fn wf(&self) -> bool {
        self.tile_map.wf() && self.timer.wf()
    }

    /// Corrupts the live tile at `(x, y)` and appends its live neighbours to
    /// the frontier.
    pub fn corrupt_tile(&mut self, x: i32, y: i32)
        requires
            old(self).wf(),
            old(self).tile_map.is_live(x as int, y as int),
        ensures
            final(self).wf(),
            final(self).timer == old(self).timer,
            spread_to(
                old(self).tile_map,
                old(self).candidates.tiles@,
                final(self).tile_map,
                final(self).candidates.tiles@,
                x as int,
                y as int,
            ),
    {
        self.tile_map.set(x, y, TileType::Corruption);
        find_and_push_neighbors(&self.tile_map, x, y, &mut self.candidates);
    }

    /// Corrupts the tile named by frontier entry `pick` if that tile is live;
    /// otherwise (a stale entry, or no such entry) changes nothing. Returns
    /// the coordinate it corrupted.
    pub fn corrupt_candidate(&mut self, pick: usize) -> (r: Option<Coord>)
        requires
            old(self).wf(),
        ensures
            final(self).wf(),
            final(self).timer == old(self).timer,
            r == if live_at(old(self).tile_map, old(self).candidates.tiles@, pick as int) {
                Some(old(self).candidates.tiles@[pick as int])
            } else {
                None::<Coord>
            },
            r is None ==> *final(self) == *old(self),
            r matches Some(c) ==> spread_to(
                old(self).tile_map,
                old(self).candidates.tiles@,
                final(self).tile_map,
                final(self).candidates.tiles@,
                c.0 as int,
                c.1 as int,
            ),
    {
        if pick >= self.candidates.tiles.len() {
            return None;
        }
        let (x, y) = self.candidates.tiles[pick];
        if self.tile_map.is_walkable(x, y) {
            self.corrupt_tile(x, y);
            Some((x, y))
        } else {
            None
        }
    }

    /// The positions of the frontier entries that name a live tile, in
    /// increasing order, each once.
    pub fn live_candidate_indices(&self) -> (r: Vec<usize>)
        requires
            self.wf(),
        ensures
            forall|k: int|
                0 <= k < r@.len() ==> live_at(
                    self.tile_map,
                    self.candidates.tiles@,
                    #[trigger] r@[k] as int,
                ),
            forall|j: int, k: int| 0 <= j < k < r@.len() ==> r@[j] < r@[k],
            forall|i: int|
                #[trigger] live_at(self.tile_map, self.candidates.tiles@, i) ==> r@.contains(
                    i as usize,
                ),
    {
        let mut r: Vec<usize> = Vec::new();
        let n = self.candidates.tiles.len();
        let mut i: usize = 0;
        while i < n
            invariant
                self.wf(),
                n == self.candidates.tiles@.len(),
                i <= n,
                forall|k: int|
                    0 <= k < r@.len() ==> live_at(
                        self.tile_map,
                        self.candidates.tiles@,
                        #[trigger] r@[k] as int,
                    ),
                forall|k: int| 0 <= k < r@.len() ==> #[trigger] r@[k] < i,
                forall|j: int, k: int| 0 <= j < k < r@.len() ==> r@[j] < r@[k],
                forall|q: int|
                    0 <= q < i && #[trigger] live_at(self.tile_map, self.candidates.tiles@, q)
                        ==> r@.contains(q as usize),
            decreases n - i,
        {
            let (x, y) = self.candidates.tiles[i];
            if self.tile_map.is_walkable(x, y) {
                let ghost before = r@;
                r.push(i);
                proof {
                    assert forall|q: int|
                        0 <= q < i + 1 && #[trigger] live_at(
                            self.tile_map,
                            self.candidates.tiles@,
                            q,
                        ) implies r@.contains(q as usize) by {
                        if q < i {
                            let k = choose|k: int| 0 <= k < before.len() && before[k] == q as usize;
                            assert(r@[k] == q as usize);
                        } else {
                            assert(r@[before.len() as int] == q as usize);
                        }
                    }
                }
            }
            i = i + 1;
        }
        r
    }

    /// One corruption event: draws one frontier entry uniformly among those
    /// that name a live tile and corrupts that tile. Drawing among the live
    /// entries is what retrying the draw until a live entry comes up would
    /// give, without an unbounded retry. With no live entry (an empty
    /// frontier, or only stale entries) nothing changes and `None` comes back.
    pub fn corruption_step(&mut self) -> (r: Option<Coord>)
        requires
            old(self).wf(),
        ensures
            final(self).wf(),
            final(self).timer == old(self).timer,
            r is Some <==> has_live_candidate(old(self).tile_map, old(self).candidates.tiles@),
            r is None ==> *final(self) == *old(self),
            old(self).candidates.tiles@.len() == 0 ==> r is None,
            r matches Some(c) ==> {
                &&& old(self).candidates.tiles@.contains(c)
                &&& spread_to(
                    old(self).tile_map,
                    old(self).candidates.tiles@,
                    final(self).tile_map,
                    final(self).candidates.tiles@,
                    c.0 as int,
                    c.1 as int,
                )
            },
    {
        let live = self.live_candidate_indices();
        match choose_index(&live) {
            None => {
                proof {
                    if has_live_candidate(self.tile_map, self.candidates.tiles@) {
                        let i = choose|i: int| live_at(self.tile_map, self.candidates.tiles@, i);
                        assert(live@.contains(i as usize));
                    }
                }
                None
            },
            Some(pick) => {
                proof {
                    let k = choose|k: int| 0 <= k < live@.len() && live@[k] == pick;
                    assert(live_at(self.tile_map, self.candidates.tiles@, live@[k] as int));
                }
                self.corrupt_candidate(pick)
            },
        }
    }
}

/// Every tile corrupted in `s0` is corrupted in `s1`, at the same position of
/// the same-shaped grid.
pub open spec fn keeps_corruption(s0: CorruptionState, s1: CorruptionState) -> bool {
    &&& s1.tile_map.width == s0.tile_map.width
    &&& s1.tile_map.height == s0.tile_map.height
    &&& s1.tile_map.tiles@.len() == s0.tile_map.tiles@.len()
    &&& forall|p: int|
        0 <= p < s0.tile_map.tiles@.len() && (#[trigger] s0.tile_map.tiles@[p] is Corruption)
            ==> s1.tile_map.tiles@[p] is Corruption
}

proof fn lemma_tick_step_monotone(s0: CorruptionState, s1: CorruptionState)
    requires
        s0.tile_map.wf(),
        tick_step(s0, s1),
    ensures
        keeps_corruption(s0, s1),
        count_corrupted(s0.tile_map.tiles@) <= count_corrupted(s1.tile_map.tiles@),
{
    if !(s1.tile_map == s0.tile_map && s1.candidates == s0.candidates) {
        let (x, y) = choose|x: int, y: int|
            spread_to(
                s0.tile_map,
                s0.candidates.tiles@,
                s1.tile_map,
                s1.candidates.tiles@,
                x,
                y,
            );
        let m = s0.tile_map;
        crate::grid::lemma_cell_index_bounds(m.width as int, m.height as int, x, y);
        lemma_count_corrupted_update(m.tiles@, cell_index(m.width as int, x, y));
    }
}

/// Monotonicity: along any run of ticks, a corrupted tile stays corrupted and
/// the number of corrupted tiles never goes down.
pub proof fn lemma_corruption_monotone(run: Seq<CorruptionState>, i: int, j: int)
    requires
        0 <= i <= j < run.len(),
        forall|k: int| 0 <= k < run.len() ==> (#[trigger] run[k]).tile_map.wf(),
        forall|k: int| 0 <= k < run.len() - 1 ==> tick_step(#[trigger] run[k], run[k + 1]),
    ensures
        keeps_corruption(run[i], run[j]),
        count_corrupted(run[i].tile_map.tiles@) <= count_corrupted(run[j].tile_map.tiles@),
    decreases j - i,
{
    if i < j {
        lemma_corruption_monotone(run, i, j - 1);
        lemma_tick_step_monotone(run[j - 1], run[j]);
    }
}

/// The per-frame update: advances the clock by `delta` nanoseconds and, when
/// it fires, runs one corruption event. Only a successful event shortens the
/// clock's period; a firing that finds no live candidate restarts the
/// countdown with the same period. Returns the coordinate corrupted this
/// frame, if any.
pub fn corruption_system(state: &mut CorruptionState, delta: u64) -> (r: Option<Coord>)
    requires
        old(state).wf(),
    ensures
        final(state).wf(),
        tick_step(*old(state), *final(state)),
        ({
            let fired = delta >= old(state).timer.period - old(state).timer.elapsed;
            &&& fired ==> final(state).timer.elapsed == 0
            &&& !fired ==> final(state).timer.elapsed == old(state).timer.elapsed + delta
            &&& r is Some <==> fired && has_live_candidate(
                old(state).tile_map,
                old(state).candidates.tiles@,
            )
        }),
        r is Some ==> final(state).timer.period == decay_once(
            old(state).timer.period as nat,
            old(state).timer.decay_num as nat,
            old(state).timer.decay_den as nat,
        ) && final(state).timer.events@ == old(state).timer.events@ + 1,
        r is None ==> final(state).timer.period == old(state).timer.period
            && final(state).timer.events@ == old(state).timer.events@,
        final(state).timer.decay_num == old(state).timer.decay_num,
        final(state).timer.decay_den == old(state).timer.decay_den,
        final(state).timer.initial_period == old(state).timer.initial_period,
        r is None ==> final(state).tile_map == old(state).tile_map && final(state).candidates
            == old(state).candidates,
        old(state).candidates.tiles@.len() == 0 ==> {
            &&& r is None
            &&& final(state).tile_map == old(state).tile_map
            &&& final(state).candidates == old(state).candidates
            &&& final(state).timer.period == old(state).timer.period
        },
        r matches Some(c) ==> {
            &&& old(state).candidates.tiles@.contains(c)
            &&& spread_to(
                old(state).tile_map,
                old(state).candidates.tiles@,
                final(state).tile_map,
                final(state).candidates.tiles@,
                c.0 as int,
                c.1 as int,
            )
        },
{
    let ghost start = *state;
    if state.timer.advance(delta) {
        let r = state.corruption_step();
        if let Some(c) = r {
            state.timer.decay();
            assert(spread_to(
                start.tile_map,
                start.candidates.tiles@,
                state.tile_map,
                state.candidates.tiles@,
                c.0 as int,
                c.1 as int,
            ));
        }
        r
    } else {
        None
    }
}

} // verus!
