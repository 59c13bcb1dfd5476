//! The cellular automaton: a sparse set of live cells and the rule
//! engine that replaces it, generation by generation.

use std::collections::BTreeMap;
use std::collections::BTreeSet;
use vstd::prelude::*;
use vstd::std_specs::iter::IteratorSpec;
use crate::cell::Cell;
use crate::cell::ascending;
use crate::cell::coords;
use crate::cell::interior;
use crate::cell::lemma_points;
use crate::cell::lemma_points_len;
use crate::cell::point;
use crate::cell::points;
use crate::cell::representable;
use crate::cell::views;
use crate::listing::cells_of;
use crate::listing::lemma_within_ascending;
use crate::listing::within;
use crate::pacing::due;
use crate::pacing::is_due;
use crate::region::Region;
use crate::rules::adjacent;
use crate::rules::alive_next;
use crate::rules::glider;
use crate::rules::indicator;
use crate::rules::lemma_tally_counts_live_neighbours;
use crate::rules::live_neighbours;
use crate::rules::neighbours;
use crate::rules::next_generation;
use crate::rules::tally;

verus! {

/// The shortest time between two generations, in milliseconds.
pub const TICK_INTERVAL_MS: u64 = 250;

/// What a `Life` engine is, as a mathematical value.
pub struct LifeView {
    /// The cells that are alive. No dead cell is stored.
    pub live: Set<(int, int)>,
    /// Whether the engine has been seeded or cleared since it was made.
    pub initialised: bool,
    /// The clock reading at the last generation, seeding or clearing.
    pub last_tick: u64,
}

/// Whether the glider laid out from `anchor` has machine coordinates.
pub open spec fn seedable(anchor: (int, int)) -> bool {
    &&& representable(anchor)
    &&& anchor.0 + 2 <= i64::MAX
    &&& anchor.1 + 2 <= i64::MAX
}

impl LifeView {
    /// A fresh engine: nothing alive, not yet initialised.
    pub open spec fn fresh(now: u64) -> LifeView {
        LifeView { live: Set::empty(), initialised: false, last_tick: now }
    }

    /// Nothing alive, and the engine counts as initialised.
    pub open spec fn clear(self, now: u64) -> LifeView {
        LifeView { live: Set::empty(), initialised: true, last_tick: now }
    }

    /// Seeding: a glider replaces whatever was alive, unless the engine
    /// is already initialised and no restart is asked for.
    pub open spec fn init(self, restart: bool, anchor: (int, int), now: u64) -> LifeView {
        if !restart && self.initialised {
            self
        } else {
            LifeView { live: glider(anchor), initialised: true, last_tick: now }
        }
    }

    /// One more live cell.
    pub open spec fn mark_alive(self, p: (int, int)) -> LifeView {
        LifeView { live: self.live.insert(p), ..self }
    }

    /// The pointer at `p`: with the button held down the cell under it
    /// comes alive.
    pub open spec fn handle_input(self, p: (int, int), pressed: bool) -> LifeView {
        if pressed {
            self.mark_alive(p)
        } else {
            self
        }
    }

    /// Whether every live cell has all its eight neighbours within
    /// machine coordinates.
    pub open spec fn can_tick(self) -> bool {
        forall|p: (int, int)| self.live.contains(p) ==> interior(p)
    }

    /// Whether a generation is due at `now`.
    pub open spec fn due(self, now: u64) -> bool {
        is_due(self.last_tick, now, TICK_INTERVAL_MS)
    }

    /// One generation, whatever the clock says.
    pub open spec fn tick(self) -> LifeView {
        LifeView { live: next_generation(self.live), ..self }
    }

    /// One rate-limited step: a generation if one is due, else nothing.
    pub open spec fn step(self, now: u64) -> LifeView {
        if self.due(now) {
            LifeView { live: next_generation(self.live), last_tick: now, ..self }
        } else {
            self
        }
    }
}

/// The rule engine of the cellular automaton.
pub struct Life {
    /// Only live cells, by their coordinates.
    cells: BTreeSet<(i64, i64)>,
    is_initialised: bool,
    last_tick: u64,
}

impl View for Life {
    type V = LifeView;

    closed spec fn view(&self) -> LifeView {
        LifeView {
            live: points(self.cells@),
            initialised: self.is_initialised,
            last_tick: self.last_tick,
        }
    }
}


/// The count that a tally of dead positions holds for `at`: nothing
/// recorded counts as zero.
spec fn count_at(dead: Map<(i64, i64), u64>, at: (i64, i64)) -> nat {
    if dead.contains_key(at) {
        dead[at] as nat
    } else {
        0
    }
}

/// How many of the first `k` listed positions are alive.
spec fn alive_among(live: Set<(i64, i64)>, around: Seq<(i64, i64)>, k: int) -> nat
    decreases k,
{
    if k <= 0 {
        0
    } else {
        alive_among(live, around, k - 1) + indicator(live.contains(around[k - 1]))
    }
}

/// The eight positions around a cell whose neighbours all have machine
/// coordinates.
fn neighbours_of(c: (i64, i64)) -> (around: [(i64, i64); 8])
    requires
        interior(point(c)),
    ensures
        forall|k: int| 0 <= k < 8 ==> point(#[trigger] around@[k]) == neighbours(point(c))[k],
{
    let (x, y) = c;
    [
        (x + 1, y),
        (x - 1, y),
        (x, y - 1),
        (x, y + 1),
        (x + 1, y + 1),
        (x - 1, y + 1),
        (x + 1, y - 1),
        (x - 1, y - 1),
    ]
}

/// One more live neighbour seen at the dead position `at`.
fn bump(dead: &mut BTreeMap<(i64, i64), u64>, at: (i64, i64))
    requires
        count_at(old(dead)@, at) < u64::MAX,
    ensures
        final(dead)@ == old(dead)@.insert(at, (count_at(old(dead)@, at) + 1) as u64),
{
    let seen: u64 = match dead.get(&at) {
        Some(n) => *n,
        None => 0,
    };
    dead.insert(at, seen + 1);
}

/// Looks at the eight positions around the live cell `c`: counts those
/// that are alive, and records at each dead one that it has one more
/// live neighbour.
fn survey(cells: &BTreeSet<(i64, i64)>, dead: &mut BTreeMap<(i64, i64), u64>, c: (i64, i64)) -> (alive: u8)
    requires
        interior(point(c)),
        forall|q: (i64, i64)| count_at(old(dead)@, q) < u64::MAX,
    ensures
        alive == live_neighbours(points(cells@), point(c)),
        forall|q: (i64, i64)|
            count_at(final(dead)@, q) == #[trigger] count_at(old(dead)@, q) + indicator(
                !cells@.contains(q) && adjacent(point(c), point(q)),
            ),
{
    let around = neighbours_of(c);
    let mut alive: u8 = 0;
    let ghost before = dead@;
    for k in 0..8
        invariant
            interior(point(c)),
            forall|j: int| 0 <= j < 8 ==> point(#[trigger] around@[j]) == neighbours(point(c))[j],
            forall|q: (i64, i64)| count_at(before, q) < u64::MAX,
            alive == alive_among(cells@, around@, k as int),
            alive <= k,
            forall|q: (i64, i64)|
                count_at(dead@, q) == #[trigger] count_at(before, q) + indicator(
                    !cells@.contains(q) && exists|j: int| 0 <= j < k && around@[j] == q,
                ),
    {
        let at = around[k];
        let ghost prior = dead@;
        if cells.contains(&at) {
            alive += 1;
        } else {
            assert(count_at(prior, at) == count_at(before, at));
            bump(dead, at);
        }
    }
    proof {
        reveal_with_fuel(alive_among, 9);
    }
    alive
}

/// The points that a list of coordinates stands for, in the same order.
spec fn points_of(cells: Seq<(i64, i64)>) -> Seq<(int, int)> {
    cells.map_values(|c: (i64, i64)| point(c))
}

/// A list that names each coordinate of a set once stands for a list
/// that names each of its points once.
proof fn lemma_points_of(cells: Seq<(i64, i64)>, s: Set<(i64, i64)>)
    requires
        cells.no_duplicates(),
        cells.to_set() == s,
    ensures
        points_of(cells).no_duplicates(),
        points_of(cells).to_set() == points(s),
{
    let pts = points_of(cells);
    assert forall|p: (int, int)| pts.to_set().contains(p) == points(s).contains(p) by {
        if points(s).contains(p) {
            let c = coords(p);
            let i = choose|i: int| 0 <= i < cells.len() && cells[i] == c;
            assert(pts[i] == p);
        }
    }
}

impl Life {
    /// An engine with nothing alive yet, made at the clock reading `now`.
    pub fn new(now: u64) -> (life: Life)
        ensures
            life@ == LifeView::fresh(now),
    {
        let life = Life { cells: BTreeSet::new(), is_initialised: false, last_tick: now };
        proof {
            lemma_points(life.cells@, (0, 0));
        }
        life
    }

    /// The name under which the engine is shown.
    pub fn name(&self) -> (name: &'static str)
        ensures
            name@ == "Game of Life"@,
    {
        "Game of Life"
    }

    /// Removes every live cell. The engine then counts as initialised, and
    /// its next generation is due a whole interval after `now`.
    pub fn clear(&mut self, now: u64)
        ensures
            final(self)@ == old(self)@.clear(now),
    {
        self.cells.clear();
        self.is_initialised = true;
        self.last_tick = now;
        proof {
            lemma_points(self.cells@, (0, 0));
        }
    }

    /// Whether `init` can lay its glider out from the centre of `bounds`.
    pub fn can_seed(bounds: &Region) -> (ok: bool)
        ensures
            ok == seedable(bounds.centre_point()),
    {
        let anchor = bounds.centre();
        anchor.pos.0 <= i64::MAX - 2 && anchor.pos.1 <= i64::MAX - 2
    }

    /// Seeds the engine with a glider at the centre of `bounds`, unless it
    /// is already initialised and no restart is asked for.
    pub fn init(&mut self, restart: bool, bounds: &Region, now: u64)
        requires
            restart || !old(self)@.initialised ==> seedable(bounds.centre_point()),
        ensures
            final(self)@ == old(self)@.init(restart, bounds.centre_point(), now),
    {
        if !restart && self.is_initialised {
            return ;
        }
        let anchor = bounds.centre();
        let (mx, my) = anchor.pos;

        self.cells.clear();
        let ghost s0 = self.cells@;
        self.cells.insert((mx, my));
        let ghost s1 = self.cells@;
        self.cells.insert((mx + 2, my));
        let ghost s2 = self.cells@;
        self.cells.insert((mx + 1, my + 1));
        let ghost s3 = self.cells@;
        self.cells.insert((mx + 1, my + 2));
        let ghost s4 = self.cells@;
        self.cells.insert((mx + 2, my + 1));

        self.is_initialised = true;
        self.last_tick = now;
        proof {
            lemma_points(s0, (mx, my));
            lemma_points(s1, ((mx + 2) as i64, my));
            lemma_points(s2, ((mx + 1) as i64, (my + 1) as i64));
            lemma_points(s3, ((mx + 1) as i64, (my + 2) as i64));
            lemma_points(s4, ((mx + 2) as i64, (my + 1) as i64));
        }
    }

    /// Makes `cell` alive, whatever the clock says.
    pub fn mark_alive(&mut self, cell: Cell)
        ensures
            final(self)@ == old(self)@.mark_alive(cell@),
    {
        proof {
            lemma_points(self.cells@, cell.pos);
        }
        self.cells.insert(cell.pos);
    }

    /// What the host's input does: the cell under a pressed pointer comes
    /// alive.
    pub fn handle_input(&mut self, pointer: Cell, pressed: bool)
        ensures
            final(self)@ == old(self)@.handle_input(pointer@, pressed),
    {
        if pressed {
            self.mark_alive(pointer);
        }
    }

    /// Whether `tick` can look at every neighbour of every live cell.
    pub fn can_tick(&self) -> (ok: bool)
        ensures
            ok == self@.can_tick(),
    {
        let ghost all = self.cells.iter().remaining().unref();
        let mut ok = true;
        for cell in it: self.cells.iter()
            invariant
                it.seq() == self.cells.iter().remaining(),
                all == it.seq().unref(),
                ok == forall|j: int| 0 <= j < it.index() ==> interior(point(#[trigger] all[j])),
        {
            let (x, y) = *cell;
            if !(i64::MIN < x && x < i64::MAX && i64::MIN < y && y < i64::MAX) {
                ok = false;
            }
        }
        ok
    }

    /// Replaces the live cells by their next generation, whatever the
    /// clock says.
    pub fn tick(&mut self)
        requires
            old(self)@.can_tick(),
        ensures
            final(self)@ == old(self)@.tick(),
    {
        let mut new_cells: BTreeSet<(i64, i64)> = BTreeSet::new();
        let mut dead: BTreeMap<(i64, i64), u64> = BTreeMap::new();
        let ghost all = self.cells.iter().remaining().unref();
        let ghost pts = points_of(all);
        let ghost live = points(self.cells@);
        proof {
            assert(all.len() == self.cells.len());
            lemma_points_of(all, self.cells@);
        }

        for cell in it: self.cells.iter()
            invariant
                it.seq() == self.cells.iter().remaining(),
                all == it.seq().unref(),
                pts == points_of(all),
                live == points(self.cells@),
                all.to_set() == self.cells@,
                all.len() <= usize::MAX,
                forall|p: (int, int)| live.contains(p) ==> interior(p),
                forall|q: (i64, i64)|
                    #[trigger] new_cells@.contains(q) <==> {
                        &&& exists|j: int| 0 <= j < it.index() && all[j] == q
                        &&& (live_neighbours(live, point(q)) == 2 || live_neighbours(live, point(q)) == 3)
                    },
                forall|q: (i64, i64)|
                    #[trigger] count_at(dead@, q) == if self.cells@.contains(q) {
                        0
                    } else {
                        tally(pts.take(it.index()), point(q))
                    },
        {
            let ghost i = it.index();
            let ghost prior_dead = dead@;
            let c = *cell;
            proof {
                assert forall|q: (i64, i64)| count_at(dead@, q) < u64::MAX by {
                    crate::rules::lemma_tally_bound(pts.take(i), point(q));
                }
            }
            let alive = survey(&self.cells, &mut dead, c);
            if alive == 2 || alive == 3 {
                new_cells.insert(c);
            }
            proof {
                assert forall|q: (i64, i64)|
                    #[trigger] count_at(dead@, q) == if self.cells@.contains(q) {
                        0
                    } else {
                        tally(pts.take(i + 1), point(q))
                    } by {
                    crate::rules::lemma_tally_step(pts, i, point(q));
                    assert(count_at(dead@, q) == count_at(prior_dead, q) + indicator(
                        !self.cells@.contains(q) && adjacent(point(c), point(q)),
                    ));
                }
                assert forall|q: (i64, i64)|
                    #[trigger] new_cells@.contains(q) <==> {
                        &&& exists|j: int| 0 <= j < i + 1 && all[j] == q
                        &&& (live_neighbours(live, point(q)) == 2 || live_neighbours(live, point(q)) == 3)
                    } by {
                    if q == c {
                        assert(all[i] == q);
                    }
                }
            }
        }

        let ghost survivors = new_cells@;
        let ghost found = dead.iter().remaining();
        for entry in it: dead.iter()
            invariant
                it.seq() == dead.iter().remaining(),
                found == it.seq(),
                forall|q: (i64, i64)|
                    #[trigger] new_cells@.contains(q) <==> {
                        ||| survivors.contains(q)
                        ||| exists|j: int| 0 <= j < it.index() && *found[j].0 == q && *found[j].1 == 3
                    },
        {
            let ghost i = it.index();
            let (cell, seen) = entry;
            if *seen == 3 {
                new_cells.insert(*cell);
            }
            proof {
                assert forall|q: (i64, i64)|
                    #[trigger] new_cells@.contains(q) <==> {
                        ||| survivors.contains(q)
                        ||| exists|j: int| 0 <= j < i + 1 && *found[j].0 == q && *found[j].1 == 3
                    } by {
                    if *cell == q && *seen == 3 {
                        assert(*found[i].0 == q && *found[i].1 == 3);
                    }
                }
            }
        }

        proof {
            assert(pts.take(pts.len() as int) =~= pts);
            assert forall|q: (i64, i64)|
                new_cells@.contains(q) <==> alive_next(live, point(q)) by {
                lemma_tally_counts_live_neighbours(pts, point(q));
                assert(count_at(dead@, q) == if self.cells@.contains(q) {
                    0
                } else {
                    tally(pts, point(q))
                });
            }
            assert forall|p: (int, int)| points(new_cells@).contains(p) == next_generation(live).contains(p) by {
                if alive_next(live, p) {
                    let q = choose|q: (int, int)| live.contains(q) && adjacent(q, p);
                    assert(interior(q));
                }
            }
            assert(points(new_cells@) =~= next_generation(live));
        }
        self.cells = new_cells;
    }

    /// Whether a generation is due at `now`.
    pub fn is_due(&self, now: u64) -> (fire: bool)
        ensures
            fire == self@.due(now),
    {
        due(self.last_tick, now, TICK_INTERVAL_MS)
    }

    /// One rate-limited step: the next generation if at least
    /// `TICK_INTERVAL_MS` have gone by since the last one, else nothing.
    pub fn step(&mut self, now: u64)
        requires
            old(self)@.due(now) ==> old(self)@.can_tick(),
        ensures
            final(self)@ == old(self)@.step(now),
    {
        if !self.is_due(now) {
            return ;
        }
        self.last_tick = now;
        self.tick();
    }

    /// How many cells are alive.
    pub fn len(&self) -> (n: usize)
        ensures
            n == self@.live.len(),
    {
        proof {
            assert(self.cells@.finite()) by {
                assert(self.cells.iter().remaining().unref().to_set() == self.cells@);
            }
            lemma_points_len(self.cells@);
        }
        self.cells.len()
    }

    /// The live cells, each once, in the listing order.
    pub fn cells(&self) -> (list: Vec<Cell>)
        ensures
            views(list@).to_set() == self@.live,
            ascending(views(list@)),
    {
        cells_of(&self.cells)
    }

    /// The live cells that a host sees through `view`, each once, in the
    /// listing order.
    pub fn visible_cells(&self, view: &Region) -> (list: Vec<Cell>)
        ensures
            views(list@).to_set() == self@.live.filter(|p: (int, int)| view.holds(p)),
            ascending(views(list@)),
    {
        let all = cells_of(&self.cells);
        proof {
            lemma_within_ascending(all@, *view);
        }
        within(&all, view)
    }

    /// Whether `cell` is alive.
    pub fn is_alive(&self, cell: &Cell) -> (alive: bool)
        ensures
            alive == self@.live.contains(cell@),
    {
        self.cells.contains(&cell.pos)
    }

    /// Whether the engine has been seeded or cleared.
    pub fn is_initialised(&self) -> (initialised: bool)
        ensures
            initialised == self@.initialised,
    {
        self.is_initialised
    }

    /// The clock reading at the last generation, seeding or clearing.
    pub fn last_tick(&self) -> (at: u64)
        ensures
            at == self@.last_tick,
    {
        self.last_tick
    }
}


/// Initialising again without asking for a restart changes nothing,
/// whatever the bounds and the clock.
pub proof fn law_init_idempotent(
    s: LifeView,
    restart: bool,
    anchor: (int, int),
    now: u64,
    other_anchor: (int, int),
    later: u64,
)
    ensures
        s.init(restart, anchor, now).init(false, other_anchor, later) == s.init(restart, anchor, now),
        s.clear(now).init(false, other_anchor, later) == s.clear(now),
{
}

/// A second step that comes less than a whole interval after the first
/// leaves the state as the first step left it, unless a generation was
/// not yet due at the first and is due at the second.
pub proof fn law_step_rate_limited(s: LifeView, first: u64, second: u64)
    requires
        second < first + TICK_INTERVAL_MS,
        s.due(first) || !s.due(second),
    ensures
        s.step(first).step(second) == s.step(first),
        !s.due(first) ==> s.step(first) == s,
{
}

/// An engine seeded with a glider and ticked four times holds the same
/// glider one step further along the diagonal; a tick at a time it keeps
/// five live cells.
pub proof fn law_glider_after_four_ticks(s: LifeView, anchor: (int, int), now: u64)
    ensures
        s.init(true, anchor, now).tick().tick().tick().tick().live == glider(
            (anchor.0 + 1, anchor.1 + 1),
        ),
        s.init(true, anchor, now).live.len() == 5,
        s.init(true, anchor, now).tick().live.len() == 5,
        s.init(true, anchor, now).tick().tick().live.len() == 5,
        s.init(true, anchor, now).tick().tick().tick().live.len() == 5,
        s.init(true, anchor, now).tick().tick().tick().tick().live.len() == 5,
{
    crate::rules::law_glider_travels(anchor);
}

} // verus!
