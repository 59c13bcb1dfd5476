//! The walker automaton: walkers that turn on every cell they stand on,
//! flip it, and move one cell on, all over one shared sparse grid.

use std::collections::BTreeSet;
use vstd::prelude::*;
use crate::cell::Cell;
use crate::cell::ascending;
use crate::cell::interior;
use crate::cell::lemma_points;
use crate::cell::points;
use crate::cell::views;
use crate::listing::cells_of;
use crate::listing::lemma_within_ascending;
use crate::listing::within;
use crate::pacing::due;
use crate::pacing::is_due;
use crate::region::Region;

verus! {

/// The time between two ticks of a new or cleared automaton, in
/// milliseconds.
pub const DEFAULT_TICK_MS: u64 = 150;

/// By how much one adjustment shortens or lengthens the time between two
/// ticks, in milliseconds.
pub const SPEED_STEP_MS: u64 = 20;

/// Where a walker faces. `Up` is towards smaller `y`, as on a screen.
#[derive(Debug, Clone, Copy, PartialEq, Eq, Structural)]
pub enum Direction {
    Up,
    Down,
    Left,
    Right,
}

impl Direction {
    /// The facing after a quarter turn to the right.
    pub open spec fn clockwise(self) -> Direction {
        match self {
            Direction::Up => Direction::Right,
            Direction::Down => Direction::Left,
            Direction::Left => Direction::Up,
            Direction::Right => Direction::Down,
        }
    }

    /// The facing after a quarter turn to the left.
    pub open spec fn anticlockwise(self) -> Direction {
        match self {
            Direction::Up => Direction::Left,
            Direction::Down => Direction::Right,
            Direction::Left => Direction::Down,
            Direction::Right => Direction::Up,
        }
    }

    /// The facing after a half turn. No single move of a walker makes it.
    pub open spec fn reverse(self) -> Direction {
        match self {
            Direction::Up => Direction::Down,
            Direction::Down => Direction::Up,
            Direction::Left => Direction::Right,
            Direction::Right => Direction::Left,
        }
    }

    /// The position one cell ahead of `p` in this direction.
    pub open spec fn ahead(self, p: (int, int)) -> (int, int) {
        match self {
            Direction::Up => (p.0, p.1 - 1),
            Direction::Down => (p.0, p.1 + 1),
            Direction::Left => (p.0 - 1, p.1),
            Direction::Right => (p.0 + 1, p.1),
        }
    }

    /// A quarter turn to the right.
    pub fn turn_clockwise(&mut self)
        ensures
            *final(self) == old(self).clockwise(),
    {
        *self = match self {
            Direction::Up => Direction::Right,
            Direction::Down => Direction::Left,
            Direction::Left => Direction::Up,
            Direction::Right => Direction::Down,
        };
    }

    /// A quarter turn to the left.
    pub fn turn_anticlockwise(&mut self)
        ensures
            *final(self) == old(self).anticlockwise(),
    {
        *self = match self {
            Direction::Up => Direction::Left,
            Direction::Down => Direction::Right,
            Direction::Left => Direction::Down,
            Direction::Right => Direction::Up,
        };
    }
}

/// A walker as a mathematical value: where it stands and where it faces.
pub struct Walker {
    pub pos: (int, int),
    pub dir: Direction,
}

/// A walker on the grid.
#[derive(Debug, Clone, Copy, PartialEq, Eq)]
pub struct Ant {
    pub pos: Cell,
    pub dir: Direction,
}

impl View for Ant {
    type V = Walker;

    open spec fn view(&self) -> Walker {
        Walker { pos: self.pos@, dir: self.dir }
    }
}

impl Ant {
    /// A walker at `pos` that faces `dir`.
    pub fn new(pos: Cell, dir: Direction) -> (ant: Ant)
        ensures
            ant.pos == pos,
            ant.dir == dir,
    {
        Ant { pos, dir }
    }

    /// Turns the walker a quarter to the right, on the spot.
    pub fn turn_clockwise(&mut self)
        ensures
            final(self).dir == old(self).dir.clockwise(),
            final(self).pos == old(self).pos,
    {
        self.dir.turn_clockwise();
    }

    /// Turns the walker a quarter to the left, on the spot.
    pub fn turn_anticlockwise(&mut self)
        ensures
            final(self).dir == old(self).dir.anticlockwise(),
            final(self).pos == old(self).pos,
    {
        self.dir.turn_anticlockwise();
    }

    /// One cell forward in the direction that the walker faces.
    pub fn advance(&mut self)
        requires
            interior(old(self)@.pos),
        ensures
            final(self)@ == (Walker { pos: old(self).dir.ahead(old(self)@.pos), dir: old(self).dir }),
    {
        let (x, y) = self.pos.pos;
        self.pos = match self.dir {
            Direction::Up => Cell { pos: (x, y - 1) },
            Direction::Down => Cell { pos: (x, y + 1) },
            Direction::Left => Cell { pos: (x - 1, y) },
            Direction::Right => Cell { pos: (x + 1, y) },
        };
    }
}

/// One move of one walker over the flipped cells: on a flipped cell it
/// unflips the cell and turns clockwise, on any other it flips the cell
/// and turns anticlockwise; then it goes one cell forward in its new
/// direction.
pub open spec fn move_walker(w: Walker, flipped: Set<(int, int)>) -> (Walker, Set<(int, int)>) {
    if flipped.contains(w.pos) {
        let dir = w.dir.clockwise();
        (Walker { pos: dir.ahead(w.pos), dir }, flipped.remove(w.pos))
    } else {
        let dir = w.dir.anticlockwise();
        (Walker { pos: dir.ahead(w.pos), dir }, flipped.insert(w.pos))
    }
}

/// One move of every walker, in the order of the list, all over the
/// same flipped cells: each walker finds the cells as the walkers before
/// it in the list left them.
pub open spec fn march(walkers: Seq<Walker>, flipped: Set<(int, int)>) -> (
    Seq<Walker>,
    Set<(int, int)>,
)
    decreases walkers.len(),
{
    if walkers.len() == 0 {
        (walkers, flipped)
    } else {
        let (moved, cells) = march(walkers.drop_last(), flipped);
        let (last, cells) = move_walker(walkers.last(), cells);
        (moved.push(last), cells)
    }
}

/// The walkers that a list of ants stands for, in the same order.
pub open spec fn walkers(ants: Seq<Ant>) -> Seq<Walker> {
    ants.map_values(|a: Ant| a@)
}

/// What an `AntAutomata` is, as a mathematical value.
pub struct AntView {
    /// Whether the automaton has been seeded or cleared since it was made.
    pub initialised: bool,
    /// The walkers, in the order in which they came.
    pub ants: Seq<Walker>,
    /// The cells that have been flipped an odd number of times.
    pub flipped: Set<(int, int)>,
    /// The clock reading at the last tick, seeding or clearing.
    pub last_tick: u64,
    /// The shortest time between two ticks, in milliseconds.
    pub tick_per: u64,
}

impl AntView {
    /// The interval between two ticks never reaches zero.
    pub open spec fn wf(self) -> bool {
        self.tick_per > 0
    }

    /// A fresh automaton: no walker, nothing flipped, not yet initialised.
    pub open spec fn fresh(now: u64) -> AntView {
        AntView {
            initialised: false,
            ants: Seq::empty(),
            flipped: Set::empty(),
            last_tick: now,
            tick_per: DEFAULT_TICK_MS,
        }
    }

    /// No walker, nothing flipped, the default speed, and the automaton
    /// counts as initialised.
    pub open spec fn clear(self, now: u64) -> AntView {
        AntView {
            initialised: true,
            ants: Seq::empty(),
            flipped: Set::empty(),
            last_tick: now,
            tick_per: DEFAULT_TICK_MS,
        }
    }

    /// Seeding: one walker at the origin, facing up, on a grid with
    /// nothing flipped, unless the automaton is already initialised and no
    /// restart is asked for. The speed stays as it is.
    pub open spec fn init(self, restart: bool, now: u64) -> AntView {
        if !restart && self.initialised {
            self
        } else {
            AntView {
                initialised: true,
                ants: seq![Walker { pos: (0, 0), dir: Direction::Up }],
                flipped: Set::empty(),
                last_tick: now,
                ..self
            }
        }
    }

    /// One more walker at `p`, facing up, after all the others.
    pub open spec fn add_walker_at(self, p: (int, int)) -> AntView {
        AntView { ants: self.ants.push(Walker { pos: p, dir: Direction::Up }), ..self }
    }

    /// Whether the interval can be lengthened by one more adjustment.
    pub open spec fn can_slow_down(self) -> bool {
        self.tick_per + SPEED_STEP_MS <= u64::MAX
    }

    /// One adjustment of the speed: faster shortens the interval between
    /// two ticks by `SPEED_STEP_MS` as long as more than that is left of
    /// it, slower lengthens it by as much.
    pub open spec fn adjust_speed(self, faster: bool) -> AntView {
        if faster {
            if self.tick_per > SPEED_STEP_MS {
                AntView { tick_per: (self.tick_per - SPEED_STEP_MS) as u64, ..self }
            } else {
                self
            }
        } else {
            AntView { tick_per: (self.tick_per + SPEED_STEP_MS) as u64, ..self }
        }
    }

    /// Which adjustment of the speed the two keys ask for, if any: the
    /// faster key counts while the interval can still be shortened, else
    /// the slower key does.
    pub open spec fn speed_request(self, faster_key: bool, slower_key: bool) -> Option<bool> {
        if faster_key && self.tick_per > SPEED_STEP_MS {
            Some(true)
        } else if slower_key {
            Some(false)
        } else {
            None
        }
    }

    /// What the host's input does: a click puts a walker under the
    /// pointer, then the keys adjust the speed.
    pub open spec fn handle_input(
        self,
        p: (int, int),
        clicked: bool,
        faster_key: bool,
        slower_key: bool,
    ) -> AntView {
        let with_walker = if clicked {
            self.add_walker_at(p)
        } else {
            self
        };
        match self.speed_request(faster_key, slower_key) {
            Some(faster) => with_walker.adjust_speed(faster),
            None => with_walker,
        }
    }

    /// Whether every walker can go one cell in any direction within
    /// machine coordinates.
    pub open spec fn can_tick(self) -> bool {
        forall|i: int| 0 <= i < self.ants.len() ==> interior(#[trigger] self.ants[i].pos)
    }

    /// Whether a tick is due at `now`.
    pub open spec fn due(self, now: u64) -> bool {
        is_due(self.last_tick, now, self.tick_per)
    }

    /// One move of every walker, whatever the clock says.
    pub open spec fn tick(self) -> AntView {
        let (ants, flipped) = march(self.ants, self.flipped);
        AntView { ants, flipped, ..self }
    }

    /// One rate-limited step: a tick if one is due, else nothing.
    pub open spec fn step(self, now: u64) -> AntView {
        if self.due(now) {
            AntView { last_tick: now, ..self.tick() }
        } else {
            self
        }
    }
}


/// The walker automaton.
pub struct AntAutomata {
    is_initialised: bool,
    ants: Vec<Ant>,
    /// Only flipped cells, by their coordinates.
    white_blocks: BTreeSet<(i64, i64)>,
    last_tick: u64,
    tick_per: u64,
}

impl View for AntAutomata {
    type V = AntView;

    closed spec fn view(&self) -> AntView {
        AntView {
            initialised: self.is_initialised,
            ants: walkers(self.ants@),
            flipped: points(self.white_blocks@),
            last_tick: self.last_tick,
            tick_per: self.tick_per,
        }
    }
}

/// Keeping the ants that a region holds keeps the walkers that it holds.
proof fn lemma_seen_walkers(ants: Seq<Ant>, view: Region)
    ensures
        walkers(ants.filter(|a: Ant| view.holds(a@.pos))) == walkers(ants).filter(
            |w: Walker| view.holds(w.pos),
        ),
    decreases ants.len(),
{
    reveal(Seq::filter);
    if ants.len() > 0 {
        lemma_seen_walkers(ants.drop_last(), view);
        assert(walkers(ants).drop_last() =~= walkers(ants.drop_last()));
    }
}

impl AntAutomata {
    /// An automaton with no walker yet, made at the clock reading `now`.
    pub fn new(now: u64) -> (automaton: AntAutomata)
        ensures
            automaton@ == AntView::fresh(now),
    {
        let automaton = AntAutomata {
            is_initialised: false,
            ants: Vec::new(),
            white_blocks: BTreeSet::new(),
            last_tick: now,
            tick_per: DEFAULT_TICK_MS,
        };
        proof {
            lemma_points(automaton.white_blocks@, (0, 0));
            assert(walkers(automaton.ants@) =~= Seq::<Walker>::empty());
        }
        automaton
    }

    /// The name under which the automaton is shown.
    pub fn name(&self) -> (name: &'static str)
        ensures
            name@ == "Langton's Ant"@,
    {
        "Langton's Ant"
    }

    /// Removes every walker, unflips every cell and goes back to the
    /// default speed. The automaton then counts as initialised.
    pub fn clear(&mut self, now: u64)
        ensures
            final(self)@ == old(self)@.clear(now),
    {
        self.ants.clear();
        self.white_blocks.clear();
        self.is_initialised = true;
        self.last_tick = now;
        self.tick_per = DEFAULT_TICK_MS;
        proof {
            lemma_points(self.white_blocks@, (0, 0));
            assert(walkers(self.ants@) =~= Seq::<Walker>::empty());
        }
    }

    /// Seeds the automaton. The bounds of the host's view play no part:
    /// the first walker always starts at the origin.
    pub fn init(&mut self, restart: bool, _bounds: &Region, now: u64)
        ensures
            final(self)@ == old(self)@.init(restart, now),
    {
        if !restart && self.is_initialised {
            return ;
        }
        self.white_blocks.clear();
        self.ants.clear();

        self.ants.push(Ant::new(Cell::new((0, 0)), Direction::Up));

        self.is_initialised = true;
        self.last_tick = now;
        proof {
            lemma_points(self.white_blocks@, (0, 0));
            assert(walkers(self.ants@) =~= seq![Walker { pos: (0, 0), dir: Direction::Up }]);
        }
    }

    /// Puts one more walker at `pos`, facing up. Walkers meet only
    /// through the cells that they flip.
    pub fn add_walker_at(&mut self, pos: Cell)
        ensures
            final(self)@ == old(self)@.add_walker_at(pos@),
    {
        self.ants.push(Ant::new(pos, Direction::Up));
        proof {
            assert(walkers(self.ants@) =~= walkers(old(self).ants@).push(
                Walker { pos: pos@, dir: Direction::Up },
            ));
        }
    }

    /// Whether `adjust_speed` can lengthen the interval once more.
    pub fn can_slow_down(&self) -> (ok: bool)
        ensures
            ok == self@.can_slow_down(),
    {
        self.tick_per <= u64::MAX - SPEED_STEP_MS
    }

    /// Shortens or lengthens the interval between two ticks by
    /// `SPEED_STEP_MS`. It is not shortened to `SPEED_STEP_MS` or less.
    pub fn adjust_speed(&mut self, faster: bool)
        requires
            !faster ==> old(self)@.can_slow_down(),
        ensures
            final(self)@ == old(self)@.adjust_speed(faster),
    {
        if faster {
            if self.tick_per > SPEED_STEP_MS {
                self.tick_per -= SPEED_STEP_MS;
            }
        } else {
            self.tick_per += SPEED_STEP_MS;
        }
    }

    /// What the host's input does: a click puts a walker under the
    /// pointer; the faster key shortens the interval between two ticks
    /// while that is possible, else the slower key lengthens it.
    pub fn handle_input(&mut self, pointer: Cell, clicked: bool, faster_key: bool, slower_key: bool)
        requires
            old(self)@.speed_request(faster_key, slower_key) == Some(false) ==> old(
                self,
            )@.can_slow_down(),
        ensures
            final(self)@ == old(self)@.handle_input(pointer@, clicked, faster_key, slower_key),
    {
        if clicked {
            self.add_walker_at(pointer);
        }
        if faster_key && self.tick_per > SPEED_STEP_MS {
            self.adjust_speed(true);
        } else if slower_key {
            self.adjust_speed(false);
        }
    }

    /// Whether `tick` can move every walker.
    pub fn can_tick(&self) -> (ok: bool)
        ensures
            ok == self@.can_tick(),
    {
        let mut ok = true;
        for i in 0..self.ants.len()
            invariant
                ok == forall|j: int| 0 <= j < i ==> interior(#[trigger] walkers(self.ants@)[j].pos),
        {
            let (x, y) = self.ants[i].pos.pos;
            if !(i64::MIN < x && x < i64::MAX && i64::MIN < y && y < i64::MAX) {
                ok = false;
                assert(!interior(walkers(self.ants@)[i as int].pos));
            }
        }
        ok
    }

    /// Moves every walker once, in the order in which they came, whatever
    /// the clock says.
    pub fn tick(&mut self)
        requires
            old(self)@.can_tick(),
        ensures
            final(self)@ == old(self)@.tick(),
    {
        let ghost start = walkers(self.ants@);
        let ghost cells = points(self.white_blocks@);
        let n = self.ants.len();
        for i in 0..n
            invariant
                n == self.ants.len(),
                start.len() == n,
                self.is_initialised == old(self).is_initialised,
                self.last_tick == old(self).last_tick,
                self.tick_per == old(self).tick_per,
                forall|j: int| 0 <= j < n ==> interior(#[trigger] start[j].pos),
                forall|j: int| i <= j < n ==> self.ants@[j]@ == #[trigger] start[j],
                walkers(self.ants@).take(i as int) == march(start.take(i as int), cells).0,
                points(self.white_blocks@) == march(start.take(i as int), cells).1,
        {
            let mut ant = self.ants[i];
            proof {
                assert(interior(start[i as int].pos));
                assert(start.take(i + 1).drop_last() =~= start.take(i as int));
            }
            if self.white_blocks.remove(&ant.pos.pos) {
                ant.turn_clockwise();
            } else {
                self.white_blocks.insert(ant.pos.pos);
                ant.turn_anticlockwise();
            }
            ant.advance();
            self.ants.set(i, ant);
        }
        proof {
            assert(start.take(n as int) =~= start);
            assert(walkers(self.ants@).take(n as int) =~= walkers(self.ants@));
        }
    }

    /// Whether a tick is due at `now`.
    pub fn is_due(&self, now: u64) -> (fire: bool)
        ensures
            fire == self@.due(now),
    {
        due(self.last_tick, now, self.tick_per)
    }

    /// One rate-limited step: every walker moves once if at least the
    /// interval between two ticks has gone by since the last tick, else
    /// nothing happens.
    pub fn step(&mut self, now: u64)
        requires
            old(self)@.due(now) ==> old(self)@.can_tick(),
        ensures
            final(self)@ == old(self)@.step(now),
    {
        if !self.is_due(now) {
            return ;
        }
        self.tick();
        self.last_tick = now;
    }

    /// The walkers, in the order in which they came.
    pub fn ants(&self) -> (list: Vec<Ant>)
        ensures
            walkers(list@) == self@.ants,
    {
        let mut list: Vec<Ant> = Vec::new();
        for i in 0..self.ants.len()
            invariant
                list@ == self.ants@.take(i as int),
        {
            list.push(self.ants[i]);
        }
        list
    }

    /// How many walkers there are.
    pub fn ant_count(&self) -> (n: usize)
        ensures
            n == self@.ants.len(),
    {
        self.ants.len()
    }

    /// The flipped cells, each once, in the listing order.
    pub fn flipped_cells(&self) -> (list: Vec<Cell>)
        ensures
            views(list@).to_set() == self@.flipped,
            ascending(views(list@)),
    {
        cells_of(&self.white_blocks)
    }

    /// The flipped cells that a host sees through `view`, each once, in
    /// the listing order.
    pub fn visible_flipped_cells(&self, view: &Region) -> (list: Vec<Cell>)
        ensures
            views(list@).to_set() == self@.flipped.filter(|p: (int, int)| view.holds(p)),
            ascending(views(list@)),
    {
        let all = cells_of(&self.white_blocks);
        proof {
            lemma_within_ascending(all@, *view);
        }
        within(&all, view)
    }

    /// The walkers that a host sees through `view`, in the order in which
    /// they came.
    pub fn visible_ants(&self, view: &Region) -> (list: Vec<Ant>)
        ensures
            walkers(list@) == self@.ants.filter(|w: Walker| view.holds(w.pos)),
    {
        let mut list: Vec<Ant> = Vec::new();
        for i in 0..self.ants.len()
            invariant
                list@ == self.ants@.take(i as int).filter(|a: Ant| view.holds(a@.pos)),
        {
            proof {
                assert(self.ants@.take(i + 1).drop_last() =~= self.ants@.take(i as int));
                reveal(Seq::filter);
            }
            if view.contains(&self.ants[i].pos) {
                list.push(self.ants[i]);
            }
        }
        proof {
            assert(self.ants@.take(self.ants@.len() as int) =~= self.ants@);
            lemma_seen_walkers(self.ants@, *view);
        }
        list
    }

    /// Whether the automaton has been seeded or cleared.
    pub fn is_initialised(&self) -> (initialised: bool)
        ensures
            initialised == self@.initialised,
    {
        self.is_initialised
    }

    /// The clock reading at the last tick, seeding or clearing.
    pub fn last_tick(&self) -> (at: u64)
        ensures
            at == self@.last_tick,
    {
        self.last_tick
    }

    /// The shortest time between two ticks, in milliseconds.
    pub fn tick_per(&self) -> (ms: u64)
        ensures
            ms == self@.tick_per,
    {
        self.tick_per
    }

    /// Whether `cell` is flipped.
    pub fn is_flipped(&self, cell: &Cell) -> (flipped: bool)
        ensures
            flipped == self@.flipped.contains(cell@),
    {
        proof {
        }
        self.white_blocks.contains(&cell.pos)
    }
}

/// The time between two ticks stays above zero through every change of
/// the automaton.
pub proof fn law_interval_stays_positive(
    s: AntView,
    now: u64,
    restart: bool,
    p: (int, int),
    faster: bool,
)
    requires
        s.wf(),
        !faster ==> s.can_slow_down(),
    ensures
        AntView::fresh(now).wf(),
        s.clear(now).wf(),
        s.init(restart, now).wf(),
        s.add_walker_at(p).wf(),
        s.adjust_speed(faster).wf(),
        s.tick().wf(),
        s.step(now).wf(),
{
}

/// No move turns a walker round: it faces a quarter turn to the left or
/// to the right of where it faced, and stands one cell ahead in that
/// direction.
pub proof fn law_quarter_turns_only(w: Walker, flipped: Set<(int, int)>)
    ensures
        move_walker(w, flipped).0.dir != w.dir,
        move_walker(w, flipped).0.dir != w.dir.reverse(),
        move_walker(w, flipped).0.pos == move_walker(w, flipped).0.dir.ahead(w.pos),
{
}

/// The first visit of a cell flips it and turns the walker
/// anticlockwise; a visit of a flipped cell unflips it and turns the
/// walker clockwise. Every other cell stays as it was.
pub proof fn law_turn_rule(w: Walker, flipped: Set<(int, int)>, other: (int, int))
    requires
        other != w.pos,
    ensures
        !flipped.contains(w.pos) ==> move_walker(w, flipped).0.dir == w.dir.anticlockwise()
            && move_walker(w, flipped).1.contains(w.pos),
        flipped.contains(w.pos) ==> move_walker(w, flipped).0.dir == w.dir.clockwise()
            && !move_walker(w, flipped).1.contains(w.pos),
        move_walker(w, flipped).1.contains(other) == flipped.contains(other),
{
}

/// One walker alone is moved by one tick as `move_walker` says; with
/// more walkers, the last one finds the cells as the others left them.
pub proof fn law_later_walkers_see_earlier_flips(ants: Seq<Walker>, flipped: Set<(int, int)>)
    requires
        ants.len() > 0,
    ensures
        march(ants, flipped).0.len() == ants.len(),
        march(ants, flipped).0.last() == move_walker(
            ants.last(),
            march(ants.drop_last(), flipped).1,
        ).0,
        march(ants, flipped).1 == move_walker(ants.last(), march(ants.drop_last(), flipped).1).1,
        ants.len() == 1 ==> march(ants, flipped) == (
            seq![move_walker(ants[0], flipped).0],
            move_walker(ants[0], flipped).1,
        ),
    decreases ants.len(),
{
    if ants.len() > 1 {
        law_later_walkers_see_earlier_flips(ants.drop_last(), flipped);
    } else {
        assert(march(ants.drop_last(), flipped) == (ants.drop_last(), flipped));
    }
}

/// Initialising again without asking for a restart changes nothing,
/// whatever the clock.
pub proof fn law_init_idempotent(s: AntView, restart: bool, now: u64, later: u64)
    ensures
        s.init(restart, now).init(false, later) == s.init(restart, now),
        s.clear(now).init(false, later) == s.clear(now),
{
}

/// A second step that comes less than a whole interval after the first
/// leaves the state as the first step left it, unless a tick was not yet
/// due at the first and is due at the second.
pub proof fn law_step_rate_limited(s: AntView, first: u64, second: u64)
    requires
        s.wf(),
        second < first + s.tick_per,
        s.due(first) || !s.due(second),
    ensures
        s.step(first).step(second) == s.step(first),
        !s.due(first) ==> s.step(first) == s,
{
}

} // verus!
