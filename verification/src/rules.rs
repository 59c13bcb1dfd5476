//! The survival and birth rule of the cellular automaton, stated over
//! mathematical points, and the counting facts behind its sparse
//! evaluation.

use vstd::prelude::*;

verus! {

/// 1 for a true condition, 0 for a false one.
pub open spec fn indicator(b: bool) -> nat {
    if b {
        1
    } else {
        0
    }
}

/// The eight positions around `p`: right, left, above, under, then the
/// four diagonals.
pub open spec fn neighbours(p: (int, int)) -> Seq<(int, int)> {
    seq![
        (p.0 + 1, p.1),
        (p.0 - 1, p.1),
        (p.0, p.1 - 1),
        (p.0, p.1 + 1),
        (p.0 + 1, p.1 + 1),
        (p.0 - 1, p.1 + 1),
        (p.0 + 1, p.1 - 1),
        (p.0 - 1, p.1 - 1),
    ]
}

/// Two distinct points that differ by at most one in each coordinate.
pub open spec fn adjacent(a: (int, int), b: (int, int)) -> bool {
    &&& a != b
    &&& -1 <= a.0 - b.0 <= 1
    &&& -1 <= a.1 - b.1 <= 1
}

/// How many of the eight positions around `p` are alive.
pub open spec fn live_neighbours(live: Set<(int, int)>, p: (int, int)) -> nat {
    indicator(live.contains((p.0 + 1, p.1))) + indicator(live.contains((p.0 - 1, p.1)))
        + indicator(live.contains((p.0, p.1 - 1))) + indicator(live.contains((p.0, p.1 + 1)))
        + indicator(live.contains((p.0 + 1, p.1 + 1))) + indicator(
        live.contains((p.0 - 1, p.1 + 1)),
    ) + indicator(live.contains((p.0 + 1, p.1 - 1))) + indicator(
        live.contains((p.0 - 1, p.1 - 1)),
    )
}

/// Whether `p` is alive in the generation after `live`: a live cell
/// survives with two or three live neighbours, a dead one is born with
/// exactly three.
pub open spec fn alive_next(live: Set<(int, int)>, p: (int, int)) -> bool {
    let n = live_neighbours(live, p);
    if live.contains(p) {
        n == 2 || n == 3
    } else {
        n == 3
    }
}

/// The generation after `live`.
pub open spec fn next_generation(live: Set<(int, int)>) -> Set<(int, int)> {
    Set::new(|p: (int, int)| alive_next(live, p))
}

/// How many entries of `cells` are adjacent to `p`.
pub open spec fn tally(cells: Seq<(int, int)>, p: (int, int)) -> nat
    decreases cells.len(),
{
    if cells.len() == 0 {
        0
    } else {
        tally(cells.drop_last(), p) + indicator(adjacent(cells.last(), p))
    }
}

/// Counting the listed cells that touch `p` gives the number of live
/// neighbours of `p`, provided the list names each live cell once.
pub proof fn lemma_tally_counts_live_neighbours(cells: Seq<(int, int)>, p: (int, int))
    requires
        cells.no_duplicates(),
    ensures
        tally(cells, p) == live_neighbours(cells.to_set(), p),
    decreases cells.len(),
{
    if cells.len() > 0 {
        let live = cells.to_set();
        let rest = cells.drop_last();
        let last = cells.last();
        lemma_tally_counts_live_neighbours(rest, p);
        assert forall|q: (int, int)| live.contains(q) == (rest.to_set().contains(q) || q == last) by {
            if live.contains(q) && q != last {
                let i = choose|i: int| 0 <= i < cells.len() && cells[i] == q;
                assert(rest[i] == q);
            }
        }
    }
}

/// No position has more listed neighbours than there are listed cells.
pub proof fn lemma_tally_bound(cells: Seq<(int, int)>, p: (int, int))
    ensures
        tally(cells, p) <= cells.len(),
    decreases cells.len(),
{
    if cells.len() > 0 {
        lemma_tally_bound(cells.drop_last(), p);
    }
}

/// Listing one more cell adds one to the tally of the positions that it
/// touches.
pub proof fn lemma_tally_step(cells: Seq<(int, int)>, i: int, p: (int, int))
    requires
        0 <= i < cells.len(),
    ensures
        tally(cells.take(i + 1), p) == tally(cells.take(i), p) + indicator(adjacent(cells[i], p)),
{
    assert(cells.take(i + 1).drop_last() =~= cells.take(i));
}


/// A live cell with no live neighbour is dead in the next generation;
/// alone on the grid, it leaves nothing alive.
pub proof fn law_lone_cell_dies(live: Set<(int, int)>, p: (int, int))
    requires
        live.contains(p),
        live_neighbours(live, p) == 0,
    ensures
        !next_generation(live).contains(p),
        next_generation(set![p]) == Set::<(int, int)>::empty(),
{
}

/// A dead cell comes alive exactly when three of its neighbours are
/// alive; a live one stays alive exactly with two or three.
pub proof fn law_birth_and_survival(live: Set<(int, int)>, p: (int, int))
    ensures
        !live.contains(p) ==> (next_generation(live).contains(p) <==> live_neighbours(live, p) == 3),
        live.contains(p) ==> (next_generation(live).contains(p) <==> (live_neighbours(live, p) == 2
            || live_neighbours(live, p) == 3)),
{
}

/// The five cells of a glider, laid out from `anchor` towards growing
/// coordinates.
pub open spec fn glider(anchor: (int, int)) -> Set<(int, int)> {
    set![
        (anchor.0, anchor.1),
        (anchor.0 + 2, anchor.1),
        (anchor.0 + 1, anchor.1 + 1),
        (anchor.0 + 1, anchor.1 + 2),
        (anchor.0 + 2, anchor.1 + 1),
    ]
}

/// The five cells of a glider, in the phase that it has `phase`
/// generations after it was laid out from `anchor` (for phases 0 to 3).
pub open spec fn glider_phase(anchor: (int, int), phase: int) -> Set<(int, int)> {
    let (x, y) = anchor;
    if phase == 0 {
        glider(anchor)
    } else if phase == 1 {
        set![(x, y + 1), (x + 1, y + 2), (x + 2, y), (x + 2, y + 1), (x + 2, y + 2)]
    } else if phase == 2 {
        set![(x + 1, y), (x + 1, y + 2), (x + 2, y + 1), (x + 2, y + 2), (x + 3, y + 1)]
    } else {
        set![(x + 1, y + 2), (x + 2, y), (x + 2, y + 2), (x + 3, y + 1), (x + 3, y + 2)]
    }
}

/// A glider that is alone on the grid goes through its four phases, five
/// cells each, and after four generations lies one step further along
/// the diagonal.
pub proof fn law_glider_travels(anchor: (int, int))
    ensures
        next_generation(glider(anchor)) == glider_phase(anchor, 1),
        next_generation(glider_phase(anchor, 1)) == glider_phase(anchor, 2),
        next_generation(glider_phase(anchor, 2)) == glider_phase(anchor, 3),
        next_generation(glider_phase(anchor, 3)) == glider((anchor.0 + 1, anchor.1 + 1)),
        next_generation(next_generation(next_generation(next_generation(glider(anchor))))) == glider(
            (anchor.0 + 1, anchor.1 + 1),
        ),
        forall|k: int| 0 <= k < 4 ==> (#[trigger] glider_phase(anchor, k)).len() == 5,
{
    lemma_glider_step(anchor, 0);
    lemma_glider_step(anchor, 1);
    lemma_glider_step(anchor, 2);
    lemma_glider_step(anchor, 3);
}

/// What lies one generation after a phase of the glider.
spec fn glider_after(anchor: (int, int), phase: int) -> Set<(int, int)> {
    if phase == 3 {
        glider_phase((anchor.0 + 1, anchor.1 + 1), 0)
    } else {
        glider_phase(anchor, phase + 1)
    }
}

#[verifier::rlimit(60)]
#[verifier::spinoff_prover]
proof fn lemma_glider_step(anchor: (int, int), phase: int)
    requires
        0 <= phase < 4,
    ensures
        next_generation(glider_phase(anchor, phase)) == glider_after(anchor, phase),
{
}

} // verus!
