//! Positions on the unbounded square grid.

use vstd::prelude::*;

verus! {

/// A position on the grid, by its coordinates: `x` first, then `y`.
#[derive(Debug, Clone, Copy, PartialEq, Eq, PartialOrd, Ord, Hash)]
pub struct Cell {
    pub pos: (i64, i64),
}

/// The mathematical point that a pair of machine coordinates stands for.
pub open spec fn point(pos: (i64, i64)) -> (int, int) {
    (pos.0 as int, pos.1 as int)
}

/// Whether a mathematical point has machine coordinates.
pub open spec fn representable(p: (int, int)) -> bool {
    &&& i64::MIN <= p.0 <= i64::MAX
    &&& i64::MIN <= p.1 <= i64::MAX
}

/// The machine coordinates of a representable point.
pub open spec fn coords(p: (int, int)) -> (i64, i64)
    recommends
        representable(p),
{
    (p.0 as i64, p.1 as i64)
}

/// Whether every neighbour of a point, in all eight directions, has
/// machine coordinates.
pub open spec fn interior(p: (int, int)) -> bool {
    &&& i64::MIN < p.0 < i64::MAX
    &&& i64::MIN < p.1 < i64::MAX
}

/// The points that a set of machine coordinates stands for.
pub open spec fn points(s: Set<(i64, i64)>) -> Set<(int, int)> {
    Set::new(|p: (int, int)| representable(p) && s.contains(coords(p)))
}

impl View for Cell {
    type V = (int, int);

    open spec fn view(&self) -> (int, int) {
        point(self.pos)
    }
}

impl Cell {
    /// The cell at `pos`.
    pub fn new(pos: (i64, i64)) -> (cell: Cell)
        ensures
            cell.pos == pos,
    {
        Cell { pos }
    }
}

/// `points` commutes with the set operations that the engines use.
pub proof fn lemma_points(s: Set<(i64, i64)>, c: (i64, i64))
    ensures
        points(s).contains(point(c)) == s.contains(c),
        points(s.insert(c)) == points(s).insert(point(c)),
        points(s.remove(c)) == points(s).remove(point(c)),
        points(Set::<(i64, i64)>::empty()) == Set::<(int, int)>::empty(),
        coords(point(c)) == c,
{
}

/// A finite set of coordinates stands for as many points.
pub proof fn lemma_points_len(s: Set<(i64, i64)>)
    requires
        s.finite(),
    ensures
        points(s).finite(),
        points(s).len() == s.len(),
{
    let f = |c: (i64, i64)| point(c);
    assert(s.map(f) =~= points(s));
    vstd::set_lib::lemma_map_size(s, points(s), f);
}

/// The order in which cells are listed: by the first coordinate, then by
/// the second.
pub open spec fn precedes(a: (int, int), b: (int, int)) -> bool {
    a.0 < b.0 || (a.0 == b.0 && a.1 < b.1)
}

/// Whether a list of points runs strictly upwards in the listing order.
/// Such a list names no point twice.
pub open spec fn ascending(list: Seq<(int, int)>) -> bool {
    forall|i: int, j: int| 0 <= i < j < list.len() ==> precedes(#[trigger] list[i], #[trigger] list[j])
}

/// The points that a list of cells stands for, in the same order.
pub open spec fn views(cells: Seq<Cell>) -> Seq<(int, int)> {
    cells.map_values(|c: Cell| c@)
}

} // verus!
