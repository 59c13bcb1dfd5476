//! Listing a sparse set of coordinates for a host to draw, always in the
//! same order.

use std::collections::BTreeSet;
use vstd::prelude::*;
use vstd::std_specs::cmp::OrdSpec;
use vstd::std_specs::iter::IteratorSpec;
use crate::cell::Cell;
use crate::cell::ascending;
use crate::cell::points;
use crate::cell::precedes;
use crate::cell::views;
use crate::region::Region;

verus! {

/// The listing order on machine coordinates.
spec fn before(a: (i64, i64), b: (i64, i64)) -> bool {
    a.0 < b.0 || (a.0 == b.0 && a.1 < b.1)
}

/// The coordinates of a set, each once, from the least to the greatest.
fn in_order(set: &BTreeSet<(i64, i64)>) -> (list: Vec<(i64, i64)>)
    ensures
        list@.to_set() == set@,
        list@.len() == set@.len(),
        forall|i: int, j: int| 0 <= i < j < list@.len() ==> before(#[trigger] list@[i], #[trigger] list@[j]),
{
    let mut list: Vec<(i64, i64)> = Vec::new();
    for c in it: set.iter()
        invariant
            list@ == it.seq().unref().take(it.index()),
            it.seq() == set.iter().remaining(),
    {
        list.push(*c);
    }
    proof {
        let all = set.iter().remaining();
        assert(list@ == all.unref());
        assert forall|i: int, j: int| 0 <= i < j < list@.len() implies before(
            #[trigger] list@[i],
            #[trigger] list@[j],
        ) by {
            assert(OrdSpec::cmp_spec(&all[i], &all[j]) is Less);
        }
    }
    list
}

/// The cells of a set, each once, in the listing order.
pub(crate) fn cells_of(set: &BTreeSet<(i64, i64)>) -> (list: Vec<Cell>)
    ensures
        views(list@).to_set() == points(set@),
        ascending(views(list@)),
        list@.len() == set@.len(),
        forall|i: int| 0 <= i < list@.len() ==> set@.contains(#[trigger] list@[i].pos),
{
    let coords = in_order(set);
    let mut list: Vec<Cell> = Vec::new();
    for i in 0..coords.len()
        invariant
            list@.len() == i,
            forall|j: int| 0 <= j < i ==> (#[trigger] list@[j]).pos == coords@[j],
    {
        list.push(Cell { pos: coords[i] });
    }
    proof {
        let pts = views(list@);
        assert forall|p: (int, int)| pts.to_set().contains(p) == points(set@).contains(p) by {
            if points(set@).contains(p) {
                let c = crate::cell::coords(p);
                let i = choose|i: int| 0 <= i < coords@.len() && coords@[i] == c;
                assert(pts[i] == p);
            }
        }
    }
    list
}

/// The test that keeps the cells of a region.
pub open spec fn inside(region: Region) -> spec_fn(Cell) -> bool {
    |c: Cell| region.holds(c@)
}

/// The listed cells that lie inside a region, in the order of the list.
pub fn within(cells: &Vec<Cell>, region: &Region) -> (seen: Vec<Cell>)
    ensures
        seen@ == cells@.filter(inside(*region)),
{
    let mut seen: Vec<Cell> = Vec::new();
    for i in 0..cells.len()
        invariant
            seen@ == cells@.take(i as int).filter(inside(*region)),
    {
        proof {
            assert(cells@.take(i + 1).drop_last() =~= cells@.take(i as int));
            reveal(Seq::filter);
        }
        if region.contains(&cells[i]) {
            seen.push(cells[i]);
        }
    }
    assert(cells@.take(cells@.len() as int) =~= cells@);
    seen
}

/// Keeping the cells of a region keeps the order of an ascending list,
/// and keeps exactly the listed points that the region holds.
pub proof fn lemma_within_ascending(cells: Seq<Cell>, region: Region)
    requires
        ascending(views(cells)),
    ensures
        ascending(views(cells.filter(inside(region)))),
        views(cells.filter(inside(region))).to_set() == views(cells).to_set().filter(
            |p: (int, int)| region.holds(p),
        ),
        forall|k: int|
            0 <= k < cells.filter(inside(region)).len() ==> exists|j: int|
                0 <= j < cells.len() && cells[j] == #[trigger] cells.filter(inside(region))[k],
    decreases cells.len(),
{
    reveal(Seq::filter);
    let kept = cells.filter(inside(region));
    let want = views(cells).to_set().filter(|p: (int, int)| region.holds(p));
    if cells.len() > 0 {
        let rest = cells.drop_last();
        let sub = rest.filter(inside(region));
        assert(ascending(views(rest))) by {
            assert forall|i: int, j: int| 0 <= i < j < views(rest).len() implies precedes(
                #[trigger] views(rest)[i],
                #[trigger] views(rest)[j],
            ) by {
                assert(precedes(views(cells)[i], views(cells)[j]));
            }
        }
        lemma_within_ascending(rest, region);
        assert forall|i: int, j: int| 0 <= i < j < views(kept).len() implies precedes(
            #[trigger] views(kept)[i],
            #[trigger] views(kept)[j],
        ) by {
            if j < sub.len() {
                assert(precedes(views(sub)[i], views(sub)[j]));
            } else {
                let m = choose|m: int| 0 <= m < rest.len() && rest[m] == sub[i];
                assert(precedes(views(cells)[m], views(cells)[cells.len() - 1]));
            }
        }
        assert forall|p: (int, int)| views(kept).to_set().contains(p) == want.contains(p) by {
            let sub_want = views(rest).to_set().filter(|p: (int, int)| region.holds(p));
            assert(views(sub).to_set().contains(p) == sub_want.contains(p));
            if views(kept).to_set().contains(p) {
                let k = choose|k: int| 0 <= k < views(kept).len() && views(kept)[k] == p;
                if k < sub.len() {
                    assert(views(sub)[k] == p);
                    let m = choose|m: int| 0 <= m < views(rest).len() && views(rest)[m] == p;
                    assert(views(cells)[m] == p);
                } else {
                    assert(views(cells)[cells.len() - 1] == p);
                }
            }
            if want.contains(p) {
                let m = choose|m: int| 0 <= m < views(cells).len() && views(cells)[m] == p;
                if m < rest.len() {
                    assert(views(rest)[m] == p);
                    let k = choose|k: int| 0 <= k < views(sub).len() && views(sub)[k] == p;
                    assert(views(kept)[k] == p);
                } else {
                    assert(views(kept)[kept.len() - 1] == p);
                }
            }
        }
    }
}

} // verus!
