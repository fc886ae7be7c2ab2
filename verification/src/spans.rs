//! The merged-cell rectangles that are still ahead of the cursor, and the
//! question whether a cell lies under one of them.

use crate::refs::CellRange;
use vstd::prelude::*;

verus! {

/// Whether some rectangle of `ranges` holds the cell at `(row, col)`.
pub open spec fn covered_by(ranges: Seq<CellRange>, row: u32, col: u32) -> bool {
    exists|i: int| 0 <= i < ranges.len() && (#[trigger] ranges[i]).spec_contains(row, col)
}

/// Whether some rectangle of `ranges` has a cell in common with `range`.
pub open spec fn overlaps_any(ranges: Seq<CellRange>, range: CellRange) -> bool {
    exists|i: int| 0 <= i < ranges.len() && (#[trigger] ranges[i]).spec_overlaps(&range)
}

/// The answer for the cell at `(row, col)`: whether a rectangle of `ranges`
/// holds it, and how many columns after `col` the first such rectangle still
/// covers in that row. Where none holds it, the count is 0.
pub open spec fn hidden_at(ranges: Seq<CellRange>, row: u32, col: u32) -> (bool, u32)
    decreases ranges.len(),
{
    if ranges.len() == 0 {
        (false, 0)
    } else if ranges[0].spec_contains(row, col) {
        (true, (ranges[0].to_col - col) as u32)
    } else {
        hidden_at(ranges.drop_first(), row, col)
    }
}

/// The rectangles of `ranges` that are not yet passed at `(row, col)`, in
/// their order.
pub open spec fn still_ahead(ranges: Seq<CellRange>, row: u32, col: u32) -> Seq<CellRange> {
    ranges.filter(|s: CellRange| !s.spec_out_looped(row, col))
}

/// The cell is reported hidden exactly when some rectangle holds it.
pub proof fn lemma_hidden_iff_covered(ranges: Seq<CellRange>, row: u32, col: u32)
    ensures
        hidden_at(ranges, row, col).0 == covered_by(ranges, row, col),
        !covered_by(ranges, row, col) ==> hidden_at(ranges, row, col).1 == 0,
    decreases ranges.len(),
{
    if ranges.len() == 0 {
    } else if ranges[0].spec_contains(row, col) {
    } else {
        let rest = ranges.drop_first();
        lemma_hidden_iff_covered(rest, row, col);
        if covered_by(rest, row, col) {
            let i = choose|i: int|
                0 <= i < rest.len() && (#[trigger] rest[i]).spec_contains(row, col);
            assert(ranges[i + 1] == rest[i]);
        }
        if covered_by(ranges, row, col) {
            let i = choose|i: int|
                0 <= i < ranges.len() && (#[trigger] ranges[i]).spec_contains(row, col);
            assert(rest[i - 1] == ranges[i]);
        }
    }
}

/// Is the cell hidden, and if so, how many more columns are hit.
pub fn check_hidden(ranges: &Vec<CellRange>, row: u32, col: u32) -> (r: (bool, u32))
    ensures
        r == hidden_at(ranges@, row, col),
        r.0 == covered_by(ranges@, row, col),
{
    proof {
        lemma_hidden_iff_covered(ranges@, row, col);
    }
    let mut i: usize = 0;
    assert(ranges@.skip(0) == ranges@);
    while i < ranges.len()
        invariant
            i <= ranges.len(),
            hidden_at(ranges@, row, col) == hidden_at(ranges@.skip(i as int), row, col),
        decreases ranges.len() - i,
    {
        let found = &ranges[i];
        proof {
            let rest = ranges@.skip(i as int);
            assert(rest[0] == ranges@[i as int]);
            assert(rest.drop_first() == ranges@.skip(i + 1));
        }
        if found.contains(row, col) {
            return (true, found.to_col - col);
        }
        i += 1;
    }
    (false, 0)
}

/// Removes the rectangles that the cursor has passed at `(row, col)`.
pub fn remove_outlooped(ranges: &mut Vec<CellRange>, row: u32, col: u32)
    ensures
        final(ranges)@ == still_ahead(old(ranges)@, row, col),
{
    let mut kept: Vec<CellRange> = Vec::new();
    let mut i: usize = 0;
    while i < ranges.len()
        invariant
            i <= ranges.len(),
            ranges@ == old(ranges)@,
            kept@ == still_ahead(ranges@.take(i as int), row, col),
        decreases ranges.len() - i,
    {
        let s = ranges[i];
        proof {
            let next = ranges@.take(i + 1);
            assert(next.drop_last() == ranges@.take(i as int));
            assert(next.last() == s);
            reveal_with_fuel(Seq::filter, 2);
        }
        if !s.out_looped(row, col) {
            kept.push(s);
        }
        i += 1;
    }
    assert(ranges@.take(ranges@.len() as int) == ranges@);
    *ranges = kept;
}

/// The rectangles that are still ahead are those of `ranges` that the
/// cursor has not passed.
pub proof fn lemma_still_ahead_contains(ranges: Seq<CellRange>, row: u32, col: u32, x: CellRange)
    ensures
        still_ahead(ranges, row, col).contains(x) <==> (ranges.contains(x) && !x.spec_out_looped(
            row,
            col,
        )),
    decreases ranges.len(),
{
    reveal(Seq::filter);
    let kept = still_ahead(ranges, row, col);
    if ranges.len() > 0 {
        let init = ranges.drop_last();
        let last = ranges.last();
        let before = still_ahead(init, row, col);
        lemma_still_ahead_contains(init, row, col, x);
        if kept.contains(x) {
            let k = choose|k: int| 0 <= k < kept.len() && kept[k] == x;
            if !last.spec_out_looped(row, col) && k == kept.len() - 1 {
                assert(ranges[ranges.len() - 1] == x);
            } else {
                assert(before[k] == x);
                let j = choose|j: int| 0 <= j < init.len() && init[j] == x;
                assert(ranges[j] == x);
            }
        }
        if ranges.contains(x) && !x.spec_out_looped(row, col) {
            let j = choose|j: int| 0 <= j < ranges.len() && ranges[j] == x;
            if j == ranges.len() - 1 {
                assert(kept[kept.len() - 1] == x);
            } else {
                assert(init[j] == x);
                let k = choose|k: int| 0 <= k < before.len() && before[k] == x;
                assert(kept[k] == x);
            }
        }
    }
}

/// Where a cell is hidden, the count is taken from a rectangle that holds
/// the cell.
pub proof fn lemma_hidden_witness(ranges: Seq<CellRange>, row: u32, col: u32) -> (found: int)
    requires
        hidden_at(ranges, row, col).0,
    ensures
        0 <= found < ranges.len(),
        ranges[found].spec_contains(row, col),
        hidden_at(ranges, row, col).1 == ranges[found].to_col - col,
    decreases ranges.len(),
{
    if ranges[0].spec_contains(row, col) {
        0
    } else {
        let rest = ranges.drop_first();
        let f = lemma_hidden_witness(rest, row, col);
        assert(rest[f] == ranges[f + 1]);
        f + 1
    }
}

/// Whether a rectangle of `ranges` has a cell in common with `range`.
pub fn check_overlap(ranges: &Vec<CellRange>, range: &CellRange) -> (b: bool)
    ensures
        b == overlaps_any(ranges@, *range),
{
    let mut i: usize = 0;
    while i < ranges.len()
        invariant
            i <= ranges.len(),
            forall|j: int| 0 <= j < i ==> !(#[trigger] ranges@[j]).spec_overlaps(range),
        decreases ranges.len() - i,
    {
        if ranges[i].overlaps(range) {
            return true;
        }
        i += 1;
    }
    false
}

/// The span tracker: the merged cells that the cursor has not passed, in
/// the order in which they were registered.
#[derive(Debug)]
pub struct SpanTracker {
    ranges: Vec<CellRange>,
}

impl View for SpanTracker {
    type V = Seq<CellRange>;

    closed spec fn view(&self) -> Seq<CellRange> {
        self.ranges@
    }
}

impl SpanTracker {
    /// A tracker that holds no merged cell.
    pub fn new() -> (t: SpanTracker)
        ensures
            t@ == Seq::<CellRange>::empty(),
    {
        SpanTracker { ranges: Vec::new() }
    }

    /// Takes up the rectangle of a merged cell.
    pub fn register(&mut self, range: CellRange)
        ensures
            final(self)@ == old(self)@.push(range),
    {
        self.ranges.push(range);
    }

    /// Drops the rectangles that the cursor has passed at `(row, col)`.
    pub fn prune(&mut self, row: u32, col: u32)
        ensures
            final(self)@ == still_ahead(old(self)@, row, col),
    {
        remove_outlooped(&mut self.ranges, row, col);
    }

    /// Whether the cell at `(row, col)` lies under a merged cell, and for how
    /// many columns after it the first merged cell that holds it goes on.
    pub fn query(&self, row: u32, col: u32) -> (r: (bool, u32))
        ensures
            r == hidden_at(self@, row, col),
            r.0 == covered_by(self@, row, col),
    {
        check_hidden(&self.ranges, row, col)
    }

    /// Whether a merged cell that is held has a cell in common with `range`.
    pub fn overlaps(&self, range: &CellRange) -> (b: bool)
        ensures
            b == overlaps_any(self@, *range),
    {
        check_overlap(&self.ranges, range)
    }
}

} // verus!
