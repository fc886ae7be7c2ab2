//! Which cells are written as covered by a merged cell.

use crate::laws::{filled_from, lemma_filled_concat, lemma_filled_one};
use crate::layout::Item;
use crate::refs::CellRange;
use crate::sheet::Sheet;
use crate::spans::{
    lemma_hidden_iff_covered, lemma_hidden_witness, lemma_still_ahead_contains, overlaps_any,
};
use vstd::prelude::*;

verus! {

/// Whether any two rectangles of `ranges` that differ have no cell in
/// common.
pub open spec fn apart(ranges: Seq<CellRange>) -> bool {
    forall|a: int, b: int|
        0 <= a < ranges.len() && 0 <= b < ranges.len() ==> (#[trigger] ranges[a]) == (
        #[trigger] ranges[b]) || !ranges[a].spec_overlaps(&ranges[b])
}

impl Item {
    /// Whether this element, written from the column `at` on, writes the
    /// column `col` as a covered cell.
    pub open spec fn covers(self, at: int, col: int) -> bool {
        match self {
            Item::CoveredBlank { count } => at <= col < at + count,
            Item::Cell { covered, .. } => covered && col == at,
            _ => false,
        }
    }
}

impl Sheet {
    /// How many of the blank cells after the cell `i` are written as covered.
    pub open spec fn covered_run(&self, i: int) -> int {
        if self.hidden(i).1 < self.forward(i) - 1 {
            self.hidden(i).1 as int
        } else {
            self.forward(i) - 1
        }
    }

    /// Whether the position `(row, col)` is written with the cell `i`: as the
    /// cell itself or as one of the blank cells after it.
    pub open spec fn writes_with(&self, i: int, row: int, col: int) -> bool {
        self.cells@[i].row == row && self.cells@[i].col <= col < self.cells@[i].col
            + self.forward(i)
    }

    /// Whether the position `(row, col)` is written as covered with the cell
    /// `i`: as the cell itself, where it is hidden, or as one of the covered
    /// blank cells after it.
    pub open spec fn covers_with(&self, i: int, row: int, col: int) -> bool {
        self.cells@[i].row == row && ((self.cells@[i].col == col && self.hidden(i).0) || (
        self.cells@[i].col < col <= self.cells@[i].col + self.covered_run(i)))
    }

    /// The columns that are written as covered with the cell `i` are those
    /// that an element of its block writes as covered, each element taken at
    /// the column at which it begins.
    pub proof fn lemma_covers_with_items(&self, i: int, col: int)
        requires
            self.wf(),
            0 <= i < self.cells@.len(),
        ensures
            self.covers_with(i, self.cells@[i].row as int, col) <==> exists|k: int|
                0 <= k < self.block_body(i).len() && (#[trigger] self.block_body(i)[k]).covers(
                    filled_from(self.cells@[i].col as int, self.block_body(i).take(k)),
                    col,
                ),
    {
        let body = self.block_body(i);
        let at = self.cells@[i].col as int;
        let total = self.forward(i) - 1;
        let run = self.covered_run(i);
        let cell = Item::Cell { index: i, covered: self.hidden(i).0 };
        if !self.ends_row(i) {
            assert(self.cells@[i + 1 - 1].before(&self.cells@[i + 1]));
        }
        assert(body[0] == cell);
        assert(body.take(0) == Seq::<Item>::empty());
        lemma_filled_one(at, cell, 0);
        assert(body.take(1) == seq![cell]);
        if run > 0 {
            assert(body[1] == Item::CoveredBlank { count: run });
            lemma_filled_one(at + 1, Item::CoveredBlank { count: run }, 0);
            assert(body.take(2) == seq![cell] + seq![Item::CoveredBlank { count: run }]);
            lemma_filled_concat(at, seq![cell], seq![Item::CoveredBlank { count: run }], 0);
        }
        if self.covers_with(i, self.cells@[i].row as int, col) {
            if col == at {
                assert(body[0].covers(filled_from(at, body.take(0)), col));
            } else {
                assert(body[1].covers(filled_from(at, body.take(1)), col));
            }
        }
        assert forall|k: int|
            0 <= k < body.len() && (#[trigger] body[k]).covers(
                filled_from(at, body.take(k)),
                col,
            ) implies self.covers_with(i, self.cells@[i].row as int, col) by {
            if k == 0 {
            } else if k == 1 {
            } else {
                assert(body[k] == Item::Blank { count: total - run });
            }
        }
    }

    /// Whether the position `(row, col)` is written as a covered cell.
    pub open spec fn covered_at(&self, row: int, col: int) -> bool {
        exists|i: int| 0 <= i < self.cells@.len() && self.covers_with(i, row, col)
    }

    /// Whether the position `(row, col)` is populated.
    pub open spec fn populated(&self, row: int, col: int) -> bool {
        exists|i: int|
            0 <= i < self.cells@.len() && (#[trigger] self.cells@[i]).row == row
                && self.cells@[i].col == col
    }

    /// Whether each row of the merged cell `j` begins with a populated cell:
    /// in the rows below its own, the cell in its first column; in its own
    /// row, the cell after it.
    pub open spec fn span_rows_led(&self, j: int) -> bool {
        let s = self.cells@[j].range();
        &&& forall|r: int| s.row < r <= s.to_row ==> #[trigger] self.populated(r, s.col as int)
        &&& s.col < s.to_col ==> self.populated(s.row as int, s.col + 1)
    }

    /// Of two cells, the one that comes before the other on the grid is the
    /// earlier one.
    pub proof fn lemma_order_index(&self, a: int, b: int)
        requires
            self.wf(),
            0 <= a < self.cells@.len(),
            0 <= b < self.cells@.len(),
            self.cells@[a].before(&self.cells@[b]),
        ensures
            a < b,
    {
        if b <= a {
            self.lemma_rows_ascend(b, a);
        }
    }

    /// Each position is written with one cell at most: none is written
    /// twice.
    pub proof fn lemma_written_once(&self, a: int, b: int, row: int, col: int)
        requires
            self.wf(),
            0 <= a < self.cells@.len(),
            0 <= b < self.cells@.len(),
            self.writes_with(a, row, col),
            self.writes_with(b, row, col),
        ensures
            a == b,
    {
        if a < b {
            self.lemma_rows_ascend(a + 1, b);
            self.lemma_rows_ascend(a, a + 1);
            if a + 1 < b {
                self.lemma_rows_ascend(a + 1, b);
            }
        } else if b < a {
            self.lemma_rows_ascend(b + 1, a);
            self.lemma_rows_ascend(b, b + 1);
        }
    }

    /// The populated cell of the row `row` that lies nearest to the column
    /// `col` at or before it, found from a populated cell `from` of the row
    /// that lies at or before `col`.
    pub proof fn lemma_nearest_left(&self, from: int, row: int, col: int) -> (k: int)
        requires
            self.wf(),
            0 <= from < self.cells@.len(),
            self.cells@[from].row == row,
            self.cells@[from].col <= col,
        ensures
            from <= k < self.cells@.len(),
            self.cells@[k].row == row,
            self.cells@[from].col <= self.cells@[k].col <= col,
            self.ends_row(k) || self.cells@[k + 1].col > col,
        decreases self.cells@.len() - from,
    {
        if self.ends_row(from) || self.cells@[from + 1].col > col {
            from
        } else {
            self.lemma_rows_ascend(from, from + 1);
            self.lemma_nearest_left(from + 1, row, col)
        }
    }

    /// The merged cells that are held at any time have no cells in common.
    pub proof fn lemma_spans_apart(&self, m: int)
        requires
            self.wf(),
            0 <= m <= self.cells@.len(),
        ensures
            apart(self.spans_before(m)),
            m < self.cells@.len() ==> apart(self.active_spans(m)),
        decreases m,
    {
        if m > 0 {
            self.lemma_spans_apart(m - 1);
            let active = self.active_spans(m - 1);
            let c = self.cells@[m - 1];
            if self.registers(m - 1) {
                let new = c.range();
                let all = active.push(new);
                assert(!overlaps_any(active, new));
                assert forall|a: int, b: int| 0 <= a < all.len() && 0 <= b < all.len() implies (
                #[trigger] all[a]) == (#[trigger] all[b]) || !all[a].spec_overlaps(&all[b]) by {
                    if a < active.len() && b < active.len() {
                        assert(all[a] == active[a] && all[b] == active[b]);
                    } else if a < active.len() {
                        assert(active[a].spec_overlaps(&new) == new.spec_overlaps(&active[a]));
                    } else if b < active.len() {
                        assert(active[b].spec_overlaps(&new) == new.spec_overlaps(&active[b]));
                    }
                }
            }
        }
        if m < self.cells@.len() {
            let before = self.spans_before(m);
            let active = self.active_spans(m);
            let row = self.cells@[m].row;
            let col = self.cells@[m].col;
            assert forall|a: int, b: int| 0 <= a < active.len() && 0 <= b < active.len() implies (
            #[trigger] active[a]) == (#[trigger] active[b]) || !active[a].spec_overlaps(
                &active[b],
            ) by {
                lemma_still_ahead_contains(before, row, col, active[a]);
                lemma_still_ahead_contains(before, row, col, active[b]);
                assert(active.contains(active[a]));
                assert(active.contains(active[b]));
                let x = choose|x: int| 0 <= x < before.len() && before[x] == active[a];
                let y = choose|y: int| 0 <= y < before.len() && before[y] == active[b];
                assert(before[x] == before[y] || !before[x].spec_overlaps(&before[y]));
            }
        }
    }

    /// A merged cell is held from the cell after it on, as long as the
    /// cursor has not passed it.
    pub proof fn lemma_span_held(&self, j: int, m: int)
        requires
            self.wf(),
            0 <= j < m < self.cells@.len(),
            self.registers(j),
            !self.cells@[j].range().spec_out_looped(self.cells@[m].row, self.cells@[m].col),
        ensures
            self.active_spans(m).contains(self.cells@[j].range()),
        decreases m,
    {
        let s = self.cells@[j].range();
        let before = self.spans_before(m);
        if m == j + 1 {
            let active = self.active_spans(j);
            assert(before == active.push(s));
            assert(before[before.len() - 1] == s);
        } else {
            self.lemma_rows_ascend(m - 1, m);
            self.lemma_span_held(j, m - 1);
            let active = self.active_spans(m - 1);
            let x = choose|x: int| 0 <= x < active.len() && active[x] == s;
            assert(before[x] == s);
        }
        lemma_still_ahead_contains(before, self.cells@[m].row, self.cells@[m].col, s);
    }

    /// Span exclusivity. Take a merged cell that is not itself covered,
    /// whose span ends within the columns in use and each of whose rows
    /// begins with a populated cell. Then every position of its span but its
    /// own is written as a covered cell, and its own is not. With
    /// `lemma_written_once`, these are exactly the positions of the span but
    /// one, each written once.
    pub proof fn lemma_span_exclusive(&self, j: int, row: int, col: int)
        requires
            self.wf(),
            0 <= j < self.cells@.len(),
            self.registers(j),
            self.cells@[j].range().to_col < self.extent.1,
            self.span_rows_led(j),
            0 <= row <= u32::MAX,
            0 <= col <= u32::MAX,
            self.cells@[j].range().spec_contains(row as u32, col as u32),
        ensures
            (row != self.cells@[j].row || col != self.cells@[j].col) ==> self.covered_at(row, col),
            !self.covered_at(self.cells@[j].row as int, self.cells@[j].col as int),
    {
        let origin = self.cells@[j];
        let s = origin.range();
        // the origin is written as a cell of its own
        assert forall|i: int| 0 <= i < self.cells@.len() implies !self.covers_with(
            i,
            origin.row as int,
            origin.col as int,
        ) by {
            if self.covers_with(i, origin.row as int, origin.col as int) {
                if !self.ends_row(i) {
                    assert(self.cells@[i + 1 - 1].before(&self.cells@[i + 1]));
                }
                assert(self.writes_with(i, origin.row as int, origin.col as int));
                if !self.ends_row(j) {
                    assert(self.cells@[j + 1 - 1].before(&self.cells@[j + 1]));
                }
                assert(self.writes_with(j, origin.row as int, origin.col as int));
                self.lemma_written_once(i, j, origin.row as int, origin.col as int);
            }
        }
        if row != origin.row || col != origin.col {
            // the populated cell with which the row of the span begins
            let lead_col = if row == origin.row {
                origin.col + 1
            } else {
                origin.col as int
            };
            assert(self.populated(row, lead_col));
            let first = choose|i: int|
                0 <= i < self.cells@.len() && (#[trigger] self.cells@[i]).row == row
                    && self.cells@[i].col == lead_col;
            let k = self.lemma_nearest_left(first, row, col);
            let c = self.cells@[k];
            assert(origin.before(&c));
            self.lemma_order_index(j, k);
            self.lemma_span_held(j, k);
            self.lemma_spans_apart(k);
            let active = self.active_spans(k);
            let at = choose|x: int| 0 <= x < active.len() && active[x] == s;
            assert(active[at].spec_contains(c.row, c.col));
            lemma_hidden_iff_covered(active, c.row, c.col);
            let found = lemma_hidden_witness(active, c.row, c.col);
            assert(active[found].spec_overlaps(&active[at]));
            assert(active[found] == s);
            assert(self.covers_with(k, row, col));
        }
    }
}

} // verus!
