//! What holds of every layout: how many rows and columns it accounts for.

use crate::layout::{filler_items, gap_items, header_close_items, header_open_items, run_end, Item};
use crate::sheet::{HeaderRegion, Sheet};
use vstd::prelude::*;

verus! {

impl Item {
    /// For how many columns a cell element stands; other elements stand for
    /// none.
    pub open spec fn width(self) -> int {
        match self {
            Item::Blank { count } => count,
            Item::CoveredBlank { count } => count,
            Item::Cell { .. } => 1,
            _ => 0,
        }
    }

    /// For how many rows a row element counts: a run of empty rows for its
    /// number of rows, a populated row for one.
    pub open spec fn rows(self) -> int {
        match self {
            Item::EmptyRows { count, .. } => count,
            Item::RowStart { .. } => 1,
            _ => 0,
        }
    }
}

/// The rows that the elements account for: the rows of the runs of empty
/// rows and one for each populated row.
pub open spec fn rows_of(items: Seq<Item>) -> int
    decreases items.len(),
{
    if items.len() == 0 {
        0
    } else {
        rows_of(items.drop_last()) + items.last().rows()
    }
}

/// The columns that are filled in the row that is open after `items`, when
/// `start` columns were filled before them.
pub open spec fn filled_from(start: int, items: Seq<Item>) -> int
    decreases items.len(),
{
    if items.len() == 0 {
        start
    } else if items.last() is RowStart {
        0
    } else {
        filled_from(start, items.drop_last()) + items.last().width()
    }
}

/// Whether every row among `items` fills `columns` columns: each populated
/// row has that many filled when it ends, and each run of empty rows holds
/// one cell for that many.
pub open spec fn rows_full_from(start: int, items: Seq<Item>, columns: int) -> bool
    decreases items.len(),
{
    if items.len() == 0 {
        true
    } else {
        &&& rows_full_from(start, items.drop_last(), columns)
        &&& items.last() is RowEnd ==> filled_from(start, items.drop_last()) == columns
        &&& items.last() matches Item::EmptyRows { columns: c, .. } ==> c == columns
    }
}

/// The rows of two runs of elements add up.
pub proof fn lemma_rows_concat(a: Seq<Item>, b: Seq<Item>)
    ensures
        rows_of(a + b) == rows_of(a) + rows_of(b),
    decreases b.len(),
{
    if b.len() == 0 {
        assert(a + b == a);
    } else {
        lemma_rows_concat(a, b.drop_last());
        assert((a + b).drop_last() == a + b.drop_last());
    }
}

/// The rows of one element, and of none.
pub proof fn lemma_rows_one(item: Item)
    ensures
        rows_of(seq![item]) == item.rows(),
        rows_of(Seq::empty()) == 0,
{
    reveal_with_fuel(rows_of, 2);
    assert(seq![item].drop_last() == Seq::<Item>::empty());
}

/// The columns filled after two runs of elements are those filled after the
/// second, begun where the first ends; and both runs have full rows exactly
/// if each has.
pub proof fn lemma_filled_concat(start: int, a: Seq<Item>, b: Seq<Item>, columns: int)
    ensures
        filled_from(start, a + b) == filled_from(filled_from(start, a), b),
        rows_full_from(start, a + b, columns) == (rows_full_from(start, a, columns)
            && rows_full_from(filled_from(start, a), b, columns)),
    decreases b.len(),
{
    if b.len() == 0 {
        assert(a + b == a);
    } else {
        lemma_filled_concat(start, a, b.drop_last(), columns);
        assert((a + b).drop_last() == a + b.drop_last());
        assert((a + b).last() == b.last());
    }
}

/// The columns filled after one element, and whether it leaves rows full.
pub proof fn lemma_filled_one(start: int, item: Item, columns: int)
    ensures
        filled_from(start, seq![item]) == if item is RowStart {
            0
        } else {
            start + item.width()
        },
        rows_full_from(start, seq![item], columns) == ((item is RowEnd ==> start == columns) && (
        item matches Item::EmptyRows { columns: c, .. } ==> c == columns)),
        filled_from(start, Seq::empty()) == start,
        rows_full_from(start, Seq::empty(), columns),
{
    reveal_with_fuel(filled_from, 2);
    reveal_with_fuel(rows_full_from, 2);
    assert(seq![item].drop_last() == Seq::<Item>::empty());
}

/// The tags around the header rows stand for no row and no column.
pub proof fn lemma_header_items_plain(header: HeaderRegion, row: int, start: int, columns: int)
    ensures
        rows_of(header_open_items(header, row)) == 0,
        rows_of(header_close_items(header, row)) == 0,
        filled_from(start, header_open_items(header, row)) == start,
        filled_from(start, header_close_items(header, row)) == start,
        rows_full_from(start, header_open_items(header, row), columns),
        rows_full_from(start, header_close_items(header, row), columns),
{
    lemma_rows_one(Item::HeaderOpen);
    lemma_rows_one(Item::HeaderClose);
    lemma_filled_one(start, Item::HeaderOpen, columns);
    lemma_filled_one(start, Item::HeaderClose, columns);
}

/// The runs that fill a gap account for each of its rows once, fill no
/// column of an open row, and are full rows themselves.
pub proof fn lemma_gap_counts(header: HeaderRegion, from: int, to: int, columns: int, start: int)
    ensures
        rows_of(gap_items(header, from, to, columns)) == if from < to {
            to - from
        } else {
            0
        },
        filled_from(start, gap_items(header, from, to, columns)) == start,
        rows_full_from(start, gap_items(header, from, to, columns), columns),
    decreases to - from,
{
    if from < to {
        let stop = run_end(header, from, to);
        let open = header_open_items(header, from);
        let run = Item::EmptyRows { row: from, count: stop - from, columns };
        let close = header_close_items(header, stop - 1);
        let rest = gap_items(header, stop, to, columns);
        lemma_gap_counts(header, stop, to, columns, start);
        lemma_header_items_plain(header, from, start, columns);
        lemma_header_items_plain(header, stop - 1, start, columns);
        lemma_rows_one(run);
        lemma_filled_one(start, run, columns);
        lemma_rows_concat(open, seq![run]);
        lemma_rows_concat(open + seq![run], close);
        lemma_rows_concat(open + seq![run] + close, rest);
        lemma_filled_concat(start, open, seq![run], columns);
        lemma_filled_concat(start, open + seq![run], close, columns);
        lemma_filled_concat(start, open + seq![run] + close, rest, columns);
    } else {
        lemma_rows_one(Item::HeaderOpen);
        lemma_filled_one(start, Item::HeaderOpen, columns);
    }
}

/// The blank cells after a populated cell fill as many columns as they
/// stand for, and belong to no other row.
pub proof fn lemma_filler_counts(total: int, run: int, start: int, columns: int)
    requires
        total >= 0,
        run >= 0,
    ensures
        rows_of(filler_items(total, run)) == 0,
        filled_from(start, filler_items(total, run)) == start + total,
        rows_full_from(start, filler_items(total, run), columns),
{
    let covered = if run < total {
        run
    } else {
        total
    };
    let a = if covered > 0 {
        seq![Item::CoveredBlank { count: covered }]
    } else {
        Seq::empty()
    };
    let b = if total - covered > 0 {
        seq![Item::Blank { count: total - covered }]
    } else {
        Seq::empty()
    };
    lemma_rows_one(Item::CoveredBlank { count: covered });
    lemma_rows_one(Item::Blank { count: total - covered });
    lemma_filled_one(start, Item::CoveredBlank { count: covered }, columns);
    lemma_filled_one(start + covered, Item::Blank { count: total - covered }, columns);
    lemma_filled_one(start, Item::Blank { count: total - covered }, columns);
    lemma_rows_concat(a, b);
    lemma_filled_concat(start, a, b, columns);
}

impl Sheet {
    /// The rows that are not written before the cell `i` because the
    /// populated row before it stands for them.
    pub open spec fn absorbed(&self, i: int) -> int {
        if i > 0 && self.starts_row(i) {
            (if self.gap_start(i) < self.cells@[i].row {
                self.gap_start(i)
            } else {
                self.cells@[i].row as int
            }) - (self.cells@[i - 1].row + 1)
        } else {
            0
        }
    }

    /// The rows that are not written before the first `n` cells because
    /// populated rows stand for them.
    pub open spec fn absorbed_upto(&self, n: int) -> int
        decreases n,
    {
        if n <= 0 {
            0
        } else {
            self.absorbed_upto(n - 1) + self.absorbed(n - 1)
        }
    }

    /// Whether the rows in use end with the last populated row.
    pub open spec fn rows_tight(&self) -> bool {
        self.extent.0 == if self.cells@.len() == 0 {
            0
        } else {
            self.cells@[self.cells@.len() - 1].row + 1
        }
    }

    /// What the head of the block of the cell `i` accounts for.
    pub proof fn lemma_head_counts(&self, i: int, start: int)
        requires
            self.wf(),
            0 <= i < self.cells@.len(),
        ensures
            rows_of(self.block_head(i)) + self.absorbed(i) == if i == 0 {
                self.cells@[i].row + 1
            } else {
                self.cells@[i].row - self.cells@[i - 1].row
            },
            self.starts_row(i) ==> filled_from(start, self.block_head(i)) == self.cells@[i].col,
            !self.starts_row(i) ==> filled_from(start, self.block_head(i)) == start,
            rows_full_from(start, self.block_head(i), self.extent.1 as int),
    {
        let c = self.cells@[i];
        let columns = self.extent.1 as int;
        if self.starts_row(i) {
            let gap = gap_items(self.header, self.gap_start(i), c.row as int, columns);
            let open = header_open_items(self.header, c.row as int);
            let begin = Item::RowStart { row: c.row as int };
            let lead = if c.col > 0 {
                seq![Item::Blank { count: c.col as int }]
            } else {
                Seq::empty()
            };
            lemma_gap_counts(self.header, self.gap_start(i), c.row as int, columns, start);
            lemma_header_items_plain(self.header, c.row as int, start, columns);
            lemma_rows_one(begin);
            lemma_rows_one(Item::Blank { count: c.col as int });
            lemma_filled_one(start, begin, columns);
            lemma_filled_one(0, Item::Blank { count: c.col as int }, columns);
            lemma_rows_concat(gap, open);
            lemma_rows_concat(gap + open, seq![begin]);
            lemma_rows_concat(gap + open + seq![begin], lead);
            lemma_filled_concat(start, gap, open, columns);
            lemma_filled_concat(start, gap + open, seq![begin], columns);
            lemma_filled_concat(start, gap + open + seq![begin], lead, columns);
        } else {
            lemma_rows_one(Item::HeaderOpen);
            lemma_filled_one(start, Item::HeaderOpen, columns);
        }
    }

    /// What the cell `i` and the blank cells after it account for.
    pub proof fn lemma_body_counts(&self, i: int, start: int)
        requires
            self.wf(),
            0 <= i < self.cells@.len(),
        ensures
            rows_of(self.block_body(i)) == 0,
            filled_from(start, self.block_body(i)) == start + self.forward(i),
            rows_full_from(start, self.block_body(i), self.extent.1 as int),
            self.forward(i) >= 1,
    {
        let columns = self.extent.1 as int;
        let cell = Item::Cell { index: i, covered: self.hidden(i).0 };
        let fill = filler_items(self.forward(i) - 1, self.hidden(i).1 as int);
        if !self.ends_row(i) {
            assert(self.cells@[i + 1 - 1].before(&self.cells@[i + 1]));
        }
        lemma_filler_counts(self.forward(i) - 1, self.hidden(i).1 as int, start + 1, columns);
        lemma_rows_one(cell);
        lemma_filled_one(start, cell, columns);
        lemma_rows_concat(seq![cell], fill);
        lemma_filled_concat(start, seq![cell], fill, columns);
    }

    /// What the tail of the block of the cell `i` accounts for.
    pub proof fn lemma_tail_counts(&self, i: int, start: int)
        requires
            0 <= i < self.cells@.len(),
        ensures
            rows_of(self.block_tail(i)) == 0,
            rows_full_from(start, self.block_tail(i), self.extent.1 as int) == (self.ends_row(i)
                ==> start == self.extent.1),
    {
        let columns = self.extent.1 as int;
        let end = Item::RowEnd { row: self.cells@[i].row as int };
        let close = header_close_items(self.header, self.cells@[i].row as int);
        lemma_rows_one(end);
        lemma_filled_one(start, end, columns);
        lemma_header_items_plain(self.header, self.cells@[i].row as int, start, columns);
        lemma_rows_concat(seq![end], close);
        lemma_filled_concat(start, seq![end], close, columns);
    }

    /// The layout of the first `n` cells accounts for every row up to the
    /// last of them, but for the rows that populated rows stand for; its
    /// rows are full; and inside a row, the columns up to the next populated
    /// cell are filled.
    pub proof fn lemma_layout_counts(&self, n: int)
        requires
            self.wf(),
            0 <= n <= self.cells@.len(),
        ensures
            rows_of(self.layout_upto(n)) + self.absorbed_upto(n) == if n == 0 {
                0
            } else {
                self.cells@[n - 1].row + 1
            },
            rows_full_from(0, self.layout_upto(n), self.extent.1 as int),
            0 < n < self.cells@.len() && !self.starts_row(n) ==> filled_from(
                0,
                self.layout_upto(n),
            ) == self.cells@[n].col,
        decreases n,
    {
        let columns = self.extent.1 as int;
        if n > 0 {
            let i = n - 1;
            self.lemma_layout_counts(i);
            let before = self.layout_upto(i);
            let head = self.block_head(i);
            let body = self.block_body(i);
            let tail = self.block_tail(i);
            let s0 = filled_from(0, before);
            self.lemma_head_counts(i, s0);
            let s1 = filled_from(s0, head);
            self.lemma_body_counts(i, s1);
            let s2 = s1 + self.forward(i);
            self.lemma_tail_counts(i, s2);
            lemma_rows_concat(head, body);
            lemma_rows_concat(head + body, tail);
            lemma_rows_concat(before, head + body + tail);
            lemma_filled_concat(s0, head, body, columns);
            lemma_filled_concat(s0, head + body, tail, columns);
            lemma_filled_concat(0, before, head + body + tail, columns);
            assert(s1 == self.cells@[i].col);
            assert(self.layout_upto(n) == before + (head + body + tail));
            if n < self.cells@.len() && !self.starts_row(n) {
                // the tail is empty, and the next cell is in the same row
                lemma_filled_one(s2, Item::HeaderOpen, columns);
                assert(tail == Seq::<Item>::empty());
            }
        } else {
            lemma_rows_one(Item::HeaderOpen);
            lemma_filled_one(0, Item::HeaderOpen, columns);
        }
    }

    /// Row coverage. The runs of empty rows and the populated rows of the
    /// layout together account for every row up to the last populated one,
    /// but for the rows that are left out because a populated row stands for
    /// them.
    pub proof fn lemma_row_coverage(&self)
        requires
            self.wf(),
        ensures
            rows_of(self.layout()) + self.absorbed_upto(self.cells@.len() as int) == if
                self.cells@.len() == 0 {
                0
            } else {
                self.cells@[self.cells@.len() - 1].row + 1
            },
            self.rows_tight() && self.absorbed_upto(self.cells@.len() as int) == 0 ==> rows_of(
                self.layout(),
            ) == self.extent.0,
    {
        self.lemma_layout_counts(self.cells@.len() as int);
    }

    /// Column coverage. In every row of the layout the cells stand for as
    /// many columns as are in use: a populated row has that many filled when
    /// it ends, and a run of empty rows holds one cell for that many.
    pub proof fn lemma_column_coverage(&self)
        requires
            self.wf(),
        ensures
            rows_full_from(0, self.layout(), self.extent.1 as int),
    {
        self.lemma_layout_counts(self.cells@.len() as int);
    }
}

} // verus!
