//! The layout of a sheet's rows: which elements stand for the populated
//! cells and for the gaps between them, in the order in which they are
//! written.

use crate::refs::CellRange;
use crate::sheet::{HeaderRegion, Sheet};
use crate::spans::{hidden_at, still_ahead};
use vstd::prelude::*;

verus! {

/// One element of the layout, or one of the tags that bracket rows.
pub enum Item {
    /// The header rows begin.
    HeaderOpen,
    /// The header rows end.
    HeaderClose,
    /// One element for `count` empty rows, the first of them `row`, with one
    /// blank cell that stands for `columns` columns.
    EmptyRows { row: int, count: int, columns: int },
    /// The row `row` begins.
    RowStart { row: int },
    /// One element for `count` blank cells.
    Blank { count: int },
    /// One element for `count` blank cells that lie under a merged cell.
    CoveredBlank { count: int },
    /// The populated cell `index`, under a merged cell or not.
    Cell { index: int, covered: bool },
    /// The row `row` ends.
    RowEnd { row: int },
}

/// The tag that opens the header rows, where they begin at `row`.
pub open spec fn header_open_items(header: HeaderRegion, row: int) -> Seq<Item> {
    if header.spec_row_opens_at(row) {
        seq![Item::HeaderOpen]
    } else {
        Seq::empty()
    }
}

/// The tag that closes the header rows, where they end at `row`.
pub open spec fn header_close_items(header: HeaderRegion, row: int) -> Seq<Item> {
    if header.spec_row_closes_at(row) {
        seq![Item::HeaderClose]
    } else {
        Seq::empty()
    }
}

/// Where a run of empty rows that begins at `from` ends, when the rows up to
/// `to` are empty: before the first header row, after the last header row, or
/// at `to`, whichever comes first.
pub open spec fn run_end(header: HeaderRegion, from: int, to: int) -> int {
    let first = match header.rows {
        Some(r) => if from < r.row && r.row < to {
            r.row as int
        } else {
            to
        },
        None => to,
    };
    match header.rows {
        Some(r) => if from <= r.to_row && r.to_row + 1 < first {
            r.to_row + 1
        } else {
            first
        },
        None => first,
    }
}

/// The elements for the empty rows from `from` up to `to`, `to` left out:
/// as few runs as the header rows allow, each with the header tags that
/// belong before and after it. Each run fills `columns` columns.
pub open spec fn gap_items(header: HeaderRegion, from: int, to: int, columns: int) -> Seq<Item>
    decreases to - from,
{
    if from >= to {
        Seq::empty()
    } else {
        let stop = run_end(header, from, to);
        header_open_items(header, from) + seq![
            Item::EmptyRows { row: from, count: stop - from, columns },
        ] + header_close_items(header, stop - 1) + gap_items(header, stop, to, columns)
    }
}

/// The blank cells after a populated cell: of the `total` cells up to the
/// next populated cell or the last column, the first `run` lie under the
/// merged cell that covers the populated one.
pub open spec fn filler_items(total: int, run: int) -> Seq<Item> {
    let covered = if run < total {
        run
    } else {
        total
    };
    (if covered > 0 {
        seq![Item::CoveredBlank { count: covered }]
    } else {
        Seq::empty()
    }) + (if total - covered > 0 {
        seq![Item::Blank { count: total - covered }]
    } else {
        Seq::empty()
    })
}

impl Sheet {
    /// The merged cells that have been registered when the cell `i` is
    /// reached: those of the cells before it that were still ahead, each
    /// registered by a cell that was not itself covered.
    pub open spec fn spans_before(&self, i: int) -> Seq<CellRange>
        decreases i, 0nat,
    {
        if i <= 0 {
            Seq::empty()
        } else {
            let active = self.active_spans(i - 1);
            let c = self.cells@[i - 1];
            if !hidden_at(active, c.row, c.col).0 && c.content.is_merge() {
                active.push(c.range())
            } else {
                active
            }
        }
    }

    /// The merged cells against which the cell `i` is held: the registered
    /// ones that the cursor has not passed.
    pub open spec fn active_spans(&self, i: int) -> Seq<CellRange>
        decreases i, 1nat,
    {
        if i < 0 {
            Seq::empty()
        } else {
            still_ahead(self.spans_before(i), self.cells@[i].row, self.cells@[i].col)
        }
    }

    /// Whether the cell `i` lies under a merged cell, and for how many columns
    /// after it that merged cell goes on.
    pub open spec fn hidden(&self, i: int) -> (bool, u32) {
        hidden_at(self.active_spans(i), self.cells@[i].row, self.cells@[i].col)
    }

    /// The columns from the cell `i` to the next populated cell of its row,
    /// or to the end of the columns in use.
    pub open spec fn forward(&self, i: int) -> int {
        if self.ends_row(i) {
            self.extent.1 - self.cells@[i].col
        } else {
            self.cells@[i + 1].col - self.cells@[i].col
        }
    }

    /// What is written before the cell `i` where it begins a row: the empty
    /// rows of the gap, the start of the row, and the blank cells before the
    /// cell.
    pub open spec fn block_head(&self, i: int) -> Seq<Item> {
        let c = self.cells@[i];
        if self.starts_row(i) {
            gap_items(self.header, self.gap_start(i), c.row as int, self.extent.1 as int)
                + header_open_items(
                self.header,
                c.row as int,
            ) + seq![Item::RowStart { row: c.row as int }] + (if c.col > 0 {
                seq![Item::Blank { count: c.col as int }]
            } else {
                Seq::empty()
            })
        } else {
            Seq::empty()
        }
    }

    /// The cell `i` itself and the blank cells after it.
    pub open spec fn block_body(&self, i: int) -> Seq<Item> {
        seq![Item::Cell { index: i, covered: self.hidden(i).0 }] + filler_items(
            self.forward(i) - 1,
            self.hidden(i).1 as int,
        )
    }

    /// What is written after the cell `i` where it ends a row.
    pub open spec fn block_tail(&self, i: int) -> Seq<Item> {
        if self.ends_row(i) {
            seq![Item::RowEnd { row: self.cells@[i].row as int }] + header_close_items(
                self.header,
                self.cells@[i].row as int,
            )
        } else {
            Seq::empty()
        }
    }

    /// All that is written for the cell `i`.
    pub open spec fn block(&self, i: int) -> Seq<Item> {
        self.block_head(i) + self.block_body(i) + self.block_tail(i)
    }

    /// The layout of the first `n` populated cells.
    pub open spec fn layout_upto(&self, n: int) -> Seq<Item>
        decreases n,
    {
        if n <= 0 {
            Seq::empty()
        } else {
            self.layout_upto(n - 1) + self.block(n - 1)
        }
    }

    /// The layout of the rows of the sheet. Nothing is written for the rows
    /// after the last populated cell.
    pub open spec fn layout(&self) -> Seq<Item> {
        self.layout_upto(self.cells@.len() as int)
    }
}

} // verus!
