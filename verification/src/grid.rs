//! The sparse grid of a sheet: finding, setting and taking out cells while
//! the cells stay in the order of the grid.

use crate::sheet::{CellContent, GridCell, Sheet};
use vstd::prelude::*;

verus! {

impl GridCell {
    /// Whether this cell comes before the position `(row, col)` when the
    /// grid is walked row by row.
    pub open spec fn lies_before(&self, row: u32, col: u32) -> bool {
        self.row < row || (self.row == row && self.col < col)
    }

    /// Whether this cell is the cell at `(row, col)`.
    pub open spec fn lies_at(&self, row: u32, col: u32) -> bool {
        self.row == row && self.col == col
    }
}

/// One more than `n`, as far as a number can be one more.
pub open spec fn next_up(n: u32) -> u32 {
    if n < u32::MAX {
        (n + 1) as u32
    } else {
        u32::MAX
    }
}

/// The greater of two numbers.
pub open spec fn greater(a: u32, b: u32) -> u32 {
    if a < b {
        b
    } else {
        a
    }
}

impl Sheet {
    /// How many of the first `n` cells come before the position
    /// `(row, col)`.
    pub open spec fn count_before(&self, n: int, row: u32, col: u32) -> int
        decreases n,
    {
        if n <= 0 {
            0
        } else {
            self.count_before(n - 1, row, col) + if self.cells@[n - 1].lies_before(row, col) {
                1int
            } else {
                0int
            }
        }
    }

    /// The place of the position `(row, col)` among the cells: the number of
    /// cells that come before it. In a sheet whose cells are in order, the
    /// cell at that position stands there, if it is populated.
    pub open spec fn place_of(&self, row: u32, col: u32) -> int {
        self.count_before(self.cells@.len() as int, row, col)
    }

    /// Whether the position `(row, col)` is populated.
    pub open spec fn holds(&self, row: u32, col: u32) -> bool {
        self.place_of(row, col) < self.cells@.len() && self.cells@[self.place_of(
            row,
            col,
        )].lies_at(row, col)
    }

    /// In a sheet whose cells are in order, the cells before a position are
    /// the first cells: where the first `k` cells come before it and no
    /// other does, `k` is its place.
    pub proof fn lemma_place(&self, k: int, n: int, row: u32, col: u32)
        requires
            0 <= k <= self.cells@.len(),
            0 <= n <= self.cells@.len(),
            forall|i: int| 0 <= i < k ==> (#[trigger] self.cells@[i]).lies_before(row, col),
            forall|i: int|
                k <= i < self.cells@.len() ==> !(#[trigger] self.cells@[i]).lies_before(row, col),
        ensures
            self.count_before(n, row, col) == if n < k {
                n
            } else {
                k
            },
        decreases n,
    {
        if n > 0 {
            self.lemma_place(k, n - 1, row, col);
        }
    }

    /// Finds the place of the position `(row, col)` among the cells.
    pub fn position(&self, row: u32, col: u32) -> (k: usize)
        requires
            self.ordered(),
        ensures
            k == self.place_of(row, col),
            k <= self.cells@.len(),
            forall|i: int| 0 <= i < k ==> (#[trigger] self.cells@[i]).lies_before(row, col),
            forall|i: int|
                k <= i < self.cells@.len() ==> !(#[trigger] self.cells@[i]).lies_before(row, col),
    {
        let mut lo: usize = 0;
        let mut hi: usize = self.cells.len();
        while lo < hi
            invariant
                lo <= hi <= self.cells@.len(),
                self.ordered(),
                forall|i: int| 0 <= i < lo ==> (#[trigger] self.cells@[i]).lies_before(row, col),
                forall|i: int|
                    hi <= i < self.cells@.len() ==> !(#[trigger] self.cells@[i]).lies_before(
                        row,
                        col,
                    ),
            decreases hi - lo,
        {
            let mid = lo + (hi - lo) / 2;
            let c = &self.cells[mid];
            if c.row < row || (c.row == row && c.col < col) {
                proof {
                    assert forall|i: int| 0 <= i < mid + 1 implies (
                    #[trigger] self.cells@[i]).lies_before(row, col) by {
                        self.lemma_rows_ascend(i, mid as int);
                    }
                }
                lo = mid + 1;
            } else {
                proof {
                    assert forall|i: int| mid <= i < self.cells@.len() implies !(
                    #[trigger] self.cells@[i]).lies_before(row, col) by {
                        self.lemma_rows_ascend(mid as int, i);
                    }
                }
                hi = mid;
            }
        }
        proof {
            self.lemma_place(lo as int, self.cells@.len() as int, row, col);
        }
        lo
    }

    /// The content of the cell at `(row, col)`, if it is populated.
    pub fn cell(&self, row: u32, col: u32) -> (c: Option<&CellContent>)
        requires
            self.ordered(),
        ensures
            c is Some <==> self.holds(row, col),
            c matches Some(content) ==> *content == self.cells@[self.place_of(row, col)].content,
    {
        let k = self.position(row, col);
        if k < self.cells.len() && self.cells[k].row == row && self.cells[k].col == col {
            Some(&self.cells[k].content)
        } else {
            None
        }
    }

    /// Sets the cell at `(row, col)` and gives back what it held before, if
    /// it was populated. The cells stay in order; the rows and columns in
    /// use grow to hold the cell, as far as numbers reach.
    pub fn set_cell(&mut self, row: u32, col: u32, content: CellContent) -> (before: Option<
        CellContent,
    >)
        requires
            old(self).ordered(),
        ensures
            final(self).ordered(),
            final(self).holds(row, col),
            final(self).place_of(row, col) == old(self).place_of(row, col),
            old(self).holds(row, col) ==> before == Some(
                old(self).cells@[old(self).place_of(row, col)].content,
            ) && final(self).cells@ == old(self).cells@.update(
                old(self).place_of(row, col),
                GridCell { row, col, content },
            ),
            !old(self).holds(row, col) ==> before is None && final(self).cells@ == old(
                self,
            ).cells@.insert(old(self).place_of(row, col), GridCell { row, col, content }),
            final(self).extent == (
                greater(old(self).extent.0, next_up(row)),
                greater(old(self).extent.1, next_up(col)),
            ),
            final(self).name == old(self).name,
            final(self).style == old(self).style,
            final(self).print_ranges == old(self).print_ranges,
            final(self).print == old(self).print,
            final(self).display == old(self).display,
            final(self).row_header == old(self).row_header,
            final(self).col_header == old(self).col_header,
            final(self).header == old(self).header,
            final(self).extra == old(self).extra,
    {
        let k = self.position(row, col);
        let ghost cells = self.cells@;
        let replaced = k < self.cells.len() && self.cells[k].row == row && self.cells[k].col
            == col;
        let before = if replaced {
            let taken = self.cells.remove(k);
            Some(taken.content)
        } else {
            None
        };
        self.cells.insert(k, GridCell { row, col, content });
        let rows = if row < u32::MAX {
            row + 1
        } else {
            u32::MAX
        };
        let cols = if col < u32::MAX {
            col + 1
        } else {
            u32::MAX
        };
        if self.extent.0 < rows {
            self.extent.0 = rows;
        }
        if self.extent.1 < cols {
            self.extent.1 = cols;
        }
        proof {
            let new = GridCell { row, col, content };
            let after = self.cells@;
            if replaced {
                assert(after == cells.update(k as int, new));
            } else {
                assert(after == cells.insert(k as int, new));
            }
            assert(after[k as int] == new);
            assert forall|i: int| 0 < i < after.len() implies (#[trigger] after[i - 1]).before(
                &after[i],
            ) by {
                if replaced {
                    if i - 1 != k && i != k {
                        assert(after[i - 1] == cells[i - 1] && after[i] == cells[i]);
                        assert(cells[i - 1].before(&cells[i]));
                    } else if i == k {
                        assert(after[i - 1] == cells[i - 1]);
                        assert(cells[i - 1].lies_before(row, col));
                    } else {
                        assert(after[i] == cells[i]);
                        assert(cells[i - 1].before(&cells[i]));
                    }
                } else {
                    if i < k {
                        assert(after[i - 1] == cells[i - 1] && after[i] == cells[i]);
                        assert(cells[i - 1].before(&cells[i]));
                    } else if i == k {
                        assert(after[i - 1] == cells[i - 1]);
                        assert(cells[i - 1].lies_before(row, col));
                    } else if i == k + 1 {
                        assert(after[i] == cells[i - 1]);
                        assert(!cells[i - 1].lies_before(row, col));
                        assert(!cells[i - 1].lies_at(row, col));
                    } else {
                        assert(after[i - 1] == cells[i - 2] && after[i] == cells[i - 1]);
                        assert(cells[i - 1 - 1].before(&cells[i - 1]));
                    }
                }
            }
            assert forall|i: int| 0 <= i < k implies (#[trigger] after[i]).lies_before(
                row,
                col,
            ) by {
                assert(after[i] == cells[i]);
            }
            assert forall|i: int| k <= i < after.len() implies !(#[trigger] after[i]).lies_before(
                row,
                col,
            ) by {
                if i > k {
                    if replaced {
                        assert(after[i] == cells[i]);
                    } else {
                        assert(after[i] == cells[i - 1]);
                    }
                }
            }
            self.lemma_place(k as int, after.len() as int, row, col);
        }
        before
    }

    /// Takes out the cell at `(row, col)` and gives back what it held, if it
    /// was populated. The cells stay in order; the rows and columns in use
    /// stay as they are.
    pub fn remove_cell(&mut self, row: u32, col: u32) -> (before: Option<CellContent>)
        requires
            old(self).ordered(),
        ensures
            final(self).ordered(),
            !final(self).holds(row, col),
            old(self).holds(row, col) ==> before == Some(
                old(self).cells@[old(self).place_of(row, col)].content,
            ) && final(self).cells@ == old(self).cells@.remove(old(self).place_of(row, col)),
            !old(self).holds(row, col) ==> before is None && final(self).cells@ == old(
                self,
            ).cells@,
            final(self).extent == old(self).extent,
            final(self).name == old(self).name,
            final(self).style == old(self).style,
            final(self).print_ranges == old(self).print_ranges,
            final(self).print == old(self).print,
            final(self).display == old(self).display,
            final(self).row_header == old(self).row_header,
            final(self).col_header == old(self).col_header,
            final(self).header == old(self).header,
            final(self).extra == old(self).extra,
    {
        let k = self.position(row, col);
        let ghost cells = self.cells@;
        if k < self.cells.len() && self.cells[k].row == row && self.cells[k].col == col {
            let taken = self.cells.remove(k);
            proof {
                let after = self.cells@;
                assert(after == cells.remove(k as int));
                assert forall|i: int| 0 < i < after.len() implies (#[trigger] after[i
                    - 1]).before(&after[i]) by {
                    if i < k {
                        assert(after[i - 1] == cells[i - 1] && after[i] == cells[i]);
                        assert(cells[i - 1].before(&cells[i]));
                    } else if i == k {
                        assert(after[i - 1] == cells[i - 1] && after[i] == cells[i + 1]);
                        assert(cells[i - 1].before(&cells[i]));
                        assert(cells[i + 1 - 1].before(&cells[i + 1]));
                    } else {
                        assert(after[i - 1] == cells[i] && after[i] == cells[i + 1]);
                        assert(cells[i + 1 - 1].before(&cells[i + 1]));
                    }
                }
                assert forall|i: int| 0 <= i < k implies (#[trigger] after[i]).lies_before(
                    row,
                    col,
                ) by {
                    assert(after[i] == cells[i]);
                }
                assert forall|i: int| k <= i < after.len() implies !(
                #[trigger] after[i]).lies_before(row, col) && !after[i].lies_at(row, col) by {
                    assert(after[i] == cells[i + 1]);
                    assert(cells[k as int].before(&cells[i + 1])) by {
                        old(self).lemma_rows_ascend(k as int, i + 1);
                    }
                }
                self.lemma_place(k as int, after.len() as int, row, col);
            }
            Some(taken.content)
        } else {
            None
        }
    }
}

} // verus!
