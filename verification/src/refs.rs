//! Rectangles on the cell grid: spans of merged cells and header ranges.

use vstd::prelude::*;

verus! {

/// How many rows and columns a cell reaches over. A cell of its own size has
/// the span 1 by 1.
#[derive(Clone, Copy, Debug, PartialEq, Eq, Structural)]
pub struct CellSpan {
    pub row_span: u32,
    pub col_span: u32,
}

impl CellSpan {
    /// A span reaches over at least one row and one column.
    pub open spec fn wf(&self) -> bool {
        self.row_span >= 1 && self.col_span >= 1
    }

    /// Whether the span reaches beyond the cell itself.
    pub open spec fn is_merge(&self) -> bool {
        self.row_span > 1 || self.col_span > 1
    }

    /// The span of the given size.
    pub fn new(row_span: u32, col_span: u32) -> (s: CellSpan)
        ensures
            s.row_span == row_span,
            s.col_span == col_span,
    {
        CellSpan { row_span, col_span }
    }
}

/// A rectangle of cells, from its first row and column to its last, both
/// included.
#[derive(Clone, Copy, Debug, PartialEq, Eq, Structural)]
pub struct CellRange {
    pub row: u32,
    pub col: u32,
    pub to_row: u32,
    pub to_col: u32,
}

impl CellRange {
    /// The last row and column do not lie before the first.
    pub open spec fn wf(&self) -> bool {
        self.row <= self.to_row && self.col <= self.to_col
    }

    /// Whether the cell at `(row, col)` lies in the rectangle.
    pub open spec fn spec_contains(&self, row: u32, col: u32) -> bool {
        self.row <= row <= self.to_row && self.col <= col <= self.to_col
    }

    /// Whether the rectangle lies wholly before `(row, col)` when the grid is
    /// walked row by row: no cell at or after that position is in it.
    pub open spec fn spec_out_looped(&self, row: u32, col: u32) -> bool {
        row > self.to_row || (row == self.to_row && col > self.to_col)
    }

    /// Whether the two rectangles have a cell in common.
    pub open spec fn spec_overlaps(&self, other: &CellRange) -> bool {
        self.row <= other.to_row && other.row <= self.to_row && self.col <= other.to_col
            && other.col <= self.to_col
    }

    /// The rectangle that a span covers when it starts at `(row, col)`.
    pub open spec fn spec_origin_span(row: u32, col: u32, span: CellSpan) -> CellRange {
        CellRange {
            row,
            col,
            to_row: (row + span.row_span - 1) as u32,
            to_col: (col + span.col_span - 1) as u32,
        }
    }

    /// Whether a span that starts at `(row, col)` stays on the grid.
    pub open spec fn span_fits(row: u32, col: u32, span: CellSpan) -> bool {
        span.wf() && row + span.row_span - 1 <= u32::MAX && col + span.col_span - 1 <= u32::MAX
    }

    /// The rectangle between two corners.
    pub fn new(row: u32, col: u32, to_row: u32, to_col: u32) -> (r: CellRange)
        ensures
            r == (CellRange { row, col, to_row, to_col }),
    {
        CellRange { row, col, to_row, to_col }
    }

    /// The rectangle that `span` covers when it starts at `(row, col)`.
    pub fn origin_span(row: u32, col: u32, span: CellSpan) -> (r: CellRange)
        requires
            CellRange::span_fits(row, col, span),
        ensures
            r == CellRange::spec_origin_span(row, col, span),
            r.wf(),
    {
        CellRange {
            row,
            col,
            to_row: row + (span.row_span - 1),
            to_col: col + (span.col_span - 1),
        }
    }

    /// Whether the cell at `(row, col)` lies in the rectangle.
    #[verifier::when_used_as_spec(spec_contains)]
    pub fn contains(&self, row: u32, col: u32) -> (b: bool)
        ensures
            b == self.spec_contains(row, col),
    {
        row >= self.row && row <= self.to_row && col >= self.col && col <= self.to_col
    }

    /// Whether the two rectangles have a cell in common.
    #[verifier::when_used_as_spec(spec_overlaps)]
    pub fn overlaps(&self, other: &CellRange) -> (b: bool)
        ensures
            b == self.spec_overlaps(other),
    {
        self.row <= other.to_row && other.row <= self.to_row && self.col <= other.to_col
            && other.col <= self.to_col
    }

    /// Whether the rectangle lies wholly before `(row, col)`.
    #[verifier::when_used_as_spec(spec_out_looped)]
    pub fn out_looped(&self, row: u32, col: u32) -> (b: bool)
        ensures
            b == self.spec_out_looped(row, col),
    {
        row > self.to_row || (row == self.to_row && col > self.to_col)
    }
}

/// A run of rows, from the first to the last, both included.
#[derive(Clone, Copy, Debug, PartialEq, Eq, Structural)]
pub struct RowRange {
    pub row: u32,
    pub to_row: u32,
}

impl RowRange {
    /// The last row does not lie before the first.
    pub open spec fn wf(&self) -> bool {
        self.row <= self.to_row
    }

    /// The rows from `row` to `to_row`.
    pub fn new(row: u32, to_row: u32) -> (r: RowRange)
        ensures
            r == (RowRange { row, to_row }),
    {
        RowRange { row, to_row }
    }
}

/// A run of columns, from the first to the last, both included.
#[derive(Clone, Copy, Debug, PartialEq, Eq, Structural)]
pub struct ColRange {
    pub col: u32,
    pub to_col: u32,
}

impl ColRange {
    /// The last column does not lie before the first.
    pub open spec fn wf(&self) -> bool {
        self.col <= self.to_col
    }

    /// The columns from `col` to `to_col`.
    pub fn new(col: u32, to_col: u32) -> (r: ColRange)
        ensures
            r == (ColRange { col, to_col }),
    {
        ColRange { col, to_col }
    }
}

} // verus!
