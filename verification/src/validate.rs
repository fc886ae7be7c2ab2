//! Finding out whether a workbook can be written, before anything is written.

use crate::error::{Fault, OdsError};
use crate::format::check_formats;
use crate::refs::CellRange;
use crate::spans::{overlaps_any, SpanTracker};
use crate::sheet::{Sheet, WorkBook};
use vstd::prelude::*;

verus! {

impl Sheet {
    /// What is wrong with the cell `i`, if anything: in this order, its
    /// place after the cell before it, its place within the rows and columns
    /// in use, the number of rows that its row stands for, the size of its
    /// span, and the cells that its span reaches over.
    pub open spec fn cell_fault(&self, i: int) -> Option<Fault> {
        let c = self.cells@[i];
        if i > 0 && !self.cells@[i - 1].before(&c) {
            Some(Fault::CellOrder)
        } else if c.row >= self.extent.0 || c.col >= self.extent.1 {
            Some(Fault::CellOutside)
        } else if self.row_repeat(c.row) < 1 {
            Some(Fault::RowRepeat)
        } else if c.content.span is Some && !CellRange::span_fits(c.row, c.col, c.content.span->0) {
            Some(Fault::SpanSize)
        } else if self.registers(i) && overlaps_any(self.active_spans(i), c.range()) {
            Some(Fault::SpanOverlap)
        } else {
            None
        }
    }

    /// The first of the first `n` cells with which something is wrong.
    pub open spec fn first_faulty_cell(&self, n: int) -> Option<int>
        decreases n,
    {
        if n <= 0 {
            None
        } else if self.first_faulty_cell(n - 1) is Some {
            self.first_faulty_cell(n - 1)
        } else if self.cell_fault(n - 1) is Some {
            Some(n - 1)
        } else {
            None
        }
    }

    /// What is wrong with the header rows and columns, if anything, and at
    /// which row and column.
    pub open spec fn header_fault(&self) -> Option<(u32, u32, Fault)> {
        if self.header.rows is Some && !self.header.rows->0.wf() {
            Some((self.header.rows->0.row, 0u32, Fault::HeaderRange))
        } else if self.header.cols is Some && !self.header.cols->0.wf() {
            Some((0u32, self.header.cols->0.col, Fault::HeaderRange))
        } else if self.header.rows is Some && !self.row_written(self.header.rows->0.row as int) {
            Some((self.header.rows->0.row, 0u32, Fault::HeaderRows))
        } else if self.header.rows is Some && !self.row_written(
            self.header.rows->0.to_row as int,
        ) {
            Some((self.header.rows->0.to_row, 0u32, Fault::HeaderRows))
        } else if self.header.cols is Some && self.header.cols->0.to_col >= self.extent.1 {
            Some((0u32, self.header.cols->0.to_col, Fault::HeaderColumns))
        } else {
            None
        }
    }

    /// What is wrong with the sheet, if anything: the first cell with which
    /// something is wrong, else the header rows and columns.
    pub open spec fn fault(&self) -> Option<(u32, u32, Fault)> {
        match self.first_faulty_cell(self.cells@.len() as int) {
            Some(i) => Some((self.cells@[i].row, self.cells@[i].col, self.cell_fault(i)->0)),
            None => self.header_fault(),
        }
    }

    /// No cell among the first `n` is at fault exactly if none of them is
    /// found to be the first.
    pub proof fn lemma_first_faulty_cell(&self, n: int)
        requires
            0 <= n <= self.cells@.len(),
        ensures
            self.first_faulty_cell(n) is None <==> forall|i: int|
                0 <= i < n ==> self.cell_fault(i) is None,
            self.first_faulty_cell(n) matches Some(i) ==> 0 <= i < n && self.cell_fault(i) is Some,
        decreases n,
    {
        if n > 0 {
            self.lemma_first_faulty_cell(n - 1);
        }
    }

    /// A sheet is in order exactly if nothing is wrong with it.
    pub proof fn lemma_fault_wf(&self)
        ensures
            self.fault() is None <==> self.wf(),
    {
        let n = self.cells@.len() as int;
        self.lemma_first_faulty_cell(n);
        if self.wf() {
            assert forall|i: int| 0 <= i < n implies self.cell_fault(i) is None by {
                if i > 0 {
                    assert(self.cells@[i - 1].before(&self.cells@[i]));
                }
                let c = self.cells@[i];
            }
        }
        if self.fault() is None {
            assert forall|i: int| 0 < i < n implies (#[trigger] self.cells@[i - 1]).before(
                &self.cells@[i],
            ) by {
                assert(self.cell_fault(i) is None);
            }
            assert forall|i: int| 0 <= i < n implies {
                let c = #[trigger] self.cells@[i];
                &&& c.row < self.extent.0
                &&& c.col < self.extent.1
                &&& self.row_repeat(c.row) >= 1
                &&& c.content.span matches Some(s) ==> CellRange::span_fits(c.row, c.col, s)
                &&& self.registers(i) ==> !overlaps_any(self.active_spans(i), c.range())
            } by {
                assert(self.cell_fault(i) is None);
            }
        }
    }

    /// Whether the row `row` is written.
    pub fn is_row_written(&self, row: u32) -> (b: bool)
        ensures
            b == self.row_written(row as int),
    {
        let mut i: usize = 0;
        while i < self.cells.len()
            invariant
                i <= self.cells.len(),
                forall|j: int| 0 <= j < i ==> !self.written_with(j, row as int),
            decreases self.cells.len() - i,
        {
            let cur_row = self.cells[i].row;
            if cur_row == row {
                assert(self.written_with(i as int, row as int));
                return true;
            }
            if i == 0 {
                if row < cur_row {
                    assert(self.written_with(i as int, row as int));
                    return true;
                }
            } else {
                let last_r = self.cells[i - 1].row;
                if last_r != cur_row {
                    let from: u64 = last_r as u64 + self.repeat_of(last_r) as u64;
                    if from <= row as u64 && row < cur_row {
                        assert(self.written_with(i as int, row as int));
                        return true;
                    }
                }
            }
            i += 1;
        }
        false
    }

    /// Looks at the cell `i`. The merged cells that are still ahead travel
    /// in `spans`.
    fn inspect_cell(&self, i: usize, spans: &mut SpanTracker) -> (f: Option<Fault>)
        requires
            i < self.cells@.len(),
            old(spans)@ == self.spans_before(i as int),
        ensures
            f == self.cell_fault(i as int),
            f is None ==> final(spans)@ == self.spans_before(i + 1),
    {
        let c = &self.cells[i];
        if i > 0 {
            let p = &self.cells[i - 1];
            if !(p.row < c.row || (p.row == c.row && p.col < c.col)) {
                return Some(Fault::CellOrder);
            }
        }
        if c.row >= self.extent.0 || c.col >= self.extent.1 {
            return Some(Fault::CellOutside);
        }
        if self.repeat_of(c.row) < 1 {
            return Some(Fault::RowRepeat);
        }
        if let Some(s) = c.content.span {
            if s.row_span < 1 || s.col_span < 1 || s.row_span - 1 > u32::MAX - c.row || s.col_span
                - 1 > u32::MAX - c.col {
                return Some(Fault::SpanSize);
            }
        }
        spans.prune(c.row, c.col);
        let (is_hidden, _) = spans.query(c.row, c.col);
        if let Some(s) = c.content.span {
            if !is_hidden && (s.row_span > 1 || s.col_span > 1) {
                let range = CellRange::origin_span(c.row, c.col, s);
                if spans.overlaps(&range) {
                    return Some(Fault::SpanOverlap);
                }
                spans.register(range);
            }
        }
        None
    }

    /// Looks at the header rows and columns.
    fn inspect_header(&self) -> (f: Option<(u32, u32, Fault)>)
        ensures
            f == self.header_fault(),
    {
        if let Some(r) = self.header.rows {
            if r.row > r.to_row {
                return Some((r.row, 0, Fault::HeaderRange));
            }
        }
        if let Some(c) = self.header.cols {
            if c.col > c.to_col {
                return Some((0, c.col, Fault::HeaderRange));
            }
        }
        if let Some(r) = self.header.rows {
            if !self.is_row_written(r.row) {
                return Some((r.row, 0, Fault::HeaderRows));
            }
            if !self.is_row_written(r.to_row) {
                return Some((r.to_row, 0, Fault::HeaderRows));
            }
        }
        if let Some(c) = self.header.cols {
            if c.to_col >= self.extent.1 {
                return Some((0, c.to_col, Fault::HeaderColumns));
            }
        }
        None
    }

    /// Finds what is wrong with the sheet, if anything, with the row and the
    /// column at which it is wrong.
    pub fn find_fault(&self) -> (f: Option<(u32, u32, Fault)>)
        ensures
            f == self.fault(),
            f is None <==> self.wf(),
    {
        proof {
            self.lemma_fault_wf();
        }
        let mut spans = SpanTracker::new();
        let mut i: usize = 0;
        while i < self.cells.len()
            invariant
                i <= self.cells.len(),
                self.first_faulty_cell(i as int) is None,
                spans@ == self.spans_before(i as int),
            decreases self.cells.len() - i,
        {
            if let Some(fault) = self.inspect_cell(i, &mut spans) {
                proof {
                    self.lemma_first_faulty_cell_stays(i + 1, self.cells@.len() as int);
                }
                return Some((self.cells[i].row, self.cells[i].col, fault));
            }
            i += 1;
        }
        self.inspect_header()
    }

    /// Once a cell at fault is found among the first cells, it stays the
    /// first one when more cells are looked at.
    pub proof fn lemma_first_faulty_cell_stays(&self, n: int, m: int)
        requires
            0 <= n <= m,
            self.first_faulty_cell(n) is Some,
        ensures
            self.first_faulty_cell(m) == self.first_faulty_cell(n),
        decreases m - n,
    {
        if n < m {
            self.lemma_first_faulty_cell_stays(n, m - 1);
        }
    }
}

impl WorkBook {
    /// The first of the first `n` sheets that is not in order.
    pub open spec fn first_faulty_sheet(&self, n: int) -> Option<int>
        decreases n,
    {
        if n <= 0 {
            None
        } else if self.first_faulty_sheet(n - 1) is Some {
            self.first_faulty_sheet(n - 1)
        } else if !self.sheets@[n - 1].wf() {
            Some(n - 1)
        } else {
            None
        }
    }

    /// None of the first `n` sheets is found to be out of order exactly if
    /// all of them are in order.
    pub proof fn lemma_first_faulty_sheet(&self, n: int)
        requires
            0 <= n <= self.sheets@.len(),
        ensures
            self.first_faulty_sheet(n) is None <==> forall|i: int|
                0 <= i < n ==> (#[trigger] self.sheets@[i]).wf(),
            self.first_faulty_sheet(n) matches Some(i) ==> 0 <= i < n && !self.sheets@[i].wf(),
        decreases n,
    {
        if n > 0 {
            self.lemma_first_faulty_sheet(n - 1);
        }
    }

    /// Once a sheet out of order is found among the first sheets, it stays
    /// the first one when more sheets are looked at.
    pub proof fn lemma_first_faulty_sheet_stays(&self, n: int, m: int)
        requires
            0 <= n <= m,
            self.first_faulty_sheet(n) is Some,
        ensures
            self.first_faulty_sheet(m) == self.first_faulty_sheet(n),
        decreases m - n,
    {
        if n < m {
            self.lemma_first_faulty_sheet_stays(n, m - 1);
        }
    }
}

/// The message for a workbook without sheets.
pub open spec fn no_sheets_text() -> Seq<char> {
    "Workbook contains no sheets."@
}

/// Whether `e` is the error for the sheet `sheet`, which is not in order:
/// it names the sheet and says what is wrong with it, and where.
pub open spec fn is_sheet_fault(sheet: &Sheet, e: OdsError) -> bool {
    &&& sheet.fault() is Some
    &&& e matches OdsError::Sheet { name, row, col, fault }
    &&& name@ == sheet.name@
    &&& (row, col, fault) == sheet.fault()->0
}

/// The message for a value format that is for values without content.
pub open spec fn untyped_format_text() -> Seq<char> {
    "A value format is for values without content."@
}

/// Whether `e` is the error for the workbook `book`, which cannot be
/// written: it has no sheets, or `e` is the error for its first sheet that
/// is not in order, or a value format is for values without content.
pub open spec fn is_fault_of(book: &WorkBook, e: OdsError) -> bool {
    if book.sheets@.len() == 0 {
        e matches OdsError::Ods(msg) && msg@ == no_sheets_text()
    } else {
        match book.first_faulty_sheet(book.sheets@.len() as int) {
            Some(i) => is_sheet_fault(&book.sheets@[i], e),
            None => e matches OdsError::Ods(msg) && msg@ == untyped_format_text(),
        }
    }
}

/// Finds out whether a sheet is in order.
pub fn check_sheet(sheet: &Sheet) -> (r: Result<(), OdsError>)
    ensures
        r is Ok <==> sheet.wf(),
        r matches Err(e) ==> is_sheet_fault(sheet, e),
{
    match sheet.find_fault() {
        Some((row, col, fault)) => Err(
            OdsError::Sheet { name: sheet.name.clone(), row, col, fault },
        ),
        None => Ok(()),
    }
}

/// Finds out whether the workbook can be written: it must have a sheet, and
/// each sheet must be in order.
pub fn sanity_checks(book: &WorkBook) -> (r: Result<(), OdsError>)
    ensures
        r is Ok <==> book.wf(),
        r matches Err(e) ==> is_fault_of(book, e),
{
    if book.sheets.len() == 0 {
        return Err(OdsError::Ods("Workbook contains no sheets.".to_owned()));
    }
    let mut i: usize = 0;
    while i < book.sheets.len()
        invariant
            i <= book.sheets.len(),
            book.sheets@.len() > 0,
            book.first_faulty_sheet(i as int) is None,
        decreases book.sheets.len() - i,
    {
        proof {
            if !book.sheets@[i as int].wf() {
                book.lemma_first_faulty_sheet_stays(i + 1, book.sheets@.len() as int);
                book.lemma_first_faulty_sheet(book.sheets@.len() as int);
            }
        }
        check_sheet(&book.sheets[i])?;
        i += 1;
    }
    proof {
        book.lemma_first_faulty_sheet(book.sheets@.len() as int);
    }
    if !check_formats(&book.formats) {
        return Err(OdsError::Ods("A value format is for values without content.".to_owned()));
    }
    Ok(())
}

} // verus!
