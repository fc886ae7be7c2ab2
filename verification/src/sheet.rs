//! The document model that the encoder reads: cells on a sparse grid, the
//! headers of rows and columns, sheets and the workbook.

use crate::config::ConfigItem;
use crate::format::{formats_typed, ValueFormat};
use crate::manifest::Manifest;
use crate::meta::Metadata;
use crate::page::{MasterPage, PageStyle};
use crate::refs::{CellRange, CellSpan, ColRange, RowRange};
use crate::style::{FontFaceDecl, Style};
use crate::validation::Validation;
use crate::spans::overlaps_any;
use crate::value::{Value, ValueType};
use crate::xmltree::XmlTag;
use std::collections::BTreeMap;
use vstd::prelude::*;

verus! {

/// Whether a row or a column is shown.
#[derive(Clone, Copy, Debug, PartialEq, Eq, Structural)]
pub enum Visibility {
    Visible,
    Collapsed,
    Filtered,
}

/// The name of a visibility in the document.
pub open spec fn visibility_text(v: Visibility) -> Seq<char> {
    match v {
        Visibility::Visible => "visible"@,
        Visibility::Collapsed => "collapse"@,
        Visibility::Filtered => "filter"@,
    }
}

impl Visibility {
    /// The name of this visibility in the document.
    pub fn as_str(&self) -> (s: &'static str)
        ensures
            s@ == visibility_text(*self),
    {
        match self {
            Visibility::Visible => "visible",
            Visibility::Collapsed => "collapse",
            Visibility::Filtered => "filter",
        }
    }
}

/// What is known of a row apart from its cells.
#[derive(Debug, PartialEq, Eq)]
pub struct RowHeader {
    pub style: Option<String>,
    pub cellstyle: Option<String>,
    pub visible: Visibility,
    /// For how many rows the row stands, itself included.
    pub repeat: u32,
}

impl RowHeader {
    /// The header of a row that is visible, stands for itself alone and has
    /// no styles.
    pub fn new() -> (h: RowHeader)
        ensures
            h.style is None,
            h.cellstyle is None,
            h.visible == Visibility::Visible,
            h.repeat == 1,
    {
        RowHeader { style: None, cellstyle: None, visible: Visibility::Visible, repeat: 1 }
    }
}

/// What is known of a column apart from its cells.
#[derive(Debug, PartialEq, Eq)]
pub struct ColHeader {
    pub style: Option<String>,
    pub cellstyle: Option<String>,
    pub visible: Visibility,
}

impl ColHeader {
    /// The header of a column that is visible and has no styles.
    pub fn new() -> (h: ColHeader)
        ensures
            h.style is None,
            h.cellstyle is None,
            h.visible == Visibility::Visible,
    {
        ColHeader { style: None, cellstyle: None, visible: Visibility::Visible }
    }
}

/// What a cell holds.
#[derive(Debug, PartialEq, Eq)]
pub struct CellContent {
    pub value: Option<Value>,
    pub formula: Option<String>,
    pub style: Option<String>,
    pub validation_name: Option<String>,
    pub span: Option<CellSpan>,
}

impl CellContent {
    /// A cell that holds nothing.
    pub fn new() -> (c: CellContent)
        ensures
            c.value is None,
            c.formula is None,
            c.style is None,
            c.validation_name is None,
            c.span is None,
    {
        CellContent { value: None, formula: None, style: None, validation_name: None, span: None }
    }

    /// Whether the cell has a value to show.
    pub open spec fn has_value(&self) -> bool {
        self.value matches Some(v) && !(v is Empty)
    }

    /// Whether the cell reaches over other cells.
    pub open spec fn is_merge(&self) -> bool {
        self.span matches Some(s) && s.is_merge()
    }
}

/// A populated cell with its place on the grid.
#[derive(Debug, PartialEq, Eq)]
pub struct GridCell {
    pub row: u32,
    pub col: u32,
    pub content: CellContent,
}

impl GridCell {
    /// Whether this cell comes before `other` when the grid is walked row by
    /// row.
    pub open spec fn before(&self, other: &GridCell) -> bool {
        self.row < other.row || (self.row == other.row && self.col < other.col)
    }

    /// The rectangle that the cell's span covers.
    pub open spec fn range(&self) -> CellRange {
        CellRange::spec_origin_span(self.row, self.col, self.content.span->0)
    }
}

/// The rows and the columns that are marked as headers, at most one run of
/// each.
#[derive(Clone, Copy, Debug, PartialEq, Eq, Structural)]
pub struct HeaderRegion {
    pub rows: Option<RowRange>,
    pub cols: Option<ColRange>,
}

impl HeaderRegion {
    /// Both runs, where given, end no earlier than they begin.
    pub open spec fn wf(&self) -> bool {
        &&& self.rows matches Some(r) ==> r.wf()
        &&& self.cols matches Some(c) ==> c.wf()
    }

    /// Whether the header rows begin at `row`.
    pub open spec fn spec_row_opens_at(&self, row: int) -> bool {
        self.rows matches Some(r) && r.row == row
    }

    /// Whether the header rows end at `row`.
    pub open spec fn spec_row_closes_at(&self, row: int) -> bool {
        self.rows matches Some(r) && r.to_row == row
    }

    /// Whether the header columns begin at `col`.
    pub open spec fn spec_col_opens_at(&self, col: int) -> bool {
        self.cols matches Some(c) && c.col == col
    }

    /// Whether the header columns end at `col`.
    pub open spec fn spec_col_closes_at(&self, col: int) -> bool {
        self.cols matches Some(c) && c.to_col == col
    }

    /// Whether the header rows are open before the row `row` is written:
    /// they began before it and do not end before it.
    pub open spec fn open_before(&self, row: int) -> bool {
        self.rows matches Some(r) && r.row < row <= r.to_row
    }

    /// Whether the row `row` is one of the header rows.
    pub open spec fn open_in(&self, row: int) -> bool {
        self.rows matches Some(r) && r.row <= row <= r.to_row
    }

    /// No header rows and no header columns.
    pub fn new() -> (h: HeaderRegion)
        ensures
            h.rows is None,
            h.cols is None,
    {
        HeaderRegion { rows: None, cols: None }
    }

    /// Whether the header rows begin at `row`.
    pub fn row_opens_at(&self, row: u32) -> (b: bool)
        ensures
            b == self.spec_row_opens_at(row as int),
    {
        match self.rows {
            Some(r) => r.row == row,
            None => false,
        }
    }

    /// Whether the header rows end at `row`.
    pub fn row_closes_at(&self, row: u32) -> (b: bool)
        ensures
            b == self.spec_row_closes_at(row as int),
    {
        match self.rows {
            Some(r) => r.to_row == row,
            None => false,
        }
    }

    /// Whether the header columns begin at `col`.
    pub fn col_opens_at(&self, col: u32) -> (b: bool)
        ensures
            b == self.spec_col_opens_at(col as int),
    {
        match self.cols {
            Some(c) => c.col == col,
            None => false,
        }
    }

    /// Whether the header columns end at `col`.
    pub fn col_closes_at(&self, col: u32) -> (b: bool)
        ensures
            b == self.spec_col_closes_at(col as int),
    {
        match self.cols {
            Some(c) => c.to_col == col,
            None => false,
        }
    }
}

/// One sheet: its cells in the order of the grid, row by row, and what
/// belongs to its rows and columns.
#[derive(Debug)]
pub struct Sheet {
    pub name: String,
    pub style: Option<String>,
    /// The print ranges, already in the form in which the document holds them.
    pub print_ranges: Option<String>,
    pub print: bool,
    pub display: bool,
    /// The populated cells, strictly ascending by row and then by column.
    pub cells: Vec<GridCell>,
    /// The rows and columns in use: every populated cell lies within them.
    /// The table is written with this many columns.
    pub extent: (u32, u32),
    pub row_header: BTreeMap<u32, RowHeader>,
    pub col_header: BTreeMap<u32, ColHeader>,
    pub header: HeaderRegion,
    /// Foreign tags that are carried through unchanged.
    pub extra: Vec<XmlTag>,
}

impl Sheet {
    /// For how many rows the row `row` stands: what its header says, else 1.
    pub open spec fn row_repeat(&self, row: u32) -> u32 {
        if self.row_header@.contains_key(row) {
            self.row_header@[row].repeat
        } else {
            1
        }
    }

    /// Whether the cell `i` is the first populated cell of its row.
    pub open spec fn starts_row(&self, i: int) -> bool {
        i == 0 || self.cells@[i - 1].row != self.cells@[i].row
    }

    /// Whether the cell `i` is the last populated cell of its row.
    pub open spec fn ends_row(&self, i: int) -> bool {
        i == self.cells@.len() - 1 || self.cells@[i + 1].row != self.cells@[i].row
    }

    /// The first row that is not yet accounted for when the cell `i` begins a
    /// row: the row after the rows that the populated row before stands for,
    /// or row 0.
    pub open spec fn gap_start(&self, i: int) -> int {
        if i == 0 {
            0
        } else {
            self.cells@[i - 1].row + self.row_repeat(self.cells@[i - 1].row)
        }
    }

    /// Whether the row `row` is written: as a populated row, or as one of the
    /// empty rows that fill the gap before a populated row.
    pub open spec fn row_written(&self, row: int) -> bool {
        exists|i: int|
            0 <= i < self.cells@.len() && self.written_with(i, row)
    }

    /// Whether the row `row` is written with the cell `i`: as the row of that
    /// cell, or in the gap that is filled before it.
    pub open spec fn written_with(&self, i: int, row: int) -> bool {
        self.cells@[i].row == row || (self.starts_row(i) && self.gap_start(i) <= row
            < self.cells@[i].row)
    }

    /// Whether the cells are in the order of the grid: each comes after the
    /// one before it, row by row.
    pub open spec fn ordered(&self) -> bool {
        forall|i: int|
            0 < i < self.cells@.len() ==> (#[trigger] self.cells@[i - 1]).before(&self.cells@[i])
    }

    /// Whether the cell `i` is a merged cell whose span counts: it reaches
    /// over other cells and does not itself lie under a merged cell.
    pub open spec fn registers(&self, i: int) -> bool {
        !self.hidden(i).0 && self.cells@[i].content.is_merge()
    }

    /// What the encoder asks of a sheet. The cells are in order and inside
    /// the extent, spans stay on the grid, merged cells do not reach over
    /// each other, populated rows stand for at least themselves, and header
    /// rows and columns begin and end where rows and columns are written.
    pub open spec fn wf(&self) -> bool {
        &&& self.ordered()
        &&& forall|i: int|
            0 <= i < self.cells@.len() ==> {
                let c = #[trigger] self.cells@[i];
                &&& c.row < self.extent.0
                &&& c.col < self.extent.1
                &&& self.row_repeat(c.row) >= 1
                &&& c.content.span matches Some(s) ==> CellRange::span_fits(c.row, c.col, s)
                &&& self.registers(i) ==> !overlaps_any(self.active_spans(i), c.range())
            }
        &&& self.header.wf()
        &&& self.header.rows matches Some(r) ==> self.row_written(r.row as int)
            && self.row_written(r.to_row as int)
        &&& self.header.cols matches Some(c) ==> c.to_col < self.extent.1
    }

    /// The rows of the cells do not descend, and of two cells the earlier one
    /// comes before the later one on the grid.
    pub proof fn lemma_rows_ascend(&self, a: int, b: int)
        requires
            self.ordered(),
            0 <= a <= b < self.cells@.len(),
        ensures
            self.cells@[a].row <= self.cells@[b].row,
            a < b ==> self.cells@[a].before(&self.cells@[b]),
        decreases b - a,
    {
        if a < b {
            self.lemma_rows_ascend(a, b - 1);
            assert(self.cells@[b - 1].before(&self.cells@[b]));
        }
    }

    /// A row that a populated row stands for, without being populated
    /// itself, is not written.
    pub proof fn lemma_absorbed_row(&self, i: int, row: int)
        requires
            self.wf(),
            0 < i < self.cells@.len(),
            self.starts_row(i),
            self.cells@[i - 1].row < row < self.cells@[i].row,
            row < self.gap_start(i),
        ensures
            !self.row_written(row),
    {
        assert forall|j: int| 0 <= j < self.cells@.len() implies !self.written_with(j, row) by {
            if j < i {
                self.lemma_rows_ascend(j, i - 1);
            } else {
                self.lemma_rows_ascend(i, j);
                if j > i {
                    self.lemma_rows_ascend(i, j - 1);
                    assert(self.row_repeat(self.cells@[j - 1].row) >= 1);
                }
            }
        }
    }

    /// Between a populated row and what is written next, the header rows
    /// neither begin nor end: they are open before the one exactly if they
    /// stay open after the other.
    pub proof fn lemma_bracket_steady(&self, i: int)
        requires
            self.wf(),
            0 < i < self.cells@.len(),
            self.starts_row(i),
        ensures
            self.gap_start(i) < self.cells@[i].row ==> self.header.open_before(self.gap_start(i))
                == self.header.open_before(self.cells@[i - 1].row + 1),
            self.gap_start(i) >= self.cells@[i].row ==> self.header.open_before(
                self.cells@[i].row as int,
            ) == self.header.open_before(self.cells@[i - 1].row + 1),
    {
        let prev = self.cells@[i - 1].row as int;
        let next = if self.gap_start(i) < self.cells@[i].row {
            self.gap_start(i)
        } else {
            self.cells@[i].row as int
        };
        self.lemma_rows_ascend(i - 1, i);
        assert(self.row_repeat(self.cells@[i - 1].row) >= 1);
        if let Some(h) = self.header.rows {
            if prev < h.row < next {
                self.lemma_absorbed_row(i, h.row as int);
            }
            if prev < h.to_row < next {
                self.lemma_absorbed_row(i, h.to_row as int);
            }
        }
    }

    /// A row that is written does not lie below the last populated row.
    pub proof fn lemma_written_bound(&self, row: int)
        requires
            self.wf(),
            self.row_written(row),
        ensures
            self.cells@.len() > 0,
            row <= self.cells@[self.cells@.len() - 1].row,
    {
        let i = choose|i: int| 0 <= i < self.cells@.len() && self.written_with(i, row);
        self.lemma_rows_ascend(i, self.cells@.len() - 1);
    }

    /// A sheet without cells.
    pub fn new(name: &str) -> (s: Sheet)
        ensures
            s.wf(),
            s.name@ == name@,
            s.cells@.len() == 0,
            s.extent == (0u32, 0u32),
            s.style is None,
            s.print_ranges is None,
            s.print,
            s.display,
            s.row_header@ == Map::<u32, RowHeader>::empty(),
            s.col_header@ == Map::<u32, ColHeader>::empty(),
            s.header.rows is None,
            s.header.cols is None,
            s.extra@.len() == 0,
    {
        Sheet {
            name: name.to_owned(),
            style: None,
            print_ranges: None,
            print: true,
            display: true,
            cells: Vec::new(),
            extent: (0, 0),
            row_header: BTreeMap::new(),
            col_header: BTreeMap::new(),
            header: HeaderRegion::new(),
            extra: Vec::new(),
        }
    }

    /// For how many rows the row `row` stands.
    pub fn repeat_of(&self, row: u32) -> (n: u32)
        ensures
            n == self.row_repeat(row),
    {
        match self.row_header.get(&row) {
            Some(row_header) => row_header.repeat,
            None => 1,
        }
    }

    /// The smallest number of rows and columns that hold all populated
    /// cells. The rows and columns in use may be set to it.
    pub fn populated_size(&self) -> (e: (u32, u32))
        ensures
            e == size_of_cells(self.cells@, self.cells@.len() as int),
    {
        let mut rows: u32 = 0;
        let mut cols: u32 = 0;
        let mut i: usize = 0;
        while i < self.cells.len()
            invariant
                i <= self.cells.len(),
                (rows, cols) == size_of_cells(self.cells@, i as int),
            decreases self.cells.len() - i,
        {
            let c = &self.cells[i];
            if c.row >= rows {
                rows = if c.row < u32::MAX {
                    c.row + 1
                } else {
                    u32::MAX
                };
            }
            if c.col >= cols {
                cols = if c.col < u32::MAX {
                    c.col + 1
                } else {
                    u32::MAX
                };
            }
            i += 1;
        }
        (rows, cols)
    }

    /// The rows and columns in use.
    pub fn used_grid_size(&self) -> (e: (u32, u32))
        ensures
            e == self.extent,
    {
        self.extent
    }
}

/// The smallest number of rows and columns that hold the first `n` of the
/// cells: one more than the greatest row and the greatest column among them,
/// as far as a number can be one more.
pub open spec fn size_of_cells(cells: Seq<GridCell>, n: int) -> (u32, u32)
    decreases n,
{
    if n <= 0 {
        (0u32, 0u32)
    } else {
        let before = size_of_cells(cells, n - 1);
        let c = cells[n - 1];
        (
            if c.row < before.0 {
                before.0
            } else if c.row < u32::MAX {
                (c.row + 1) as u32
            } else {
                u32::MAX
            },
            if c.col < before.1 {
                before.1
            } else if c.col < u32::MAX {
                (c.col + 1) as u32
            } else {
                u32::MAX
            },
        )
    }
}

/// The default style of each kind of value, the first entry of a kind
/// counting.
pub open spec fn def_style_of(styles: Seq<(ValueType, String)>, t: ValueType) -> Option<String>
    decreases styles.len(),
{
    if styles.len() == 0 {
        None
    } else if styles[0].0 == t {
        Some(styles[0].1)
    } else {
        def_style_of(styles.drop_first(), t)
    }
}

/// The workbook: its sheets and the styles that values have by default.
#[derive(Debug)]
pub struct WorkBook {
    pub sheets: Vec<Sheet>,
    pub def_styles: Vec<(ValueType, String)>,
    /// The version of the document format.
    pub version: String,
    /// The entries of the manifest; no two have the same path.
    pub manifest: Vec<Manifest>,
    pub metadata: Metadata,
    /// The settings, each under its name.
    pub config: Vec<(String, ConfigItem)>,
    pub fonts: Vec<FontFaceDecl>,
    pub styles: Vec<Style>,
    pub formats: Vec<ValueFormat>,
    pub pagestyles: Vec<PageStyle>,
    pub masterpages: Vec<MasterPage>,
    pub validations: Vec<Validation>,
    /// Foreign tags that are carried through unchanged.
    pub extra: Vec<XmlTag>,
}

impl WorkBook {
    /// A workbook can be written when it has a sheet, each sheet is in
    /// order, and each value format is for a kind of value that has content.
    pub open spec fn wf(&self) -> bool {
        &&& self.sheets@.len() > 0
        &&& forall|i: int| 0 <= i < self.sheets@.len() ==> (#[trigger] self.sheets@[i]).wf()
        &&& formats_typed(self.formats@)
    }

    /// A workbook without sheets, for version 1.3 of the document format.
    pub fn new() -> (b: WorkBook)
        ensures
            b.sheets@.len() == 0,
            b.def_styles@.len() == 0,
            b.version@ == "1.3"@,
            b.manifest@.len() == 0,
            b.config@.len() == 0,
            b.fonts@.len() == 0,
            b.styles@.len() == 0,
            b.formats@.len() == 0,
            b.pagestyles@.len() == 0,
            b.masterpages@.len() == 0,
            b.validations@.len() == 0,
            b.extra@.len() == 0,
    {
        WorkBook {
            sheets: Vec::new(),
            def_styles: Vec::new(),
            version: "1.3".to_owned(),
            manifest: Vec::new(),
            metadata: Metadata::new(),
            config: Vec::new(),
            fonts: Vec::new(),
            styles: Vec::new(),
            formats: Vec::new(),
            pagestyles: Vec::new(),
            masterpages: Vec::new(),
            validations: Vec::new(),
            extra: Vec::new(),
        }
    }

    /// The default style for values of the kind `t`, if there is one.
    pub fn def_style(&self, t: ValueType) -> (s: Option<&String>)
        ensures
            match s {
                Some(name) => def_style_of(self.def_styles@, t) == Some(*name),
                None => def_style_of(self.def_styles@, t) is None,
            },
    {
        let mut i: usize = 0;
        assert(self.def_styles@.skip(0) == self.def_styles@);
        while i < self.def_styles.len()
            invariant
                i <= self.def_styles.len(),
                def_style_of(self.def_styles@, t) == def_style_of(
                    self.def_styles@.skip(i as int),
                    t,
                ),
            decreases self.def_styles.len() - i,
        {
            proof {
                let rest = self.def_styles@.skip(i as int);
                assert(rest[0] == self.def_styles@[i as int]);
                assert(rest.drop_first() == self.def_styles@.skip(i + 1));
            }
            if self.def_styles[i].0 == t {
                return Some(&self.def_styles[i].1);
            }
            i += 1;
        }
        None
    }
}

} // verus!
