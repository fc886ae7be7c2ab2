//! The table of a sheet, written cell by cell.

use crate::error::OdsError;
use crate::escape::escaped;
use crate::markup::{
    placed_tags_text, TagPlace,
    cell_error, cell_text, columns_text, content_writable, fillers_text, first_unwritable,
    gap_text, opt_attr_text, render, row_head_text, sheet_error, sheet_writable,
    table_attrs_text, table_text,
};
use crate::refs::CellRange;
use crate::render::lemma_render_concat;
use crate::sheet::{Sheet, WorkBook};
use crate::spans::SpanTracker;
use crate::text::{
    lemma_append2, lemma_append3, lemma_append4, lemma_append5, lemma_append_empty,
};
use crate::validate::{check_sheet, is_sheet_fault};
use crate::write::attrs::{attr_value_esc, opt_attr};
use crate::write::cells::{check_content, write_cell, write_placed_tags};
use crate::write::rows::{
    with_bracket, write_empty_cells, write_empty_rows_before, write_end_current_row,
    write_start_current_row, write_table_columns,
};
use crate::xmlwriter::{attr_text, end_tag_text, open_tag_text, Open, XmlWriter};
use vstd::prelude::*;

verus! {

/// The stack of open elements before the cell `i` is written, over the
/// elements `base` that are open around the rows: inside a row, the row is
/// open, within the header rows where it is one of them; between rows, the
/// header rows are open where they go on after the row before.
pub open spec fn stack_at(base: Seq<Seq<char>>, sheet: &Sheet, i: int) -> Seq<Seq<char>> {
    if 0 < i < sheet.cells@.len() && !sheet.starts_row(i) {
        with_bracket(base, sheet.header.open_in(sheet.cells@[i].row as int)).push(
            "table:table-row"@,
        )
    } else {
        with_bracket(base, i > 0 && sheet.header.open_before(sheet.cells@[i - 1].row + 1))
    }
}

/// Writes what comes before the cell `i` where it begins a row: the empty
/// rows of the gap, the start of the row and the blank cells before the
/// cell.
fn write_block_head(
    sheet: &Sheet,
    i: usize,
    max_cell: (u32, u32),
    xml_out: &mut XmlWriter,
    Ghost(base): Ghost<Seq<Seq<char>>>,
) -> (r: Result<(), OdsError>)
    requires
        sheet.wf(),
        i < sheet.cells@.len(),
        max_cell == sheet.extent,
        old(xml_out).open_elements() == stack_at(base, sheet, i as int),
    ensures
        r is Ok,
        final(xml_out).document() == old(xml_out).document() + sheet.block_head_text(i as int),
        final(xml_out).open_elements() == with_bracket(
            base,
            sheet.header.open_in(sheet.cells@[i as int].row as int),
        ).push("table:table-row"@),
{
    let cur_row = sheet.cells[i].row;
    let first_cell = i == 0;
    proof {
        lemma_append_empty(xml_out.document());
    }
    // A row begins with the first cell and wherever the row changes.
    if first_cell || sheet.cells[i - 1].row != cur_row {
        // The rows that the populated row before stands for are not filled again.
        let from: u64 = if first_cell {
            0
        } else {
            let last_r = sheet.cells[i - 1].row;
            last_r as u64 + sheet.repeat_of(last_r) as u64
        };
        proof {
            if !first_cell {
                sheet.lemma_bracket_steady(i as int);
            }
            lemma_append2(
                xml_out.document(),
                gap_text(sheet, sheet.gap_start(i as int), cur_row as int, max_cell.1 as int),
                row_head_text(sheet, cur_row as int, sheet.cells@[i as int].col as int),
            );
            assert(base.push("table:table-header-rows"@).drop_last() == base);
        }
        if from < cur_row as u64 {
            write_empty_rows_before(sheet, from as u32, cur_row, max_cell, xml_out)?;
        }
        assert(xml_out.open_elements() == with_bracket(
            base,
            sheet.header.open_before(cur_row as int),
        ));
        write_start_current_row(sheet, cur_row, sheet.cells[i].col, xml_out)?;
    }
    Ok(())
}

/// Writes the cell `i` and the blank cells after it, and registers the
/// cell's span where it is a merged cell that is not itself covered.
fn write_block_body(
    book: &WorkBook,
    sheet: &Sheet,
    i: usize,
    max_cell: (u32, u32),
    spans: &mut SpanTracker,
    xml_out: &mut XmlWriter,
) -> (r: Result<(), OdsError>)
    requires
        sheet.wf(),
        i < sheet.cells@.len(),
        max_cell == sheet.extent,
        old(spans)@ == sheet.spans_before(i as int),
    ensures
        r is Ok <==> content_writable(&sheet.cells@[i as int].content),
        r is Ok ==> {
            &&& final(xml_out).document() == old(xml_out).document() + sheet.block_body_text(
                book,
                i as int,
            )
            &&& final(xml_out).open_elements() == old(xml_out).open_elements()
            &&& final(spans)@ == sheet.spans_before(i + 1)
        },
        r matches Err(e) ==> e == cell_error(sheet, i as int),
{
    let cell = &sheet.cells[i];
    let cur_row = cell.row;
    let cur_col = cell.col;

    // The blank cells reach to the next populated cell of the row, or to the
    // last column in use.
    let forward_dc = if i == sheet.cells.len() - 1 || sheet.cells[i + 1].row != cur_row {
        max_cell.1 - cur_col
    } else {
        proof {
            assert(sheet.cells@[i + 1 - 1].before(&sheet.cells@[i + 1]));
        }
        sheet.cells[i + 1].col - cur_col
    };
    assert(forward_dc == sheet.forward(i as int));

    spans.prune(cur_row, cur_col);
    assert(spans@ == sheet.active_spans(i as int));

    let (is_hidden, hidden_cols) = spans.query(cur_row, cur_col);
    proof {
        lemma_append2(
            xml_out.document(),
            cell_text(book, &cell.content, is_hidden),
            fillers_text(forward_dc - 1, hidden_cols as int),
        );
    }

    match write_cell(book, &cell.content, is_hidden, xml_out) {
        Ok(()) => {},
        Err(OdsError::Date { at: _, secs, nanos }) => {
            // the error is handed on with the place of the cell
            return Err(OdsError::Date { at: Some((cur_row, cur_col)), secs, nanos });
        },
        Err(e) => {
            return Err(e);
        },
    }

    write_empty_cells(forward_dc, hidden_cols, xml_out)?;

    // A merged cell under another merged cell does not count.
    if let Some(span) = cell.content.span {
        if !is_hidden && (span.row_span > 1 || span.col_span > 1) {
            spans.register(CellRange::origin_span(cur_row, cur_col, span));
        }
    }
    Ok(())
}

/// Writes what comes after the cell `i` where it ends a row.
fn write_block_tail(
    sheet: &Sheet,
    i: usize,
    xml_out: &mut XmlWriter,
    Ghost(base): Ghost<Seq<Seq<char>>>,
) -> (r: Result<(), OdsError>)
    requires
        sheet.wf(),
        i < sheet.cells@.len(),
        old(xml_out).open_elements() == with_bracket(
            base,
            sheet.header.open_in(sheet.cells@[i as int].row as int),
        ).push("table:table-row"@),
    ensures
        r is Ok,
        final(xml_out).document() == old(xml_out).document() + sheet.block_tail_text(i as int),
        final(xml_out).open_elements() == stack_at(base, sheet, i + 1),
{
    let cur_row = sheet.cells[i].row;
    proof {
        lemma_append_empty(xml_out.document());
        let inner = with_bracket(base, sheet.header.open_in(cur_row as int));
        assert(inner.push("table:table-row"@).drop_last() == inner);
        assert(base.push("table:table-header-rows"@).drop_last() == base);
    }
    if i == sheet.cells.len() - 1 || sheet.cells[i + 1].row != cur_row {
        write_end_current_row(sheet, cur_row, xml_out)?;
    }
    Ok(())
}

/// Writes all that belongs to the cell `i`, over the open elements `base`.
fn write_block(
    book: &WorkBook,
    sheet: &Sheet,
    i: usize,
    max_cell: (u32, u32),
    spans: &mut SpanTracker,
    xml_out: &mut XmlWriter,
    Ghost(base): Ghost<Seq<Seq<char>>>,
) -> (r: Result<(), OdsError>)
    requires
        sheet.wf(),
        i < sheet.cells@.len(),
        max_cell == sheet.extent,
        old(spans)@ == sheet.spans_before(i as int),
        old(xml_out).open_elements() == stack_at(base, sheet, i as int),
    ensures
        r is Ok <==> content_writable(&sheet.cells@[i as int].content),
        r is Ok ==> {
            &&& final(xml_out).document() == old(xml_out).document() + render(
                book,
                sheet,
                sheet.block(i as int),
            )
            &&& final(xml_out).open_elements() == stack_at(base, sheet, i + 1)
            &&& final(spans)@ == sheet.spans_before(i + 1)
        },
        r matches Err(e) ==> e == cell_error(sheet, i as int),
{
    proof {
        sheet.lemma_render_block(book, i as int);
        lemma_append3(
            xml_out.document(),
            sheet.block_head_text(i as int),
            sheet.block_body_text(book, i as int),
            sheet.block_tail_text(i as int),
        );
    }
    write_block_head(sheet, i, max_cell, xml_out, Ghost(base))?;
    write_block_body(book, sheet, i, max_cell, spans, xml_out)?;
    write_block_tail(sheet, i, xml_out, Ghost(base))?;
    Ok(())
}

/// The open elements around the rows are those that are left when the row
/// and the header rows are taken off.
pub proof fn lemma_stack_base(a: Seq<Seq<char>>, b: Seq<Seq<char>>, sheet: &Sheet, i: int)
    requires
        stack_at(a, sheet, i) == stack_at(b, sheet, i),
    ensures
        a == b,
{
    let x = "table:table-header-rows"@;
    let y = "table:table-row"@;
    assert(a.push(x).drop_last() == a);
    assert(b.push(x).drop_last() == b);
    assert(a.push(y).drop_last() == a);
    assert(b.push(y).drop_last() == b);
    assert(a.push(x).push(y).drop_last() == a.push(x));
    assert(b.push(x).push(y).drop_last() == b.push(x));
}

/// Finds out whether the cell `i` can be written; the error names the place
/// of the cell.
fn check_cell(sheet: &Sheet, i: usize) -> (r: Result<(), OdsError>)
    requires
        i < sheet.cells@.len(),
    ensures
        r is Ok <==> content_writable(&sheet.cells@[i as int].content),
        r matches Err(e) ==> e == cell_error(sheet, i as int),
{
    let cell = &sheet.cells[i];
    match check_content(&cell.content) {
        Ok(()) => Ok(()),
        Err(OdsError::Date { at: _, secs, nanos }) => Err(
            OdsError::Date { at: Some((cell.row, cell.col)), secs, nanos },
        ),
        Err(e) => Err(e),
    }
}

/// Finds out whether every cell of the sheet can be written; the error is
/// that of the first cell that cannot.
pub fn check_cells(sheet: &Sheet) -> (r: Result<(), OdsError>)
    ensures
        r is Ok <==> sheet_writable(sheet),
        r matches Err(e) ==> e == sheet_error(sheet),
{
    let mut i: usize = 0;
    while i < sheet.cells.len()
        invariant
            i <= sheet.cells.len(),
            first_unwritable(sheet, i as int) is None,
        decreases sheet.cells.len() - i,
    {
        proof {
            if !content_writable(&sheet.cells@[i as int].content) {
                lemma_first_unwritable_stays(sheet, i + 1, sheet.cells@.len() as int);
            }
        }
        check_cell(sheet, i)?;
        i += 1;
    }
    Ok(())
}

/// What the encoder carries from one populated cell to the next: the index
/// of the cell that comes next, and the merged cells that are still ahead.
#[derive(Debug)]
pub struct EncoderState {
    pub index: usize,
    pub spans: SpanTracker,
}

impl EncoderState {
    /// Whether this is the state in which the sheet is when the cells before
    /// `index` are written.
    pub open spec fn fits(&self, sheet: &Sheet) -> bool {
        self.index <= sheet.cells@.len() && self.spans@ == sheet.spans_before(self.index as int)
    }

    /// The state before the first cell.
    pub fn new() -> (state: EncoderState)
        ensures
            state.index == 0,
            state.spans@ == Seq::<CellRange>::empty(),
    {
        EncoderState { index: 0, spans: SpanTracker::new() }
    }
}

/// Writes all that belongs to the next cell: the step from one populated
/// cell to the next. It takes the state before the cell and gives the state
/// after it. Before the first cell nothing of the rows is open; each step
/// leaves open what the next one expects.
pub fn write_grid_cell(
    book: &WorkBook,
    sheet: &Sheet,
    state: EncoderState,
    xml_out: &mut XmlWriter,
) -> (r: Result<EncoderState, OdsError>)
    requires
        sheet.wf(),
        state.fits(sheet),
        state.index < sheet.cells@.len(),
        exists|base: Seq<Seq<char>>|
            old(xml_out).open_elements() == #[trigger] stack_at(base, sheet, state.index as int),
    ensures
        r is Ok <==> content_writable(&sheet.cells@[state.index as int].content),
        r matches Ok(next) ==> {
            &&& next.index == state.index + 1
            &&& next.fits(sheet)
            &&& final(xml_out).document() == old(xml_out).document() + render(
                book,
                sheet,
                sheet.block(state.index as int),
            )
            &&& forall|base: Seq<Seq<char>>|
                old(xml_out).open_elements() == #[trigger] stack_at(
                    base,
                    sheet,
                    state.index as int,
                ) ==> final(xml_out).open_elements() == stack_at(base, sheet, state.index + 1)
        },
        r matches Err(e) ==> e == cell_error(sheet, state.index as int) && *final(xml_out)
            == *old(xml_out),
{
    if let Err(e) = check_cell(sheet, state.index) {
        return Err(e);
    }
    let ghost base = choose|base: Seq<Seq<char>>|
        xml_out.open_elements() == #[trigger] stack_at(base, sheet, state.index as int);
    proof {
        assert forall|other: Seq<Seq<char>>|
            xml_out.open_elements() == #[trigger] stack_at(
                other,
                sheet,
                state.index as int,
            ) implies other == base by {
            lemma_stack_base(other, base, sheet, state.index as int);
        }
    }
    let mut state = state;
    let cells = sheet.cells.len();
    write_block(
        book,
        sheet,
        state.index,
        sheet.used_grid_size(),
        &mut state.spans,
        xml_out,
        Ghost(base),
    )?;
    assert(state.index < cells);
    state.index = state.index + 1;
    Ok(state)
}

/// Writes the attributes of the table element.
fn write_table_attrs(sheet: &Sheet, xml_out: &mut XmlWriter) -> (r: Result<(), OdsError>)
    requires
        old(xml_out).open_state() != Open::Nothing,
    ensures
        r is Ok,
        final(xml_out).written() == old(xml_out).written() + table_attrs_text(sheet),
        final(xml_out).open_state() == old(xml_out).open_state(),
        final(xml_out).open_elements() == old(xml_out).open_elements(),
{
    let ghost print = if !sheet.print {
        attr_text("table:print"@, "false"@)
    } else {
        Seq::empty()
    };
    let ghost display = if !sheet.display {
        attr_text("table:display"@, "false"@)
    } else {
        Seq::empty()
    };
    proof {
        reveal(table_attrs_text);
        reveal_strlit("table:name");
        reveal_strlit("table:style-name");
        reveal_strlit("table:print-ranges");
        lemma_append5(
            xml_out.written(),
            attr_text("table:name"@, escaped(sheet.name@, false)),
            opt_attr_text("table:style-name"@, sheet.style),
            opt_attr_text("table:print-ranges"@, sheet.print_ranges),
            print,
            display,
        );
    }
    attr_value_esc(xml_out, "table:name", sheet.name.as_str())?;
    opt_attr(xml_out, "table:style-name", &sheet.style)?;
    opt_attr(xml_out, "table:print-ranges", &sheet.print_ranges)?;
    proof {
        lemma_append_empty(xml_out.written());
    }
    if !sheet.print {
        xml_out.attr("table:print", "false")?;
    }
    proof {
        lemma_append_empty(xml_out.written());
    }
    if !sheet.display {
        xml_out.attr("table:display", "false")?;
    }
    Ok(())
}

/// Writes the rows of a sheet, cell by cell.
fn write_table_rows(
    book: &WorkBook,
    sheet: &Sheet,
    max_cell: (u32, u32),
    xml_out: &mut XmlWriter,
) -> (r: Result<(), OdsError>)
    requires
        sheet.wf(),
        max_cell == sheet.extent,
    ensures
        r is Ok <==> sheet_writable(sheet),
        r is Ok ==> {
            &&& final(xml_out).document() == old(xml_out).document() + render(
                book,
                sheet,
                sheet.layout(),
            )
            &&& final(xml_out).open_elements() == old(xml_out).open_elements()
        },
        r matches Err(e) ==> e == sheet_error(sheet),
{
    let ghost start = xml_out.document();
    let ghost base = xml_out.open_elements();
    let mut spans = SpanTracker::new();
    let mut i: usize = 0;
    proof {
        lemma_append_empty(start);
    }
    while i < sheet.cells.len()
        invariant
            i <= sheet.cells.len(),
            sheet.wf(),
            max_cell == sheet.extent,
            spans@ == sheet.spans_before(i as int),
            xml_out.open_elements() == stack_at(base, sheet, i as int),
            xml_out.document() == start + render(book, sheet, sheet.layout_upto(i as int)),
            first_unwritable(sheet, i as int) is None,
        decreases sheet.cells.len() - i,
    {
        proof {
            lemma_append2(
                start,
                render(book, sheet, sheet.layout_upto(i as int)),
                render(book, sheet, sheet.block(i as int)),
            );
            lemma_render_concat(
                book,
                sheet,
                sheet.layout_upto(i as int),
                sheet.block(i as int),
            );
            if !content_writable(&sheet.cells@[i as int].content) {
                lemma_first_unwritable_stays(sheet, i + 1, sheet.cells@.len() as int);
            }
        }
        write_block(book, sheet, i, max_cell, &mut spans, xml_out, Ghost(base))?;
        i += 1;
    }
    proof {
        if sheet.cells@.len() > 0 {
            let last = sheet.cells@[sheet.cells@.len() - 1].row;
            if let Some(h) = sheet.header.rows {
                sheet.lemma_written_bound(h.to_row as int);
            }
            assert(!sheet.header.open_before(last + 1));
        }
    }
    Ok(())
}

/// Once a cell that cannot be written is found among the first cells, it
/// stays the first one when more cells are looked at.
pub proof fn lemma_first_unwritable_stays(sheet: &Sheet, n: int, m: int)
    requires
        0 <= n <= m,
        first_unwritable(sheet, n) is Some,
    ensures
        first_unwritable(sheet, m) == first_unwritable(sheet, n),
    decreases m - n,
{
    if n < m {
        lemma_first_unwritable_stays(sheet, n, m - 1);
    }
}

/// Writes the table of a sheet that is in order: the table element with its
/// attributes, the foreign tags, the columns, and the rows with their cells.
/// A sheet with a date that has no text is refused before anything is
/// written.
pub fn write_table(book: &WorkBook, sheet: &Sheet, xml_out: &mut XmlWriter) -> (r: Result<
    (),
    OdsError,
>)
    requires
        sheet.wf(),
    ensures
        r is Ok <==> sheet_writable(sheet),
        r is Ok ==> {
            &&& final(xml_out).document() == old(xml_out).document() + table_text(book, sheet)
            &&& final(xml_out).open_elements() == old(xml_out).open_elements()
        },
        r matches Err(e) ==> e == sheet_error(sheet) && *final(xml_out) == *old(xml_out),
{
    check_cells(sheet)?;
    let ghost start = xml_out.document();
    let ghost stack = xml_out.open_elements();
    xml_out.elem("table:table")?;
    write_table_attrs(sheet, xml_out)?;

    let max_cell = sheet.used_grid_size();
    proof {
        reveal(table_text);
        lemma_append3(start, open_tag_text("table:table"@), table_attrs_text(sheet), seq!['>']);
        lemma_append4(
            start,
            open_tag_text("table:table"@) + table_attrs_text(sheet) + seq!['>'],
            placed_tags_text(sheet.extra@, TagPlace::TableHead),
            columns_text(sheet, sheet.extent.1 as int),
            render(book, sheet, sheet.layout()),
        );
        lemma_append3(
            start,
            open_tag_text("table:table"@) + table_attrs_text(sheet) + seq!['>']
                + placed_tags_text(sheet.extra@, TagPlace::TableHead) + columns_text(
                sheet,
                sheet.extent.1 as int,
            ) + render(book, sheet, sheet.layout()),
            end_tag_text("table:table"@),
            placed_tags_text(sheet.extra@, TagPlace::TableTail),
        );
    }
    write_placed_tags(&sheet.extra, TagPlace::TableHead, xml_out)?;

    write_table_columns(sheet, max_cell, xml_out)?;

    write_table_rows(book, sheet, max_cell, xml_out)?;

    assert(xml_out.open_elements().drop_last() == stack);
    xml_out.end_elem("table:table")?;
    write_placed_tags(&sheet.extra, TagPlace::TableTail, xml_out)?;

    Ok(())
}

/// Writes the table of a sheet. The sheet is looked over first: where it is
/// not in order, or holds a date that has no text, nothing is written.
pub fn write_sheet(book: &WorkBook, sheet: &Sheet, xml_out: &mut XmlWriter) -> (r: Result<
    (),
    OdsError,
>)
    ensures
        r is Ok <==> sheet.wf() && sheet_writable(sheet),
        r is Ok ==> {
            &&& final(xml_out).document() == old(xml_out).document() + table_text(book, sheet)
            &&& final(xml_out).open_elements() == old(xml_out).open_elements()
        },
        r is Err ==> *final(xml_out) == *old(xml_out),
        r matches Err(e) ==> if sheet.wf() {
            e == sheet_error(sheet)
        } else {
            is_sheet_fault(sheet, e)
        },
{
    check_sheet(sheet)?;
    write_table(book, sheet, xml_out)
}

} // verus!
