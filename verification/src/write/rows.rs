//! Rows and columns: the empty rows of a gap, the start and the end of a
//! populated row, the blank cells between populated cells, and the columns.

use crate::error::OdsError;
use crate::layout::run_end;
use crate::markup::{
    cell_tag, col_meta_text, column_text, columns_text, count_attr_text, empty_rows_text,
    filler_text, fillers_text, gap_run_text, gap_text, header_close_text, header_open_text,
    row_head_text, row_meta_text, row_start_text, row_tail_text,
};
use crate::sheet::{HeaderRegion, Sheet};
use crate::text::{lemma_append2, lemma_append3, lemma_append4, lemma_append_empty};
use crate::write::attrs::{count_attr, write_col_meta, write_row_meta, xml};
use crate::xmlwriter::{end_tag_text, open_tag_text, Open, XmlWriter};
use vstd::prelude::*;

verus! {

/// The stack of open elements with the header rows on top, where they are
/// open.
pub open spec fn with_bracket(base: Seq<Seq<char>>, open: bool) -> Seq<Seq<char>> {
    if open {
        base.push("table:table-header-rows"@)
    } else {
        base
    }
}

/// The stack of open elements below the header rows, where they are open.
pub open spec fn without_bracket(stack: Seq<Seq<char>>, open: bool) -> Seq<Seq<char>> {
    if open {
        stack.drop_last()
    } else {
        stack
    }
}

/// Whether the stack of open elements has the header rows on top.
pub open spec fn bracket_on_top(stack: Seq<Seq<char>>) -> bool {
    stack.len() > 0 && stack.last() == "table:table-header-rows"@
}

/// Writes one self-closing cell element that stands for `count` blank cells,
/// under a merged cell or not.
pub(crate) fn write_filler(covered: bool, count: u32, xml_out: &mut XmlWriter) -> (r: Result<
    (),
    OdsError,
>)
    ensures
        r is Ok,
        final(xml_out).document() == old(xml_out).document() + filler_text(
            cell_tag(covered),
            count as int,
        ),
        final(xml_out).open_elements() == old(xml_out).open_elements(),
        final(xml_out).open_state() == Open::Empty,
{
    proof {
        reveal(filler_text);
        lemma_append3(
            xml_out.document(),
            open_tag_text(cell_tag(covered)),
            count_attr_text("table:number-columns-repeated"@, count as int),
            seq!['/', '>'],
        );
    }
    if covered {
        xml_out.empty("table:covered-table-cell")?;
    } else {
        xml_out.empty("table:table-cell")?;
    }
    count_attr(xml_out, "table:number-columns-repeated", count)?;
    Ok(())
}

/// Opens the header rows where they begin at `row`.
fn open_header_rows(sheet: &Sheet, row: u32, xml_out: &mut XmlWriter) -> (r: Result<(), OdsError>)
    ensures
        r is Ok,
        final(xml_out).document() == old(xml_out).document() + header_open_text(
            sheet.header,
            row as int,
        ),
        final(xml_out).open_elements() == with_bracket(
            old(xml_out).open_elements(),
            sheet.header.spec_row_opens_at(row as int),
        ),
{
    proof {
        reveal(header_open_text);
        lemma_append_empty(xml_out.document());
    }
    if sheet.header.row_opens_at(row) {
        xml_out.elem("table:table-header-rows")?;
    }
    Ok(())
}

/// Closes the header rows where they end at `row`. It is refused where they
/// are not the innermost open element.
fn close_header_rows(sheet: &Sheet, row: u32, xml_out: &mut XmlWriter) -> (r: Result<(), OdsError>)
    ensures
        r is Ok <==> (sheet.header.spec_row_closes_at(row as int) ==> bracket_on_top(
            old(xml_out).open_elements(),
        )),
        r is Ok ==> {
            &&& final(xml_out).document() == old(xml_out).document() + header_close_text(
                sheet.header,
                row as int,
            )
            &&& final(xml_out).open_elements() == without_bracket(
                old(xml_out).open_elements(),
                sheet.header.spec_row_closes_at(row as int),
            )
        },
        r matches Err(e) ==> e is Xml,
{
    proof {
        reveal(header_close_text);
        lemma_append_empty(xml_out.document());
    }
    if sheet.header.row_closes_at(row) {
        xml(xml_out.end_elem("table:table-header-rows"))?;
    }
    Ok(())
}

/// Writes one row element that stands for `empty_count` empty rows.
pub fn write_empty_row(
    sheet: &Sheet,
    cur_row: u32,
    empty_count: u32,
    max_cell: (u32, u32),
    xml_out: &mut XmlWriter,
) -> (r: Result<(), OdsError>)
    ensures
        r is Ok,
        final(xml_out).document() == old(xml_out).document() + empty_rows_text(
            sheet,
            cur_row as int,
            empty_count as int,
            max_cell.1 as int,
        ),
        final(xml_out).open_elements() == old(xml_out).open_elements(),
        final(xml_out).open_state() == Open::Nothing,
{
    let ghost start = xml_out.document();
    xml_out.elem("table:table-row")?;
    count_attr(xml_out, "table:number-rows-repeated", empty_count)?;
    write_row_meta(sheet, cur_row, xml_out)?;
    let ghost tag = xml_out.document();

    // One blank cell stands for all the columns in use.
    write_filler(false, max_cell.1, xml_out)?;

    assert(xml_out.open_elements().drop_last() == old(xml_out).open_elements());
    xml_out.end_elem("table:table-row")?;
    proof {
        reveal(empty_rows_text);
        let a = open_tag_text("table:table-row"@);
        let b = count_attr_text("table:number-rows-repeated"@, empty_count as int);
        let c = row_meta_text(sheet, cur_row);
        let d = seq!['>'];
        lemma_append4(start, a, b, c, d);
        assert(tag == start + (a + b + c + d));
        lemma_append3(
            start,
            a + b + c + d,
            filler_text("table:table-cell"@, max_cell.1 as int),
            end_tag_text("table:table-row"@),
        );
    }

    Ok(())
}

/// Where the run of empty rows that begins at `from` ends.
fn gap_run_end(header: &HeaderRegion, from: u32, to: u32) -> (stop: u32)
    requires
        from < to,
        header.wf(),
    ensures
        stop == run_end(*header, from as int, to as int),
        from < stop <= to,
{
    let mut stop = to;
    if let Some(r) = header.rows {
        if from < r.row && r.row < stop {
            stop = r.row;
        }
        if from <= r.to_row && r.to_row < stop - 1 {
            stop = r.to_row + 1;
        }
    }
    stop
}

/// Writes one run of empty rows, from `from` up to `stop`, with the header
/// tags that belong before and after it.
fn write_gap_run(
    sheet: &Sheet,
    from: u32,
    stop: u32,
    max_cell: (u32, u32),
    xml_out: &mut XmlWriter,
) -> (r: Result<(), OdsError>)
    requires
        from < stop,
        sheet.header.spec_row_closes_at(stop - 1) && !sheet.header.spec_row_opens_at(from as int)
            ==> bracket_on_top(old(xml_out).open_elements()),
    ensures
        r is Ok,
        final(xml_out).document() == old(xml_out).document() + gap_run_text(
            sheet,
            from as int,
            stop as int,
            max_cell.1 as int,
        ),
        final(xml_out).open_elements() == without_bracket(
            with_bracket(old(xml_out).open_elements(), sheet.header.spec_row_opens_at(from as int)),
            sheet.header.spec_row_closes_at(stop - 1),
        ),
{
    proof {
        reveal(gap_run_text);
        lemma_append3(
            xml_out.document(),
            header_open_text(sheet.header, from as int),
            empty_rows_text(sheet, from as int, stop - from, max_cell.1 as int),
            header_close_text(sheet.header, stop - 1),
        );
    }
    open_header_rows(sheet, from, xml_out)?;
    write_empty_row(sheet, from, stop - from, max_cell, xml_out)?;
    close_header_rows(sheet, stop - 1, xml_out)?;
    Ok(())
}

/// Writes the empty rows from `from_row` up to `cur_row`, which is left out.
/// The run is cut where the header rows begin and after they end, so that
/// the tags around the header rows stand exactly there.
pub fn write_empty_rows_before(
    sheet: &Sheet,
    from_row: u32,
    cur_row: u32,
    max_cell: (u32, u32),
    xml_out: &mut XmlWriter,
) -> (r: Result<(), OdsError>)
    requires
        sheet.header.wf(),
        sheet.header.open_before(from_row as int) ==> bracket_on_top(
            old(xml_out).open_elements(),
        ),
    ensures
        r is Ok,
        final(xml_out).document() == old(xml_out).document() + gap_text(
            sheet,
            from_row as int,
            cur_row as int,
            max_cell.1 as int,
        ),
        from_row < cur_row ==> final(xml_out).open_elements() == with_bracket(
            without_bracket(
                old(xml_out).open_elements(),
                sheet.header.open_before(from_row as int),
            ),
            sheet.header.open_before(cur_row as int),
        ),
        from_row >= cur_row ==> final(xml_out).open_elements() == old(xml_out).open_elements(),
{
    let ghost start = xml_out.document();
    let ghost base = without_bracket(
        xml_out.open_elements(),
        sheet.header.open_before(from_row as int),
    );
    let ghost columns = max_cell.1 as int;
    let mut from = from_row;
    proof {
        assert(xml_out.open_elements() == with_bracket(
            base,
            sheet.header.open_before(from as int),
        ));
        lemma_append_empty(start);
    }
    while from < cur_row
        invariant
            from_row <= from,
            from_row < cur_row ==> from <= cur_row,
            sheet.header.wf(),
            columns == max_cell.1 as int,
            start + gap_text(sheet, from_row as int, cur_row as int, columns) == xml_out.document()
                + gap_text(sheet, from as int, cur_row as int, columns),
            from_row < cur_row ==> xml_out.open_elements() == with_bracket(
                base,
                sheet.header.open_before(from as int),
            ),
            from_row >= cur_row ==> xml_out.open_elements() == old(xml_out).open_elements(),
        decreases cur_row - from,
    {
        let stop = gap_run_end(&sheet.header, from, cur_row);
        proof {
            lemma_append2(
                xml_out.document(),
                gap_run_text(sheet, from as int, stop as int, columns),
                gap_text(sheet, stop as int, cur_row as int, columns),
            );
            assert(base.push("table:table-header-rows"@).drop_last() == base);
        }
        write_gap_run(sheet, from, stop, max_cell, xml_out)?;
        from = stop;
    }
    proof {
        lemma_append_empty(xml_out.document());
    }
    Ok(())
}

/// Writes the blank cells after a populated cell. Of the `forward_dc - 1`
/// cells up to the next populated cell, the first `hidden_cols` lie under a
/// merged cell.
pub fn write_empty_cells(forward_dc: u32, hidden_cols: u32, xml_out: &mut XmlWriter) -> (r: Result<
    (),
    OdsError,
>)
    requires
        forward_dc >= 1,
    ensures
        r is Ok,
        final(xml_out).document() == old(xml_out).document() + fillers_text(
            forward_dc - 1,
            hidden_cols as int,
        ),
        final(xml_out).open_elements() == old(xml_out).open_elements(),
{
    let total = forward_dc - 1;
    // The covered cells come first, the plain ones after them.
    let hidden = if hidden_cols < total {
        hidden_cols
    } else {
        total
    };
    proof {
        reveal(fillers_text);
        lemma_append_empty(xml_out.document());
        lemma_append_empty(filler_text("table:covered-table-cell"@, hidden as int));
        lemma_append_empty(filler_text("table:table-cell"@, total - hidden));
        lemma_append2(
            xml_out.document(),
            filler_text("table:covered-table-cell"@, hidden as int),
            filler_text("table:table-cell"@, total - hidden),
        );
    }
    if hidden > 0 {
        write_filler(true, hidden, xml_out)?;
    }
    if total - hidden > 0 {
        write_filler(false, total - hidden, xml_out)?;
    }

    Ok(())
}

/// Writes the start tag of the populated row `row`.
fn write_row_start(sheet: &Sheet, row: u32, xml_out: &mut XmlWriter) -> (r: Result<(), OdsError>)
    ensures
        r is Ok,
        final(xml_out).document() == old(xml_out).document() + row_start_text(sheet, row as int),
        final(xml_out).open_elements() == old(xml_out).open_elements().push("table:table-row"@),
{
    let ghost start = xml_out.document();
    xml_out.elem("table:table-row")?;
    let repeat = sheet.repeat_of(row);
    let ghost counted = if repeat > 1 {
        count_attr_text("table:number-rows-repeated"@, repeat as int)
    } else {
        Seq::empty()
    };
    proof {
        lemma_append_empty(xml_out.written());
    }
    if repeat > 1 {
        count_attr(xml_out, "table:number-rows-repeated", repeat)?;
    }
    assert(xml_out.written() == start + open_tag_text("table:table-row"@) + counted);
    write_row_meta(sheet, row, xml_out)?;
    proof {
        reveal(row_start_text);
        lemma_append4(
            start,
            open_tag_text("table:table-row"@),
            counted,
            row_meta_text(sheet, row),
            seq!['>'],
        );
    }
    Ok(())
}

/// Begins the row `cur_row`: opens the header rows where they begin here,
/// writes the start tag of the row and one element for the `backward_dc`
/// blank cells before the first populated cell.
pub fn write_start_current_row(
    sheet: &Sheet,
    cur_row: u32,
    backward_dc: u32,
    xml_out: &mut XmlWriter,
) -> (r: Result<(), OdsError>)
    ensures
        r is Ok,
        final(xml_out).document() == old(xml_out).document() + row_head_text(
            sheet,
            cur_row as int,
            backward_dc as int,
        ),
        final(xml_out).open_elements() == with_bracket(
            old(xml_out).open_elements(),
            sheet.header.spec_row_opens_at(cur_row as int),
        ).push("table:table-row"@),
{
    let ghost leading = if backward_dc > 0 {
        filler_text("table:table-cell"@, backward_dc as int)
    } else {
        Seq::empty()
    };
    proof {
        reveal(row_head_text);
        lemma_append3(
            xml_out.document(),
            header_open_text(sheet.header, cur_row as int),
            row_start_text(sheet, cur_row as int),
            leading,
        );
    }
    open_header_rows(sheet, cur_row, xml_out)?;
    write_row_start(sheet, cur_row, xml_out)?;
    proof {
        lemma_append_empty(xml_out.document());
    }

    // The first populated cell need not be in the first column.
    if backward_dc > 0 {
        write_filler(false, backward_dc, xml_out)?;
    }

    Ok(())
}

/// Ends the row `cur_row` and closes the header rows where they end here.
/// It is refused where the row, or the header rows that end here, are not
/// the innermost open elements.
pub fn write_end_current_row(sheet: &Sheet, cur_row: u32, xml_out: &mut XmlWriter) -> (r: Result<
    (),
    OdsError,
>)
    ensures
        r is Ok <==> {
            let stack = old(xml_out).open_elements();
            &&& stack.len() > 0
            &&& stack.last() == "table:table-row"@
            &&& sheet.header.spec_row_closes_at(cur_row as int) ==> bracket_on_top(
                stack.drop_last(),
            )
        },
        r is Ok ==> {
            &&& final(xml_out).document() == old(xml_out).document() + row_tail_text(
                sheet,
                cur_row as int,
            )
            &&& final(xml_out).open_elements() == without_bracket(
                old(xml_out).open_elements().drop_last(),
                sheet.header.spec_row_closes_at(cur_row as int),
            )
        },
        r matches Err(e) ==> e is Xml,
{
    proof {
        reveal(row_tail_text);
        lemma_append2(
            xml_out.document(),
            end_tag_text("table:table-row"@),
            header_close_text(sheet.header, cur_row as int),
        );
    }
    xml(xml_out.end_elem("table:table-row"))?;

    close_header_rows(sheet, cur_row, xml_out)?;

    Ok(())
}

/// Writes the element for the column `c`, between the tags that open and
/// close the header columns where they begin or end here.
fn write_table_column(sheet: &Sheet, c: u32, xml_out: &mut XmlWriter) -> (r: Result<(), OdsError>)
    requires
        sheet.header.spec_col_closes_at(c as int) && !sheet.header.spec_col_opens_at(c as int)
            ==> old(xml_out).open_elements().len() > 0 && old(xml_out).open_elements().last()
            == "table:table-header-columns"@,
    ensures
        r is Ok,
        final(xml_out).document() == old(xml_out).document() + column_text(sheet, c as int),
        final(xml_out).open_elements() == {
            let stack = old(xml_out).open_elements();
            let opened = if sheet.header.spec_col_opens_at(c as int) {
                stack.push("table:table-header-columns"@)
            } else {
                stack
            };
            if sheet.header.spec_col_closes_at(c as int) {
                opened.drop_last()
            } else {
                opened
            }
        },
{
    let ghost start = xml_out.document();
    let ghost opening = if sheet.header.spec_col_opens_at(c as int) {
        open_tag_text("table:table-header-columns"@) + seq!['>']
    } else {
        Seq::empty()
    };
    let ghost closing = if sheet.header.spec_col_closes_at(c as int) {
        end_tag_text("table:table-header-columns"@)
    } else {
        Seq::empty()
    };
    if sheet.header.col_opens_at(c) {
        xml_out.elem("table:table-header-columns")?;
    }
    proof {
        lemma_append_empty(start);
    }
    let ghost opened = xml_out.document();
    assert(opened == start + opening);

    xml_out.empty("table:table-column")?;
    write_col_meta(sheet, c, xml_out)?;
    let ghost column = open_tag_text("table:table-column"@) + col_meta_text(sheet, c) + seq![
        '/',
        '>',
    ];
    proof {
        lemma_append3(
            opened,
            open_tag_text("table:table-column"@),
            col_meta_text(sheet, c),
            seq!['/', '>'],
        );
        lemma_append_empty(xml_out.document());
    }
    assert(xml_out.document() == opened + column);

    if sheet.header.col_closes_at(c) {
        xml_out.end_elem("table:table-header-columns")?;
    }
    proof {
        reveal(column_text);
        lemma_append3(start, opening, column, closing);
    }
    Ok(())
}

/// Writes one element for each column in use, with the tags around the
/// header columns.
pub fn write_table_columns(sheet: &Sheet, max_cell: (u32, u32), xml_out: &mut XmlWriter) -> (r:
    Result<(), OdsError>)
    requires
        sheet.header.wf(),
        sheet.header.cols matches Some(c) ==> c.to_col < max_cell.1,
    ensures
        r is Ok,
        final(xml_out).document() == old(xml_out).document() + columns_text(
            sheet,
            max_cell.1 as int,
        ),
        final(xml_out).open_elements() == old(xml_out).open_elements(),
{
    let ghost start = xml_out.document();
    let ghost base = xml_out.open_elements();
    let mut c: u32 = 0;
    proof {
        lemma_append_empty(start);
    }
    while c < max_cell.1
        invariant
            c <= max_cell.1,
            sheet.header.wf(),
            sheet.header.cols matches Some(h) ==> h.to_col < max_cell.1,
            xml_out.document() == start + columns_text(sheet, c as int),
            xml_out.open_elements() == if sheet.header.cols matches Some(h) && h.col < c
                <= h.to_col {
                base.push("table:table-header-columns"@)
            } else {
                base
            },
        decreases max_cell.1 - c,
    {
        proof {
            assert(base.push("table:table-header-columns"@).drop_last() == base);
            lemma_append2(start, columns_text(sheet, c as int), column_text(sheet, c as int));
        }
        write_table_column(sheet, c, xml_out)?;
        c += 1;
    }

    Ok(())
}

} // verus!
