//! The text of each element of a table, as the encoder writes it.

use crate::error::OdsError;
use crate::escape::escaped;
use crate::layout::{run_end, Item};
use crate::sheet::{
    def_style_of, visibility_text, CellContent, HeaderRegion, Sheet, Visibility, WorkBook,
};
use crate::text::decimal;
use crate::value::{datetime_text, duration_text, Value};
use crate::xmltree::{tag_text, XmlTag};
use crate::xmlwriter::{attr_text, elem_text_text, end_tag_text, open_tag_text};
use vstd::prelude::*;

verus! {

/// An attribute with an escaped value, where the value is given.
#[verifier::opaque]
pub open spec fn opt_attr_text(name: Seq<char>, value: Option<String>) -> Seq<char> {
    match value {
        Some(v) => attr_text(name, escaped(v@, false)),
        None => Seq::empty(),
    }
}

/// The attribute for a row or column that is not plainly visible.
#[verifier::opaque]
pub open spec fn visibility_attr_text(v: Visibility) -> Seq<char> {
    if v != Visibility::Visible {
        attr_text("table:visibility"@, visibility_text(v))
    } else {
        Seq::empty()
    }
}

/// The attribute that says for how many rows or columns an element stands.
#[verifier::opaque]
pub open spec fn count_attr_text(name: Seq<char>, count: int) -> Seq<char> {
    attr_text(name, decimal(count as nat))
}

/// The attributes that a row takes from its header: style, default cell
/// style and visibility.
#[verifier::opaque]
pub open spec fn row_meta_text(sheet: &Sheet, row: u32) -> Seq<char> {
    if sheet.row_header@.contains_key(row) {
        let h = sheet.row_header@[row];
        opt_attr_text("table:style-name"@, h.style) + opt_attr_text(
            "table:default-cell-style-name"@,
            h.cellstyle,
        ) + visibility_attr_text(h.visible)
    } else {
        Seq::empty()
    }
}

/// The attributes that a column takes from its header.
#[verifier::opaque]
pub open spec fn col_meta_text(sheet: &Sheet, col: u32) -> Seq<char> {
    if sheet.col_header@.contains_key(col) {
        let h = sheet.col_header@[col];
        opt_attr_text("table:style-name"@, h.style) + opt_attr_text(
            "table:default-cell-style-name"@,
            h.cellstyle,
        ) + visibility_attr_text(h.visible)
    } else {
        Seq::empty()
    }
}

/// One self-closing cell element that stands for `count` blank cells.
#[verifier::opaque]
pub open spec fn filler_text(tag: Seq<char>, count: int) -> Seq<char> {
    open_tag_text(tag) + count_attr_text("table:number-columns-repeated"@, count) + seq!['/', '>']
}

/// One row element that stands for `count` empty rows, the first of them
/// `row`: it takes its attributes from the header of that first row and
/// holds one blank cell for all the columns in use.
#[verifier::opaque]
pub open spec fn empty_rows_text(sheet: &Sheet, row: int, count: int, columns: int) -> Seq<char> {
    open_tag_text("table:table-row"@) + count_attr_text("table:number-rows-repeated"@, count)
        + row_meta_text(sheet, row as u32) + seq!['>'] + filler_text("table:table-cell"@, columns)
        + end_tag_text("table:table-row"@)
}

/// The tag that opens the header rows, where they begin at `row`.
#[verifier::opaque]
pub open spec fn header_open_text(header: HeaderRegion, row: int) -> Seq<char> {
    if header.spec_row_opens_at(row) {
        open_tag_text("table:table-header-rows"@) + seq!['>']
    } else {
        Seq::empty()
    }
}

/// The tag that closes the header rows, where they end at `row`.
#[verifier::opaque]
pub open spec fn header_close_text(header: HeaderRegion, row: int) -> Seq<char> {
    if header.spec_row_closes_at(row) {
        end_tag_text("table:table-header-rows"@)
    } else {
        Seq::empty()
    }
}

/// One run of empty rows, from `from` up to `stop`, `stop` left out, with
/// the header tags that belong before and after it.
#[verifier::opaque]
pub open spec fn gap_run_text(sheet: &Sheet, from: int, stop: int, columns: int) -> Seq<char> {
    header_open_text(sheet.header, from) + empty_rows_text(sheet, from, stop - from, columns)
        + header_close_text(sheet.header, stop - 1)
}

/// The empty rows from `from` up to `to`, `to` left out, in as few runs as
/// the header rows allow, with the header tags between them.
pub open spec fn gap_text(sheet: &Sheet, from: int, to: int, columns: int) -> Seq<char>
    decreases to - from,
{
    if from >= to {
        Seq::empty()
    } else {
        let stop = run_end(sheet.header, from, to);
        gap_run_text(sheet, from, stop, columns) + gap_text(sheet, stop, to, columns)
    }
}

/// The beginning of the populated row `row`: the tag that opens the header
/// rows where they begin here, the start tag of the row, and one element for
/// the `leading` blank cells before its first populated cell.
#[verifier::opaque]
pub open spec fn row_head_text(sheet: &Sheet, row: int, leading: int) -> Seq<char> {
    header_open_text(sheet.header, row) + row_start_text(sheet, row) + (if leading > 0 {
        filler_text("table:table-cell"@, leading)
    } else {
        Seq::empty()
    })
}

/// The end of the populated row `row`, with the tag that closes the header
/// rows where they end here.
#[verifier::opaque]
pub open spec fn row_tail_text(sheet: &Sheet, row: int) -> Seq<char> {
    end_tag_text("table:table-row"@) + header_close_text(sheet.header, row)
}

/// The blank cells after a populated cell: of `total` cells the first `run`
/// as covered cells, the rest as plain ones, one element for each kind that
/// occurs.
#[verifier::opaque]
pub open spec fn fillers_text(total: int, run: int) -> Seq<char> {
    let covered = if run < total {
        run
    } else {
        total
    };
    (if covered > 0 {
        filler_text("table:covered-table-cell"@, covered)
    } else {
        Seq::empty()
    }) + (if total - covered > 0 {
        filler_text("table:table-cell"@, total - covered)
    } else {
        Seq::empty()
    })
}

/// The start tag of the populated row `row`.
#[verifier::opaque]
pub open spec fn row_start_text(sheet: &Sheet, row: int) -> Seq<char> {
    open_tag_text("table:table-row"@) + (if sheet.row_repeat(row as u32) > 1 {
        count_attr_text("table:number-rows-repeated"@, sheet.row_repeat(row as u32) as int)
    } else {
        Seq::empty()
    }) + row_meta_text(sheet, row as u32) + seq!['>']
}

/// The lines of a text: the pieces between its line breaks. A text without
/// line break is one line, the empty text too.
pub open spec fn split_lines(s: Seq<char>) -> Seq<Seq<char>>
    decreases s.len(),
{
    if s.len() == 0 {
        seq![Seq::empty()]
    } else {
        let before = split_lines(s.drop_last());
        if s.last() == '\n' {
            before.push(Seq::empty())
        } else {
            before.drop_last().push(before.last().push(s.last()))
        }
    }
}

/// One paragraph element for each line, the line escaped.
pub open spec fn paragraphs_text(lines: Seq<Seq<char>>) -> Seq<char>
    decreases lines.len(),
{
    if lines.len() == 0 {
        Seq::empty()
    } else {
        paragraphs_text(lines.drop_last()) + elem_text_text(
            "text:p"@,
            escaped(lines.last(), false),
        )
    }
}

/// Foreign tags, one after the other.
pub open spec fn tags_text(tags: Seq<XmlTag>) -> Seq<char>
    decreases tags.len(),
{
    if tags.len() == 0 {
        Seq::empty()
    } else {
        tags_text(tags.drop_last()) + tag_text(tags.last())
    }
}

/// The text of a truth value.
#[verifier::opaque]
pub open spec fn bool_text(b: bool) -> Seq<char> {
    if b {
        "true"@
    } else {
        "false"@
    }
}

/// The attribute that names the kind of a value.
pub open spec fn value_type_attr_text(kind: Seq<char>) -> Seq<char> {
    attr_text("office:value-type"@, kind)
}

/// The attributes that carry a value: its kind and, but for text, the value
/// itself.
#[verifier::opaque]
pub open spec fn value_attrs_text(v: Value) -> Seq<char> {
    match v {
        Value::Empty => Seq::empty(),
        Value::Text(_) => value_type_attr_text("string"@),
        Value::TextXml(_) => value_type_attr_text("string"@),
        Value::DateTime(t) => value_type_attr_text("date"@) + attr_text(
            "office:date-value"@,
            datetime_text(t.secs, t.nanos)->0,
        ),
        Value::TimeDuration(ms) => value_type_attr_text("time"@) + attr_text(
            "office:time-value"@,
            duration_text(ms as int),
        ),
        Value::Boolean(b) => value_type_attr_text("boolean"@) + attr_text(
            "office:boolean-value"@,
            bool_text(b),
        ),
        Value::Currency(amount, code) => value_type_attr_text("currency"@) + attr_text(
            "office:currency"@,
            escaped(code@, false),
        ) + attr_text("office:value"@, escaped(amount@, false)),
        Value::Number(n) => value_type_attr_text("float"@) + attr_text(
            "office:value"@,
            escaped(n@, false),
        ),
        Value::Percentage(n) => value_type_attr_text("percentage"@) + attr_text(
            "office:value"@,
            escaped(n@, false),
        ),
    }
}

/// The text that shows a value inside its cell.
#[verifier::opaque]
pub open spec fn value_content_text(v: Value) -> Seq<char> {
    match v {
        Value::Empty => Seq::empty(),
        Value::Text(s) => paragraphs_text(split_lines(s@)),
        Value::TextXml(tags) => tags_text(tags@),
        Value::DateTime(t) => elem_text_text("text:p"@, datetime_text(t.secs, t.nanos)->0),
        Value::TimeDuration(ms) => elem_text_text("text:p"@, duration_text(ms as int)),
        Value::Boolean(b) => elem_text_text("text:p"@, bool_text(b)),
        Value::Currency(amount, code) => elem_text_text(
            "text:p"@,
            escaped(code@, false) + seq![' '] + escaped(amount@, false),
        ),
        Value::Number(n) => elem_text_text("text:p"@, escaped(n@, false)),
        Value::Percentage(n) => elem_text_text("text:p"@, escaped(n@, false)),
    }
}

/// Whether a value can be written: a date must be one that has a text.
pub open spec fn value_writable(v: Value) -> bool {
    v matches Value::DateTime(t) ==> datetime_text(t.secs, t.nanos) is Some
}

/// Whether the content of a cell can be written.
pub open spec fn content_writable(content: &CellContent) -> bool {
    content.value matches Some(v) ==> value_writable(v)
}

/// The style attribute of a cell: its own style, else the default style for
/// the kind of its value.
#[verifier::opaque]
pub open spec fn cell_style_text(book: &WorkBook, content: &CellContent) -> Seq<char> {
    match content.style {
        Some(style) => attr_text("table:style-name"@, escaped(style@, false)),
        None => match content.value {
            Some(v) => opt_attr_text(
                "table:style-name"@,
                def_style_of(book.def_styles@, v.spec_value_type()),
            ),
            None => Seq::empty(),
        },
    }
}

/// The attributes for the rows and columns that a cell reaches over.
#[verifier::opaque]
pub open spec fn span_attrs_text(content: &CellContent) -> Seq<char> {
    match content.span {
        Some(span) => (if span.row_span > 1 {
            count_attr_text("table:number-rows-spanned"@, span.row_span as int)
        } else {
            Seq::empty()
        }) + (if span.col_span > 1 {
            count_attr_text("table:number-columns-spanned"@, span.col_span as int)
        } else {
            Seq::empty()
        }),
        None => Seq::empty(),
    }
}

/// The attributes of a cell that do not depend on its value: formula, style,
/// validation and span.
#[verifier::opaque]
pub open spec fn cell_attrs_text(book: &WorkBook, content: &CellContent) -> Seq<char> {
    opt_attr_text("table:formula"@, content.formula) + cell_style_text(book, content)
        + opt_attr_text("table:content-validation-name"@, content.validation_name)
        + span_attrs_text(content)
}

/// The name of the element for a cell.
pub open spec fn cell_tag(covered: bool) -> Seq<char> {
    if covered {
        "table:covered-table-cell"@
    } else {
        "table:table-cell"@
    }
}

/// A populated cell. Without a value it is self-closing; else it holds the
/// text that shows the value.
#[verifier::opaque]
pub open spec fn cell_text(book: &WorkBook, content: &CellContent, covered: bool) -> Seq<char> {
    if content.has_value() {
        open_tag_text(cell_tag(covered)) + cell_attrs_text(book, content) + value_attrs_text(
            content.value->0,
        ) + seq!['>'] + value_content_text(content.value->0) + end_tag_text(cell_tag(covered))
    } else {
        open_tag_text(cell_tag(covered)) + cell_attrs_text(book, content) + seq!['/', '>']
    }
}

/// The text of one element of the layout.
pub open spec fn item_text(book: &WorkBook, sheet: &Sheet, item: Item) -> Seq<char> {
    match item {
        Item::HeaderOpen => open_tag_text("table:table-header-rows"@) + seq!['>'],
        Item::HeaderClose => end_tag_text("table:table-header-rows"@),
        Item::EmptyRows { row, count, columns } => empty_rows_text(sheet, row, count, columns),
        Item::RowStart { row } => row_start_text(sheet, row),
        Item::Blank { count } => filler_text("table:table-cell"@, count),
        Item::CoveredBlank { count } => filler_text("table:covered-table-cell"@, count),
        Item::Cell { index, covered } => cell_text(book, &sheet.cells@[index].content, covered),
        Item::RowEnd { row } => end_tag_text("table:table-row"@),
    }
}

/// The text of a run of elements.
pub open spec fn render(book: &WorkBook, sheet: &Sheet, items: Seq<Item>) -> Seq<char>
    decreases items.len(),
{
    if items.len() == 0 {
        Seq::empty()
    } else {
        render(book, sheet, items.drop_last()) + item_text(book, sheet, items.last())
    }
}

/// The element for the column `c`, between the tags that open and close the
/// header columns where they begin or end at this column.
#[verifier::opaque]
pub open spec fn column_text(sheet: &Sheet, c: int) -> Seq<char> {
    (if sheet.header.spec_col_opens_at(c) {
        open_tag_text("table:table-header-columns"@) + seq!['>']
    } else {
        Seq::empty()
    }) + (open_tag_text("table:table-column"@) + col_meta_text(sheet, c as u32) + seq!['/', '>'])
        + (if sheet.header.spec_col_closes_at(c) {
        end_tag_text("table:table-header-columns"@)
    } else {
        Seq::empty()
    })
}

/// The column elements for the first `n` columns.
pub open spec fn columns_text(sheet: &Sheet, n: int) -> Seq<char>
    decreases n,
{
    if n <= 0 {
        Seq::empty()
    } else {
        columns_text(sheet, n - 1) + column_text(sheet, n - 1)
    }
}

/// The places at which foreign tags of a sheet or of a workbook are written.
#[derive(Clone, Copy, Debug, PartialEq, Eq, Structural)]
pub enum TagPlace {
    /// Inside a table, before its columns.
    TableHead,
    /// After a table.
    TableTail,
    /// Inside the spreadsheet, before the tables.
    BookHead,
    /// Inside the spreadsheet, after the tables.
    BookTail,
}

/// Whether a foreign tag of the given name is written at the given place.
pub open spec fn belongs_at(place: TagPlace, name: Seq<char>) -> bool {
    match place {
        TagPlace::TableHead => name == "table:title"@ || name == "table:desc"@ || name
            == "table:table-source"@ || name == "office:dde-source"@ || name == "table:scenario"@
            || name == "office:forms"@ || name == "table:shapes"@,
        TagPlace::TableTail => name == "table:named-expressions"@ || name
            == "calcext:conditional-formats"@,
        TagPlace::BookHead => name == "office:scripts"@ || name == "table:tracked-changes"@
            || name == "text:variable-decls"@ || name == "text:sequence-decls"@ || name
            == "text:user-field-decls"@ || name == "text:dde-connection-decls"@ || name
            == "table:calculation-settings"@ || name == "table:label-ranges"@,
        TagPlace::BookTail => name == "table:named-expressions"@ || name
            == "table:database-ranges"@ || name == "table:data-pilot-tables"@ || name
            == "table:consolidation"@ || name == "table:dde-links"@,
    }
}

/// The foreign tags that are written at the given place, in their order.
pub open spec fn placed_tags_text(tags: Seq<XmlTag>, place: TagPlace) -> Seq<char>
    decreases tags.len(),
{
    if tags.len() == 0 {
        Seq::empty()
    } else {
        placed_tags_text(tags.drop_last(), place) + if belongs_at(place, tags.last().name@) {
            tag_text(tags.last())
        } else {
            Seq::empty()
        }
    }
}

/// The attributes of the table element.
#[verifier::opaque]
pub open spec fn table_attrs_text(sheet: &Sheet) -> Seq<char> {
    attr_text("table:name"@, escaped(sheet.name@, false)) + opt_attr_text(
        "table:style-name"@,
        sheet.style,
    ) + opt_attr_text("table:print-ranges"@, sheet.print_ranges) + (if !sheet.print {
        attr_text("table:print"@, "false"@)
    } else {
        Seq::empty()
    }) + (if !sheet.display {
        attr_text("table:display"@, "false"@)
    } else {
        Seq::empty()
    })
}

/// The table of a sheet: the foreign tags that lead it, its columns and its
/// rows; after the table, the foreign tags that follow it.
#[verifier::opaque]
pub open spec fn table_text(book: &WorkBook, sheet: &Sheet) -> Seq<char> {
    open_tag_text("table:table"@) + table_attrs_text(sheet) + seq!['>'] + placed_tags_text(
        sheet.extra@,
        TagPlace::TableHead,
    ) + columns_text(sheet, sheet.extent.1 as int) + render(book, sheet, sheet.layout())
        + end_tag_text("table:table"@) + placed_tags_text(sheet.extra@, TagPlace::TableTail)
}

/// The first of the first `n` cells of the sheet whose value cannot be
/// written, if there is one.
pub open spec fn first_unwritable(sheet: &Sheet, n: int) -> Option<int>
    decreases n,
{
    if n <= 0 {
        None
    } else if first_unwritable(sheet, n - 1) is Some {
        first_unwritable(sheet, n - 1)
    } else if !content_writable(&sheet.cells@[n - 1].content) {
        Some(n - 1)
    } else {
        None
    }
}

/// Whether every cell of the sheet has a value that can be written.
pub open spec fn sheet_writable(sheet: &Sheet) -> bool {
    first_unwritable(sheet, sheet.cells@.len() as int) is None
}

/// The error for a value that cannot be written, in a cell at the given row
/// and column, where they are known.
pub open spec fn value_error(at: Option<(u32, u32)>, v: Value) -> OdsError {
    OdsError::Date { at, secs: v->DateTime_0.secs, nanos: v->DateTime_0.nanos }
}

/// The error for the cell `i` of the sheet, whose value cannot be written.
pub open spec fn cell_error(sheet: &Sheet, i: int) -> OdsError {
    value_error(
        Some((sheet.cells@[i].row, sheet.cells@[i].col)),
        sheet.cells@[i].content.value->0,
    )
}

/// The error for the first cell of the sheet whose value cannot be written.
pub open spec fn sheet_error(sheet: &Sheet) -> OdsError {
    cell_error(sheet, first_unwritable(sheet, sheet.cells@.len() as int)->0)
}

/// The lines of a text put together again, with a line break between each
/// two of them.
pub open spec fn join_lines(lines: Seq<Seq<char>>) -> Seq<char>
    decreases lines.len(),
{
    if lines.len() == 0 {
        Seq::empty()
    } else if lines.len() == 1 {
        lines[0]
    } else {
        join_lines(lines.drop_last()) + seq!['\n'] + lines.last()
    }
}

/// The lines of a text, put together again, are the text: the paragraphs of
/// a cell hold all of its text.
pub proof fn lemma_join_split_lines(s: Seq<char>)
    ensures
        split_lines(s).len() >= 1,
        join_lines(split_lines(s)) == s,
    decreases s.len(),
{
    if s.len() == 0 {
        assert(split_lines(s) == seq![Seq::<char>::empty()]);
    } else {
        let init = s.drop_last();
        lemma_join_split_lines(init);
        let before = split_lines(init);
        assert(s == init.push(s.last()));
        if s.last() == '\n' {
            let lines = before.push(Seq::<char>::empty());
            assert(lines.drop_last() == before);
            assert(join_lines(lines) == join_lines(before) + seq!['\n'] + Seq::<char>::empty());
        } else {
            let lines = before.drop_last().push(before.last().push(s.last()));
            assert(lines.drop_last() == before.drop_last());
            if before.len() == 1 {
                assert(before[0] == init);
            } else {
                assert(join_lines(lines) == join_lines(before.drop_last()) + seq!['\n']
                    + before.last().push(s.last()));
                assert(init == join_lines(before.drop_last()) + seq!['\n'] + before.last());
            }
        }
    }
}

/// Determinism. What is written for a sheet depends on the sheet and on the
/// default styles of the workbook alone: writing it twice after the same
/// text ends in the same text.
pub proof fn lemma_table_deterministic(
    book: &WorkBook,
    sheet: &Sheet,
    before: Seq<char>,
    first: Seq<char>,
    second: Seq<char>,
)
    requires
        first == before + table_text(book, sheet),
        second == before + table_text(book, sheet),
    ensures
        first == second,
{
}

} // verus!
