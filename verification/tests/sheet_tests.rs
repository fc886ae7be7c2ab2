use ods_grid::document::write_ods_content;
use ods_grid::error::{Fault, OdsError};
use ods_grid::refs::{CellSpan, ColRange, RowRange};
use ods_grid::sheet::{CellContent, ColHeader, GridCell, RowHeader, Sheet, Visibility, WorkBook};
use ods_grid::validate::sanity_checks;
use ods_grid::value::{Timestamp, Value};
use ods_grid::write::{
    write_empty_row, write_empty_rows_before, write_end_current_row, write_grid_cell, write_sheet,
    write_start_current_row, write_table_columns, EncoderState,
};
use ods_grid::xmlwriter::XmlWriter;

const CONTENT_NAMESPACES: &str = " xmlns:meta=\"urn:oasis:names:tc:opendocument:xmlns:meta:1.0\" xmlns:office=\"urn:oasis:names:tc:opendocument:xmlns:office:1.0\" xmlns:fo=\"urn:oasis:names:tc:opendocument:xmlns:xsl-fo-compatible:1.0\" xmlns:ooo=\"http://openoffice.org/2004/office\" xmlns:xlink=\"http://www.w3.org/1999/xlink\" xmlns:dc=\"http://purl.org/dc/elements/1.1/\" xmlns:style=\"urn:oasis:names:tc:opendocument:xmlns:style:1.0\" xmlns:text=\"urn:oasis:names:tc:opendocument:xmlns:text:1.0\" xmlns:draw=\"urn:oasis:names:tc:opendocument:xmlns:drawing:1.0\" xmlns:dr3d=\"urn:oasis:names:tc:opendocument:xmlns:dr3d:1.0\" xmlns:svg=\"urn:oasis:names:tc:opendocument:xmlns:svg-compatible:1.0\" xmlns:chart=\"urn:oasis:names:tc:opendocument:xmlns:chart:1.0\" xmlns:rpt=\"http://openoffice.org/2005/report\" xmlns:table=\"urn:oasis:names:tc:opendocument:xmlns:table:1.0\" xmlns:number=\"urn:oasis:names:tc:opendocument:xmlns:datastyle:1.0\" xmlns:ooow=\"http://openoffice.org/2004/writer\" xmlns:oooc=\"http://openoffice.org/2004/calc\" xmlns:of=\"urn:oasis:names:tc:opendocument:xmlns:of:1.2\" xmlns:tableooo=\"http://openoffice.org/2009/table\" xmlns:calcext=\"urn:org:documentfoundation:names:experimental:calc:xmlns:calcext:1.0\" xmlns:drawooo=\"http://openoffice.org/2010/draw\" xmlns:loext=\"urn:org:documentfoundation:names:experimental:office:xmlns:loext:1.0\" xmlns:field=\"urn:openoffice:names:experimental:ooo-ms-interop:xmlns:field:1.0\" xmlns:math=\"http://www.w3.org/1998/Math/MathML\" xmlns:form=\"urn:oasis:names:tc:opendocument:xmlns:form:1.0\" xmlns:script=\"urn:oasis:names:tc:opendocument:xmlns:script:1.0\" xmlns:dom=\"http://www.w3.org/2001/xml-events\" xmlns:xforms=\"http://www.w3.org/2002/xforms\" xmlns:xsd=\"http://www.w3.org/2001/XMLSchema\" xmlns:xsi=\"http://www.w3.org/2001/XMLSchema-instance\" xmlns:formx=\"urn:openoffice:names:experimental:ooxml-odf-interop:xmlns:form:1.0\" xmlns:xhtml=\"http://www.w3.org/1999/xhtml\" xmlns:grddl=\"http://www.w3.org/2003/g/data-view#\" xmlns:css3t=\"http://www.w3.org/TR/css3-text/\" xmlns:presentation=\"urn:oasis:names:tc:opendocument:xmlns:presentation:1.0\"";

fn cell(row: u32, col: u32, text: &str) -> GridCell {
    GridCell {
        row,
        col,
        content: CellContent {
            value: Some(Value::Text(text.to_string())),
            formula: None,
            style: None,
            validation_name: None,
            span: None,
        },
    }
}

fn blank(row: u32, col: u32) -> GridCell {
    GridCell {
        row,
        col,
        content: CellContent::new(),
    }
}

fn sheet_of(cells: Vec<GridCell>, extent: (u32, u32)) -> Sheet {
    let mut sheet = Sheet::new("s");
    sheet.cells = cells;
    sheet.extent = extent;
    sheet
}

fn rows_of(sheet: &Sheet) -> String {
    let book = WorkBook::new();
    assert_eq!(sheet.find_fault(), None);
    let mut xml = XmlWriter::new(String::new());
    write_sheet(&book, sheet, &mut xml).unwrap();
    xml.close().unwrap();
    let out = xml.into_inner();
    let columns = "<table:table-column/>".repeat(sheet.extent.1 as usize);
    let head = format!("<table:table table:name=\"s\">{}", columns);
    assert!(out.starts_with(&head), "{}", out);
    assert!(out.ends_with("</table:table>"));
    out[head.len()..out.len() - "</table:table>".len()].to_string()
}

const T: &str = "<table:table-cell office:value-type=\"string\"><text:p>t</text:p></table:table-cell>";

#[test]
fn empty_sheet_has_no_rows_and_no_columns() {
    let sheet = Sheet::new("empty");
    let book = WorkBook::new();
    let mut xml = XmlWriter::new(String::new());
    write_sheet(&book, &sheet, &mut xml).unwrap();
    xml.close().unwrap();
    assert_eq!(xml.into_inner(), "<table:table table:name=\"empty\"></table:table>");
}

#[test]
fn table_attributes() {
    let mut sheet = Sheet::new("A & B");
    sheet.style = Some("ta1".to_string());
    sheet.print_ranges = Some("A1:B2".to_string());
    sheet.print = false;
    sheet.display = false;
    let book = WorkBook::new();
    let mut xml = XmlWriter::new(String::new());
    write_sheet(&book, &sheet, &mut xml).unwrap();
    xml.close().unwrap();
    assert_eq!(
        xml.into_inner(),
        "<table:table table:name=\"A &amp; B\" table:style-name=\"ta1\" table:print-ranges=\"A1:B2\" table:print=\"false\" table:display=\"false\"></table:table>"
    );
}

#[test]
fn cells_of_one_row_with_gaps_between_them() {
    let sheet = sheet_of(vec![cell(0, 1, "t"), cell(0, 2, "t"), cell(0, 5, "t")], (1, 8));
    assert_eq!(
        rows_of(&sheet),
        format!(
            "<table:table-row><table:table-cell table:number-columns-repeated=\"1\"/>{T}{T}<table:table-cell table:number-columns-repeated=\"2\"/>{T}<table:table-cell table:number-columns-repeated=\"2\"/></table:table-row>"
        )
    );
}

#[test]
fn adjacent_rows_have_no_empty_rows_between_them() {
    let sheet = sheet_of(vec![cell(0, 0, "t"), cell(1, 0, "t")], (2, 1));
    assert_eq!(
        rows_of(&sheet),
        format!("<table:table-row>{T}</table:table-row><table:table-row>{T}</table:table-row>")
    );
}

#[test]
fn rows_after_the_last_populated_cell_are_not_written() {
    let sheet = sheet_of(vec![cell(0, 0, "t")], (4, 2));
    assert_eq!(
        rows_of(&sheet),
        format!("<table:table-row>{T}<table:table-cell table:number-columns-repeated=\"1\"/></table:table-row>")
    );
}

#[test]
fn row_header_gives_the_attributes_of_the_row() {
    let mut sheet = sheet_of(vec![cell(0, 0, "t"), cell(4, 0, "t")], (5, 1));
    sheet.row_header.insert(
        0,
        RowHeader {
            style: Some("ro1".to_string()),
            cellstyle: Some("ce1".to_string()),
            visible: Visibility::Collapsed,
            repeat: 2,
        },
    );
    sheet.row_header.insert(
        2,
        RowHeader { style: Some("ro2".to_string()), cellstyle: None, visible: Visibility::Filtered, repeat: 1 },
    );
    assert_eq!(
        rows_of(&sheet),
        format!(
            "<table:table-row table:number-rows-repeated=\"2\" table:style-name=\"ro1\" table:default-cell-style-name=\"ce1\" table:visibility=\"collapse\">{T}</table:table-row>\
             <table:table-row table:number-rows-repeated=\"2\" table:style-name=\"ro2\" table:visibility=\"filter\"><table:table-cell table:number-columns-repeated=\"1\"/></table:table-row>\
             <table:table-row>{T}</table:table-row>"
        )
    );
}

#[test]
fn repeated_row_that_reaches_the_next_populated_row_leaves_no_gap() {
    let mut sheet = sheet_of(vec![cell(0, 0, "t"), cell(2, 0, "t")], (3, 1));
    sheet.row_header.insert(
        0,
        RowHeader { repeat: 5, ..RowHeader::new() },
    );
    assert_eq!(
        rows_of(&sheet),
        format!(
            "<table:table-row table:number-rows-repeated=\"5\">{T}</table:table-row><table:table-row>{T}</table:table-row>"
        )
    );
}

#[test]
fn header_rows_around_populated_rows() {
    let mut sheet = sheet_of(vec![cell(0, 0, "t"), cell(1, 0, "t"), cell(2, 0, "t")], (3, 1));
    sheet.header.rows = Some(RowRange::new(0, 1));
    assert_eq!(
        rows_of(&sheet),
        format!(
            "<table:table-header-rows><table:table-row>{T}</table:table-row><table:table-row>{T}</table:table-row></table:table-header-rows><table:table-row>{T}</table:table-row>"
        )
    );
}

#[test]
fn header_rows_of_one_populated_row() {
    let mut sheet = sheet_of(vec![cell(3, 0, "t")], (4, 1));
    sheet.header.rows = Some(RowRange::new(3, 3));
    assert_eq!(
        rows_of(&sheet),
        format!(
            "<table:table-row table:number-rows-repeated=\"3\"><table:table-cell table:number-columns-repeated=\"1\"/></table:table-row>\
             <table:table-header-rows><table:table-row>{T}</table:table-row></table:table-header-rows>"
        )
    );
}

#[test]
fn header_rows_inside_a_gap_split_it_in_three() {
    let mut sheet = sheet_of(vec![cell(0, 0, "t"), cell(9, 0, "t")], (10, 1));
    sheet.header.rows = Some(RowRange::new(3, 4));
    let empty = |n: u32| {
        format!(
            "<table:table-row table:number-rows-repeated=\"{}\"><table:table-cell table:number-columns-repeated=\"1\"/></table:table-row>",
            n
        )
    };
    assert_eq!(
        rows_of(&sheet),
        format!(
            "<table:table-row>{T}</table:table-row>{}<table:table-header-rows>{}</table:table-header-rows>{}<table:table-row>{T}</table:table-row>",
            empty(2),
            empty(2),
            empty(4)
        )
    );
}

#[test]
fn header_rows_that_begin_in_a_gap_and_end_at_a_populated_row() {
    let mut sheet = sheet_of(vec![cell(0, 0, "t"), cell(3, 0, "t")], (4, 1));
    sheet.header.rows = Some(RowRange::new(1, 3));
    assert_eq!(
        rows_of(&sheet),
        format!(
            "<table:table-row>{T}</table:table-row><table:table-header-rows><table:table-row table:number-rows-repeated=\"2\"><table:table-cell table:number-columns-repeated=\"1\"/></table:table-row><table:table-row>{T}</table:table-row></table:table-header-rows>"
        )
    );
}

#[test]
fn header_rows_that_begin_at_a_populated_row_and_end_in_a_gap() {
    let mut sheet = sheet_of(vec![cell(0, 0, "t"), cell(3, 0, "t")], (4, 1));
    sheet.header.rows = Some(RowRange::new(0, 1));
    assert_eq!(
        rows_of(&sheet),
        format!(
            "<table:table-header-rows><table:table-row>{T}</table:table-row><table:table-row table:number-rows-repeated=\"1\"><table:table-cell table:number-columns-repeated=\"1\"/></table:table-row></table:table-header-rows><table:table-row table:number-rows-repeated=\"1\"><table:table-cell table:number-columns-repeated=\"1\"/></table:table-row><table:table-row>{T}</table:table-row>"
        )
    );
}

#[test]
fn columns_with_headers_and_header_columns() {
    let mut sheet = sheet_of(vec![blank(0, 3)], (1, 4));
    sheet.header.cols = Some(ColRange::new(1, 2));
    sheet.col_header.insert(
        1,
        ColHeader { style: Some("co1".to_string()), cellstyle: Some("ce1".to_string()), visible: Visibility::Filtered },
    );
    sheet.col_header.insert(
        3,
        ColHeader::new(),
    );
    let mut xml = XmlWriter::new(String::new());
    write_table_columns(&sheet, sheet.used_grid_size(), &mut xml).unwrap();
    xml.close().unwrap();
    assert_eq!(
        xml.into_inner(),
        "<table:table-column/><table:table-header-columns><table:table-column table:style-name=\"co1\" table:default-cell-style-name=\"ce1\" table:visibility=\"filter\"/><table:table-column/></table:table-header-columns><table:table-column/>"
    );
}

#[test]
fn header_columns_of_one_column() {
    let mut sheet = sheet_of(vec![blank(0, 1)], (1, 2));
    sheet.header.cols = Some(ColRange::new(0, 0));
    let mut xml = XmlWriter::new(String::new());
    write_table_columns(&sheet, (1, 2), &mut xml).unwrap();
    xml.close().unwrap();
    assert_eq!(
        xml.into_inner(),
        "<table:table-header-columns><table:table-column/></table:table-header-columns><table:table-column/>"
    );
}

#[test]
fn covered_fillers_follow_a_covered_cell() {
    // the merged cell at (0,0) reaches over three columns and two rows
    let mut origin = cell(0, 0, "t");
    origin.content.span = Some(CellSpan::new(2, 3));
    let sheet = sheet_of(vec![origin, blank(0, 1), blank(1, 0), cell(1, 4, "t")], (2, 5));
    assert_eq!(
        rows_of(&sheet),
        format!(
            "<table:table-row><table:table-cell table:number-rows-spanned=\"2\" table:number-columns-spanned=\"3\" office:value-type=\"string\"><text:p>t</text:p></table:table-cell>\
             <table:covered-table-cell/><table:covered-table-cell table:number-columns-repeated=\"1\"/><table:table-cell table:number-columns-repeated=\"2\"/></table:table-row>\
             <table:table-row><table:covered-table-cell/><table:covered-table-cell table:number-columns-repeated=\"2\"/><table:table-cell table:number-columns-repeated=\"1\"/>{T}</table:table-row>"
        )
    );
}

#[test]
fn all_cells_of_a_span_but_its_first_are_covered_once() {
    // two rows of three columns, each row led by a populated cell
    let mut origin = cell(0, 0, "t");
    origin.content.span = Some(CellSpan::new(2, 3));
    let sheet = sheet_of(vec![origin, blank(0, 1), blank(1, 0)], (2, 3));
    let out = rows_of(&sheet);
    let single = count(&out, "<table:covered-table-cell/>");
    let one = count(&out, "<table:covered-table-cell table:number-columns-repeated=\"1\"/>");
    let two = count(&out, "<table:covered-table-cell table:number-columns-repeated=\"2\"/>");
    assert_eq!(count(&out, "<table:covered-table-cell"), single + one + two);
    assert_eq!(single + one + 2 * two, 2 * 3 - 1);
    assert_eq!(count(&out, "table:number-rows-spanned"), 1);
}

#[test]
fn cells_after_the_origin_of_a_merged_cell_are_blank_unless_populated() {
    let mut origin = cell(0, 0, "t");
    origin.content.span = Some(CellSpan::new(1, 3));
    let sheet = sheet_of(vec![origin], (1, 4));
    assert_eq!(
        rows_of(&sheet),
        "<table:table-row><table:table-cell table:number-columns-spanned=\"3\" office:value-type=\"string\"><text:p>t</text:p></table:table-cell><table:table-cell table:number-columns-repeated=\"3\"/></table:table-row>"
    );
}

#[test]
fn merged_cell_under_a_merged_cell_is_not_registered() {
    let mut origin = blank(0, 0);
    origin.content.span = Some(CellSpan::new(2, 2));
    let mut inner = blank(1, 1);
    inner.content.span = Some(CellSpan::new(1, 3));
    let sheet = sheet_of(vec![origin, blank(0, 1), blank(1, 0), inner, blank(1, 2)], (2, 4));
    assert_eq!(
        rows_of(&sheet),
        "<table:table-row><table:table-cell table:number-rows-spanned=\"2\" table:number-columns-spanned=\"2\"/><table:covered-table-cell/><table:table-cell table:number-columns-repeated=\"2\"/></table:table-row>\
         <table:table-row><table:covered-table-cell/><table:covered-table-cell table:number-columns-spanned=\"3\"/><table:table-cell/><table:table-cell table:number-columns-repeated=\"1\"/></table:table-row>"
    );
}

fn count(text: &str, part: &str) -> usize {
    text.matches(part).count()
}

#[test]
fn rows_written_add_up_to_the_rows_in_use() {
    let sheet = sheet_of(
        vec![cell(2, 1, "t"), cell(2, 3, "t"), cell(3, 0, "t"), cell(10, 2, "t")],
        (11, 4),
    );
    let out = rows_of(&sheet);
    // runs of 2 and 6 empty rows, and three populated rows
    assert_eq!(count(&out, "table:number-rows-repeated=\"2\""), 1);
    assert_eq!(count(&out, "table:number-rows-repeated=\"6\""), 1);
    assert_eq!(count(&out, "table:number-rows-repeated"), 2);
    assert_eq!(count(&out, "<table:table-row>"), 3);
    assert_eq!(2 + 6 + 3, sheet.extent.0);
}

#[test]
fn cells_written_in_each_row_add_up_to_the_columns_in_use() {
    let sheet = sheet_of(
        vec![cell(0, 1, "t"), cell(0, 3, "t"), cell(1, 0, "t"), cell(3, 6, "t")],
        (4, 7),
    );
    let out = rows_of(&sheet);
    let rows: Vec<&str> = out.split("</table:table-row>").filter(|r| !r.is_empty()).collect();
    assert_eq!(rows.len(), 4);
    for row in rows {
        let mut columns = 0;
        for piece in row.split('<').filter(|p| p.starts_with("table:table-cell") || p.starts_with("table:covered-table-cell")) {
            match piece.find("table:number-columns-repeated=\"") {
                Some(at) => {
                    let digits = &piece[at + "table:number-columns-repeated=\"".len()..];
                    let end = digits.find('"').unwrap();
                    columns += digits[..end].parse::<u32>().unwrap();
                }
                None => columns += 1,
            }
        }
        assert_eq!(columns, sheet.extent.1, "{}", row);
    }
}

#[test]
fn the_same_sheet_is_written_the_same_way_twice() {
    let mut sheet = sheet_of(vec![cell(1, 1, "a\nb"), cell(4, 0, "<")], (5, 3));
    sheet.header.rows = Some(RowRange::new(2, 3));
    assert_eq!(rows_of(&sheet), rows_of(&sheet));
}

#[test]
fn single_row_helpers() {
    let mut sheet = sheet_of(vec![cell(2, 2, "t")], (3, 3));
    sheet.header.rows = Some(RowRange::new(0, 2));
    let mut xml = XmlWriter::new(String::new());
    write_empty_rows_before(&sheet, 0, 2, (3, 3), &mut xml).unwrap();
    write_start_current_row(&sheet, 2, 2, &mut xml).unwrap();
    write_end_current_row(&sheet, 2, &mut xml).unwrap();
    write_empty_row(&sheet, 7, 4, (3, 3), &mut xml).unwrap();
    xml.close().unwrap();
    assert_eq!(
        xml.into_inner(),
        "<table:table-header-rows><table:table-row table:number-rows-repeated=\"2\"><table:table-cell table:number-columns-repeated=\"3\"/></table:table-row>\
         <table:table-row><table:table-cell table:number-columns-repeated=\"2\"/></table:table-row></table:table-header-rows>\
         <table:table-row table:number-rows-repeated=\"4\"><table:table-cell table:number-columns-repeated=\"3\"/></table:table-row>"
    );
}

#[test]
fn ending_a_row_that_is_not_open_is_refused() {
    let sheet = sheet_of(vec![cell(0, 0, "t")], (1, 1));
    let mut xml = XmlWriter::new(String::new());
    assert!(write_end_current_row(&sheet, 0, &mut xml).is_err());
}

fn fault_of(sheet: Sheet) -> Option<(u32, u32, Fault)> {
    sheet.find_fault()
}

#[test]
fn populated_size_is_one_more_than_the_greatest_row_and_column() {
    assert_eq!(Sheet::new("s").populated_size(), (0, 0));
    let sheet = sheet_of(vec![cell(0, 7, "t"), cell(2, 1, "t"), cell(5, 0, "t")], (0, 0));
    assert_eq!(sheet.populated_size(), (6, 8));
    let edge = sheet_of(vec![cell(u32::MAX, u32::MAX - 1, "t")], (0, 0));
    assert_eq!(edge.populated_size(), (u32::MAX, u32::MAX));
}

#[test]
fn a_gap_of_very_many_rows_is_one_element() {
    let mut sheet = sheet_of(vec![cell(0, 0, "t"), cell(4_000_000_000, 0, "t")], (0, 0));
    sheet.extent = sheet.populated_size();
    assert_eq!(sheet.extent, (4_000_000_001, 1));
    assert_eq!(
        rows_of(&sheet),
        format!(
            "<table:table-row>{T}</table:table-row><table:table-row table:number-rows-repeated=\"3999999999\"><table:table-cell table:number-columns-repeated=\"1\"/></table:table-row><table:table-row>{T}</table:table-row>"
        )
    );
}

#[test]
fn a_cell_in_the_last_row_that_a_number_can_name_cannot_be_written() {
    let mut sheet = sheet_of(vec![cell(u32::MAX, 0, "t")], (0, 0));
    sheet.extent = sheet.populated_size();
    assert_eq!(sheet.find_fault(), Some((u32::MAX, 0, Fault::CellOutside)));
}

#[test]
fn sheets_in_order_have_no_fault() {
    assert_eq!(fault_of(Sheet::new("s")), None);
    assert_eq!(fault_of(sheet_of(vec![cell(0, 0, "t"), cell(0, 1, "t"), cell(1, 0, "t")], (2, 2))), None);
}

#[test]
fn cells_out_of_order_are_a_fault() {
    assert_eq!(
        fault_of(sheet_of(vec![cell(1, 0, "t"), cell(0, 0, "t")], (2, 1))),
        Some((0, 0, Fault::CellOrder))
    );
    assert_eq!(
        fault_of(sheet_of(vec![cell(0, 1, "t"), cell(0, 1, "t")], (1, 2))),
        Some((0, 1, Fault::CellOrder))
    );
}

#[test]
fn cells_outside_the_rows_and_columns_in_use_are_a_fault() {
    assert_eq!(fault_of(sheet_of(vec![cell(2, 0, "t")], (2, 1))), Some((2, 0, Fault::CellOutside)));
    assert_eq!(fault_of(sheet_of(vec![cell(0, 1, "t")], (1, 1))), Some((0, 1, Fault::CellOutside)));
}

#[test]
fn a_populated_row_that_stands_for_no_row_is_a_fault() {
    let mut sheet = sheet_of(vec![cell(0, 0, "t")], (1, 1));
    sheet.row_header.insert(
        0,
        RowHeader { repeat: 0, ..RowHeader::new() },
    );
    assert_eq!(fault_of(sheet), Some((0, 0, Fault::RowRepeat)));
}

#[test]
fn spans_without_size_or_beyond_the_grid_are_a_fault() {
    let mut zero = blank(0, 0);
    zero.content.span = Some(CellSpan::new(0, 1));
    assert_eq!(fault_of(sheet_of(vec![zero], (1, 1))), Some((0, 0, Fault::SpanSize)));
    let mut far = blank(5, 5);
    far.content.span = Some(CellSpan::new(u32::MAX, 1));
    assert_eq!(fault_of(sheet_of(vec![far], (6, 6))), Some((5, 5, Fault::SpanSize)));
    let mut edge = blank(5, 5);
    edge.content.span = Some(CellSpan::new(u32::MAX - 5, u32::MAX - 5));
    assert_eq!(fault_of(sheet_of(vec![edge], (6, 6))), None);
}

#[test]
fn merged_cells_that_reach_over_each_other_are_a_fault() {
    let mut a = blank(0, 2);
    a.content.span = Some(CellSpan::new(3, 2));
    let mut b = blank(1, 1);
    b.content.span = Some(CellSpan::new(2, 2));
    assert_eq!(fault_of(sheet_of(vec![a, b], (3, 4))), Some((1, 1, Fault::SpanOverlap)));
}

#[test]
fn merged_cells_side_by_side_are_in_order() {
    let mut a = blank(0, 0);
    a.content.span = Some(CellSpan::new(2, 2));
    let mut b = blank(0, 2);
    b.content.span = Some(CellSpan::new(2, 2));
    let mut c = blank(2, 0);
    c.content.span = Some(CellSpan::new(1, 4));
    assert_eq!(fault_of(sheet_of(vec![a, b, c], (3, 4))), None);
}

#[test]
fn header_ranges_that_end_before_they_begin_are_a_fault() {
    let mut sheet = sheet_of(vec![cell(3, 3, "t")], (4, 4));
    sheet.header.rows = Some(RowRange::new(2, 1));
    assert_eq!(fault_of(sheet), Some((2, 0, Fault::HeaderRange)));
    let mut sheet = sheet_of(vec![cell(3, 3, "t")], (4, 4));
    sheet.header.cols = Some(ColRange::new(3, 2));
    assert_eq!(fault_of(sheet), Some((0, 3, Fault::HeaderRange)));
}

#[test]
fn header_rows_beyond_the_last_populated_row_are_a_fault() {
    let mut sheet = sheet_of(vec![cell(1, 0, "t")], (5, 1));
    sheet.header.rows = Some(RowRange::new(0, 2));
    assert_eq!(fault_of(sheet), Some((2, 0, Fault::HeaderRows)));
    let mut sheet = sheet_of(vec![cell(1, 0, "t")], (5, 1));
    sheet.header.rows = Some(RowRange::new(2, 3));
    assert_eq!(fault_of(sheet), Some((2, 0, Fault::HeaderRows)));
    let mut sheet = Sheet::new("s");
    sheet.header.rows = Some(RowRange::new(0, 0));
    assert_eq!(fault_of(sheet), Some((0, 0, Fault::HeaderRows)));
}

#[test]
fn header_rows_inside_the_rows_of_a_repeated_row_are_a_fault() {
    let mut sheet = sheet_of(vec![cell(0, 0, "t"), cell(5, 0, "t")], (6, 1));
    sheet.row_header.insert(
        0,
        RowHeader { repeat: 3, ..RowHeader::new() },
    );
    sheet.header.rows = Some(RowRange::new(0, 1));
    assert_eq!(sheet.find_fault(), Some((1, 0, Fault::HeaderRows)));
    assert!(sheet.is_row_written(0));
    assert!(!sheet.is_row_written(1));
    assert!(!sheet.is_row_written(2));
    assert!(sheet.is_row_written(3));
    assert!(sheet.is_row_written(5));
    assert!(!sheet.is_row_written(6));
}

#[test]
fn header_columns_beyond_the_columns_in_use_are_a_fault() {
    let mut sheet = sheet_of(vec![cell(0, 0, "t")], (1, 2));
    sheet.header.cols = Some(ColRange::new(1, 2));
    assert_eq!(fault_of(sheet), Some((0, 2, Fault::HeaderColumns)));
}

#[test]
fn sheet_that_is_not_in_order_is_not_written() {
    let book = WorkBook::new();
    let sheet = sheet_of(vec![cell(0, 1, "t"), cell(0, 0, "t")], (1, 2));
    let mut xml = XmlWriter::new(String::from("kept"));
    assert_eq!(
        write_sheet(&book, &sheet, &mut xml),
        Err(OdsError::Sheet { name: "s".to_string(), row: 0, col: 0, fault: Fault::CellOrder })
    );
    xml.close().unwrap();
    assert_eq!(xml.into_inner(), "kept");
}

#[test]
fn cells_are_written_step_by_step() {
    let book = WorkBook::new();
    let mut origin = cell(0, 0, "t");
    origin.content.span = Some(CellSpan::new(1, 2));
    let sheet = sheet_of(vec![origin, blank(0, 1), cell(2, 1, "t")], (3, 2));
    assert_eq!(sheet.find_fault(), None);
    let mut xml = XmlWriter::new(String::new());
    let mut state = EncoderState::new();
    assert_eq!(state.index, 0);
    state = write_grid_cell(&book, &sheet, state, &mut xml).unwrap();
    assert_eq!(state.index, 1);
    assert_eq!(state.spans.query(0, 1), (true, 0));
    state = write_grid_cell(&book, &sheet, state, &mut xml).unwrap();
    assert_eq!(state.index, 2);
    state = write_grid_cell(&book, &sheet, state, &mut xml).unwrap();
    assert_eq!(state.index, 3);
    assert_eq!(state.spans.query(0, 1), (false, 0));
    xml.close().unwrap();
    assert_eq!(
        xml.into_inner(),
        format!(
            "<table:table-row><table:table-cell table:number-columns-spanned=\"2\" office:value-type=\"string\"><text:p>t</text:p></table:table-cell><table:covered-table-cell/></table:table-row>\
             <table:table-row table:number-rows-repeated=\"1\"><table:table-cell table:number-columns-repeated=\"2\"/></table:table-row>\
             <table:table-row><table:table-cell table:number-columns-repeated=\"1\"/>{T}</table:table-row>"
        )
    );
}

#[test]
fn workbook_without_sheets_is_refused() {
    let book = WorkBook::new();
    assert_eq!(
        sanity_checks(&book),
        Err(OdsError::Ods("Workbook contains no sheets.".to_string()))
    );
    let mut out = String::from("kept");
    assert_eq!(
        write_ods_content(&book, &mut out),
        Err(OdsError::Ods("Workbook contains no sheets.".to_string()))
    );
    assert_eq!(out, "kept");
}

#[test]
fn workbook_names_its_first_sheet_that_is_not_in_order() {
    let mut book = WorkBook::new();
    book.sheets.push(sheet_of(vec![cell(0, 0, "t")], (1, 1)));
    let mut second = sheet_of(vec![cell(0, 4, "t")], (1, 1));
    second.name = "second".to_string();
    book.sheets.push(second);
    book.sheets.push(sheet_of(vec![cell(7, 0, "t")], (1, 1)));
    let expected = Err(OdsError::Sheet { name: "second".to_string(), row: 0, col: 4, fault: Fault::CellOutside });
    assert_eq!(sanity_checks(&book), expected);
    let mut out = String::new();
    assert_eq!(write_ods_content(&book, &mut out), expected);
    assert_eq!(out, "");
}

#[test]
fn workbook_with_a_date_out_of_range_is_refused() {
    let mut book = WorkBook::new();
    let mut bad = blank(0, 1);
    bad.content.value = Some(Value::DateTime(Timestamp { secs: i64::MIN, nanos: 7 }));
    book.sheets.push(sheet_of(vec![cell(0, 0, "t"), bad], (1, 2)));
    assert_eq!(sanity_checks(&book), Ok(()));
    let mut out = String::from("kept");
    assert_eq!(write_ods_content(&book, &mut out), Err(OdsError::Date { at: Some((0, 1)), secs: i64::MIN, nanos: 7 }));
    assert_eq!(out, "kept");
}

#[test]
fn content_document_of_a_workbook() {
    let mut book = WorkBook::new();
    book.sheets.push(sheet_of(vec![cell(0, 0, "X")], (1, 1)));
    let mut second = Sheet::new("second");
    second.cells.push(blank(0, 0));
    second.extent = (1, 1);
    book.sheets.push(second);
    let mut out = String::new();
    write_ods_content(&book, &mut out).unwrap();
    let expected = [
        "<?xml version=\"1.0\" encoding=\"UTF-8\" ?>\n<office:document-content",
        CONTENT_NAMESPACES,
        " office:version=\"1.3\">",
        "<office:scripts/>",
        "<office:font-face-decls></office:font-face-decls>",
        "<office:automatic-styles></office:automatic-styles>",
        "<office:body><office:spreadsheet>",
        "<table:table table:name=\"s\"><table:table-column/><table:table-row><table:table-cell office:value-type=\"string\"><text:p>X</text:p></table:table-cell></table:table-row></table:table>",
        "<table:table table:name=\"second\"><table:table-column/><table:table-row><table:table-cell/></table:table-row></table:table>",
        "</office:spreadsheet></office:body></office:document-content>",
    ]
    .concat();
    assert_eq!(out, expected);
}
