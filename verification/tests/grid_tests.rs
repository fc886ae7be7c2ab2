use ods_grid::sheet::{CellContent, GridCell, Sheet, WorkBook};
use ods_grid::value::Value;
use ods_grid::write::write_sheet;
use ods_grid::xmlwriter::XmlWriter;

fn text(s: &str) -> CellContent {
    let mut c = CellContent::new();
    c.value = Some(Value::Text(s.to_string()));
    c
}

fn places(sheet: &Sheet) -> Vec<(u32, u32)> {
    sheet.cells.iter().map(|c| (c.row, c.col)).collect()
}

#[test]
fn cells_set_in_any_order_stand_in_the_order_of_the_grid() {
    let mut sheet = Sheet::new("s");
    assert_eq!(sheet.set_cell(3, 2, text("d")), None);
    assert_eq!(sheet.set_cell(0, 5, text("b")), None);
    assert_eq!(sheet.set_cell(3, 0, text("c")), None);
    assert_eq!(sheet.set_cell(0, 0, text("a")), None);
    assert_eq!(sheet.set_cell(7, 1, text("e")), None);
    assert_eq!(places(&sheet), vec![(0, 0), (0, 5), (3, 0), (3, 2), (7, 1)]);
    assert_eq!(sheet.extent, (8, 6));
    assert_eq!(sheet.extent, sheet.populated_size());
    assert_eq!(sheet.find_fault(), None);
}

#[test]
fn setting_a_populated_cell_gives_back_what_it_held() {
    let mut sheet = Sheet::new("s");
    sheet.set_cell(1, 1, text("old"));
    sheet.set_cell(1, 2, text("next"));
    assert_eq!(sheet.set_cell(1, 1, text("new")), Some(text("old")));
    assert_eq!(
        sheet.cells,
        vec![
            GridCell { row: 1, col: 1, content: text("new") },
            GridCell { row: 1, col: 2, content: text("next") },
        ]
    );
    assert_eq!(sheet.extent, (2, 3));
}

#[test]
fn cells_are_found_at_their_place() {
    let mut sheet = Sheet::new("s");
    sheet.set_cell(2, 2, text("m"));
    sheet.set_cell(0, 9, text("a"));
    sheet.set_cell(5, 0, text("z"));
    assert_eq!(sheet.position(0, 0), 0);
    assert_eq!(sheet.position(0, 9), 0);
    assert_eq!(sheet.position(1, 0), 1);
    assert_eq!(sheet.position(2, 2), 1);
    assert_eq!(sheet.position(2, 3), 2);
    assert_eq!(sheet.position(5, 0), 2);
    assert_eq!(sheet.position(5, 1), 3);
    assert_eq!(sheet.position(u32::MAX, u32::MAX), 3);
    assert_eq!(sheet.cell(2, 2), Some(&text("m")));
    assert_eq!(sheet.cell(0, 9), Some(&text("a")));
    assert_eq!(sheet.cell(5, 0), Some(&text("z")));
    assert_eq!(sheet.cell(2, 1), None);
    assert_eq!(sheet.cell(6, 0), None);
    assert_eq!(Sheet::new("s").cell(0, 0), None);
}

#[test]
fn cells_are_taken_out_and_the_size_stays() {
    let mut sheet = Sheet::new("s");
    sheet.set_cell(0, 0, text("a"));
    sheet.set_cell(4, 4, text("b"));
    assert_eq!(sheet.remove_cell(1, 1), None);
    assert_eq!(sheet.remove_cell(4, 4), Some(text("b")));
    assert_eq!(places(&sheet), vec![(0, 0)]);
    assert_eq!(sheet.extent, (5, 5));
    assert_eq!(sheet.populated_size(), (1, 1));
    assert_eq!(sheet.remove_cell(0, 0), Some(text("a")));
    assert_eq!(sheet.remove_cell(0, 0), None);
    assert!(sheet.cells.is_empty());
}

#[test]
fn size_does_not_grow_beyond_what_numbers_reach() {
    let mut sheet = Sheet::new("s");
    sheet.set_cell(u32::MAX, 3, text("x"));
    assert_eq!(sheet.extent, (u32::MAX, 4));
    sheet.set_cell(0, u32::MAX, text("y"));
    assert_eq!(sheet.extent, (u32::MAX, u32::MAX));
    assert_eq!(places(&sheet), vec![(0, u32::MAX), (u32::MAX, 3)]);
}

#[test]
fn a_sheet_built_cell_by_cell_is_written() {
    let mut sheet = Sheet::new("s");
    sheet.set_cell(1, 1, text("B"));
    sheet.set_cell(0, 0, text("A"));
    let mut xml = XmlWriter::new(String::new());
    write_sheet(&WorkBook::new(), &sheet, &mut xml).unwrap();
    xml.close().unwrap();
    assert_eq!(
        xml.into_inner(),
        "<table:table table:name=\"s\"><table:table-column/><table:table-column/>\
         <table:table-row><table:table-cell office:value-type=\"string\"><text:p>A</text:p></table:table-cell><table:table-cell table:number-columns-repeated=\"1\"/></table:table-row>\
         <table:table-row><table:table-cell table:number-columns-repeated=\"1\"/><table:table-cell office:value-type=\"string\"><text:p>B</text:p></table:table-cell></table:table-row>\
         </table:table>"
    );
}
