//! Writing the table of a sheet: columns, rows, cells and the gaps between them.

pub mod attrs;
pub mod cells;
pub mod rows;
pub mod table;

pub use cells::{
    check_content, tag_belongs, write_cell, write_placed_tags, write_plain_value, write_xmltag,
};
pub use rows::{
    write_empty_cells, write_empty_row, write_empty_rows_before, write_end_current_row,
    write_start_current_row, write_table_columns,
};
pub use table::{check_cells, write_grid_cell, write_sheet, write_table, EncoderState};
