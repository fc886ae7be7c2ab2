//! Encoder for OpenDocument spreadsheets.
//!
//! The heart of the crate is the table of a sheet: a sparse grid of cells is
//! written as rows and cells in which runs of empty rows and of blank cells
//! are folded into single elements, cells under a merged cell are marked as
//! covered, and the header rows are put between their own tags. All text goes
//! through a writer for XML that escapes it and keeps track of the open
//! elements.
//!
//! - `xmlwriter`, `escape`, `text`: the XML writer and its escaping rule.
//! - `refs`, `value`, `xmltree`, `sheet`, `grid`: the model of the sheets.
//! - `style`, `format`, `page`, `validation`, `meta`, `config`, `manifest`:
//!   the model of what else a workbook holds, each with its text.
//! - `spans`: the merged cells that are still ahead of the cursor.
//! - `layout`, `markup`, `render`: which elements stand for a sheet, and
//!   their text.
//! - `laws`, `nesting`, `cover`: what holds of every layout.
//! - `validate`: finding out whether a workbook can be written.
//! - `write`, `document`, `stylesdoc`, `namespaces`: writing tables, the
//!   content document and the styles document.
//! - `package`: the manifest, the parts of the package and the archive.

pub mod config;
pub mod cover;
pub mod document;
pub mod error;
pub mod escape;
pub mod format;
pub mod grid;
pub mod laws;
pub mod layout;
pub mod manifest;
pub mod markup;
pub mod meta;
pub mod namespaces;
pub mod nesting;
pub mod package;
pub mod page;
pub mod refs;
pub mod render;
pub mod sheet;
pub mod spans;
pub mod style;
pub mod stylesdoc;
pub mod text;
pub mod validate;
pub mod validation;
pub mod value;
pub mod write;
pub mod xmltree;
pub mod xmlwriter;
