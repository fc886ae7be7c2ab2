//! The errors of the encoder.

use crate::xmlwriter::XmlError;
use vstd::prelude::*;

verus! {

/// What is wrong with a sheet.
#[derive(Clone, Copy, Debug, PartialEq, Eq, Structural)]
pub enum Fault {
    /// A cell does not come after the cell before it.
    CellOrder,
    /// A cell lies outside the rows and columns in use.
    CellOutside,
    /// The header of a populated row says that the row stands for no row.
    RowRepeat,
    /// A span is empty or reaches beyond the grid.
    SpanSize,
    /// A merged cell reaches over cells of another merged cell.
    SpanOverlap,
    /// The header rows or columns end before they begin.
    HeaderRange,
    /// The header rows begin or end at a row that is not written.
    HeaderRows,
    /// The header columns end beyond the columns in use.
    HeaderColumns,
}

/// Why a document could not be written.
#[derive(Debug, PartialEq, Eq)]
pub enum OdsError {
    /// The document as a whole cannot be written; the text says why.
    Ods(String),
    /// The XML writer refused a call.
    Xml(XmlError),
    /// A sheet is not in order: the name of the sheet, the row and the column,
    /// and what is wrong there.
    Sheet { name: String, row: u32, col: u32, fault: Fault },
    /// A cell holds a date that has no text: the row and the column of the
    /// cell, where they are known, and the date.
    Date { at: Option<(u32, u32)>, secs: i64, nanos: u32 },
    /// The archive could not be written; the text says why.
    Zip(String),
}

impl From<XmlError> for OdsError {
    fn from(err: XmlError) -> (r: OdsError) {
        OdsError::Xml(err)
    }
}

impl vstd::std_specs::convert::FromSpecImpl<XmlError> for OdsError {
    open spec fn obeys_from_spec() -> bool {
        true
    }

    open spec fn from_spec(err: XmlError) -> OdsError {
        OdsError::Xml(err)
    }
}

} // verus!
