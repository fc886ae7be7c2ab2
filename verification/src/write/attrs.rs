//! Attributes that many elements have in common.

use crate::error::OdsError;
use crate::escape::{escaped, is_markup, lemma_escaped_ident_plain};
use crate::markup::{
    col_meta_text, count_attr_text, opt_attr_text, row_meta_text, visibility_attr_text,
};
use crate::sheet::{Sheet, Visibility};
use crate::text::{decimal_string, lemma_append3, lemma_append_empty};
use crate::xmlwriter::{attr_text, Open, XmlError, XmlWriter};
use vstd::prelude::*;

verus! {

/// Hands on what the XML writer answered, its error as an error of the
/// encoder.
pub(crate) fn xml(answer: Result<(), XmlError>) -> (r: Result<(), OdsError>)
    ensures
        r is Ok <==> answer is Ok,
        answer matches Err(e) ==> r == Err::<(), OdsError>(OdsError::Xml(e)),
{
    match answer {
        Ok(()) => Ok(()),
        Err(e) => Err(OdsError::Xml(e)),
    }
}

/// A name that stands for itself when it is escaped as an identifier.
pub open spec fn plain_name(s: Seq<char>) -> bool {
    forall|i: int| 0 <= i < s.len() ==> !is_markup(#[trigger] s[i]) && s[i] != '\\'
}

/// Writes an attribute whose name needs no escaping, the value escaped.
pub(crate) fn attr_value_esc(xml_out: &mut XmlWriter, name: &str, value: &str) -> (r: Result<
    (),
    OdsError,
>)
    requires
        old(xml_out).open_state() != Open::Nothing,
        plain_name(name@),
    ensures
        r is Ok,
        final(xml_out).written() == old(xml_out).written() + attr_text(
            name@,
            escaped(value@, false),
        ),
        final(xml_out).open_state() == old(xml_out).open_state(),
        final(xml_out).open_elements() == old(xml_out).open_elements(),
{
    proof {
        lemma_escaped_ident_plain(name@);
    }
    xml_out.attr_esc(name, value)?;
    Ok(())
}

/// Writes an attribute with an escaped value, where the value is given.
pub(crate) fn opt_attr(xml_out: &mut XmlWriter, name: &str, value: &Option<String>) -> (r: Result<
    (),
    OdsError,
>)
    requires
        old(xml_out).open_state() != Open::Nothing,
        plain_name(name@),
    ensures
        r is Ok,
        final(xml_out).written() == old(xml_out).written() + opt_attr_text(name@, *value),
        final(xml_out).open_state() == old(xml_out).open_state(),
        final(xml_out).open_elements() == old(xml_out).open_elements(),
{
    proof {
        reveal(opt_attr_text);
        lemma_append_empty(xml_out.written());
    }
    if let Some(v) = value {
        attr_value_esc(xml_out, name, v.as_str())?;
    }
    Ok(())
}

/// Writes the attribute that says for how many rows or columns an element
/// stands.
pub(crate) fn count_attr(xml_out: &mut XmlWriter, name: &str, count: u32) -> (r: Result<
    (),
    OdsError,
>)
    requires
        old(xml_out).open_state() != Open::Nothing,
    ensures
        r is Ok,
        final(xml_out).written() == old(xml_out).written() + count_attr_text(name@, count as int),
        final(xml_out).open_state() == old(xml_out).open_state(),
        final(xml_out).open_elements() == old(xml_out).open_elements(),
{
    proof {
        reveal(count_attr_text);
    }
    let text = decimal_string(count as u64);
    xml_out.attr(name, text.as_str())?;
    Ok(())
}

/// Writes the attribute for a row or column that is not plainly visible.
pub(crate) fn visibility_attr(xml_out: &mut XmlWriter, visible: Visibility) -> (r: Result<
    (),
    OdsError,
>)
    requires
        old(xml_out).open_state() != Open::Nothing,
    ensures
        r is Ok,
        final(xml_out).written() == old(xml_out).written() + visibility_attr_text(visible),
        final(xml_out).open_state() == old(xml_out).open_state(),
        final(xml_out).open_elements() == old(xml_out).open_elements(),
{
    proof {
        reveal(visibility_attr_text);
        lemma_append_empty(xml_out.written());
    }
    if visible != Visibility::Visible {
        xml_out.attr("table:visibility", visible.as_str())?;
    }
    Ok(())
}

/// Writes the three attributes that a row or a column takes from its header.
pub(crate) fn write_meta(
    style: &Option<String>,
    cellstyle: &Option<String>,
    visible: Visibility,
    xml_out: &mut XmlWriter,
) -> (r: Result<(), OdsError>)
    requires
        old(xml_out).open_state() != Open::Nothing,
    ensures
        r is Ok,
        final(xml_out).written() == old(xml_out).written() + (opt_attr_text(
            "table:style-name"@,
            *style,
        ) + opt_attr_text("table:default-cell-style-name"@, *cellstyle) + visibility_attr_text(
            visible,
        )),
        final(xml_out).open_state() == old(xml_out).open_state(),
        final(xml_out).open_elements() == old(xml_out).open_elements(),
{
    proof {
        reveal_strlit("table:style-name");
        reveal_strlit("table:default-cell-style-name");
        lemma_append3(
            xml_out.written(),
            opt_attr_text("table:style-name"@, *style),
            opt_attr_text("table:default-cell-style-name"@, *cellstyle),
            visibility_attr_text(visible),
        );
    }
    opt_attr(xml_out, "table:style-name", style)?;
    opt_attr(xml_out, "table:default-cell-style-name", cellstyle)?;
    visibility_attr(xml_out, visible)?;
    Ok(())
}

/// Writes the attributes that a row takes from its header.
pub(crate) fn write_row_meta(sheet: &Sheet, row: u32, xml_out: &mut XmlWriter) -> (r: Result<
    (),
    OdsError,
>)
    requires
        old(xml_out).open_state() != Open::Nothing,
    ensures
        r is Ok,
        final(xml_out).written() == old(xml_out).written() + row_meta_text(sheet, row),
        final(xml_out).open_state() == old(xml_out).open_state(),
        final(xml_out).open_elements() == old(xml_out).open_elements(),
{
    proof {
        reveal(row_meta_text);
        lemma_append_empty(xml_out.written());
    }
    if let Some(row_header) = sheet.row_header.get(&row) {
        write_meta(&row_header.style, &row_header.cellstyle, row_header.visible, xml_out)?;
    }
    Ok(())
}

/// Writes the attributes that a column takes from its header.
pub(crate) fn write_col_meta(sheet: &Sheet, col: u32, xml_out: &mut XmlWriter) -> (r: Result<
    (),
    OdsError,
>)
    requires
        old(xml_out).open_state() != Open::Nothing,
    ensures
        r is Ok,
        final(xml_out).written() == old(xml_out).written() + col_meta_text(sheet, col),
        final(xml_out).open_state() == old(xml_out).open_state(),
        final(xml_out).open_elements() == old(xml_out).open_elements(),
{
    proof {
        reveal(col_meta_text);
        lemma_append_empty(xml_out.written());
    }
    if let Some(col_header) = sheet.col_header.get(&col) {
        write_meta(&col_header.style, &col_header.cellstyle, col_header.visible, xml_out)?;
    }
    Ok(())
}

} // verus!
