//! The content document of a workbook: the tables of its sheets inside the
//! elements that the document format puts around them.

use crate::error::OdsError;
use crate::escape::{escaped, lemma_escaped_ident_plain};
use crate::format::{formats_text, formats_typed, write_valuestyles};
use crate::markup::{placed_tags_text, sheet_error, sheet_writable, table_text, TagPlace};
use crate::namespaces::{content_namespaces_text, write_content_namespaces};
use crate::sheet::WorkBook;
use crate::style::{fonts_text, styles_text, write_font_decl, write_styles, StyleOrigin, StyleUse};
use crate::text::{
    lemma_append2, lemma_append3, lemma_append4, lemma_append5, lemma_append_empty,
};
use crate::validation::{validations_text, write_content_validations};
use crate::write::write_placed_tags;
use crate::validate::{is_fault_of, sanity_checks};
use crate::write::write_table;
use crate::xmlwriter::{attr_text, dtd_text, end_tag_text, open_tag_text, Open, XmlWriter};
use vstd::prelude::*;

verus! {

/// The tables of the first `n` sheets, one after the other.
pub open spec fn sheets_text(book: &WorkBook, n: int) -> Seq<char>
    decreases n,
{
    if n <= 0 {
        Seq::empty()
    } else {
        sheets_text(book, n - 1) + table_text(book, &book.sheets@[n - 1])
    }
}

/// The first of the first `n` sheets that holds a value which cannot be
/// written.
pub open spec fn first_unwritable_sheet(book: &WorkBook, n: int) -> Option<int>
    decreases n,
{
    if n <= 0 {
        None
    } else if first_unwritable_sheet(book, n - 1) is Some {
        first_unwritable_sheet(book, n - 1)
    } else if !sheet_writable(&book.sheets@[n - 1]) {
        Some(n - 1)
    } else {
        None
    }
}

/// Whether every value of the workbook can be written.
pub open spec fn book_writable(book: &WorkBook) -> bool {
    first_unwritable_sheet(book, book.sheets@.len() as int) is None
}

/// The error for the first value of the workbook that cannot be written.
pub open spec fn unwritable_error(book: &WorkBook) -> OdsError {
    sheet_error(&book.sheets@[first_unwritable_sheet(book, book.sheets@.len() as int)->0])
}

/// The start tag of the document element, with its namespaces and the
/// version of the document format.
#[verifier::opaque]
pub open spec fn document_open_text(book: &WorkBook) -> Seq<char> {
    open_tag_text("office:document-content"@) + content_namespaces_text() + attr_text(
        "office:version"@,
        escaped(book.version@, false),
    ) + seq!['>']
}

/// An element that holds the given text.
pub open spec fn section_text(tag: Seq<char>, inner: Seq<char>) -> Seq<char> {
    (open_tag_text(tag) + seq!['>']) + inner + end_tag_text(tag)
}

/// What stands before the body: the declaration, the document element, the
/// scripts, which are none, the fonts and the automatic styles of the
/// content document.
#[verifier::opaque]
pub open spec fn document_front_text(book: &WorkBook) -> Seq<char> {
    dtd_text("UTF-8"@) + document_open_text(book) + (open_tag_text("office:scripts"@) + seq![
        '/',
        '>',
    ]) + section_text("office:font-face-decls"@, fonts_text(book.fonts@, StyleOrigin::Content))
        + section_text(
        "office:automatic-styles"@,
        styles_text(book.styles@, StyleOrigin::Content, StyleUse::Automatic) + formats_text(
            book.formats@,
            StyleOrigin::Content,
            StyleUse::Automatic,
        ),
    )
}

/// What stands before the tables: the front, the elements for the body and
/// the spreadsheet, the foreign tags that lead the spreadsheet, and the
/// rules for the content of cells.
#[verifier::opaque]
pub open spec fn document_head_text(book: &WorkBook) -> Seq<char> {
    document_front_text(book) + (open_tag_text("office:body"@) + seq!['>']) + (open_tag_text(
        "office:spreadsheet"@,
    ) + seq!['>']) + placed_tags_text(book.extra@, TagPlace::BookHead) + validations_text(
        book.validations@,
    )
}

/// What stands after the tables: the foreign tags that end the spreadsheet,
/// and the end tags.
#[verifier::opaque]
pub open spec fn document_tail_text(book: &WorkBook) -> Seq<char> {
    placed_tags_text(book.extra@, TagPlace::BookTail) + (end_tag_text("office:spreadsheet"@)
        + end_tag_text("office:body"@) + end_tag_text("office:document-content"@))
}

/// The content document of the workbook.
pub open spec fn document_text(book: &WorkBook) -> Seq<char> {
    document_head_text(book) + sheets_text(book, book.sheets@.len() as int) + document_tail_text(
        book,
    )
}

/// Once a sheet that cannot be written is found among the first sheets, it
/// stays the first one when more sheets are looked at.
pub proof fn lemma_first_unwritable_sheet_stays(book: &WorkBook, n: int, m: int)
    requires
        0 <= n <= m,
        first_unwritable_sheet(book, n) is Some,
    ensures
        first_unwritable_sheet(book, m) == first_unwritable_sheet(book, n),
    decreases m - n,
{
    if n < m {
        lemma_first_unwritable_sheet_stays(book, n, m - 1);
    }
}

/// Writes the start tag of the document element.
fn write_document_open(book: &WorkBook, xml_out: &mut XmlWriter) -> (r: Result<(), OdsError>)
    ensures
        r is Ok,
        final(xml_out).document() == old(xml_out).document() + document_open_text(book),
        final(xml_out).open_elements() == old(xml_out).open_elements().push(
            "office:document-content"@,
        ),
{
    let ghost start = xml_out.document();
    proof {
        reveal(document_open_text);
        reveal_strlit("office:version");
        lemma_escaped_ident_plain("office:version"@);
        lemma_append4(
            start,
            open_tag_text("office:document-content"@),
            content_namespaces_text(),
            attr_text("office:version"@, escaped(book.version@, false)),
            seq!['>'],
        );
    }
    xml_out.elem("office:document-content")?;
    write_content_namespaces(xml_out)?;
    xml_out.attr_esc("office:version", book.version.as_str())?;
    Ok(())
}

/// Writes what stands before the body.
fn write_document_front(book: &WorkBook, xml_out: &mut XmlWriter) -> (r: Result<(), OdsError>)
    requires
        old(xml_out).open_state() == Open::Nothing,
        formats_typed(book.formats@),
    ensures
        r is Ok,
        final(xml_out).document() == old(xml_out).document() + document_front_text(book),
        final(xml_out).open_elements() == old(xml_out).open_elements().push(
            "office:document-content"@,
        ),
{
    let ghost start = xml_out.document();
    let ghost stack = xml_out.open_elements().push("office:document-content"@);
    let ghost fonts = fonts_text(book.fonts@, StyleOrigin::Content);
    let ghost styles = styles_text(book.styles@, StyleOrigin::Content, StyleUse::Automatic);
    let ghost formats = formats_text(book.formats@, StyleOrigin::Content, StyleUse::Automatic);
    xml_out.dtd("UTF-8")?;
    proof {
        lemma_append_empty(xml_out.written());
    }
    assert(xml_out.document() == start + dtd_text("UTF-8"@));
    write_document_open(book, xml_out)?;
    xml_out.empty("office:scripts")?;
    let ghost scripts = xml_out.document();
    proof {
        lemma_append3(
            start,
            dtd_text("UTF-8"@),
            document_open_text(book),
            open_tag_text("office:scripts"@) + seq!['/', '>'],
        );
    }
    xml_out.elem("office:font-face-decls")?;
    write_font_decl(&book.fonts, StyleOrigin::Content, xml_out)?;
    proof {
        assert(stack.push("office:font-face-decls"@).drop_last() == stack);
        lemma_append3(
            scripts,
            open_tag_text("office:font-face-decls"@) + seq!['>'],
            fonts,
            end_tag_text("office:font-face-decls"@),
        );
    }
    xml_out.end_elem("office:font-face-decls")?;
    let ghost declared = xml_out.document();
    xml_out.elem("office:automatic-styles")?;
    let ghost opened = xml_out.document();
    write_styles(&book.styles, StyleOrigin::Content, StyleUse::Automatic, xml_out)?;
    write_valuestyles(&book.formats, StyleOrigin::Content, StyleUse::Automatic, xml_out)?;
    proof {
        assert(stack.push("office:automatic-styles"@).drop_last() == stack);
        lemma_append2(opened, styles, formats);
        lemma_append3(
            declared,
            open_tag_text("office:automatic-styles"@) + seq!['>'],
            styles + formats,
            end_tag_text("office:automatic-styles"@),
        );
        reveal(document_front_text);
        lemma_append3(
            start,
            dtd_text("UTF-8"@) + document_open_text(book) + (open_tag_text("office:scripts"@)
                + seq!['/', '>']),
            section_text("office:font-face-decls"@, fonts),
            section_text("office:automatic-styles"@, styles + formats),
        );
    }
    xml_out.end_elem("office:automatic-styles")?;
    Ok(())
}

/// Writes what stands before the tables.
fn write_document_head(book: &WorkBook, xml_out: &mut XmlWriter) -> (r: Result<(), OdsError>)
    requires
        old(xml_out).open_state() == Open::Nothing,
        formats_typed(book.formats@),
    ensures
        r is Ok,
        final(xml_out).document() == old(xml_out).document() + document_head_text(book),
        final(xml_out).open_elements() == old(xml_out).open_elements().push(
            "office:document-content"@,
        ).push("office:body"@).push("office:spreadsheet"@),
{
    proof {
        reveal(document_head_text);
        lemma_append5(
            xml_out.document(),
            document_front_text(book),
            open_tag_text("office:body"@) + seq!['>'],
            open_tag_text("office:spreadsheet"@) + seq!['>'],
            placed_tags_text(book.extra@, TagPlace::BookHead),
            validations_text(book.validations@),
        );
    }
    write_document_front(book, xml_out)?;
    xml_out.elem("office:body")?;
    xml_out.elem("office:spreadsheet")?;
    write_placed_tags(&book.extra, TagPlace::BookHead, xml_out)?;
    write_content_validations(&book.validations, xml_out)?;
    Ok(())
}

/// Writes what stands after the tables.
fn write_document_tail(
    book: &WorkBook,
    xml_out: &mut XmlWriter,
    Ghost(base): Ghost<Seq<Seq<char>>>,
) -> (r: Result<(), OdsError>)
    requires
        old(xml_out).open_elements() == base.push("office:document-content"@).push(
            "office:body"@,
        ).push("office:spreadsheet"@),
    ensures
        r is Ok,
        final(xml_out).document() == old(xml_out).document() + document_tail_text(book),
        final(xml_out).open_elements() == base,
{
    let ghost start = xml_out.document();
    write_placed_tags(&book.extra, TagPlace::BookTail, xml_out)?;
    proof {
        reveal(document_tail_text);
        lemma_append3(
            xml_out.document(),
            end_tag_text("office:spreadsheet"@),
            end_tag_text("office:body"@),
            end_tag_text("office:document-content"@),
        );
        lemma_append2(
            start,
            placed_tags_text(book.extra@, TagPlace::BookTail),
            end_tag_text("office:spreadsheet"@) + end_tag_text("office:body"@) + end_tag_text(
                "office:document-content"@,
            ),
        );
        let a = base.push("office:document-content"@);
        let b = a.push("office:body"@);
        assert(b.push("office:spreadsheet"@).drop_last() == b);
        assert(a.push("office:body"@).drop_last() == a);
        assert(base.push("office:document-content"@).drop_last() == base);
    }
    xml_out.end_elem("office:spreadsheet")?;
    xml_out.end_elem("office:body")?;
    xml_out.end_elem("office:document-content")?;
    Ok(())
}

/// Writes the tables of all sheets.
fn write_sheets(book: &WorkBook, xml_out: &mut XmlWriter) -> (r: Result<(), OdsError>)
    requires
        book.wf(),
    ensures
        r is Ok <==> book_writable(book),
        r is Ok ==> {
            &&& final(xml_out).document() == old(xml_out).document() + sheets_text(
                book,
                book.sheets@.len() as int,
            )
            &&& final(xml_out).open_elements() == old(xml_out).open_elements()
        },
        r matches Err(e) ==> e == unwritable_error(book),
{
    let ghost start = xml_out.document();
    let mut i: usize = 0;
    proof {
        lemma_append_empty(start);
    }
    while i < book.sheets.len()
        invariant
            i <= book.sheets.len(),
            book.wf(),
            xml_out.document() == start + sheets_text(book, i as int),
            xml_out.open_elements() == old(xml_out).open_elements(),
            first_unwritable_sheet(book, i as int) is None,
        decreases book.sheets.len() - i,
    {
        proof {
            lemma_append2(
                start,
                sheets_text(book, i as int),
                table_text(book, &book.sheets@[i as int]),
            );
            if !sheet_writable(&book.sheets@[i as int]) {
                lemma_first_unwritable_sheet_stays(book, i + 1, book.sheets@.len() as int);
            }
        }
        write_table(book, &book.sheets[i], xml_out)?;
        i += 1;
    }
    Ok(())
}

/// Whether `e` is the error for the workbook `book`, which cannot be
/// written: the workbook is not in order, or it holds a value that cannot be
/// written.
pub open spec fn is_error_of(book: &WorkBook, e: OdsError) -> bool {
    if book.wf() {
        e == unwritable_error(book)
    } else {
        is_fault_of(book, e)
    }
}

/// Writes the content document of the workbook to `out`. The workbook is
/// looked over first; where it cannot be written, nothing is added to `out`.
pub fn write_ods_content(book: &WorkBook, out: &mut String) -> (r: Result<(), OdsError>)
    ensures
        r is Ok <==> book.wf() && book_writable(book),
        r is Ok ==> final(out)@ == old(out)@ + document_text(book),
        r is Err ==> final(out)@ == old(out)@,
        r matches Err(e) ==> is_error_of(book, e),
{
    sanity_checks(book)?;

    let mut xml_out = XmlWriter::new(String::new());
    proof {
        lemma_append_empty(document_head_text(book));
        lemma_append3(
            xml_out.document(),
            document_head_text(book),
            sheets_text(book, book.sheets@.len() as int),
            document_tail_text(book),
        );
        assert(xml_out.document() == Seq::<char>::empty());
    }
    write_document_head(book, &mut xml_out)?;
    write_sheets(book, &mut xml_out)?;
    write_document_tail(book, &mut xml_out, Ghost(Seq::empty()))?;
    xml_out.close()?;

    let text = xml_out.into_inner();
    out.append(text.as_str());
    Ok(())
}

} // verus!
