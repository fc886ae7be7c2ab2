//! The styles document of a workbook.

use crate::document::section_text;
use crate::error::OdsError;
use crate::escape::{escaped, lemma_escaped_ident_plain};
use crate::format::{check_formats, formats_text, formats_typed, write_valuestyles};
use crate::namespaces::{styles_namespaces_text, write_styles_namespaces};
use crate::page::{masters_text, pages_text, write_masterpage, write_pagestyles};
use crate::sheet::WorkBook;
use crate::style::{fonts_text, styles_text, write_font_decl, write_styles, StyleOrigin, StyleUse};
use crate::text::{
    lemma_append2, lemma_append3, lemma_append4, lemma_append5, lemma_append_empty,
};
use crate::validate::untyped_format_text;
use crate::xmlwriter::{attr_text, dtd_text, end_tag_text, open_tag_text, Open, XmlWriter};
use vstd::prelude::*;

verus! {

/// The start of the styles document.
#[verifier::opaque]
pub open spec fn styles_head_text(book: &WorkBook) -> Seq<char> {
    dtd_text("UTF-8"@) + (open_tag_text("office:document-styles"@) + styles_namespaces_text()
        + attr_text("office:version"@, escaped(book.version@, false)) + seq!['>'])
}

/// The default styles and the named styles of the styles document, with the
/// value formats.
#[verifier::opaque]
pub open spec fn common_styles_text(book: &WorkBook) -> Seq<char> {
    styles_text(book.styles@, StyleOrigin::Styles, StyleUse::Default) + styles_text(
        book.styles@,
        StyleOrigin::Styles,
        StyleUse::Named,
    ) + formats_text(book.formats@, StyleOrigin::Styles, StyleUse::Named) + formats_text(
        book.formats@,
        StyleOrigin::Styles,
        StyleUse::Default,
    )
}

/// The page layouts and the automatic styles of the styles document.
#[verifier::opaque]
pub open spec fn automatic_styles_text(book: &WorkBook) -> Seq<char> {
    pages_text(book.pagestyles@) + styles_text(
        book.styles@,
        StyleOrigin::Styles,
        StyleUse::Automatic,
    ) + formats_text(book.formats@, StyleOrigin::Styles, StyleUse::Automatic)
}

/// The styles document of the workbook.
pub open spec fn styles_document_text(book: &WorkBook) -> Seq<char> {
    styles_head_text(book) + section_text(
        "office:font-face-decls"@,
        fonts_text(book.fonts@, StyleOrigin::Styles),
    ) + section_text("office:styles"@, common_styles_text(book)) + section_text(
        "office:automatic-styles"@,
        automatic_styles_text(book),
    ) + section_text("office:master-styles"@, masters_text(book.masterpages@)) + end_tag_text(
        "office:document-styles"@,
    )
}

fn write_styles_head(book: &WorkBook, xml_out: &mut XmlWriter) -> (r: Result<(), OdsError>)
    requires
        old(xml_out).open_state() == Open::Nothing,
    ensures
        r is Ok,
        final(xml_out).document() == old(xml_out).document() + styles_head_text(book),
        final(xml_out).open_elements() == old(xml_out).open_elements().push(
            "office:document-styles"@,
        ),
{
    let ghost start = xml_out.document();
    xml_out.dtd("UTF-8")?;
    proof {
        lemma_append_empty(xml_out.written());
    }
    assert(xml_out.document() == start + dtd_text("UTF-8"@));
    proof {
        reveal(styles_head_text);
        reveal_strlit("office:version");
        lemma_escaped_ident_plain("office:version"@);
        lemma_append4(
            start + dtd_text("UTF-8"@),
            open_tag_text("office:document-styles"@),
            styles_namespaces_text(),
            attr_text("office:version"@, escaped(book.version@, false)),
            seq!['>'],
        );
        lemma_append2(
            start,
            dtd_text("UTF-8"@),
            open_tag_text("office:document-styles"@) + styles_namespaces_text() + attr_text(
                "office:version"@,
                escaped(book.version@, false),
            ) + seq!['>'],
        );
    }
    xml_out.elem("office:document-styles")?;
    write_styles_namespaces(xml_out)?;
    xml_out.attr_esc("office:version", book.version.as_str())?;
    Ok(())
}

fn write_common_styles(book: &WorkBook, xml_out: &mut XmlWriter) -> (r: Result<(), OdsError>)
    requires
        formats_typed(book.formats@),
    ensures
        r is Ok,
        final(xml_out).document() == old(xml_out).document() + section_text(
            "office:styles"@,
            common_styles_text(book),
        ),
        final(xml_out).open_elements() == old(xml_out).open_elements(),
{
    let ghost start = xml_out.document();
    let ghost stack = xml_out.open_elements();
    xml_out.elem("office:styles")?;
    let ghost opened = xml_out.document();
    write_styles(&book.styles, StyleOrigin::Styles, StyleUse::Default, xml_out)?;
    write_styles(&book.styles, StyleOrigin::Styles, StyleUse::Named, xml_out)?;
    write_valuestyles(&book.formats, StyleOrigin::Styles, StyleUse::Named, xml_out)?;
    write_valuestyles(&book.formats, StyleOrigin::Styles, StyleUse::Default, xml_out)?;
    proof {
        reveal(common_styles_text);
        lemma_append4(
            opened,
            styles_text(book.styles@, StyleOrigin::Styles, StyleUse::Default),
            styles_text(book.styles@, StyleOrigin::Styles, StyleUse::Named),
            formats_text(book.formats@, StyleOrigin::Styles, StyleUse::Named),
            formats_text(book.formats@, StyleOrigin::Styles, StyleUse::Default),
        );
        lemma_append3(
            start,
            open_tag_text("office:styles"@) + seq!['>'],
            common_styles_text(book),
            end_tag_text("office:styles"@),
        );
        assert(stack.push("office:styles"@).drop_last() == stack);
    }
    xml_out.end_elem("office:styles")?;
    Ok(())
}

fn write_automatic_styles(book: &WorkBook, xml_out: &mut XmlWriter) -> (r: Result<(), OdsError>)
    requires
        formats_typed(book.formats@),
    ensures
        r is Ok,
        final(xml_out).document() == old(xml_out).document() + section_text(
            "office:automatic-styles"@,
            automatic_styles_text(book),
        ),
        final(xml_out).open_elements() == old(xml_out).open_elements(),
{
    let ghost start = xml_out.document();
    let ghost stack = xml_out.open_elements();
    xml_out.elem("office:automatic-styles")?;
    let ghost opened = xml_out.document();
    write_pagestyles(&book.pagestyles, xml_out)?;
    write_styles(&book.styles, StyleOrigin::Styles, StyleUse::Automatic, xml_out)?;
    write_valuestyles(&book.formats, StyleOrigin::Styles, StyleUse::Automatic, xml_out)?;
    proof {
        reveal(automatic_styles_text);
        lemma_append3(
            opened,
            pages_text(book.pagestyles@),
            styles_text(book.styles@, StyleOrigin::Styles, StyleUse::Automatic),
            formats_text(book.formats@, StyleOrigin::Styles, StyleUse::Automatic),
        );
        lemma_append3(
            start,
            open_tag_text("office:automatic-styles"@) + seq!['>'],
            automatic_styles_text(book),
            end_tag_text("office:automatic-styles"@),
        );
        assert(stack.push("office:automatic-styles"@).drop_last() == stack);
    }
    xml_out.end_elem("office:automatic-styles")?;
    Ok(())
}

/// Writes the styles document. A workbook with a value format for values
/// without content is refused.
pub fn write_ods_styles(book: &WorkBook) -> (r: Result<String, OdsError>)
    ensures
        r is Ok <==> formats_typed(book.formats@),
        r matches Ok(text) ==> text@ == styles_document_text(book),
        r matches Err(e) ==> e matches OdsError::Ods(msg) && msg@ == untyped_format_text(),
{
    if !check_formats(&book.formats) {
        return Err(OdsError::Ods("A value format is for values without content.".to_owned()));
    }
    let mut xml_out = XmlWriter::new(String::new());
    assert(xml_out.document() == Seq::<char>::empty());
    let ghost none = xml_out.open_elements();
    let ghost stack = none.push("office:document-styles"@);
    write_styles_head(book, &mut xml_out)?;
    proof {
        lemma_append_empty(styles_head_text(book));
    }
    let ghost head = xml_out.document();
    xml_out.elem("office:font-face-decls")?;
    write_font_decl(&book.fonts, StyleOrigin::Styles, &mut xml_out)?;
    proof {
        assert(stack.push("office:font-face-decls"@).drop_last() == stack);
        lemma_append3(
            head,
            open_tag_text("office:font-face-decls"@) + seq!['>'],
            fonts_text(book.fonts@, StyleOrigin::Styles),
            end_tag_text("office:font-face-decls"@),
        );
    }
    xml_out.end_elem("office:font-face-decls")?;
    write_common_styles(book, &mut xml_out)?;
    write_automatic_styles(book, &mut xml_out)?;
    let ghost three = xml_out.document();
    xml_out.elem("office:master-styles")?;
    write_masterpage(&book.masterpages, &mut xml_out)?;
    proof {
        assert(stack.push("office:master-styles"@).drop_last() == stack);
        lemma_append3(
            three,
            open_tag_text("office:master-styles"@) + seq!['>'],
            masters_text(book.masterpages@),
            end_tag_text("office:master-styles"@),
        );
        assert(stack.drop_last() == none);
        lemma_append5(
            head,
            section_text("office:font-face-decls"@, fonts_text(book.fonts@, StyleOrigin::Styles)),
            section_text("office:styles"@, common_styles_text(book)),
            section_text("office:automatic-styles"@, automatic_styles_text(book)),
            section_text("office:master-styles"@, masters_text(book.masterpages@)),
            end_tag_text("office:document-styles"@),
        );
    }
    xml_out.end_elem("office:master-styles")?;
    xml_out.end_elem("office:document-styles")?;
    xml_out.close()?;
    Ok(xml_out.into_inner())
}

} // verus!
