//! The namespaces that the documents declare.

use crate::error::OdsError;
use crate::text::{lemma_append2, lemma_append3, lemma_append4, lemma_append5, lemma_append_empty};
use crate::xmlwriter::{attr_text, Open, XmlWriter};
use vstd::prelude::*;

verus! {

/// Namespaces of the content document, part 1.
#[verifier::opaque]
pub open spec fn content_ns_0_text() -> Seq<char> {
    attr_text("xmlns:meta"@, "urn:oasis:names:tc:opendocument:xmlns:meta:1.0"@) + attr_text("xmlns:office"@, "urn:oasis:names:tc:opendocument:xmlns:office:1.0"@) + attr_text("xmlns:fo"@, "urn:oasis:names:tc:opendocument:xmlns:xsl-fo-compatible:1.0"@) + attr_text("xmlns:ooo"@, "http://openoffice.org/2004/office"@) + attr_text("xmlns:xlink"@, "http://www.w3.org/1999/xlink"@)
}

fn write_content_ns_0(xml_out: &mut XmlWriter) -> (r: Result<(), OdsError>)
    requires
        old(xml_out).open_state() != Open::Nothing,
    ensures
        r is Ok,
        final(xml_out).written() == old(xml_out).written() + content_ns_0_text(),
        final(xml_out).open_state() == old(xml_out).open_state(),
        final(xml_out).open_elements() == old(xml_out).open_elements(),
{
    proof {
        reveal(content_ns_0_text);
        lemma_append5(xml_out.written(), attr_text("xmlns:meta"@, "urn:oasis:names:tc:opendocument:xmlns:meta:1.0"@), attr_text("xmlns:office"@, "urn:oasis:names:tc:opendocument:xmlns:office:1.0"@), attr_text("xmlns:fo"@, "urn:oasis:names:tc:opendocument:xmlns:xsl-fo-compatible:1.0"@), attr_text("xmlns:ooo"@, "http://openoffice.org/2004/office"@), attr_text("xmlns:xlink"@, "http://www.w3.org/1999/xlink"@));
    }
    xml_out.attr("xmlns:meta", "urn:oasis:names:tc:opendocument:xmlns:meta:1.0")?;
    xml_out.attr("xmlns:office", "urn:oasis:names:tc:opendocument:xmlns:office:1.0")?;
    xml_out.attr("xmlns:fo", "urn:oasis:names:tc:opendocument:xmlns:xsl-fo-compatible:1.0")?;
    xml_out.attr("xmlns:ooo", "http://openoffice.org/2004/office")?;
    xml_out.attr("xmlns:xlink", "http://www.w3.org/1999/xlink")?;
    Ok(())
}

/// Namespaces of the content document, part 2.
#[verifier::opaque]
pub open spec fn content_ns_1_text() -> Seq<char> {
    attr_text("xmlns:dc"@, "http://purl.org/dc/elements/1.1/"@) + attr_text("xmlns:style"@, "urn:oasis:names:tc:opendocument:xmlns:style:1.0"@) + attr_text("xmlns:text"@, "urn:oasis:names:tc:opendocument:xmlns:text:1.0"@) + attr_text("xmlns:draw"@, "urn:oasis:names:tc:opendocument:xmlns:drawing:1.0"@) + attr_text("xmlns:dr3d"@, "urn:oasis:names:tc:opendocument:xmlns:dr3d:1.0"@)
}

fn write_content_ns_1(xml_out: &mut XmlWriter) -> (r: Result<(), OdsError>)
    requires
        old(xml_out).open_state() != Open::Nothing,
    ensures
        r is Ok,
        final(xml_out).written() == old(xml_out).written() + content_ns_1_text(),
        final(xml_out).open_state() == old(xml_out).open_state(),
        final(xml_out).open_elements() == old(xml_out).open_elements(),
{
    proof {
        reveal(content_ns_1_text);
        lemma_append5(xml_out.written(), attr_text("xmlns:dc"@, "http://purl.org/dc/elements/1.1/"@), attr_text("xmlns:style"@, "urn:oasis:names:tc:opendocument:xmlns:style:1.0"@), attr_text("xmlns:text"@, "urn:oasis:names:tc:opendocument:xmlns:text:1.0"@), attr_text("xmlns:draw"@, "urn:oasis:names:tc:opendocument:xmlns:drawing:1.0"@), attr_text("xmlns:dr3d"@, "urn:oasis:names:tc:opendocument:xmlns:dr3d:1.0"@));
    }
    xml_out.attr("xmlns:dc", "http://purl.org/dc/elements/1.1/")?;
    xml_out.attr("xmlns:style", "urn:oasis:names:tc:opendocument:xmlns:style:1.0")?;
    xml_out.attr("xmlns:text", "urn:oasis:names:tc:opendocument:xmlns:text:1.0")?;
    xml_out.attr("xmlns:draw", "urn:oasis:names:tc:opendocument:xmlns:drawing:1.0")?;
    xml_out.attr("xmlns:dr3d", "urn:oasis:names:tc:opendocument:xmlns:dr3d:1.0")?;
    Ok(())
}

/// Namespaces of the content document, part 3.
#[verifier::opaque]
pub open spec fn content_ns_2_text() -> Seq<char> {
    attr_text("xmlns:svg"@, "urn:oasis:names:tc:opendocument:xmlns:svg-compatible:1.0"@) + attr_text("xmlns:chart"@, "urn:oasis:names:tc:opendocument:xmlns:chart:1.0"@) + attr_text("xmlns:rpt"@, "http://openoffice.org/2005/report"@) + attr_text("xmlns:table"@, "urn:oasis:names:tc:opendocument:xmlns:table:1.0"@) + attr_text("xmlns:number"@, "urn:oasis:names:tc:opendocument:xmlns:datastyle:1.0"@)
}

fn write_content_ns_2(xml_out: &mut XmlWriter) -> (r: Result<(), OdsError>)
    requires
        old(xml_out).open_state() != Open::Nothing,
    ensures
        r is Ok,
        final(xml_out).written() == old(xml_out).written() + content_ns_2_text(),
        final(xml_out).open_state() == old(xml_out).open_state(),
        final(xml_out).open_elements() == old(xml_out).open_elements(),
{
    proof {
        reveal(content_ns_2_text);
        lemma_append5(xml_out.written(), attr_text("xmlns:svg"@, "urn:oasis:names:tc:opendocument:xmlns:svg-compatible:1.0"@), attr_text("xmlns:chart"@, "urn:oasis:names:tc:opendocument:xmlns:chart:1.0"@), attr_text("xmlns:rpt"@, "http://openoffice.org/2005/report"@), attr_text("xmlns:table"@, "urn:oasis:names:tc:opendocument:xmlns:table:1.0"@), attr_text("xmlns:number"@, "urn:oasis:names:tc:opendocument:xmlns:datastyle:1.0"@));
    }
    xml_out.attr("xmlns:svg", "urn:oasis:names:tc:opendocument:xmlns:svg-compatible:1.0")?;
    xml_out.attr("xmlns:chart", "urn:oasis:names:tc:opendocument:xmlns:chart:1.0")?;
    xml_out.attr("xmlns:rpt", "http://openoffice.org/2005/report")?;
    xml_out.attr("xmlns:table", "urn:oasis:names:tc:opendocument:xmlns:table:1.0")?;
    xml_out.attr("xmlns:number", "urn:oasis:names:tc:opendocument:xmlns:datastyle:1.0")?;
    Ok(())
}

/// Namespaces of the content document, part 4.
#[verifier::opaque]
pub open spec fn content_ns_3_text() -> Seq<char> {
    attr_text("xmlns:ooow"@, "http://openoffice.org/2004/writer"@) + attr_text("xmlns:oooc"@, "http://openoffice.org/2004/calc"@) + attr_text("xmlns:of"@, "urn:oasis:names:tc:opendocument:xmlns:of:1.2"@) + attr_text("xmlns:tableooo"@, "http://openoffice.org/2009/table"@) + attr_text("xmlns:calcext"@, "urn:org:documentfoundation:names:experimental:calc:xmlns:calcext:1.0"@)
}

fn write_content_ns_3(xml_out: &mut XmlWriter) -> (r: Result<(), OdsError>)
    requires
        old(xml_out).open_state() != Open::Nothing,
    ensures
        r is Ok,
        final(xml_out).written() == old(xml_out).written() + content_ns_3_text(),
        final(xml_out).open_state() == old(xml_out).open_state(),
        final(xml_out).open_elements() == old(xml_out).open_elements(),
{
    proof {
        reveal(content_ns_3_text);
        lemma_append5(xml_out.written(), attr_text("xmlns:ooow"@, "http://openoffice.org/2004/writer"@), attr_text("xmlns:oooc"@, "http://openoffice.org/2004/calc"@), attr_text("xmlns:of"@, "urn:oasis:names:tc:opendocument:xmlns:of:1.2"@), attr_text("xmlns:tableooo"@, "http://openoffice.org/2009/table"@), attr_text("xmlns:calcext"@, "urn:org:documentfoundation:names:experimental:calc:xmlns:calcext:1.0"@));
    }
    xml_out.attr("xmlns:ooow", "http://openoffice.org/2004/writer")?;
    xml_out.attr("xmlns:oooc", "http://openoffice.org/2004/calc")?;
    xml_out.attr("xmlns:of", "urn:oasis:names:tc:opendocument:xmlns:of:1.2")?;
    xml_out.attr("xmlns:tableooo", "http://openoffice.org/2009/table")?;
    xml_out.attr("xmlns:calcext", "urn:org:documentfoundation:names:experimental:calc:xmlns:calcext:1.0")?;
    Ok(())
}

/// Namespaces of the content document, part 5.
#[verifier::opaque]
pub open spec fn content_ns_4_text() -> Seq<char> {
    attr_text("xmlns:drawooo"@, "http://openoffice.org/2010/draw"@) + attr_text("xmlns:loext"@, "urn:org:documentfoundation:names:experimental:office:xmlns:loext:1.0"@) + attr_text("xmlns:field"@, "urn:openoffice:names:experimental:ooo-ms-interop:xmlns:field:1.0"@) + attr_text("xmlns:math"@, "http://www.w3.org/1998/Math/MathML"@) + attr_text("xmlns:form"@, "urn:oasis:names:tc:opendocument:xmlns:form:1.0"@)
}

fn write_content_ns_4(xml_out: &mut XmlWriter) -> (r: Result<(), OdsError>)
    requires
        old(xml_out).open_state() != Open::Nothing,
    ensures
        r is Ok,
        final(xml_out).written() == old(xml_out).written() + content_ns_4_text(),
        final(xml_out).open_state() == old(xml_out).open_state(),
        final(xml_out).open_elements() == old(xml_out).open_elements(),
{
    proof {
        reveal(content_ns_4_text);
        lemma_append5(xml_out.written(), attr_text("xmlns:drawooo"@, "http://openoffice.org/2010/draw"@), attr_text("xmlns:loext"@, "urn:org:documentfoundation:names:experimental:office:xmlns:loext:1.0"@), attr_text("xmlns:field"@, "urn:openoffice:names:experimental:ooo-ms-interop:xmlns:field:1.0"@), attr_text("xmlns:math"@, "http://www.w3.org/1998/Math/MathML"@), attr_text("xmlns:form"@, "urn:oasis:names:tc:opendocument:xmlns:form:1.0"@));
    }
    xml_out.attr("xmlns:drawooo", "http://openoffice.org/2010/draw")?;
    xml_out.attr("xmlns:loext", "urn:org:documentfoundation:names:experimental:office:xmlns:loext:1.0")?;
    xml_out.attr("xmlns:field", "urn:openoffice:names:experimental:ooo-ms-interop:xmlns:field:1.0")?;
    xml_out.attr("xmlns:math", "http://www.w3.org/1998/Math/MathML")?;
    xml_out.attr("xmlns:form", "urn:oasis:names:tc:opendocument:xmlns:form:1.0")?;
    Ok(())
}

/// Namespaces of the content document, part 6.
#[verifier::opaque]
pub open spec fn content_ns_5_text() -> Seq<char> {
    attr_text("xmlns:script"@, "urn:oasis:names:tc:opendocument:xmlns:script:1.0"@) + attr_text("xmlns:dom"@, "http://www.w3.org/2001/xml-events"@) + attr_text("xmlns:xforms"@, "http://www.w3.org/2002/xforms"@) + attr_text("xmlns:xsd"@, "http://www.w3.org/2001/XMLSchema"@) + attr_text("xmlns:xsi"@, "http://www.w3.org/2001/XMLSchema-instance"@)
}

fn write_content_ns_5(xml_out: &mut XmlWriter) -> (r: Result<(), OdsError>)
    requires
        old(xml_out).open_state() != Open::Nothing,
    ensures
        r is Ok,
        final(xml_out).written() == old(xml_out).written() + content_ns_5_text(),
        final(xml_out).open_state() == old(xml_out).open_state(),
        final(xml_out).open_elements() == old(xml_out).open_elements(),
{
    proof {
        reveal(content_ns_5_text);
        lemma_append5(xml_out.written(), attr_text("xmlns:script"@, "urn:oasis:names:tc:opendocument:xmlns:script:1.0"@), attr_text("xmlns:dom"@, "http://www.w3.org/2001/xml-events"@), attr_text("xmlns:xforms"@, "http://www.w3.org/2002/xforms"@), attr_text("xmlns:xsd"@, "http://www.w3.org/2001/XMLSchema"@), attr_text("xmlns:xsi"@, "http://www.w3.org/2001/XMLSchema-instance"@));
    }
    xml_out.attr("xmlns:script", "urn:oasis:names:tc:opendocument:xmlns:script:1.0")?;
    xml_out.attr("xmlns:dom", "http://www.w3.org/2001/xml-events")?;
    xml_out.attr("xmlns:xforms", "http://www.w3.org/2002/xforms")?;
    xml_out.attr("xmlns:xsd", "http://www.w3.org/2001/XMLSchema")?;
    xml_out.attr("xmlns:xsi", "http://www.w3.org/2001/XMLSchema-instance")?;
    Ok(())
}

/// Namespaces of the content document, part 7.
#[verifier::opaque]
pub open spec fn content_ns_6_text() -> Seq<char> {
    attr_text("xmlns:formx"@, "urn:openoffice:names:experimental:ooxml-odf-interop:xmlns:form:1.0"@) + attr_text("xmlns:xhtml"@, "http://www.w3.org/1999/xhtml"@) + attr_text("xmlns:grddl"@, "http://www.w3.org/2003/g/data-view#"@) + attr_text("xmlns:css3t"@, "http://www.w3.org/TR/css3-text/"@) + attr_text("xmlns:presentation"@, "urn:oasis:names:tc:opendocument:xmlns:presentation:1.0"@)
}

fn write_content_ns_6(xml_out: &mut XmlWriter) -> (r: Result<(), OdsError>)
    requires
        old(xml_out).open_state() != Open::Nothing,
    ensures
        r is Ok,
        final(xml_out).written() == old(xml_out).written() + content_ns_6_text(),
        final(xml_out).open_state() == old(xml_out).open_state(),
        final(xml_out).open_elements() == old(xml_out).open_elements(),
{
    proof {
        reveal(content_ns_6_text);
        lemma_append5(xml_out.written(), attr_text("xmlns:formx"@, "urn:openoffice:names:experimental:ooxml-odf-interop:xmlns:form:1.0"@), attr_text("xmlns:xhtml"@, "http://www.w3.org/1999/xhtml"@), attr_text("xmlns:grddl"@, "http://www.w3.org/2003/g/data-view#"@), attr_text("xmlns:css3t"@, "http://www.w3.org/TR/css3-text/"@), attr_text("xmlns:presentation"@, "urn:oasis:names:tc:opendocument:xmlns:presentation:1.0"@));
    }
    xml_out.attr("xmlns:formx", "urn:openoffice:names:experimental:ooxml-odf-interop:xmlns:form:1.0")?;
    xml_out.attr("xmlns:xhtml", "http://www.w3.org/1999/xhtml")?;
    xml_out.attr("xmlns:grddl", "http://www.w3.org/2003/g/data-view#")?;
    xml_out.attr("xmlns:css3t", "http://www.w3.org/TR/css3-text/")?;
    xml_out.attr("xmlns:presentation", "urn:oasis:names:tc:opendocument:xmlns:presentation:1.0")?;
    Ok(())
}

/// The namespaces that the content document declares.
pub open spec fn content_namespaces_text() -> Seq<char> {
    content_ns_0_text() + content_ns_1_text() + content_ns_2_text() + content_ns_3_text() + content_ns_4_text() + content_ns_5_text() + content_ns_6_text()
}

/// Writes the namespaces that the content document declares.
pub fn write_content_namespaces(xml_out: &mut XmlWriter) -> (r: Result<(), OdsError>)
    requires
        old(xml_out).open_state() != Open::Nothing,
    ensures
        r is Ok,
        final(xml_out).written() == old(xml_out).written() + content_namespaces_text(),
        final(xml_out).open_state() == old(xml_out).open_state(),
        final(xml_out).open_elements() == old(xml_out).open_elements(),
{
    let ghost start = xml_out.written();
    write_content_ns_0(xml_out)?;
    write_content_ns_1(xml_out)?;
    proof {
        lemma_append2(start, content_ns_0_text(), content_ns_1_text());
    }
    write_content_ns_2(xml_out)?;
    proof {
        lemma_append2(start, content_ns_0_text() + content_ns_1_text(), content_ns_2_text());
    }
    write_content_ns_3(xml_out)?;
    proof {
        lemma_append2(start, content_ns_0_text() + content_ns_1_text() + content_ns_2_text(), content_ns_3_text());
    }
    write_content_ns_4(xml_out)?;
    proof {
        lemma_append2(start, content_ns_0_text() + content_ns_1_text() + content_ns_2_text() + content_ns_3_text(), content_ns_4_text());
    }
    write_content_ns_5(xml_out)?;
    proof {
        lemma_append2(start, content_ns_0_text() + content_ns_1_text() + content_ns_2_text() + content_ns_3_text() + content_ns_4_text(), content_ns_5_text());
    }
    write_content_ns_6(xml_out)?;
    proof {
        lemma_append2(start, content_ns_0_text() + content_ns_1_text() + content_ns_2_text() + content_ns_3_text() + content_ns_4_text() + content_ns_5_text(), content_ns_6_text());
    }
    Ok(())
}

/// Namespaces of the styles document, part 1.
#[verifier::opaque]
pub open spec fn styles_ns_0_text() -> Seq<char> {
    attr_text("xmlns:meta"@, "urn:oasis:names:tc:opendocument:xmlns:meta:1.0"@) + attr_text("xmlns:office"@, "urn:oasis:names:tc:opendocument:xmlns:office:1.0"@) + attr_text("xmlns:fo"@, "urn:oasis:names:tc:opendocument:xmlns:xsl-fo-compatible:1.0"@) + attr_text("xmlns:ooo"@, "http://openoffice.org/2004/office"@) + attr_text("xmlns:xlink"@, "http://www.w3.org/1999/xlink"@)
}

fn write_styles_ns_0(xml_out: &mut XmlWriter) -> (r: Result<(), OdsError>)
    requires
        old(xml_out).open_state() != Open::Nothing,
    ensures
        r is Ok,
        final(xml_out).written() == old(xml_out).written() + styles_ns_0_text(),
        final(xml_out).open_state() == old(xml_out).open_state(),
        final(xml_out).open_elements() == old(xml_out).open_elements(),
{
    proof {
        reveal(styles_ns_0_text);
        lemma_append5(xml_out.written(), attr_text("xmlns:meta"@, "urn:oasis:names:tc:opendocument:xmlns:meta:1.0"@), attr_text("xmlns:office"@, "urn:oasis:names:tc:opendocument:xmlns:office:1.0"@), attr_text("xmlns:fo"@, "urn:oasis:names:tc:opendocument:xmlns:xsl-fo-compatible:1.0"@), attr_text("xmlns:ooo"@, "http://openoffice.org/2004/office"@), attr_text("xmlns:xlink"@, "http://www.w3.org/1999/xlink"@));
    }
    xml_out.attr("xmlns:meta", "urn:oasis:names:tc:opendocument:xmlns:meta:1.0")?;
    xml_out.attr("xmlns:office", "urn:oasis:names:tc:opendocument:xmlns:office:1.0")?;
    xml_out.attr("xmlns:fo", "urn:oasis:names:tc:opendocument:xmlns:xsl-fo-compatible:1.0")?;
    xml_out.attr("xmlns:ooo", "http://openoffice.org/2004/office")?;
    xml_out.attr("xmlns:xlink", "http://www.w3.org/1999/xlink")?;
    Ok(())
}

/// Namespaces of the styles document, part 2.
#[verifier::opaque]
pub open spec fn styles_ns_1_text() -> Seq<char> {
    attr_text("xmlns:dc"@, "http://purl.org/dc/elements/1.1/"@) + attr_text("xmlns:style"@, "urn:oasis:names:tc:opendocument:xmlns:style:1.0"@) + attr_text("xmlns:text"@, "urn:oasis:names:tc:opendocument:xmlns:text:1.0"@) + attr_text("xmlns:dr3d"@, "urn:oasis:names:tc:opendocument:xmlns:dr3d:1.0"@) + attr_text("xmlns:svg"@, "urn:oasis:names:tc:opendocument:xmlns:svg-compatible:1.0"@)
}

fn write_styles_ns_1(xml_out: &mut XmlWriter) -> (r: Result<(), OdsError>)
    requires
        old(xml_out).open_state() != Open::Nothing,
    ensures
        r is Ok,
        final(xml_out).written() == old(xml_out).written() + styles_ns_1_text(),
        final(xml_out).open_state() == old(xml_out).open_state(),
        final(xml_out).open_elements() == old(xml_out).open_elements(),
{
    proof {
        reveal(styles_ns_1_text);
        lemma_append5(xml_out.written(), attr_text("xmlns:dc"@, "http://purl.org/dc/elements/1.1/"@), attr_text("xmlns:style"@, "urn:oasis:names:tc:opendocument:xmlns:style:1.0"@), attr_text("xmlns:text"@, "urn:oasis:names:tc:opendocument:xmlns:text:1.0"@), attr_text("xmlns:dr3d"@, "urn:oasis:names:tc:opendocument:xmlns:dr3d:1.0"@), attr_text("xmlns:svg"@, "urn:oasis:names:tc:opendocument:xmlns:svg-compatible:1.0"@));
    }
    xml_out.attr("xmlns:dc", "http://purl.org/dc/elements/1.1/")?;
    xml_out.attr("xmlns:style", "urn:oasis:names:tc:opendocument:xmlns:style:1.0")?;
    xml_out.attr("xmlns:text", "urn:oasis:names:tc:opendocument:xmlns:text:1.0")?;
    xml_out.attr("xmlns:dr3d", "urn:oasis:names:tc:opendocument:xmlns:dr3d:1.0")?;
    xml_out.attr("xmlns:svg", "urn:oasis:names:tc:opendocument:xmlns:svg-compatible:1.0")?;
    Ok(())
}

/// Namespaces of the styles document, part 3.
#[verifier::opaque]
pub open spec fn styles_ns_2_text() -> Seq<char> {
    attr_text("xmlns:chart"@, "urn:oasis:names:tc:opendocument:xmlns:chart:1.0"@) + attr_text("xmlns:rpt"@, "http://openoffice.org/2005/report"@) + attr_text("xmlns:table"@, "urn:oasis:names:tc:opendocument:xmlns:table:1.0"@) + attr_text("xmlns:number"@, "urn:oasis:names:tc:opendocument:xmlns:datastyle:1.0"@) + attr_text("xmlns:ooow"@, "http://openoffice.org/2004/writer"@)
}

fn write_styles_ns_2(xml_out: &mut XmlWriter) -> (r: Result<(), OdsError>)
    requires
        old(xml_out).open_state() != Open::Nothing,
    ensures
        r is Ok,
        final(xml_out).written() == old(xml_out).written() + styles_ns_2_text(),
        final(xml_out).open_state() == old(xml_out).open_state(),
        final(xml_out).open_elements() == old(xml_out).open_elements(),
{
    proof {
        reveal(styles_ns_2_text);
        lemma_append5(xml_out.written(), attr_text("xmlns:chart"@, "urn:oasis:names:tc:opendocument:xmlns:chart:1.0"@), attr_text("xmlns:rpt"@, "http://openoffice.org/2005/report"@), attr_text("xmlns:table"@, "urn:oasis:names:tc:opendocument:xmlns:table:1.0"@), attr_text("xmlns:number"@, "urn:oasis:names:tc:opendocument:xmlns:datastyle:1.0"@), attr_text("xmlns:ooow"@, "http://openoffice.org/2004/writer"@));
    }
    xml_out.attr("xmlns:chart", "urn:oasis:names:tc:opendocument:xmlns:chart:1.0")?;
    xml_out.attr("xmlns:rpt", "http://openoffice.org/2005/report")?;
    xml_out.attr("xmlns:table", "urn:oasis:names:tc:opendocument:xmlns:table:1.0")?;
    xml_out.attr("xmlns:number", "urn:oasis:names:tc:opendocument:xmlns:datastyle:1.0")?;
    xml_out.attr("xmlns:ooow", "http://openoffice.org/2004/writer")?;
    Ok(())
}

/// Namespaces of the styles document, part 4.
#[verifier::opaque]
pub open spec fn styles_ns_3_text() -> Seq<char> {
    attr_text("xmlns:oooc"@, "http://openoffice.org/2004/calc"@) + attr_text("xmlns:of"@, "urn:oasis:names:tc:opendocument:xmlns:of:1.2"@) + attr_text("xmlns:tableooo"@, "http://openoffice.org/2009/table"@) + attr_text("xmlns:calcext"@, "urn:org:documentfoundation:names:experimental:calc:xmlns:calcext:1.0"@) + attr_text("xmlns:drawooo"@, "http://openoffice.org/2010/draw"@)
}

fn write_styles_ns_3(xml_out: &mut XmlWriter) -> (r: Result<(), OdsError>)
    requires
        old(xml_out).open_state() != Open::Nothing,
    ensures
        r is Ok,
        final(xml_out).written() == old(xml_out).written() + styles_ns_3_text(),
        final(xml_out).open_state() == old(xml_out).open_state(),
        final(xml_out).open_elements() == old(xml_out).open_elements(),
{
    proof {
        reveal(styles_ns_3_text);
        lemma_append5(xml_out.written(), attr_text("xmlns:oooc"@, "http://openoffice.org/2004/calc"@), attr_text("xmlns:of"@, "urn:oasis:names:tc:opendocument:xmlns:of:1.2"@), attr_text("xmlns:tableooo"@, "http://openoffice.org/2009/table"@), attr_text("xmlns:calcext"@, "urn:org:documentfoundation:names:experimental:calc:xmlns:calcext:1.0"@), attr_text("xmlns:drawooo"@, "http://openoffice.org/2010/draw"@));
    }
    xml_out.attr("xmlns:oooc", "http://openoffice.org/2004/calc")?;
    xml_out.attr("xmlns:of", "urn:oasis:names:tc:opendocument:xmlns:of:1.2")?;
    xml_out.attr("xmlns:tableooo", "http://openoffice.org/2009/table")?;
    xml_out.attr("xmlns:calcext", "urn:org:documentfoundation:names:experimental:calc:xmlns:calcext:1.0")?;
    xml_out.attr("xmlns:drawooo", "http://openoffice.org/2010/draw")?;
    Ok(())
}

/// Namespaces of the styles document, part 5.
#[verifier::opaque]
pub open spec fn styles_ns_4_text() -> Seq<char> {
    attr_text("xmlns:draw"@, "urn:oasis:names:tc:opendocument:xmlns:drawing:1.0"@) + attr_text("xmlns:loext"@, "urn:org:documentfoundation:names:experimental:office:xmlns:loext:1.0"@) + attr_text("xmlns:field"@, "urn:openoffice:names:experimental:ooo-ms-interop:xmlns:field:1.0"@) + attr_text("xmlns:math"@, "http://www.w3.org/1998/Math/MathML"@) + attr_text("xmlns:form"@, "urn:oasis:names:tc:opendocument:xmlns:form:1.0"@)
}

fn write_styles_ns_4(xml_out: &mut XmlWriter) -> (r: Result<(), OdsError>)
    requires
        old(xml_out).open_state() != Open::Nothing,
    ensures
        r is Ok,
        final(xml_out).written() == old(xml_out).written() + styles_ns_4_text(),
        final(xml_out).open_state() == old(xml_out).open_state(),
        final(xml_out).open_elements() == old(xml_out).open_elements(),
{
    proof {
        reveal(styles_ns_4_text);
        lemma_append5(xml_out.written(), attr_text("xmlns:draw"@, "urn:oasis:names:tc:opendocument:xmlns:drawing:1.0"@), attr_text("xmlns:loext"@, "urn:org:documentfoundation:names:experimental:office:xmlns:loext:1.0"@), attr_text("xmlns:field"@, "urn:openoffice:names:experimental:ooo-ms-interop:xmlns:field:1.0"@), attr_text("xmlns:math"@, "http://www.w3.org/1998/Math/MathML"@), attr_text("xmlns:form"@, "urn:oasis:names:tc:opendocument:xmlns:form:1.0"@));
    }
    xml_out.attr("xmlns:draw", "urn:oasis:names:tc:opendocument:xmlns:drawing:1.0")?;
    xml_out.attr("xmlns:loext", "urn:org:documentfoundation:names:experimental:office:xmlns:loext:1.0")?;
    xml_out.attr("xmlns:field", "urn:openoffice:names:experimental:ooo-ms-interop:xmlns:field:1.0")?;
    xml_out.attr("xmlns:math", "http://www.w3.org/1998/Math/MathML")?;
    xml_out.attr("xmlns:form", "urn:oasis:names:tc:opendocument:xmlns:form:1.0")?;
    Ok(())
}

/// Namespaces of the styles document, part 6.
#[verifier::opaque]
pub open spec fn styles_ns_5_text() -> Seq<char> {
    attr_text("xmlns:script"@, "urn:oasis:names:tc:opendocument:xmlns:script:1.0"@) + attr_text("xmlns:dom"@, "http://www.w3.org/2001/xml-events"@) + attr_text("xmlns:xhtml"@, "http://www.w3.org/1999/xhtml"@) + attr_text("xmlns:grddl"@, "http://www.w3.org/2003/g/data-view#"@) + attr_text("xmlns:css3t"@, "http://www.w3.org/TR/css3-text/"@)
}

fn write_styles_ns_5(xml_out: &mut XmlWriter) -> (r: Result<(), OdsError>)
    requires
        old(xml_out).open_state() != Open::Nothing,
    ensures
        r is Ok,
        final(xml_out).written() == old(xml_out).written() + styles_ns_5_text(),
        final(xml_out).open_state() == old(xml_out).open_state(),
        final(xml_out).open_elements() == old(xml_out).open_elements(),
{
    proof {
        reveal(styles_ns_5_text);
        lemma_append5(xml_out.written(), attr_text("xmlns:script"@, "urn:oasis:names:tc:opendocument:xmlns:script:1.0"@), attr_text("xmlns:dom"@, "http://www.w3.org/2001/xml-events"@), attr_text("xmlns:xhtml"@, "http://www.w3.org/1999/xhtml"@), attr_text("xmlns:grddl"@, "http://www.w3.org/2003/g/data-view#"@), attr_text("xmlns:css3t"@, "http://www.w3.org/TR/css3-text/"@));
    }
    xml_out.attr("xmlns:script", "urn:oasis:names:tc:opendocument:xmlns:script:1.0")?;
    xml_out.attr("xmlns:dom", "http://www.w3.org/2001/xml-events")?;
    xml_out.attr("xmlns:xhtml", "http://www.w3.org/1999/xhtml")?;
    xml_out.attr("xmlns:grddl", "http://www.w3.org/2003/g/data-view#")?;
    xml_out.attr("xmlns:css3t", "http://www.w3.org/TR/css3-text/")?;
    Ok(())
}

/// Namespaces of the styles document, part 7.
#[verifier::opaque]
pub open spec fn styles_ns_6_text() -> Seq<char> {
    attr_text("xmlns:presentation"@, "urn:oasis:names:tc:opendocument:xmlns:presentation:1.0"@)
}

fn write_styles_ns_6(xml_out: &mut XmlWriter) -> (r: Result<(), OdsError>)
    requires
        old(xml_out).open_state() != Open::Nothing,
    ensures
        r is Ok,
        final(xml_out).written() == old(xml_out).written() + styles_ns_6_text(),
        final(xml_out).open_state() == old(xml_out).open_state(),
        final(xml_out).open_elements() == old(xml_out).open_elements(),
{
    proof {
        reveal(styles_ns_6_text);
    }
    xml_out.attr("xmlns:presentation", "urn:oasis:names:tc:opendocument:xmlns:presentation:1.0")?;
    Ok(())
}

/// The namespaces that the styles document declares.
pub open spec fn styles_namespaces_text() -> Seq<char> {
    styles_ns_0_text() + styles_ns_1_text() + styles_ns_2_text() + styles_ns_3_text() + styles_ns_4_text() + styles_ns_5_text() + styles_ns_6_text()
}

/// Writes the namespaces that the styles document declares.
pub fn write_styles_namespaces(xml_out: &mut XmlWriter) -> (r: Result<(), OdsError>)
    requires
        old(xml_out).open_state() != Open::Nothing,
    ensures
        r is Ok,
        final(xml_out).written() == old(xml_out).written() + styles_namespaces_text(),
        final(xml_out).open_state() == old(xml_out).open_state(),
        final(xml_out).open_elements() == old(xml_out).open_elements(),
{
    let ghost start = xml_out.written();
    write_styles_ns_0(xml_out)?;
    write_styles_ns_1(xml_out)?;
    proof {
        lemma_append2(start, styles_ns_0_text(), styles_ns_1_text());
    }
    write_styles_ns_2(xml_out)?;
    proof {
        lemma_append2(start, styles_ns_0_text() + styles_ns_1_text(), styles_ns_2_text());
    }
    write_styles_ns_3(xml_out)?;
    proof {
        lemma_append2(start, styles_ns_0_text() + styles_ns_1_text() + styles_ns_2_text(), styles_ns_3_text());
    }
    write_styles_ns_4(xml_out)?;
    proof {
        lemma_append2(start, styles_ns_0_text() + styles_ns_1_text() + styles_ns_2_text() + styles_ns_3_text(), styles_ns_4_text());
    }
    write_styles_ns_5(xml_out)?;
    proof {
        lemma_append2(start, styles_ns_0_text() + styles_ns_1_text() + styles_ns_2_text() + styles_ns_3_text() + styles_ns_4_text(), styles_ns_5_text());
    }
    write_styles_ns_6(xml_out)?;
    proof {
        lemma_append2(start, styles_ns_0_text() + styles_ns_1_text() + styles_ns_2_text() + styles_ns_3_text() + styles_ns_4_text() + styles_ns_5_text(), styles_ns_6_text());
    }
    Ok(())
}

} // verus!
