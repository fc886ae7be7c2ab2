//! Page layouts and master pages.

use crate::error::OdsError;
use crate::escape::{escaped, lemma_escaped_ident_plain};
use crate::markup::tags_text;
use crate::style::{props_text, write_attrs, write_props};
use crate::text::{
    lemma_append2, lemma_append3, lemma_append4, lemma_append5, lemma_append_empty,
};
use crate::write::write_xmltag;
use crate::xmltree::{attrs_text, tag_text, XmlTag};
use crate::xmlwriter::{attr_text, end_tag_text, open_tag_text, XmlWriter};
use vstd::prelude::*;

verus! {

/// The layout of a page.
#[derive(Debug, PartialEq, Eq)]
pub struct PageStyle {
    pub name: String,
    pub master_page_usage: Option<String>,
    pub style: Vec<(String, String)>,
    pub headerstyle: Vec<(String, String)>,
    pub footerstyle: Vec<(String, String)>,
}

/// A header or a footer: its three regions and what it holds besides.
#[derive(Debug, PartialEq, Eq)]
pub struct HeaderFooter {
    pub display: bool,
    pub left: Vec<XmlTag>,
    pub center: Vec<XmlTag>,
    pub right: Vec<XmlTag>,
    pub content: Vec<XmlTag>,
}

/// A master page: the layout that it uses, and its headers and footers.
#[derive(Debug, PartialEq, Eq)]
pub struct MasterPage {
    pub name: String,
    pub pagestyle: String,
    pub header: HeaderFooter,
    pub header_first: HeaderFooter,
    pub header_left: HeaderFooter,
    pub footer: HeaderFooter,
    pub footer_first: HeaderFooter,
    pub footer_left: HeaderFooter,
}

impl HeaderFooter {
    /// Whether the header or footer holds nothing.
    pub open spec fn spec_is_empty(&self) -> bool {
        self.left@.len() == 0 && self.center@.len() == 0 && self.right@.len() == 0
            && self.content@.len() == 0
    }

    /// Whether the header or footer holds nothing.
    #[verifier::when_used_as_spec(spec_is_empty)]
    pub fn is_empty(&self) -> (b: bool)
        ensures
            b == self.spec_is_empty(),
    {
        self.left.len() == 0 && self.center.len() == 0 && self.right.len() == 0
            && self.content.len() == 0
    }

    /// A header or footer that is shown and holds nothing.
    pub fn new() -> (h: HeaderFooter)
        ensures
            h.display,
            h.spec_is_empty(),
    {
        HeaderFooter {
            display: true,
            left: Vec::new(),
            center: Vec::new(),
            right: Vec::new(),
            content: Vec::new(),
        }
    }
}

/// The style of the header or of the footer of a page layout.
pub open spec fn header_style_text(tag: Seq<char>, attrs: Seq<(String, String)>) -> Seq<char> {
    (open_tag_text(tag) + seq!['>']) + (open_tag_text("style:header-footer-properties"@)
        + attrs_text(attrs) + seq!['/', '>']) + end_tag_text(tag)
}

/// The start tag of a page layout.
pub open spec fn page_open_text(p: &PageStyle) -> Seq<char> {
    open_tag_text("style:page-layout"@) + attr_text("style:name"@, escaped(p.name@, false)) + (
    match p.master_page_usage {
        Some(u) => attr_text("style:page-usage"@, escaped(u@, false)),
        None => Seq::empty(),
    }) + seq!['>']
}

/// A page layout as it is written.
#[verifier::opaque]
pub open spec fn page_text(p: &PageStyle) -> Seq<char> {
    page_open_text(p) + props_text("style:page-layout-properties"@, p.style@)
        + header_style_text("style:header-style"@, p.headerstyle@) + header_style_text(
        "style:footer-style"@,
        p.footerstyle@,
    ) + end_tag_text("style:page-layout"@)
}

/// The page layouts, one after the other.
pub open spec fn pages_text(pages: Seq<PageStyle>) -> Seq<char>
    decreases pages.len(),
{
    if pages.len() == 0 {
        Seq::empty()
    } else {
        pages_text(pages.drop_last()) + page_text(&pages.last())
    }
}

/// The tags of one region, each inside an element of the region.
pub open spec fn region_text(name: Seq<char>, tags: Seq<XmlTag>) -> Seq<char>
    decreases tags.len(),
{
    if tags.len() == 0 {
        Seq::empty()
    } else {
        region_text(name, tags.drop_last()) + ((open_tag_text(name) + seq!['>']) + tag_text(
            tags.last(),
        ) + end_tag_text(name))
    }
}

/// The regions of a header or footer, and what it holds besides.
pub open spec fn regions_text(hf: &HeaderFooter) -> Seq<char> {
    region_text("style:region-left"@, hf.left@) + region_text("style:region-center"@, hf.center@)
        + region_text("style:region-right"@, hf.right@) + tags_text(hf.content@)
}

/// A header or footer as an element of the given name; `hidden` says
/// whether it is marked as not shown.
pub open spec fn header_footer_text(name: Seq<char>, hidden: bool, hf: &HeaderFooter) -> Seq<
    char,
> {
    open_tag_text(name) + (if hidden {
        attr_text("style:display"@, "false"@)
    } else {
        Seq::empty()
    }) + seq!['>'] + regions_text(hf) + end_tag_text(name)
}

/// The first-page header or footer, where it holds anything.
pub open spec fn first_text(name: Seq<char>, hf: &HeaderFooter) -> Seq<char> {
    if hf.spec_is_empty() {
        Seq::empty()
    } else {
        header_footer_text(name, !hf.display, hf)
    }
}

/// The start tag of a master page.
pub open spec fn master_open_text(m: &MasterPage) -> Seq<char> {
    open_tag_text("style:master-page"@) + attr_text("style:name"@, escaped(m.name@, false))
        + attr_text("style:page-layout-name"@, escaped(m.pagestyle@, false)) + seq!['>']
}

/// The headers of a master page.
pub open spec fn master_headers_text(m: &MasterPage) -> Seq<char> {
    header_footer_text("style:header"@, !m.header.display, &m.header) + first_text(
        "style:header_first"@,
        &m.header_first,
    ) + header_footer_text(
        "style:header_left"@,
        !m.header_left.display || m.header_left.spec_is_empty(),
        &m.header_left,
    )
}

/// The footers of a master page.
pub open spec fn master_footers_text(m: &MasterPage) -> Seq<char> {
    header_footer_text("style:footer"@, !m.footer.display, &m.footer) + first_text(
        "style:footer_first"@,
        &m.footer_first,
    ) + header_footer_text(
        "style:footer_left"@,
        !m.footer_left.display || m.footer_left.spec_is_empty(),
        &m.footer_left,
    )
}

/// A master page as it is written.
#[verifier::opaque]
pub open spec fn master_text(m: &MasterPage) -> Seq<char> {
    master_open_text(m) + master_headers_text(m) + master_footers_text(m) + end_tag_text(
        "style:master-page"@,
    )
}

/// The master pages, one after the other.
pub open spec fn masters_text(masters: Seq<MasterPage>) -> Seq<char>
    decreases masters.len(),
{
    if masters.len() == 0 {
        Seq::empty()
    } else {
        masters_text(masters.drop_last()) + master_text(&masters.last())
    }
}

/// Writes the style of the header or of the footer of a page layout.
fn write_header_style(tag: &str, attrs: &Vec<(String, String)>, xml_out: &mut XmlWriter) -> (r:
    Result<(), OdsError>)
    ensures
        r is Ok,
        final(xml_out).document() == old(xml_out).document() + header_style_text(tag@, attrs@),
        final(xml_out).open_elements() == old(xml_out).open_elements(),
{
    let ghost start = xml_out.document();
    let ghost stack = xml_out.open_elements();
    xml_out.elem(tag)?;
    let ghost opened = xml_out.document();
    xml_out.empty("style:header-footer-properties")?;
    write_attrs(attrs, xml_out)?;
    proof {
        lemma_append3(
            opened,
            open_tag_text("style:header-footer-properties"@),
            attrs_text(attrs@),
            seq!['/', '>'],
        );
        lemma_append3(
            start,
            open_tag_text(tag@) + seq!['>'],
            open_tag_text("style:header-footer-properties"@) + attrs_text(attrs@) + seq![
                '/',
                '>',
            ],
            end_tag_text(tag@),
        );
        assert(stack.push(tag@).drop_last() == stack);
    }
    xml_out.end_elem(tag)?;
    Ok(())
}

/// Writes a page layout.
fn write_pagestyle(p: &PageStyle, xml_out: &mut XmlWriter) -> (r: Result<(), OdsError>)
    ensures
        r is Ok,
        final(xml_out).document() == old(xml_out).document() + page_text(p),
        final(xml_out).open_elements() == old(xml_out).open_elements(),
{
    let ghost start = xml_out.document();
    let ghost stack = xml_out.open_elements();
    let ghost usage = if p.master_page_usage is Some {
        attr_text("style:page-usage"@, escaped(p.master_page_usage->0@, false))
    } else {
        Seq::empty()
    };
    proof {
        reveal(page_text);
        reveal_strlit("style:name");
        reveal_strlit("style:page-usage");
        lemma_escaped_ident_plain("style:name"@);
        lemma_escaped_ident_plain("style:page-usage"@);
        lemma_append4(
            start,
            open_tag_text("style:page-layout"@),
            attr_text("style:name"@, escaped(p.name@, false)),
            usage,
            seq!['>'],
        );
        lemma_append5(
            start,
            page_open_text(p),
            props_text("style:page-layout-properties"@, p.style@),
            header_style_text("style:header-style"@, p.headerstyle@),
            header_style_text("style:footer-style"@, p.footerstyle@),
            end_tag_text("style:page-layout"@),
        );
        assert(stack.push("style:page-layout"@).drop_last() == stack);
    }
    xml_out.elem("style:page-layout")?;
    xml_out.attr_esc("style:name", p.name.as_str())?;
    proof {
        lemma_append_empty(xml_out.written());
    }
    if let Some(usage) = &p.master_page_usage {
        xml_out.attr_esc("style:page-usage", usage.as_str())?;
    }
    write_props("style:page-layout-properties", &p.style, xml_out)?;
    write_header_style("style:header-style", &p.headerstyle, xml_out)?;
    write_header_style("style:footer-style", &p.footerstyle, xml_out)?;
    xml_out.end_elem("style:page-layout")?;
    Ok(())
}

/// Writes the page layouts.
pub fn write_pagestyles(pages: &Vec<PageStyle>, xml_out: &mut XmlWriter) -> (r: Result<
    (),
    OdsError,
>)
    ensures
        r is Ok,
        final(xml_out).document() == old(xml_out).document() + pages_text(pages@),
        final(xml_out).open_elements() == old(xml_out).open_elements(),
{
    let ghost start = xml_out.document();
    let mut i: usize = 0;
    proof {
        lemma_append_empty(start);
    }
    while i < pages.len()
        invariant
            i <= pages.len(),
            xml_out.document() == start + pages_text(pages@.take(i as int)),
            xml_out.open_elements() == old(xml_out).open_elements(),
        decreases pages.len() - i,
    {
        proof {
            let next = pages@.take(i + 1);
            assert(next.drop_last() == pages@.take(i as int));
            assert(next.last() == pages@[i as int]);
            lemma_append2(start, pages_text(pages@.take(i as int)), page_text(&pages@[i as int]));
        }
        write_pagestyle(&pages[i], xml_out)?;
        i += 1;
    }
    assert(pages@.take(pages@.len() as int) == pages@);
    Ok(())
}

/// Writes the tags of one region, each inside an element of the region.
fn write_region(name: &str, tags: &Vec<XmlTag>, xml_out: &mut XmlWriter) -> (r: Result<
    (),
    OdsError,
>)
    ensures
        r is Ok,
        final(xml_out).document() == old(xml_out).document() + region_text(name@, tags@),
        final(xml_out).open_elements() == old(xml_out).open_elements(),
{
    let ghost start = xml_out.document();
    let ghost stack = xml_out.open_elements();
    let mut i: usize = 0;
    proof {
        lemma_append_empty(start);
    }
    while i < tags.len()
        invariant
            i <= tags.len(),
            xml_out.document() == start + region_text(name@, tags@.take(i as int)),
            xml_out.open_elements() == stack,
        decreases tags.len() - i,
    {
        let ghost before = xml_out.document();
        proof {
            let next = tags@.take(i + 1);
            assert(next.drop_last() == tags@.take(i as int));
            assert(next.last() == tags@[i as int]);
            lemma_append2(
                start,
                region_text(name@, tags@.take(i as int)),
                (open_tag_text(name@) + seq!['>']) + tag_text(tags@[i as int]) + end_tag_text(
                    name@,
                ),
            );
            lemma_append3(
                before,
                open_tag_text(name@) + seq!['>'],
                tag_text(tags@[i as int]),
                end_tag_text(name@),
            );
            assert(stack.push(name@).drop_last() == stack);
        }
        xml_out.elem(name)?;
        write_xmltag(&tags[i], xml_out)?;
        xml_out.end_elem(name)?;
        i += 1;
    }
    assert(tags@.take(tags@.len() as int) == tags@);
    Ok(())
}

/// Writes foreign tags one after the other.
fn write_tags(tags: &Vec<XmlTag>, xml_out: &mut XmlWriter) -> (r: Result<(), OdsError>)
    ensures
        r is Ok,
        final(xml_out).document() == old(xml_out).document() + tags_text(tags@),
        final(xml_out).open_elements() == old(xml_out).open_elements(),
{
    let ghost start = xml_out.document();
    let mut i: usize = 0;
    proof {
        lemma_append_empty(start);
    }
    while i < tags.len()
        invariant
            i <= tags.len(),
            xml_out.document() == start + tags_text(tags@.take(i as int)),
            xml_out.open_elements() == old(xml_out).open_elements(),
        decreases tags.len() - i,
    {
        proof {
            let next = tags@.take(i + 1);
            assert(next.drop_last() == tags@.take(i as int));
            assert(next.last() == tags@[i as int]);
            lemma_append2(start, tags_text(tags@.take(i as int)), tag_text(tags@[i as int]));
        }
        write_xmltag(&tags[i], xml_out)?;
        i += 1;
    }
    assert(tags@.take(tags@.len() as int) == tags@);
    Ok(())
}

/// Writes the regions of a header or footer, and what it holds besides.
pub fn write_regions(hf: &HeaderFooter, xml_out: &mut XmlWriter) -> (r: Result<(), OdsError>)
    ensures
        r is Ok,
        final(xml_out).document() == old(xml_out).document() + regions_text(hf),
        final(xml_out).open_elements() == old(xml_out).open_elements(),
{
    proof {
        lemma_append4(
            xml_out.document(),
            region_text("style:region-left"@, hf.left@),
            region_text("style:region-center"@, hf.center@),
            region_text("style:region-right"@, hf.right@),
            tags_text(hf.content@),
        );
    }
    write_region("style:region-left", &hf.left, xml_out)?;
    write_region("style:region-center", &hf.center, xml_out)?;
    write_region("style:region-right", &hf.right, xml_out)?;
    write_tags(&hf.content, xml_out)?;
    Ok(())
}

/// Writes a header or footer as an element of the given name.
fn write_header_footer(name: &str, hidden: bool, hf: &HeaderFooter, xml_out: &mut XmlWriter) -> (r:
    Result<(), OdsError>)
    ensures
        r is Ok,
        final(xml_out).document() == old(xml_out).document() + header_footer_text(
            name@,
            hidden,
            hf,
        ),
        final(xml_out).open_elements() == old(xml_out).open_elements(),
{
    let ghost start = xml_out.document();
    let ghost stack = xml_out.open_elements();
    let ghost shown = if hidden {
        attr_text("style:display"@, "false"@)
    } else {
        Seq::empty()
    };
    proof {
        lemma_append5(
            start,
            open_tag_text(name@),
            shown,
            seq!['>'],
            regions_text(hf),
            end_tag_text(name@),
        );
        assert(stack.push(name@).drop_last() == stack);
    }
    xml_out.elem(name)?;
    proof {
        lemma_append_empty(xml_out.written());
    }
    if hidden {
        xml_out.attr("style:display", "false")?;
    }
    assert(xml_out.document() == start + open_tag_text(name@) + shown + seq!['>']);
    write_regions(hf, xml_out)?;
    xml_out.end_elem(name)?;
    Ok(())
}

/// Writes the first-page header or footer, where it holds anything.
fn write_first(name: &str, hf: &HeaderFooter, xml_out: &mut XmlWriter) -> (r: Result<
    (),
    OdsError,
>)
    ensures
        r is Ok,
        final(xml_out).document() == old(xml_out).document() + first_text(name@, hf),
        final(xml_out).open_elements() == old(xml_out).open_elements(),
{
    proof {
        lemma_append_empty(xml_out.document());
    }
    if !hf.is_empty() {
        write_header_footer(name, !hf.display, hf, xml_out)?;
    }
    Ok(())
}

/// Writes a master page.
fn write_master(m: &MasterPage, xml_out: &mut XmlWriter) -> (r: Result<(), OdsError>)
    ensures
        r is Ok,
        final(xml_out).document() == old(xml_out).document() + master_text(m),
        final(xml_out).open_elements() == old(xml_out).open_elements(),
{
    let ghost start = xml_out.document();
    let ghost stack = xml_out.open_elements();
    proof {
        reveal(master_text);
        reveal_strlit("style:name");
        reveal_strlit("style:page-layout-name");
        lemma_escaped_ident_plain("style:name"@);
        lemma_escaped_ident_plain("style:page-layout-name"@);
        lemma_append4(
            start,
            open_tag_text("style:master-page"@),
            attr_text("style:name"@, escaped(m.name@, false)),
            attr_text("style:page-layout-name"@, escaped(m.pagestyle@, false)),
            seq!['>'],
        );
    }
    xml_out.elem("style:master-page")?;
    xml_out.attr_esc("style:name", m.name.as_str())?;
    xml_out.attr_esc("style:page-layout-name", m.pagestyle.as_str())?;
    let ghost opened = xml_out.document();
    assert(opened == start + master_open_text(m));
    write_header_footer("style:header", !m.header.display, &m.header, xml_out)?;
    write_first("style:header_first", &m.header_first, xml_out)?;
    write_header_footer(
        "style:header_left",
        !m.header_left.display || m.header_left.is_empty(),
        &m.header_left,
        xml_out,
    )?;
    proof {
        lemma_append3(
            opened,
            header_footer_text("style:header"@, !m.header.display, &m.header),
            first_text("style:header_first"@, &m.header_first),
            header_footer_text(
                "style:header_left"@,
                !m.header_left.display || m.header_left.spec_is_empty(),
                &m.header_left,
            ),
        );
    }
    let ghost headers = xml_out.document();
    write_header_footer("style:footer", !m.footer.display, &m.footer, xml_out)?;
    write_first("style:footer_first", &m.footer_first, xml_out)?;
    write_header_footer(
        "style:footer_left",
        !m.footer_left.display || m.footer_left.is_empty(),
        &m.footer_left,
        xml_out,
    )?;
    proof {
        lemma_append3(
            headers,
            header_footer_text("style:footer"@, !m.footer.display, &m.footer),
            first_text("style:footer_first"@, &m.footer_first),
            header_footer_text(
                "style:footer_left"@,
                !m.footer_left.display || m.footer_left.spec_is_empty(),
                &m.footer_left,
            ),
        );
        lemma_append4(
            start,
            master_open_text(m),
            master_headers_text(m),
            master_footers_text(m),
            end_tag_text("style:master-page"@),
        );
        assert(stack.push("style:master-page"@).drop_last() == stack);
    }
    xml_out.end_elem("style:master-page")?;
    Ok(())
}

/// Writes the master pages.
pub fn write_masterpage(masters: &Vec<MasterPage>, xml_out: &mut XmlWriter) -> (r: Result<
    (),
    OdsError,
>)
    ensures
        r is Ok,
        final(xml_out).document() == old(xml_out).document() + masters_text(masters@),
        final(xml_out).open_elements() == old(xml_out).open_elements(),
{
    let ghost start = xml_out.document();
    let mut i: usize = 0;
    proof {
        lemma_append_empty(start);
    }
    while i < masters.len()
        invariant
            i <= masters.len(),
            xml_out.document() == start + masters_text(masters@.take(i as int)),
            xml_out.open_elements() == old(xml_out).open_elements(),
        decreases masters.len() - i,
    {
        proof {
            let next = masters@.take(i + 1);
            assert(next.drop_last() == masters@.take(i as int));
            assert(next.last() == masters@[i as int]);
            lemma_append2(
                start,
                masters_text(masters@.take(i as int)),
                master_text(&masters@[i as int]),
            );
        }
        write_master(&masters[i], xml_out)?;
        i += 1;
    }
    assert(masters@.take(masters@.len() as int) == masters@);
    Ok(())
}

} // verus!
