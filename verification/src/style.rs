//! Styles and font declarations, and how they are written.

use crate::error::OdsError;
use crate::escape::{escaped, lemma_escaped_ident_plain};
use crate::text::{
    lemma_append2, lemma_append3, lemma_append4, lemma_append5, lemma_append_empty, str_eq,
};
use crate::xmltree::attrs_text;
use crate::xmlwriter::{attr_text, end_tag_text, open_tag_text, Open, XmlWriter};
use vstd::prelude::*;

verus! {

/// The document in which a style stands.
#[derive(Clone, Copy, Debug, PartialEq, Eq, Structural)]
pub enum StyleOrigin {
    Content,
    Styles,
}

/// How a style is used.
#[derive(Clone, Copy, Debug, PartialEq, Eq, Structural)]
pub enum StyleUse {
    Default,
    Named,
    Automatic,
}

/// What a style is a style of.
#[derive(Clone, Copy, Debug, PartialEq, Eq, Structural)]
pub enum StyleFamily {
    Table,
    TableRow,
    TableColumn,
    TableCell,
    Paragraph,
    Text,
    Graphic,
}

/// The name of a family in the document.
pub open spec fn family_text(f: StyleFamily) -> Seq<char> {
    match f {
        StyleFamily::Table => "table"@,
        StyleFamily::TableRow => "table-row"@,
        StyleFamily::TableColumn => "table-column"@,
        StyleFamily::TableCell => "table-cell"@,
        StyleFamily::Paragraph => "paragraph"@,
        StyleFamily::Text => "text"@,
        StyleFamily::Graphic => "graphic"@,
    }
}

/// The element for the properties that only the styles of a family have.
pub open spec fn family_tag(f: StyleFamily) -> Option<Seq<char>> {
    match f {
        StyleFamily::Table => Some("style:table-properties"@),
        StyleFamily::TableRow => Some("style:table-row-properties"@),
        StyleFamily::TableColumn => Some("style:table-column-properties"@),
        StyleFamily::TableCell => Some("style:table-cell-properties"@),
        StyleFamily::Graphic => Some("style:graphic-properties"@),
        StyleFamily::Paragraph => None,
        StyleFamily::Text => None,
    }
}

impl StyleFamily {
    /// The name of this family in the document.
    pub fn as_str(&self) -> (s: &'static str)
        ensures
            s@ == family_text(*self),
    {
        match self {
            StyleFamily::Table => "table",
            StyleFamily::TableRow => "table-row",
            StyleFamily::TableColumn => "table-column",
            StyleFamily::TableCell => "table-cell",
            StyleFamily::Paragraph => "paragraph",
            StyleFamily::Text => "text",
            StyleFamily::Graphic => "graphic",
        }
    }

    /// The element for the properties that only the styles of this family
    /// have.
    pub fn tag(&self) -> (t: Option<&'static str>)
        ensures
            match t {
                Some(s) => family_tag(*self) == Some(s@),
                None => family_tag(*self) is None,
            },
    {
        match self {
            StyleFamily::Table => Some("style:table-properties"),
            StyleFamily::TableRow => Some("style:table-row-properties"),
            StyleFamily::TableColumn => Some("style:table-column-properties"),
            StyleFamily::TableCell => Some("style:table-cell-properties"),
            StyleFamily::Graphic => Some("style:graphic-properties"),
            StyleFamily::Paragraph => None,
            StyleFamily::Text => None,
        }
    }
}

/// A style that applies where a condition holds.
#[derive(Debug, PartialEq, Eq)]
pub struct StyleMap {
    pub condition: String,
    pub applied_style: String,
    pub base_cell: Option<String>,
}

/// A style: its family, where it stands and how it is used, its name, its
/// attributes, and its properties. The properties of its own family, of
/// paragraphs and of text are lists of attributes. Of a style is written
/// only what its family has: properties of paragraphs for cells and
/// paragraphs, tab stops for paragraphs, properties of text for cells,
/// paragraphs and text, conditional styles for cells.
#[derive(Debug, PartialEq, Eq)]
pub struct Style {
    pub family: StyleFamily,
    pub origin: StyleOrigin,
    pub styleuse: StyleUse,
    pub name: String,
    pub attr: Vec<(String, String)>,
    pub properties: Vec<(String, String)>,
    pub paragraphstyle: Vec<(String, String)>,
    pub tabstops: Option<Vec<Vec<(String, String)>>>,
    pub textstyle: Vec<(String, String)>,
    pub stylemaps: Option<Vec<StyleMap>>,
}

/// The declaration of a font.
#[derive(Debug, PartialEq, Eq)]
pub struct FontFaceDecl {
    pub name: String,
    pub origin: StyleOrigin,
    pub attr: Vec<(String, String)>,
}

/// The attributes of a style but its name and its family, which are written
/// apart.
pub open spec fn style_attrs_text(attrs: Seq<(String, String)>) -> Seq<char>
    decreases attrs.len(),
{
    if attrs.len() == 0 {
        Seq::empty()
    } else {
        style_attrs_text(attrs.drop_last()) + if attrs.last().0@ == "style:name"@
            || attrs.last().0@ == "style:family"@ {
            Seq::empty()
        } else {
            attr_text(escaped(attrs.last().0@, true), escaped(attrs.last().1@, false))
        }
    }
}

/// One self-closing element with the given attributes, unless there are
/// none.
pub open spec fn props_text(tag: Seq<char>, attrs: Seq<(String, String)>) -> Seq<char> {
    if attrs.len() == 0 {
        Seq::empty()
    } else {
        open_tag_text(tag) + attrs_text(attrs) + seq!['/', '>']
    }
}

/// The tab stops, one element for each.
pub open spec fn tabstops_text(stops: Seq<Vec<(String, String)>>) -> Seq<char>
    decreases stops.len(),
{
    if stops.len() == 0 {
        Seq::empty()
    } else {
        tabstops_text(stops.drop_last()) + (open_tag_text("style:tab-stop"@) + attrs_text(
            stops.last()@,
        ) + seq!['/', '>'])
    }
}

/// Whether the styles of a family have properties of paragraphs: those of
/// cells and of paragraphs have.
pub open spec fn has_paragraph_props(f: StyleFamily) -> bool {
    f == StyleFamily::TableCell || f == StyleFamily::Paragraph
}

/// Whether the styles of a family have properties of text: those of cells,
/// of paragraphs and of text have.
pub open spec fn has_text_props(f: StyleFamily) -> bool {
    f == StyleFamily::TableCell || f == StyleFamily::Paragraph || f == StyleFamily::Text
}

/// The properties of paragraphs, where the family has them: one
/// self-closing element, or, where a style of paragraphs has tab stops, an
/// element that holds them.
pub open spec fn paragraph_props_text(s: &Style) -> Seq<char> {
    if s.paragraphstyle@.len() == 0 || !has_paragraph_props(s.family) {
        Seq::empty()
    } else if s.family == StyleFamily::Paragraph && s.tabstops is Some {
        open_tag_text("style:paragraph-properties"@) + attrs_text(s.paragraphstyle@) + seq!['>']
            + (open_tag_text("style:tab-stops"@) + seq!['>']) + tabstops_text(s.tabstops->0@) + (
        end_tag_text("style:tab-stops"@) + end_tag_text("style:paragraph-properties"@))
    } else {
        props_text("style:paragraph-properties"@, s.paragraphstyle@)
    }
}

/// One conditional style.
pub open spec fn stylemap_text(m: StyleMap) -> Seq<char> {
    open_tag_text("style:map"@) + attr_text("style:condition"@, escaped(m.condition@, false))
        + attr_text("style:apply-style-name"@, escaped(m.applied_style@, false)) + (match m
        .base_cell {
        Some(c) => attr_text("style:base-cell-address"@, escaped(c@, false)),
        None => Seq::empty(),
    }) + seq!['/', '>']
}

/// The conditional styles, one element for each.
pub open spec fn stylemaps_text(maps: Seq<StyleMap>) -> Seq<char>
    decreases maps.len(),
{
    if maps.len() == 0 {
        Seq::empty()
    } else {
        stylemaps_text(maps.drop_last()) + stylemap_text(maps.last())
    }
}

/// The conditional styles of a style, where it has any.
pub open spec fn opt_stylemaps_text(maps: Option<Vec<StyleMap>>) -> Seq<char> {
    match maps {
        Some(m) => stylemaps_text(m@),
        None => Seq::empty(),
    }
}

/// The name of the element of a style.
pub open spec fn style_tag(u: StyleUse) -> Seq<char> {
    if u == StyleUse::Default {
        "style:default-style"@
    } else {
        "style:style"@
    }
}

/// The start tag of a style.
#[verifier::opaque]
pub open spec fn style_open_text(s: &Style) -> Seq<char> {
    open_tag_text(style_tag(s.styleuse)) + (if s.styleuse == StyleUse::Default {
        Seq::empty()
    } else {
        attr_text("style:name"@, escaped(s.name@, false))
    }) + attr_text("style:family"@, family_text(s.family)) + style_attrs_text(s.attr@) + seq![
        '>',
    ]
}

/// The properties of text, where the family has them.
pub open spec fn text_props_text(s: &Style) -> Seq<char> {
    if has_text_props(s.family) {
        props_text("style:text-properties"@, s.textstyle@)
    } else {
        Seq::empty()
    }
}

/// The conditional styles, which only a style of cells has.
pub open spec fn cell_maps_text(s: &Style) -> Seq<char> {
    if s.family == StyleFamily::TableCell {
        opt_stylemaps_text(s.stylemaps)
    } else {
        Seq::empty()
    }
}

/// The properties of a style: those of its own family, then, where the
/// family has them, those of paragraphs and of text, and the conditional
/// styles.
#[verifier::opaque]
pub open spec fn style_body_text(s: &Style) -> Seq<char> {
    (match family_tag(s.family) {
        Some(tag) => props_text(tag, s.properties@),
        None => Seq::empty(),
    }) + paragraph_props_text(s) + text_props_text(s) + cell_maps_text(s)
}

/// A style as it is written.
#[verifier::opaque]
pub open spec fn style_text(s: &Style) -> Seq<char> {
    style_open_text(s) + style_body_text(s) + end_tag_text(style_tag(s.styleuse))
}

/// Those of the styles that are of the given family, stand in the given
/// document and are used in the given way.
pub open spec fn family_styles_text(
    styles: Seq<Style>,
    family: StyleFamily,
    origin: StyleOrigin,
    styleuse: StyleUse,
) -> Seq<char>
    decreases styles.len(),
{
    if styles.len() == 0 {
        Seq::empty()
    } else {
        family_styles_text(styles.drop_last(), family, origin, styleuse) + if styles.last().family
            == family && styles.last().origin == origin && styles.last().styleuse == styleuse {
            style_text(&styles.last())
        } else {
            Seq::empty()
        }
    }
}

/// The styles that stand in the given document and are used in the given
/// way, family by family: tables, rows, columns, cells, paragraphs, text,
/// graphics.
pub open spec fn styles_text(styles: Seq<Style>, origin: StyleOrigin, styleuse: StyleUse) -> Seq<
    char,
> {
    family_styles_text(styles, StyleFamily::Table, origin, styleuse) + family_styles_text(
        styles,
        StyleFamily::TableRow,
        origin,
        styleuse,
    ) + family_styles_text(styles, StyleFamily::TableColumn, origin, styleuse)
        + family_styles_text(styles, StyleFamily::TableCell, origin, styleuse)
        + family_styles_text(styles, StyleFamily::Paragraph, origin, styleuse)
        + family_styles_text(styles, StyleFamily::Text, origin, styleuse) + family_styles_text(
        styles,
        StyleFamily::Graphic,
        origin,
        styleuse,
    )
}

/// The declaration of a font as it is written.
pub open spec fn font_text(f: &FontFaceDecl) -> Seq<char> {
    open_tag_text("style:font-face"@) + attr_text("style:name"@, escaped(f.name@, false))
        + attrs_text(f.attr@) + seq!['/', '>']
}

/// The declarations of the fonts that stand in the given document.
pub open spec fn fonts_text(fonts: Seq<FontFaceDecl>, origin: StyleOrigin) -> Seq<char>
    decreases fonts.len(),
{
    if fonts.len() == 0 {
        Seq::empty()
    } else {
        fonts_text(fonts.drop_last(), origin) + if fonts.last().origin == origin {
            font_text(&fonts.last())
        } else {
            Seq::empty()
        }
    }
}

/// Writes attributes, each name escaped as an identifier and each value as
/// text.
pub fn write_attrs(attrs: &Vec<(String, String)>, xml_out: &mut XmlWriter) -> (r: Result<
    (),
    OdsError,
>)
    requires
        old(xml_out).open_state() != Open::Nothing,
    ensures
        r is Ok,
        final(xml_out).written() == old(xml_out).written() + attrs_text(attrs@),
        final(xml_out).open_state() == old(xml_out).open_state(),
        final(xml_out).open_elements() == old(xml_out).open_elements(),
{
    let ghost start = xml_out.written();
    let mut i: usize = 0;
    proof {
        lemma_append_empty(start);
    }
    while i < attrs.len()
        invariant
            i <= attrs.len(),
            xml_out.written() == start + attrs_text(attrs@.take(i as int)),
            xml_out.open_state() == old(xml_out).open_state(),
            xml_out.open_state() != Open::Nothing,
            xml_out.open_elements() == old(xml_out).open_elements(),
        decreases attrs.len() - i,
    {
        proof {
            let next = attrs@.take(i + 1);
            assert(next.drop_last() == attrs@.take(i as int));
            assert(next.last() == attrs@[i as int]);
            lemma_append2(
                start,
                attrs_text(attrs@.take(i as int)),
                attr_text(
                    escaped(attrs@[i as int].0@, true),
                    escaped(attrs@[i as int].1@, false),
                ),
            );
        }
        xml_out.attr_esc(attrs[i].0.as_str(), attrs[i].1.as_str())?;
        i += 1;
    }
    assert(attrs@.take(attrs@.len() as int) == attrs@);
    Ok(())
}

/// Writes the attributes of a style but its name and its family.
fn write_style_attrs(attrs: &Vec<(String, String)>, xml_out: &mut XmlWriter) -> (r: Result<
    (),
    OdsError,
>)
    requires
        old(xml_out).open_state() != Open::Nothing,
    ensures
        r is Ok,
        final(xml_out).written() == old(xml_out).written() + style_attrs_text(attrs@),
        final(xml_out).open_state() == old(xml_out).open_state(),
        final(xml_out).open_elements() == old(xml_out).open_elements(),
{
    let ghost start = xml_out.written();
    let mut i: usize = 0;
    proof {
        lemma_append_empty(start);
    }
    while i < attrs.len()
        invariant
            i <= attrs.len(),
            xml_out.written() == start + style_attrs_text(attrs@.take(i as int)),
            xml_out.open_state() == old(xml_out).open_state(),
            xml_out.open_state() != Open::Nothing,
            xml_out.open_elements() == old(xml_out).open_elements(),
        decreases attrs.len() - i,
    {
        proof {
            let next = attrs@.take(i + 1);
            assert(next.drop_last() == attrs@.take(i as int));
            assert(next.last() == attrs@[i as int]);
            lemma_append2(
                start,
                style_attrs_text(attrs@.take(i as int)),
                attr_text(
                    escaped(attrs@[i as int].0@, true),
                    escaped(attrs@[i as int].1@, false),
                ),
            );
            lemma_append_empty(xml_out.written());
            lemma_append_empty(style_attrs_text(attrs@.take(i as int)));
        }
        let name = attrs[i].0.as_str();
        if !str_eq(name, "style:name") && !str_eq(name, "style:family") {
            xml_out.attr_esc(name, attrs[i].1.as_str())?;
        }
        i += 1;
    }
    assert(attrs@.take(attrs@.len() as int) == attrs@);
    Ok(())
}

/// Writes one self-closing element with the given attributes, unless there
/// are none.
pub fn write_props(tag: &str, attrs: &Vec<(String, String)>, xml_out: &mut XmlWriter) -> (r:
    Result<(), OdsError>)
    ensures
        r is Ok,
        final(xml_out).document() == old(xml_out).document() + props_text(tag@, attrs@),
        final(xml_out).open_elements() == old(xml_out).open_elements(),
{
    proof {
        lemma_append_empty(xml_out.document());
        lemma_append3(xml_out.document(), open_tag_text(tag@), attrs_text(attrs@), seq!['/', '>']);
    }
    if attrs.len() > 0 {
        xml_out.empty(tag)?;
        write_attrs(attrs, xml_out)?;
    }
    Ok(())
}

/// Writes the tab stops.
fn write_tabstops(stops: &Vec<Vec<(String, String)>>, xml_out: &mut XmlWriter) -> (r: Result<
    (),
    OdsError,
>)
    ensures
        r is Ok,
        final(xml_out).document() == old(xml_out).document() + tabstops_text(stops@),
        final(xml_out).open_elements() == old(xml_out).open_elements(),
{
    let ghost start = xml_out.document();
    let mut i: usize = 0;
    proof {
        lemma_append_empty(start);
    }
    while i < stops.len()
        invariant
            i <= stops.len(),
            xml_out.document() == start + tabstops_text(stops@.take(i as int)),
            xml_out.open_elements() == old(xml_out).open_elements(),
        decreases stops.len() - i,
    {
        let ghost before = xml_out.document();
        proof {
            let next = stops@.take(i + 1);
            assert(next.drop_last() == stops@.take(i as int));
            assert(next.last() == stops@[i as int]);
            lemma_append2(
                start,
                tabstops_text(stops@.take(i as int)),
                open_tag_text("style:tab-stop"@) + attrs_text(stops@[i as int]@) + seq!['/', '>'],
            );
            lemma_append3(
                before,
                open_tag_text("style:tab-stop"@),
                attrs_text(stops@[i as int]@),
                seq!['/', '>'],
            );
        }
        xml_out.empty("style:tab-stop")?;
        write_attrs(&stops[i], xml_out)?;
        i += 1;
    }
    assert(stops@.take(stops@.len() as int) == stops@);
    Ok(())
}

/// Writes the properties of paragraphs of a style.
fn write_paragraph_props(s: &Style, xml_out: &mut XmlWriter) -> (r: Result<(), OdsError>)
    ensures
        r is Ok,
        final(xml_out).document() == old(xml_out).document() + paragraph_props_text(s),
        final(xml_out).open_elements() == old(xml_out).open_elements(),
{
    let ghost start = xml_out.document();
    let ghost stack = xml_out.open_elements();
    proof {
        lemma_append_empty(start);
    }
    let of_paragraphs = s.family == StyleFamily::Paragraph;
    if s.paragraphstyle.len() > 0 && (of_paragraphs || s.family == StyleFamily::TableCell) {
        match &s.tabstops {
            Some(stops) if of_paragraphs => {
                xml_out.elem("style:paragraph-properties")?;
                write_attrs(&s.paragraphstyle, xml_out)?;
                let ghost opened = xml_out.document();
                proof {
                    lemma_append3(
                        start,
                        open_tag_text("style:paragraph-properties"@),
                        attrs_text(s.paragraphstyle@),
                        seq!['>'],
                    );
                }
                xml_out.elem("style:tab-stops")?;
                write_tabstops(stops, xml_out)?;
                proof {
                    let a = stack.push("style:paragraph-properties"@);
                    assert(a.push("style:tab-stops"@).drop_last() == a);
                    assert(a.drop_last() == stack);
                    lemma_append2(
                        xml_out.document(),
                        end_tag_text("style:tab-stops"@),
                        end_tag_text("style:paragraph-properties"@),
                    );
                    lemma_append4(
                        start,
                        open_tag_text("style:paragraph-properties"@) + attrs_text(
                            s.paragraphstyle@,
                        ) + seq!['>'],
                        open_tag_text("style:tab-stops"@) + seq!['>'],
                        tabstops_text(stops@),
                        end_tag_text("style:tab-stops"@) + end_tag_text(
                            "style:paragraph-properties"@,
                        ),
                    );
                }
                xml_out.end_elem("style:tab-stops")?;
                xml_out.end_elem("style:paragraph-properties")?;
            },
            _ => {
                write_props("style:paragraph-properties", &s.paragraphstyle, xml_out)?;
            },
        }
    }
    Ok(())
}

/// Writes one conditional style.
fn write_stylemap(m: &StyleMap, xml_out: &mut XmlWriter) -> (r: Result<(), OdsError>)
    ensures
        r is Ok,
        final(xml_out).document() == old(xml_out).document() + stylemap_text(*m),
        final(xml_out).open_elements() == old(xml_out).open_elements(),
{
    let ghost start = xml_out.document();
    let ghost base = if m.base_cell is Some {
        attr_text("style:base-cell-address"@, escaped(m.base_cell->0@, false))
    } else {
        Seq::empty()
    };
    proof {
        reveal_strlit("style:condition");
        reveal_strlit("style:apply-style-name");
        reveal_strlit("style:base-cell-address");
        lemma_escaped_ident_plain("style:condition"@);
        lemma_escaped_ident_plain("style:apply-style-name"@);
        lemma_escaped_ident_plain("style:base-cell-address"@);
        lemma_append5(
            start,
            open_tag_text("style:map"@),
            attr_text("style:condition"@, escaped(m.condition@, false)),
            attr_text("style:apply-style-name"@, escaped(m.applied_style@, false)),
            base,
            seq!['/', '>'],
        );
    }
    xml_out.empty("style:map")?;
    xml_out.attr_esc("style:condition", m.condition.as_str())?;
    xml_out.attr_esc("style:apply-style-name", m.applied_style.as_str())?;
    proof {
        lemma_append_empty(xml_out.written());
    }
    if let Some(c) = &m.base_cell {
        xml_out.attr_esc("style:base-cell-address", c.as_str())?;
    }
    Ok(())
}

/// Writes the conditional styles of a style, where it has any.
pub fn write_stylemaps(maps: &Option<Vec<StyleMap>>, xml_out: &mut XmlWriter) -> (r: Result<
    (),
    OdsError,
>)
    ensures
        r is Ok,
        final(xml_out).document() == old(xml_out).document() + opt_stylemaps_text(*maps),
        final(xml_out).open_elements() == old(xml_out).open_elements(),
{
    let ghost start = xml_out.document();
    proof {
        lemma_append_empty(start);
    }
    if let Some(list) = maps {
        let mut i: usize = 0;
        while i < list.len()
            invariant
                i <= list.len(),
                xml_out.document() == start + stylemaps_text(list@.take(i as int)),
                xml_out.open_elements() == old(xml_out).open_elements(),
            decreases list.len() - i,
        {
            proof {
                let next = list@.take(i + 1);
                assert(next.drop_last() == list@.take(i as int));
                assert(next.last() == list@[i as int]);
                lemma_append2(
                    start,
                    stylemaps_text(list@.take(i as int)),
                    stylemap_text(list@[i as int]),
                );
            }
            write_stylemap(&list[i], xml_out)?;
            i += 1;
        }
        assert(list@.take(list@.len() as int) == list@);
    }
    Ok(())
}

/// Writes the start tag of a style.
fn write_style_open(s: &Style, xml_out: &mut XmlWriter) -> (r: Result<(), OdsError>)
    ensures
        r is Ok,
        final(xml_out).document() == old(xml_out).document() + style_open_text(s),
        final(xml_out).open_elements() == old(xml_out).open_elements().push(
            style_tag(s.styleuse),
        ),
{
    let ghost start = xml_out.document();
    let ghost named = if s.styleuse == StyleUse::Default {
        Seq::empty()
    } else {
        attr_text("style:name"@, escaped(s.name@, false))
    };
    proof {
        reveal(style_open_text);
        reveal_strlit("style:name");
        lemma_escaped_ident_plain("style:name"@);
        lemma_append5(
            start,
            open_tag_text(style_tag(s.styleuse)),
            named,
            attr_text("style:family"@, family_text(s.family)),
            style_attrs_text(s.attr@),
            seq!['>'],
        );
    }
    if s.styleuse == StyleUse::Default {
        xml_out.elem("style:default-style")?;
        proof {
            lemma_append_empty(xml_out.written());
        }
    } else {
        xml_out.elem("style:style")?;
        xml_out.attr_esc("style:name", s.name.as_str())?;
    }
    xml_out.attr("style:family", s.family.as_str())?;
    write_style_attrs(&s.attr, xml_out)?;
    Ok(())
}

/// Writes the properties of a style.
fn write_style_body(s: &Style, xml_out: &mut XmlWriter) -> (r: Result<(), OdsError>)
    ensures
        r is Ok,
        final(xml_out).document() == old(xml_out).document() + style_body_text(s),
        final(xml_out).open_elements() == old(xml_out).open_elements(),
{
    let ghost own = match family_tag(s.family) {
        Some(tag) => props_text(tag, s.properties@),
        None => Seq::empty(),
    };
    proof {
        reveal(style_body_text);
        lemma_append4(
            xml_out.document(),
            own,
            paragraph_props_text(s),
            text_props_text(s),
            cell_maps_text(s),
        );
        lemma_append_empty(xml_out.document());
    }
    if let Some(tag) = s.family.tag() {
        write_props(tag, &s.properties, xml_out)?;
    }
    write_paragraph_props(s, xml_out)?;
    proof {
        lemma_append_empty(xml_out.document());
    }
    let of_cells = s.family == StyleFamily::TableCell;
    if of_cells || s.family == StyleFamily::Paragraph || s.family == StyleFamily::Text {
        write_props("style:text-properties", &s.textstyle, xml_out)?;
    }
    proof {
        lemma_append_empty(xml_out.document());
    }
    if of_cells {
        write_stylemaps(&s.stylemaps, xml_out)?;
    }
    Ok(())
}

/// Writes a style.
pub fn write_style(s: &Style, xml_out: &mut XmlWriter) -> (r: Result<(), OdsError>)
    ensures
        r is Ok,
        final(xml_out).document() == old(xml_out).document() + style_text(s),
        final(xml_out).open_elements() == old(xml_out).open_elements(),
{
    let ghost stack = xml_out.open_elements();
    proof {
        reveal(style_text);
        lemma_append3(
            xml_out.document(),
            style_open_text(s),
            style_body_text(s),
            end_tag_text(style_tag(s.styleuse)),
        );
        assert(stack.push(style_tag(s.styleuse)).drop_last() == stack);
    }
    write_style_open(s, xml_out)?;
    write_style_body(s, xml_out)?;
    if s.styleuse == StyleUse::Default {
        xml_out.end_elem("style:default-style")?;
    } else {
        xml_out.end_elem("style:style")?;
    }
    Ok(())
}

/// Writes those of the styles that are of the given family, stand in the
/// given document and are used in the given way.
fn write_family_styles(
    styles: &Vec<Style>,
    family: StyleFamily,
    origin: StyleOrigin,
    styleuse: StyleUse,
    xml_out: &mut XmlWriter,
) -> (r: Result<(), OdsError>)
    ensures
        r is Ok,
        final(xml_out).document() == old(xml_out).document() + family_styles_text(
            styles@,
            family,
            origin,
            styleuse,
        ),
        final(xml_out).open_elements() == old(xml_out).open_elements(),
{
    let ghost start = xml_out.document();
    let mut i: usize = 0;
    proof {
        lemma_append_empty(start);
    }
    while i < styles.len()
        invariant
            i <= styles.len(),
            xml_out.document() == start + family_styles_text(
                styles@.take(i as int),
                family,
                origin,
                styleuse,
            ),
            xml_out.open_elements() == old(xml_out).open_elements(),
        decreases styles.len() - i,
    {
        proof {
            let next = styles@.take(i + 1);
            assert(next.drop_last() == styles@.take(i as int));
            assert(next.last() == styles@[i as int]);
            lemma_append2(
                start,
                family_styles_text(styles@.take(i as int), family, origin, styleuse),
                style_text(&styles@[i as int]),
            );
            lemma_append_empty(xml_out.document());
            lemma_append_empty(
                family_styles_text(styles@.take(i as int), family, origin, styleuse),
            );
        }
        let s = &styles[i];
        if s.family == family && s.origin == origin && s.styleuse == styleuse {
            write_style(s, xml_out)?;
        }
        i += 1;
    }
    assert(styles@.take(styles@.len() as int) == styles@);
    Ok(())
}

/// Writes the styles that stand in the given document and are used in the
/// given way, family by family.
pub fn write_styles(
    styles: &Vec<Style>,
    origin: StyleOrigin,
    styleuse: StyleUse,
    xml_out: &mut XmlWriter,
) -> (r: Result<(), OdsError>)
    ensures
        r is Ok,
        final(xml_out).document() == old(xml_out).document() + styles_text(
            styles@,
            origin,
            styleuse,
        ),
        final(xml_out).open_elements() == old(xml_out).open_elements(),
{
    let ghost start = xml_out.document();
    write_family_styles(styles, StyleFamily::Table, origin, styleuse, xml_out)?;
    write_family_styles(styles, StyleFamily::TableRow, origin, styleuse, xml_out)?;
    write_family_styles(styles, StyleFamily::TableColumn, origin, styleuse, xml_out)?;
    write_family_styles(styles, StyleFamily::TableCell, origin, styleuse, xml_out)?;
    let ghost four = xml_out.document();
    proof {
        lemma_append4(
            start,
            family_styles_text(styles@, StyleFamily::Table, origin, styleuse),
            family_styles_text(styles@, StyleFamily::TableRow, origin, styleuse),
            family_styles_text(styles@, StyleFamily::TableColumn, origin, styleuse),
            family_styles_text(styles@, StyleFamily::TableCell, origin, styleuse),
        );
    }
    write_family_styles(styles, StyleFamily::Paragraph, origin, styleuse, xml_out)?;
    write_family_styles(styles, StyleFamily::Text, origin, styleuse, xml_out)?;
    write_family_styles(styles, StyleFamily::Graphic, origin, styleuse, xml_out)?;
    proof {
        lemma_append4(
            start,
            family_styles_text(styles@, StyleFamily::Table, origin, styleuse)
                + family_styles_text(styles@, StyleFamily::TableRow, origin, styleuse)
                + family_styles_text(styles@, StyleFamily::TableColumn, origin, styleuse)
                + family_styles_text(styles@, StyleFamily::TableCell, origin, styleuse),
            family_styles_text(styles@, StyleFamily::Paragraph, origin, styleuse),
            family_styles_text(styles@, StyleFamily::Text, origin, styleuse),
            family_styles_text(styles@, StyleFamily::Graphic, origin, styleuse),
        );
    }
    Ok(())
}

/// Writes the declarations of the fonts that stand in the given document.
pub fn write_font_decl(fonts: &Vec<FontFaceDecl>, origin: StyleOrigin, xml_out: &mut XmlWriter) -> (r:
    Result<(), OdsError>)
    ensures
        r is Ok,
        final(xml_out).document() == old(xml_out).document() + fonts_text(fonts@, origin),
        final(xml_out).open_elements() == old(xml_out).open_elements(),
{
    let ghost start = xml_out.document();
    let mut i: usize = 0;
    proof {
        lemma_append_empty(start);
    }
    while i < fonts.len()
        invariant
            i <= fonts.len(),
            xml_out.document() == start + fonts_text(fonts@.take(i as int), origin),
            xml_out.open_elements() == old(xml_out).open_elements(),
        decreases fonts.len() - i,
    {
        let ghost before = xml_out.document();
        proof {
            let next = fonts@.take(i + 1);
            assert(next.drop_last() == fonts@.take(i as int));
            assert(next.last() == fonts@[i as int]);
            lemma_append2(
                start,
                fonts_text(fonts@.take(i as int), origin),
                font_text(&fonts@[i as int]),
            );
            lemma_append_empty(before);
            lemma_append_empty(fonts_text(fonts@.take(i as int), origin));
            reveal_strlit("style:name");
            lemma_escaped_ident_plain("style:name"@);
            lemma_append4(
                before,
                open_tag_text("style:font-face"@),
                attr_text("style:name"@, escaped(fonts@[i as int].name@, false)),
                attrs_text(fonts@[i as int].attr@),
                seq!['/', '>'],
            );
        }
        let font = &fonts[i];
        if font.origin == origin {
            xml_out.empty("style:font-face")?;
            xml_out.attr_esc("style:name", font.name.as_str())?;
            write_attrs(&font.attr, xml_out)?;
        }
        i += 1;
    }
    assert(fonts@.take(fonts@.len() as int) == fonts@);
    Ok(())
}

} // verus!
