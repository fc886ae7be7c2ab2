//! Cells: their attributes, their values, and the text that shows a value.

use crate::error::OdsError;
use crate::escape::escaped;
use crate::markup::{
    belongs_at, placed_tags_text, TagPlace,
    bool_text, cell_attrs_text, cell_style_text, cell_text, content_writable, count_attr_text,
    lemma_join_split_lines, opt_attr_text, paragraphs_text, span_attrs_text, split_lines,
    tags_text, value_attrs_text, value_content_text, value_error, value_type_attr_text,
    value_writable,
};
use crate::sheet::{CellContent, WorkBook};
use crate::text::{str_eq, lemma_append2, lemma_append3, lemma_append4, lemma_append_empty};
use crate::value::{format_datetime, format_duration2, Value};
use crate::write::attrs::{attr_value_esc, count_attr, opt_attr, xml};
use crate::xmltree::{attrs_text, contents_text, tag_text, XmlContent, XmlTag};
use crate::xmlwriter::{
    attr_text, elem_text_text, end_tag_text, finish_text, open_tag_text, Open, XmlWriter,
};
use vstd::prelude::*;

verus! {

/// Writes a foreign tag with all that it holds.
pub fn write_xmltag(x: &XmlTag, xml_out: &mut XmlWriter) -> (r: Result<(), OdsError>)
    ensures
        r is Ok,
        final(xml_out).document() == old(xml_out).document() + tag_text(*x),
        final(xml_out).open_elements() == old(xml_out).open_elements(),
        final(xml_out).open_state() == if x.content@.len() == 0 {
            Open::Empty
        } else {
            Open::Nothing
        },
    decreases x,
{
    let ghost start = xml_out.document();
    let ghost stack = xml_out.open_elements();
    let is_empty = x.content.len() == 0;
    if is_empty {
        xml_out.empty(x.name.as_str())?;
    } else {
        xml_out.elem(x.name.as_str())?;
    }
    let ghost open = xml_out.open_state();
    let ghost inner = xml_out.open_elements();
    let mut i: usize = 0;
    while i < x.attr.len()
        invariant
            i <= x.attr.len(),
            xml_out.written() == start + open_tag_text(x.name@) + attrs_text(
                x.attr@.take(i as int),
            ),
            xml_out.open_state() == open,
            open != Open::Nothing,
            xml_out.open_elements() == inner,
        decreases x.attr.len() - i,
    {
        proof {
            let next = x.attr@.take(i + 1);
            assert(next.drop_last() == x.attr@.take(i as int));
            assert(next.last() == x.attr@[i as int]);
        }
        let ghost before = xml_out.written();
        xml_out.attr_esc(x.attr[i].0.as_str(), x.attr[i].1.as_str())?;
        proof {
            let next = x.attr@.take(i + 1);
            let a = attr_text(
                escaped(x.attr@[i as int].0@, true),
                escaped(x.attr@[i as int].1@, false),
            );
            assert(xml_out.written() == before + a);
            assert(attrs_text(next) == attrs_text(x.attr@.take(i as int)) + a);
        }
        i += 1;
    }
    assert(x.attr@.take(x.attr@.len() as int) == x.attr@);

    let mut j: usize = 0;
    while j < x.content.len()
        invariant
            j <= x.content.len(),
            xml_out.document() == start + open_tag_text(x.name@) + attrs_text(x.attr@)
                + finish_text(open) + contents_text(*x, j as nat),
            j > 0 ==> xml_out.open_state() == Open::Nothing || xml_out.open_state() == Open::Empty,
            j == 0 ==> xml_out.open_state() == open,
            xml_out.open_elements() == inner,
        decreases x.content.len() - j,
    {
        match &x.content[j] {
            XmlContent::Text(t) => {
                xml_out.text_esc(t.as_str())?;
            },
            XmlContent::Tag(t) => {
                write_xmltag(t, xml_out)?;
            },
        }
        j += 1;
    }

    if !is_empty {
        xml_out.end_elem(x.name.as_str())?;
    }
    Ok(())
}

/// Writes one paragraph for each line of `text`.
fn write_paragraphs(text: &str, xml_out: &mut XmlWriter) -> (r: Result<(), OdsError>)
    ensures
        r is Ok,
        final(xml_out).document() == old(xml_out).document() + paragraphs_text(
            split_lines(text@),
        ),
        final(xml_out).open_elements() == old(xml_out).open_elements(),
        final(xml_out).open_state() == Open::Nothing,
{
    let ghost start = xml_out.document();
    let mut line = String::new();
    proof {
        lemma_append_empty(start);
        assert(text@.subrange(0, 0) == Seq::<char>::empty());
        assert(split_lines(Seq::<char>::empty()).drop_last() == Seq::<Seq<char>>::empty());
    }
    for c in it: text.chars()
        invariant
            it.seq() == text@,
            xml_out.document() == start + paragraphs_text(
                split_lines(text@.subrange(0, it.index())).drop_last(),
            ),
            line@ == split_lines(text@.subrange(0, it.index())).last(),
            xml_out.open_elements() == old(xml_out).open_elements(),
    {
        proof {
            let done = text@.subrange(0, it.index());
            let next = text@.subrange(0, it.index() + 1);
            assert(next.drop_last() == done);
            assert(next.last() == c);
            lemma_join_split_lines(done);
            let before = split_lines(done);
            if c == '\n' {
                assert(before.push(Seq::<char>::empty()).drop_last() == before);
                lemma_append2(
                    start,
                    paragraphs_text(before.drop_last()),
                    elem_text_text("text:p"@, escaped(before.last(), false)),
                );
            } else {
                assert(before.drop_last().push(before.last().push(c)).drop_last()
                    == before.drop_last());
            }
        }
        if c == '\n' {
            xml_out.elem_text_esc("text:p", line.as_str())?;
            line = String::new();
        } else {
            line.push(c);
        }
    }
    proof {
        assert(text@.subrange(0, text@.len() as int) == text@);
        lemma_join_split_lines(text@);
        let lines = split_lines(text@);
        lemma_append2(
            start,
            paragraphs_text(lines.drop_last()),
            elem_text_text("text:p"@, escaped(lines.last(), false)),
        );
    }
    xml_out.elem_text_esc("text:p", line.as_str())?;
    Ok(())
}

/// Writes foreign tags one after the other.
fn write_xmltags(tags: &Vec<XmlTag>, xml_out: &mut XmlWriter) -> (r: Result<(), OdsError>)
    ensures
        r is Ok,
        final(xml_out).document() == old(xml_out).document() + tags_text(tags@),
        final(xml_out).open_elements() == old(xml_out).open_elements(),
        tags@.len() == 0 ==> final(xml_out).open_state() == old(xml_out).open_state(),
{
    let ghost start = xml_out.document();
    let mut i: usize = 0;
    proof {
        lemma_append_empty(start);
    }
    while i < tags.len()
        invariant
            i <= tags.len(),
            xml_out.document() == start + tags_text(tags@.take(i as int)),
            xml_out.open_elements() == old(xml_out).open_elements(),
            tags@.len() == 0 ==> xml_out.open_state() == old(xml_out).open_state(),
        decreases tags.len() - i,
    {
        proof {
            let next = tags@.take(i + 1);
            assert(next.drop_last() == tags@.take(i as int));
            assert(next.last() == tags@[i as int]);
            lemma_append2(start, tags_text(tags@.take(i as int)), tag_text(tags@[i as int]));
        }
        write_xmltag(&tags[i], xml_out)?;
        i += 1;
    }
    assert(tags@.take(tags@.len() as int) == tags@);
    Ok(())
}

/// Whether a foreign tag of the given name is written at the given place.
pub fn tag_belongs(place: TagPlace, name: &str) -> (b: bool)
    ensures
        b == belongs_at(place, name@),
{
    match place {
        TagPlace::TableHead => str_eq(name, "table:title") || str_eq(name, "table:desc")
            || str_eq(name, "table:table-source") || str_eq(name, "office:dde-source") || str_eq(
            name,
            "table:scenario",
        ) || str_eq(name, "office:forms") || str_eq(name, "table:shapes"),
        TagPlace::TableTail => str_eq(name, "table:named-expressions") || str_eq(
            name,
            "calcext:conditional-formats",
        ),
        TagPlace::BookHead => str_eq(name, "office:scripts") || str_eq(
            name,
            "table:tracked-changes",
        ) || str_eq(name, "text:variable-decls") || str_eq(name, "text:sequence-decls")
            || str_eq(name, "text:user-field-decls") || str_eq(name, "text:dde-connection-decls")
            || str_eq(name, "table:calculation-settings") || str_eq(name, "table:label-ranges"),
        TagPlace::BookTail => str_eq(name, "table:named-expressions") || str_eq(
            name,
            "table:database-ranges",
        ) || str_eq(name, "table:data-pilot-tables") || str_eq(name, "table:consolidation")
            || str_eq(name, "table:dde-links"),
    }
}

/// Writes those of the foreign tags that belong at the given place.
pub fn write_placed_tags(tags: &Vec<XmlTag>, place: TagPlace, xml_out: &mut XmlWriter) -> (r:
    Result<(), OdsError>)
    ensures
        r is Ok,
        final(xml_out).document() == old(xml_out).document() + placed_tags_text(tags@, place),
        final(xml_out).open_elements() == old(xml_out).open_elements(),
{
    let ghost start = xml_out.document();
    let mut i: usize = 0;
    proof {
        lemma_append_empty(start);
    }
    while i < tags.len()
        invariant
            i <= tags.len(),
            xml_out.document() == start + placed_tags_text(tags@.take(i as int), place),
            xml_out.open_elements() == old(xml_out).open_elements(),
        decreases tags.len() - i,
    {
        proof {
            let next = tags@.take(i + 1);
            assert(next.drop_last() == tags@.take(i as int));
            assert(next.last() == tags@[i as int]);
            lemma_append2(
                start,
                placed_tags_text(tags@.take(i as int), place),
                tag_text(tags@[i as int]),
            );
            lemma_append_empty(xml_out.document());
            lemma_append_empty(placed_tags_text(tags@.take(i as int), place));
        }
        if tag_belongs(place, tags[i].name.as_str()) {
            write_xmltag(&tags[i], xml_out)?;
        }
        i += 1;
    }
    assert(tags@.take(tags@.len() as int) == tags@);
    Ok(())
}

/// Writes a value whose text is given: the attribute for its kind, the
/// attribute `attr` with the text, and one paragraph that shows the text,
/// all as they are, without escaping. It is refused while no start tag is
/// pending.
pub fn write_plain_value(kind: &str, attr: &str, text: &str, xml_out: &mut XmlWriter) -> (r:
    Result<(), OdsError>)
    ensures
        r is Ok <==> old(xml_out).open_state() != Open::Nothing,
        r is Ok ==> {
            &&& final(xml_out).document() == old(xml_out).written() + (value_type_attr_text(kind@)
                + attr_text(attr@, text@) + finish_text(old(xml_out).open_state())
                + elem_text_text("text:p"@, text@))
            &&& final(xml_out).open_elements() == old(xml_out).open_elements()
            &&& final(xml_out).open_state() == Open::Nothing
        },
        r matches Err(e) ==> e is Xml,
{
    proof {
        lemma_append4(
            xml_out.written(),
            value_type_attr_text(kind@),
            attr_text(attr@, text@),
            finish_text(xml_out.open_state()),
            elem_text_text("text:p"@, text@),
        );
    }
    xml(xml_out.attr("office:value-type", kind))?;
    xml(xml_out.attr(attr, text))?;
    xml(xml_out.elem_text("text:p", text))?;
    Ok(())
}

/// Writes a number of the given kind: its attributes and the paragraph that
/// shows it.
fn write_number_value(kind: &str, number: &str, xml_out: &mut XmlWriter) -> (r: Result<
    (),
    OdsError,
>)
    requires
        old(xml_out).open_state() == Open::Elem,
    ensures
        r is Ok,
        final(xml_out).document() == old(xml_out).written() + (value_type_attr_text(kind@)
            + attr_text("office:value"@, escaped(number@, false)) + seq!['>'] + elem_text_text(
            "text:p"@,
            escaped(number@, false),
        )),
        final(xml_out).open_elements() == old(xml_out).open_elements(),
{
    proof {
        reveal_strlit("office:value");
        lemma_append4(
            xml_out.written(),
            value_type_attr_text(kind@),
            attr_text("office:value"@, escaped(number@, false)),
            seq!['>'],
            elem_text_text("text:p"@, escaped(number@, false)),
        );
    }
    xml_out.attr("office:value-type", kind)?;
    attr_value_esc(xml_out, "office:value", number)?;
    xml_out.elem_text_esc("text:p", number)?;
    Ok(())
}

/// Writes an amount of money: its attributes and the paragraph that shows
/// the currency and the amount.
fn write_currency_value(amount: &str, code: &str, xml_out: &mut XmlWriter) -> (r: Result<
    (),
    OdsError,
>)
    requires
        old(xml_out).open_state() == Open::Elem,
    ensures
        r is Ok,
        final(xml_out).document() == old(xml_out).written() + (value_type_attr_text("currency"@)
            + attr_text("office:currency"@, escaped(code@, false)) + attr_text(
            "office:value"@,
            escaped(amount@, false),
        ) + seq!['>'] + elem_text_text(
            "text:p"@,
            escaped(code@, false) + seq![' '] + escaped(amount@, false),
        )),
        final(xml_out).open_elements() == old(xml_out).open_elements(),
{
    let ghost start = xml_out.written();
    proof {
        reveal_strlit("office:value");
        reveal_strlit("office:currency");
        reveal_strlit(" ");
        assert(" "@ == seq![' ']);
    }
    xml_out.attr("office:value-type", "currency")?;
    attr_value_esc(xml_out, "office:currency", code)?;
    attr_value_esc(xml_out, "office:value", amount)?;
    let ghost tag = xml_out.document();
    proof {
        lemma_append4(
            start,
            value_type_attr_text("currency"@),
            attr_text("office:currency"@, escaped(code@, false)),
            attr_text("office:value"@, escaped(amount@, false)),
            seq!['>'],
        );
    }
    let ghost stack = xml_out.open_elements();
    xml_out.elem("text:p")?;
    xml_out.text_esc(code)?;
    xml_out.text(" ")?;
    xml_out.text_esc(amount)?;
    assert(xml_out.open_elements().drop_last() == stack);
    xml_out.end_elem("text:p")?;
    proof {
        let shown = escaped(code@, false) + seq![' '] + escaped(amount@, false);
        assert(xml_out.document() == tag + elem_text_text("text:p"@, shown)) by {
            assert(elem_text_text("text:p"@, shown) =~= open_tag_text("text:p"@) + seq!['>']
                + escaped(code@, false) + seq![' '] + escaped(amount@, false) + end_tag_text(
                "text:p"@,
            ));
            assert(xml_out.document() =~= tag + (open_tag_text("text:p"@) + seq!['>'] + escaped(
                code@,
                false,
            ) + seq![' '] + escaped(amount@, false) + end_tag_text("text:p"@)));
        }
        lemma_append2(
            start,
            value_type_attr_text("currency"@) + attr_text(
                "office:currency"@,
                escaped(code@, false),
            ) + attr_text("office:value"@, escaped(amount@, false)) + seq!['>'],
            elem_text_text("text:p"@, shown),
        );
    }
    Ok(())
}

/// Writes the attribute for the kind "string" and finishes the start tag of
/// the cell.
fn write_string_kind(xml_out: &mut XmlWriter) -> (r: Result<(), OdsError>)
    requires
        old(xml_out).open_state() == Open::Elem,
    ensures
        r is Ok,
        final(xml_out).written() == old(xml_out).written() + value_type_attr_text("string"@),
        final(xml_out).open_elements() == old(xml_out).open_elements(),
        final(xml_out).open_state() == Open::Elem,
{
    xml_out.attr("office:value-type", "string")?;
    Ok(())
}

/// Writes the value of a cell after the start tag of the cell has been
/// begun: the attributes that carry the value, then the text that shows it.
/// A date that has no text is refused.
fn write_value(value: &Value, xml_out: &mut XmlWriter) -> (r: Result<(), OdsError>)
    requires
        old(xml_out).open_state() == Open::Elem,
        !(value is Empty),
    ensures
        r is Ok <==> value_writable(*value),
        r is Ok ==> {
            &&& final(xml_out).document() == old(xml_out).written() + (value_attrs_text(*value)
                + seq!['>'] + value_content_text(*value))
            &&& final(xml_out).open_elements() == old(xml_out).open_elements()
        },
        r matches Err(e) ==> e == value_error(None, *value),
{
    let ghost start = xml_out.written();
    proof {
        reveal(value_attrs_text);
        reveal(value_content_text);
    }
    match value {
        Value::Empty => {},
        Value::Text(s) => {
            write_string_kind(xml_out)?;
            proof {
                lemma_append3(
                    start,
                    value_type_attr_text("string"@),
                    seq!['>'],
                    paragraphs_text(split_lines(s@)),
                );
            }
            write_paragraphs(s.as_str(), xml_out)?;
        },
        Value::TextXml(t) => {
            write_string_kind(xml_out)?;
            proof {
                lemma_append3(start, value_type_attr_text("string"@), seq!['>'], tags_text(t@));
            }
            write_xmltags(t, xml_out)?;
        },
        Value::DateTime(d) => {
            match format_datetime(d.secs, d.nanos) {
                Some(text) => {
                    write_plain_value("date", "office:date-value", text.as_str(), xml_out)?;
                },
                None => {
                    return Err(OdsError::Date { at: None, secs: d.secs, nanos: d.nanos });
                },
            }
        },
        Value::TimeDuration(d) => {
            let text = format_duration2(*d);
            write_plain_value("time", "office:time-value", text.as_str(), xml_out)?;
        },
        Value::Boolean(b) => {
            proof {
                reveal(bool_text);
            }
            let text = if *b {
                "true"
            } else {
                "false"
            };
            write_plain_value("boolean", "office:boolean-value", text, xml_out)?;
        },
        Value::Currency(v, c) => {
            write_currency_value(v.as_str(), c.as_str(), xml_out)?;
        },
        Value::Number(v) => {
            write_number_value("float", v.as_str(), xml_out)?;
        },
        Value::Percentage(v) => {
            write_number_value("percentage", v.as_str(), xml_out)?;
        },
    }
    Ok(())
}

/// Writes the style attribute of a cell: its own style, else the default
/// style for the kind of its value.
fn write_cell_style(book: &WorkBook, cell: &CellContent, xml_out: &mut XmlWriter) -> (r: Result<
    (),
    OdsError,
>)
    requires
        old(xml_out).open_state() != Open::Nothing,
    ensures
        r is Ok,
        final(xml_out).written() == old(xml_out).written() + cell_style_text(book, cell),
        final(xml_out).open_state() == old(xml_out).open_state(),
        final(xml_out).open_elements() == old(xml_out).open_elements(),
{
    proof {
        reveal(cell_style_text);
        reveal(opt_attr_text);
        reveal_strlit("table:style-name");
        lemma_append_empty(xml_out.written());
    }
    // The cell's own style wins over the default style for its value.
    if let Some(style) = &cell.style {
        attr_value_esc(xml_out, "table:style-name", style.as_str())?;
    } else if let Some(value) = &cell.value {
        if let Some(style) = book.def_style(value.value_type()) {
            attr_value_esc(xml_out, "table:style-name", style.as_str())?;
        }
    }
    Ok(())
}

/// Writes the attributes for the rows and columns that a cell reaches over.
fn write_span_attrs(cell: &CellContent, xml_out: &mut XmlWriter) -> (r: Result<(), OdsError>)
    requires
        old(xml_out).open_state() != Open::Nothing,
    ensures
        r is Ok,
        final(xml_out).written() == old(xml_out).written() + span_attrs_text(cell),
        final(xml_out).open_state() == old(xml_out).open_state(),
        final(xml_out).open_elements() == old(xml_out).open_elements(),
{
    proof {
        reveal(span_attrs_text);
        lemma_append_empty(xml_out.written());
    }
    if let Some(span) = cell.span {
        let ghost rows = if span.row_span > 1 {
            count_attr_text("table:number-rows-spanned"@, span.row_span as int)
        } else {
            Seq::empty()
        };
        let ghost cols = if span.col_span > 1 {
            count_attr_text("table:number-columns-spanned"@, span.col_span as int)
        } else {
            Seq::empty()
        };
        proof {
            lemma_append2(xml_out.written(), rows, cols);
        }
        if span.row_span > 1 {
            count_attr(xml_out, "table:number-rows-spanned", span.row_span)?;
        }
        proof {
            lemma_append_empty(xml_out.written());
        }
        if span.col_span > 1 {
            count_attr(xml_out, "table:number-columns-spanned", span.col_span)?;
        }
    }
    Ok(())
}

/// Writes the attributes of a cell that do not depend on its value.
fn write_cell_attrs(book: &WorkBook, cell: &CellContent, xml_out: &mut XmlWriter) -> (r: Result<
    (),
    OdsError,
>)
    requires
        old(xml_out).open_state() != Open::Nothing,
    ensures
        r is Ok,
        final(xml_out).written() == old(xml_out).written() + cell_attrs_text(book, cell),
        final(xml_out).open_state() == old(xml_out).open_state(),
        final(xml_out).open_elements() == old(xml_out).open_elements(),
{
    proof {
        reveal(cell_attrs_text);
        reveal_strlit("table:formula");
        reveal_strlit("table:content-validation-name");
        lemma_append4(
            xml_out.written(),
            opt_attr_text("table:formula"@, cell.formula),
            cell_style_text(book, cell),
            opt_attr_text("table:content-validation-name"@, cell.validation_name),
            span_attrs_text(cell),
        );
    }
    opt_attr(xml_out, "table:formula", &cell.formula)?;
    write_cell_style(book, cell, xml_out)?;

    opt_attr(xml_out, "table:content-validation-name", &cell.validation_name)?;

    write_span_attrs(cell, xml_out)?;
    Ok(())
}

/// Finds out whether the content of a cell can be written: a date must have
/// a text.
pub fn check_content(cell: &CellContent) -> (r: Result<(), OdsError>)
    ensures
        r is Ok <==> content_writable(cell),
        r matches Err(e) ==> e == value_error(None, cell.value->0),
{
    if let Some(Value::DateTime(d)) = &cell.value {
        if format_datetime(d.secs, d.nanos).is_none() {
            return Err(OdsError::Date { at: None, secs: d.secs, nanos: d.nanos });
        }
    }
    Ok(())
}

/// Writes a populated cell, as a covered cell where `is_hidden` says that it
/// lies under a merged cell. A cell whose value is a date without a text is
/// refused before anything is written.
pub fn write_cell(
    book: &WorkBook,
    cell: &CellContent,
    is_hidden: bool,
    xml_out: &mut XmlWriter,
) -> (r: Result<(), OdsError>)
    ensures
        r is Ok <==> content_writable(cell),
        r is Ok ==> {
            &&& final(xml_out).document() == old(xml_out).document() + cell_text(
                book,
                cell,
                is_hidden,
            )
            &&& final(xml_out).open_elements() == old(xml_out).open_elements()
        },
        r matches Err(e) ==> e == value_error(None, cell.value->0) && *final(xml_out) == *old(
            xml_out,
        ),
{
    check_content(cell)?;
    let ghost start = xml_out.document();
    let ghost stack = xml_out.open_elements();
    let tag = if is_hidden {
        "table:covered-table-cell"
    } else {
        "table:table-cell"
    };
    proof {
        reveal(cell_text);
    }
    match &cell.value {
        None | Some(Value::Empty) => {
            proof {
                lemma_append3(
                    start,
                    open_tag_text(tag@),
                    cell_attrs_text(book, cell),
                    seq!['/', '>'],
                );
            }
            xml_out.empty(tag)?;
            write_cell_attrs(book, cell, xml_out)?;
        },
        Some(value) => {
            xml_out.elem(tag)?;
            write_cell_attrs(book, cell, xml_out)?;
            let ghost attrs = xml_out.written();
            proof {
                lemma_append2(start, open_tag_text(tag@), cell_attrs_text(book, cell));
                lemma_append2(
                    start,
                    open_tag_text(tag@) + cell_attrs_text(book, cell),
                    value_attrs_text(*value) + seq!['>'] + value_content_text(*value),
                );
                lemma_append2(
                    start,
                    open_tag_text(tag@) + cell_attrs_text(book, cell) + (value_attrs_text(*value)
                        + seq!['>'] + value_content_text(*value)),
                    end_tag_text(tag@),
                );
                assert(open_tag_text(tag@) + cell_attrs_text(book, cell) + (value_attrs_text(
                    *value,
                ) + seq!['>'] + value_content_text(*value)) + end_tag_text(tag@) =~= open_tag_text(
                    tag@,
                ) + cell_attrs_text(book, cell) + value_attrs_text(*value) + seq!['>']
                    + value_content_text(*value) + end_tag_text(tag@));
            }
            write_value(value, xml_out)?;
            assert(xml_out.open_elements().drop_last() == stack);
            xml_out.end_elem(tag)?;
        },
    }

    Ok(())
}

} // verus!
