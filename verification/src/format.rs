//! Value formats: how numbers, dates and the like are shown.

use crate::error::OdsError;
use crate::escape::{escaped, lemma_escaped_ident_plain};
use crate::style::{props_text, write_attrs, write_props, StyleMap, StyleOrigin, StyleUse};
use crate::text::{
    decimal, lemma_append2, lemma_append3, lemma_append4, lemma_append5, lemma_append_empty,
    push_decimal,
};
use crate::value::ValueType;
use crate::xmltree::attrs_text;
use crate::xmlwriter::{attr_text, end_tag_text, open_tag_text, XmlWriter};
use vstd::prelude::*;

verus! {

/// The kinds of parts that a value format is made of.
#[derive(Clone, Copy, Debug, PartialEq, Eq, Structural)]
pub enum FormatPartType {
    Boolean,
    Number,
    ScientificNumber,
    CurrencySymbol,
    Day,
    Month,
    Year,
    Era,
    DayOfWeek,
    WeekOfYear,
    Quarter,
    Hours,
    Minutes,
    Seconds,
    Fraction,
    AmPm,
    Text,
    TextContent,
    FillCharacter,
}

/// The element of a kind of part.
pub open spec fn part_tag(t: FormatPartType) -> Seq<char> {
    match t {
        FormatPartType::Boolean => "number:boolean"@,
        FormatPartType::Number => "number:number"@,
        FormatPartType::ScientificNumber => "number:scientific-number"@,
        FormatPartType::CurrencySymbol => "number:currency-symbol"@,
        FormatPartType::Day => "number:day"@,
        FormatPartType::Month => "number:month"@,
        FormatPartType::Year => "number:year"@,
        FormatPartType::Era => "number:era"@,
        FormatPartType::DayOfWeek => "number:day-of-week"@,
        FormatPartType::WeekOfYear => "number:week-of-year"@,
        FormatPartType::Quarter => "number:quarter"@,
        FormatPartType::Hours => "number:hours"@,
        FormatPartType::Minutes => "number:minutes"@,
        FormatPartType::Seconds => "number:seconds"@,
        FormatPartType::Fraction => "number:fraction"@,
        FormatPartType::AmPm => "number:am-pm"@,
        FormatPartType::Text => "number:text"@,
        FormatPartType::TextContent => "number:text-content"@,
        FormatPartType::FillCharacter => "number:fill-character"@,
    }
}

impl FormatPartType {
    /// The element of this kind of part.
    pub fn tag(&self) -> (s: &'static str)
        ensures
            s@ == part_tag(*self),
    {
        match self {
            FormatPartType::Boolean => "number:boolean",
            FormatPartType::Number => "number:number",
            FormatPartType::ScientificNumber => "number:scientific-number",
            FormatPartType::CurrencySymbol => "number:currency-symbol",
            FormatPartType::Day => "number:day",
            FormatPartType::Month => "number:month",
            FormatPartType::Year => "number:year",
            FormatPartType::Era => "number:era",
            FormatPartType::DayOfWeek => "number:day-of-week",
            FormatPartType::WeekOfYear => "number:week-of-year",
            FormatPartType::Quarter => "number:quarter",
            FormatPartType::Hours => "number:hours",
            FormatPartType::Minutes => "number:minutes",
            FormatPartType::Seconds => "number:seconds",
            FormatPartType::Fraction => "number:fraction",
            FormatPartType::AmPm => "number:am-pm",
            FormatPartType::Text => "number:text",
            FormatPartType::TextContent => "number:text-content",
            FormatPartType::FillCharacter => "number:fill-character",
        }
    }

    /// Whether parts of this kind hold text of their own.
    pub open spec fn spec_holds_text(&self) -> bool {
        *self == FormatPartType::Text || *self == FormatPartType::CurrencySymbol || *self
            == FormatPartType::FillCharacter
    }

    /// Whether parts of this kind hold text of their own.
    #[verifier::when_used_as_spec(spec_holds_text)]
    pub fn holds_text(&self) -> (b: bool)
        ensures
            b == self.spec_holds_text(),
    {
        *self == FormatPartType::Text || *self == FormatPartType::CurrencySymbol || *self
            == FormatPartType::FillCharacter
    }
}

/// One part of a value format.
#[derive(Debug, PartialEq, Eq)]
pub struct FormatPart {
    pub part_type: FormatPartType,
    pub attr: Vec<(String, String)>,
    /// Where text that is embedded in a number stands.
    pub position: i32,
    pub content: Option<String>,
}

/// A value format.
#[derive(Debug, PartialEq, Eq)]
pub struct ValueFormat {
    pub value_type: ValueType,
    pub origin: StyleOrigin,
    pub styleuse: StyleUse,
    pub name: String,
    pub attr: Vec<(String, String)>,
    pub textstyle: Vec<(String, String)>,
    pub parts: Vec<FormatPart>,
    pub stylemaps: Option<Vec<StyleMap>>,
}

/// The element of the formats for a kind of value. Values without content
/// have no format.
pub open spec fn format_tag(t: ValueType) -> Option<Seq<char>> {
    match t {
        ValueType::Empty => None,
        ValueType::Boolean => Some("number:boolean-style"@),
        ValueType::Number => Some("number:number-style"@),
        ValueType::Text => Some("number:text-style"@),
        ValueType::TextXml => Some("number:text-style"@),
        ValueType::TimeDuration => Some("number:time-style"@),
        ValueType::Percentage => Some("number:percentage-style"@),
        ValueType::Currency => Some("number:currency-style"@),
        ValueType::DateTime => Some("number:date-style"@),
    }
}

/// The element of the formats for a kind of value.
pub fn format_tag_of(t: ValueType) -> (r: Option<&'static str>)
    ensures
        match r {
            Some(s) => format_tag(t) == Some(s@),
            None => format_tag(t) is None,
        },
{
    match t {
        ValueType::Empty => None,
        ValueType::Boolean => Some("number:boolean-style"),
        ValueType::Number => Some("number:number-style"),
        ValueType::Text => Some("number:text-style"),
        ValueType::TextXml => Some("number:text-style"),
        ValueType::TimeDuration => Some("number:time-style"),
        ValueType::Percentage => Some("number:percentage-style"),
        ValueType::Currency => Some("number:currency-style"),
        ValueType::DateTime => Some("number:date-style"),
    }
}

/// The decimal numeral of a number with its sign.
pub open spec fn signed_decimal(n: int) -> Seq<char> {
    if n < 0 {
        seq!['-'] + decimal((-n) as nat)
    } else {
        decimal(n as nat)
    }
}

/// The decimal numeral of a number with its sign.
pub fn signed_decimal_string(n: i32) -> (s: String)
    ensures
        s@ == signed_decimal(n as int),
{
    let mut out = String::new();
    if n < 0 {
        out.push('-');
        push_decimal(&mut out, (-(n as i64)) as u64);
    } else {
        push_decimal(&mut out, n as u64);
    }
    out
}

/// Escaped text, where there is any.
pub open spec fn opt_escaped(text: Option<String>) -> Seq<char> {
    match text {
        Some(t) => escaped(t@, false),
        None => Seq::empty(),
    }
}

/// One part of a value format as it is written. A part that holds text of
/// its own, and a number with text embedded in it, are elements with
/// content; every other part is self-closing.
pub open spec fn part_text(p: &FormatPart) -> Seq<char> {
    let tag = part_tag(p.part_type);
    if p.part_type.spec_holds_text() {
        open_tag_text(tag) + attrs_text(p.attr@) + seq!['>'] + opt_escaped(p.content)
            + end_tag_text(tag)
    } else if p.part_type == FormatPartType::Number && p.content is Some {
        open_tag_text(tag) + attrs_text(p.attr@) + seq!['>'] + (open_tag_text(
            "number:embedded-text"@,
        ) + attr_text("number:position"@, signed_decimal(p.position as int)) + seq!['>']
            + escaped(p.content->0@, false) + end_tag_text("number:embedded-text"@))
            + end_tag_text(tag)
    } else {
        open_tag_text(tag) + attrs_text(p.attr@) + seq!['/', '>']
    }
}

/// The parts of a value format, one after the other.
pub open spec fn parts_text(parts: Seq<FormatPart>) -> Seq<char>
    decreases parts.len(),
{
    if parts.len() == 0 {
        Seq::empty()
    } else {
        parts_text(parts.drop_last()) + part_text(&parts.last())
    }
}

/// One conditional format: the condition and the format that applies.
pub open spec fn format_map_text(m: StyleMap) -> Seq<char> {
    open_tag_text("style:map"@) + attr_text("style:condition"@, escaped(m.condition@, false))
        + attr_text("style:apply-style-name"@, escaped(m.applied_style@, false)) + seq!['/', '>']
}

/// The conditional formats, one element for each.
pub open spec fn format_maps_text(maps: Seq<StyleMap>) -> Seq<char>
    decreases maps.len(),
{
    if maps.len() == 0 {
        Seq::empty()
    } else {
        format_maps_text(maps.drop_last()) + format_map_text(maps.last())
    }
}

/// The conditional formats of a format, where it has any.
pub open spec fn opt_format_maps_text(maps: Option<Vec<StyleMap>>) -> Seq<char> {
    match maps {
        Some(m) => format_maps_text(m@),
        None => Seq::empty(),
    }
}

/// The start tag of a value format.
pub open spec fn format_open_text(f: &ValueFormat) -> Seq<char> {
    open_tag_text(format_tag(f.value_type)->0) + attr_text(
        "style:name"@,
        escaped(f.name@, false),
    ) + attrs_text(f.attr@) + seq!['>']
}

/// A value format as it is written.
#[verifier::opaque]
pub open spec fn format_text(f: &ValueFormat) -> Seq<char> {
    format_open_text(f) + props_text("style:text-properties"@, f.textstyle@) + parts_text(
        f.parts@,
    ) + opt_format_maps_text(f.stylemaps) + end_tag_text(format_tag(f.value_type)->0)
}

/// Whether a format is for values of the given kind; marked up text counts
/// as text.
pub open spec fn is_for(f: &ValueFormat, t: ValueType) -> bool {
    f.value_type == t || (t == ValueType::Text && f.value_type == ValueType::TextXml)
}

/// Those of the formats that are for values of the given kind, stand in the
/// given document and are used in the given way.
pub open spec fn kind_formats_text(
    formats: Seq<ValueFormat>,
    kind: ValueType,
    origin: StyleOrigin,
    styleuse: StyleUse,
) -> Seq<char>
    decreases formats.len(),
{
    if formats.len() == 0 {
        Seq::empty()
    } else {
        kind_formats_text(formats.drop_last(), kind, origin, styleuse) + if is_for(
            &formats.last(),
            kind,
        ) && formats.last().origin == origin && formats.last().styleuse == styleuse {
            format_text(&formats.last())
        } else {
            Seq::empty()
        }
    }
}

/// The formats that stand in the given document and are used in the given
/// way, kind by kind: truth values, money, dates, numbers, percentages,
/// text, durations.
pub open spec fn formats_text(
    formats: Seq<ValueFormat>,
    origin: StyleOrigin,
    styleuse: StyleUse,
) -> Seq<char> {
    kind_formats_text(formats, ValueType::Boolean, origin, styleuse) + kind_formats_text(
        formats,
        ValueType::Currency,
        origin,
        styleuse,
    ) + kind_formats_text(formats, ValueType::DateTime, origin, styleuse) + kind_formats_text(
        formats,
        ValueType::Number,
        origin,
        styleuse,
    ) + kind_formats_text(formats, ValueType::Percentage, origin, styleuse)
        + kind_formats_text(formats, ValueType::Text, origin, styleuse) + kind_formats_text(
        formats,
        ValueType::TimeDuration,
        origin,
        styleuse,
    )
}

/// Whether each of the formats is for a kind of value that has content.
pub open spec fn formats_typed(formats: Seq<ValueFormat>) -> bool {
    forall|i: int| 0 <= i < formats.len() ==> (#[trigger] formats[i]).value_type != ValueType::Empty
}

/// Writes one part of a value format.
fn write_part(p: &FormatPart, xml_out: &mut XmlWriter) -> (r: Result<(), OdsError>)
    ensures
        r is Ok,
        final(xml_out).document() == old(xml_out).document() + part_text(p),
        final(xml_out).open_elements() == old(xml_out).open_elements(),
{
    let ghost start = xml_out.document();
    let ghost stack = xml_out.open_elements();
    let tag = p.part_type.tag();
    if p.part_type.holds_text() {
        xml_out.elem(tag)?;
        write_attrs(&p.attr, xml_out)?;
        proof {
            lemma_append3(start, open_tag_text(tag@), attrs_text(p.attr@), seq!['>']);
            lemma_append_empty(xml_out.document());
        }
        let ghost opened = xml_out.document();
        if let Some(content) = &p.content {
            xml_out.text_esc(content.as_str())?;
        }
        proof {
            assert(stack.push(tag@).drop_last() == stack);
            lemma_append3(
                start,
                open_tag_text(tag@) + attrs_text(p.attr@) + seq!['>'],
                opt_escaped(p.content),
                end_tag_text(tag@),
            );
        }
        xml_out.end_elem(tag)?;
    } else if p.part_type == FormatPartType::Number && p.content.is_some() {
        xml_out.elem(tag)?;
        write_attrs(&p.attr, xml_out)?;
        proof {
            lemma_append3(start, open_tag_text(tag@), attrs_text(p.attr@), seq!['>']);
        }
        let ghost opened = xml_out.document();
        xml_out.elem("number:embedded-text")?;
        let position = signed_decimal_string(p.position);
        xml_out.attr("number:position", position.as_str())?;
        if let Some(content) = &p.content {
            xml_out.text_esc(content.as_str())?;
        }
        proof {
            let inner = stack.push(tag@);
            assert(inner.push("number:embedded-text"@).drop_last() == inner);
            assert(inner.drop_last() == stack);
            lemma_append5(
                opened,
                open_tag_text("number:embedded-text"@),
                attr_text("number:position"@, signed_decimal(p.position as int)),
                seq!['>'],
                escaped(p.content->0@, false),
                end_tag_text("number:embedded-text"@),
            );
            lemma_append3(
                start,
                open_tag_text(tag@) + attrs_text(p.attr@) + seq!['>'],
                open_tag_text("number:embedded-text"@) + attr_text(
                    "number:position"@,
                    signed_decimal(p.position as int),
                ) + seq!['>'] + escaped(p.content->0@, false) + end_tag_text(
                    "number:embedded-text"@,
                ),
                end_tag_text(tag@),
            );
        }
        xml_out.end_elem("number:embedded-text")?;
        xml_out.end_elem(tag)?;
    } else {
        proof {
            lemma_append3(start, open_tag_text(tag@), attrs_text(p.attr@), seq!['/', '>']);
        }
        xml_out.empty(tag)?;
        write_attrs(&p.attr, xml_out)?;
    }
    Ok(())
}

/// Writes the parts of a value format.
fn write_parts(parts: &Vec<FormatPart>, xml_out: &mut XmlWriter) -> (r: Result<(), OdsError>)
    ensures
        r is Ok,
        final(xml_out).document() == old(xml_out).document() + parts_text(parts@),
        final(xml_out).open_elements() == old(xml_out).open_elements(),
{
    let ghost start = xml_out.document();
    let mut i: usize = 0;
    proof {
        lemma_append_empty(start);
    }
    while i < parts.len()
        invariant
            i <= parts.len(),
            xml_out.document() == start + parts_text(parts@.take(i as int)),
            xml_out.open_elements() == old(xml_out).open_elements(),
        decreases parts.len() - i,
    {
        proof {
            let next = parts@.take(i + 1);
            assert(next.drop_last() == parts@.take(i as int));
            assert(next.last() == parts@[i as int]);
            lemma_append2(start, parts_text(parts@.take(i as int)), part_text(&parts@[i as int]));
        }
        write_part(&parts[i], xml_out)?;
        i += 1;
    }
    assert(parts@.take(parts@.len() as int) == parts@);
    Ok(())
}

/// Writes the conditional formats of a format, where it has any.
fn write_format_maps(maps: &Option<Vec<StyleMap>>, xml_out: &mut XmlWriter) -> (r: Result<
    (),
    OdsError,
>)
    ensures
        r is Ok,
        final(xml_out).document() == old(xml_out).document() + opt_format_maps_text(*maps),
        final(xml_out).open_elements() == old(xml_out).open_elements(),
{
    let ghost start = xml_out.document();
    proof {
        lemma_append_empty(start);
    }
    if let Some(list) = maps {
        let mut i: usize = 0;
        while i < list.len()
            invariant
                i <= list.len(),
                xml_out.document() == start + format_maps_text(list@.take(i as int)),
                xml_out.open_elements() == old(xml_out).open_elements(),
            decreases list.len() - i,
        {
            let ghost before = xml_out.document();
            proof {
                let next = list@.take(i + 1);
                assert(next.drop_last() == list@.take(i as int));
                assert(next.last() == list@[i as int]);
                lemma_append2(
                    start,
                    format_maps_text(list@.take(i as int)),
                    format_map_text(list@[i as int]),
                );
                reveal_strlit("style:condition");
                reveal_strlit("style:apply-style-name");
                lemma_escaped_ident_plain("style:condition"@);
                lemma_escaped_ident_plain("style:apply-style-name"@);
                lemma_append4(
                    before,
                    open_tag_text("style:map"@),
                    attr_text("style:condition"@, escaped(list@[i as int].condition@, false)),
                    attr_text(
                        "style:apply-style-name"@,
                        escaped(list@[i as int].applied_style@, false),
                    ),
                    seq!['/', '>'],
                );
            }
            xml_out.empty("style:map")?;
            xml_out.attr_esc("style:condition", list[i].condition.as_str())?;
            xml_out.attr_esc("style:apply-style-name", list[i].applied_style.as_str())?;
            i += 1;
        }
        assert(list@.take(list@.len() as int) == list@);
    }
    Ok(())
}

/// Writes a value format.
fn write_format(f: &ValueFormat, xml_out: &mut XmlWriter) -> (r: Result<(), OdsError>)
    requires
        f.value_type != ValueType::Empty,
    ensures
        r is Ok,
        final(xml_out).document() == old(xml_out).document() + format_text(f),
        final(xml_out).open_elements() == old(xml_out).open_elements(),
{
    let ghost start = xml_out.document();
    let ghost stack = xml_out.open_elements();
    let tag = match format_tag_of(f.value_type) {
        Some(t) => t,
        None => "number:number-style",
    };
    xml_out.elem(tag)?;
    proof {
        reveal(format_text);
        reveal_strlit("style:name");
        lemma_escaped_ident_plain("style:name"@);
    }
    xml_out.attr_esc("style:name", f.name.as_str())?;
    write_attrs(&f.attr, xml_out)?;
    proof {
        lemma_append4(
            start,
            open_tag_text(tag@),
            attr_text("style:name"@, escaped(f.name@, false)),
            attrs_text(f.attr@),
            seq!['>'],
        );
        lemma_append5(
            start,
            format_open_text(f),
            props_text("style:text-properties"@, f.textstyle@),
            parts_text(f.parts@),
            opt_format_maps_text(f.stylemaps),
            end_tag_text(tag@),
        );
        assert(stack.push(tag@).drop_last() == stack);
    }
    write_props("style:text-properties", &f.textstyle, xml_out)?;
    write_parts(&f.parts, xml_out)?;
    write_format_maps(&f.stylemaps, xml_out)?;
    xml_out.end_elem(tag)?;
    Ok(())
}

/// Writes those of the formats that are for values of the given kind.
fn write_kind_formats(
    formats: &Vec<ValueFormat>,
    kind: ValueType,
    origin: StyleOrigin,
    styleuse: StyleUse,
    xml_out: &mut XmlWriter,
) -> (r: Result<(), OdsError>)
    requires
        formats_typed(formats@),
    ensures
        r is Ok,
        final(xml_out).document() == old(xml_out).document() + kind_formats_text(
            formats@,
            kind,
            origin,
            styleuse,
        ),
        final(xml_out).open_elements() == old(xml_out).open_elements(),
{
    let ghost start = xml_out.document();
    let mut i: usize = 0;
    proof {
        lemma_append_empty(start);
    }
    while i < formats.len()
        invariant
            i <= formats.len(),
            formats_typed(formats@),
            xml_out.document() == start + kind_formats_text(
                formats@.take(i as int),
                kind,
                origin,
                styleuse,
            ),
            xml_out.open_elements() == old(xml_out).open_elements(),
        decreases formats.len() - i,
    {
        proof {
            let next = formats@.take(i + 1);
            assert(next.drop_last() == formats@.take(i as int));
            assert(next.last() == formats@[i as int]);
            lemma_append2(
                start,
                kind_formats_text(formats@.take(i as int), kind, origin, styleuse),
                format_text(&formats@[i as int]),
            );
            lemma_append_empty(xml_out.document());
            lemma_append_empty(
                kind_formats_text(formats@.take(i as int), kind, origin, styleuse),
            );
        }
        let f = &formats[i];
        let fits = f.value_type == kind || (kind == ValueType::Text && f.value_type
            == ValueType::TextXml);
        if fits && f.origin == origin && f.styleuse == styleuse {
            write_format(f, xml_out)?;
        }
        i += 1;
    }
    assert(formats@.take(formats@.len() as int) == formats@);
    Ok(())
}

/// Writes the formats that stand in the given document and are used in the
/// given way, kind by kind.
pub fn write_valuestyles(
    formats: &Vec<ValueFormat>,
    origin: StyleOrigin,
    styleuse: StyleUse,
    xml_out: &mut XmlWriter,
) -> (r: Result<(), OdsError>)
    requires
        formats_typed(formats@),
    ensures
        r is Ok,
        final(xml_out).document() == old(xml_out).document() + formats_text(
            formats@,
            origin,
            styleuse,
        ),
        final(xml_out).open_elements() == old(xml_out).open_elements(),
{
    let ghost start = xml_out.document();
    write_kind_formats(formats, ValueType::Boolean, origin, styleuse, xml_out)?;
    write_kind_formats(formats, ValueType::Currency, origin, styleuse, xml_out)?;
    write_kind_formats(formats, ValueType::DateTime, origin, styleuse, xml_out)?;
    write_kind_formats(formats, ValueType::Number, origin, styleuse, xml_out)?;
    proof {
        lemma_append4(
            start,
            kind_formats_text(formats@, ValueType::Boolean, origin, styleuse),
            kind_formats_text(formats@, ValueType::Currency, origin, styleuse),
            kind_formats_text(formats@, ValueType::DateTime, origin, styleuse),
            kind_formats_text(formats@, ValueType::Number, origin, styleuse),
        );
    }
    write_kind_formats(formats, ValueType::Percentage, origin, styleuse, xml_out)?;
    write_kind_formats(formats, ValueType::Text, origin, styleuse, xml_out)?;
    write_kind_formats(formats, ValueType::TimeDuration, origin, styleuse, xml_out)?;
    proof {
        lemma_append4(
            start,
            kind_formats_text(formats@, ValueType::Boolean, origin, styleuse)
                + kind_formats_text(formats@, ValueType::Currency, origin, styleuse)
                + kind_formats_text(formats@, ValueType::DateTime, origin, styleuse)
                + kind_formats_text(formats@, ValueType::Number, origin, styleuse),
            kind_formats_text(formats@, ValueType::Percentage, origin, styleuse),
            kind_formats_text(formats@, ValueType::Text, origin, styleuse),
            kind_formats_text(formats@, ValueType::TimeDuration, origin, styleuse),
        );
    }
    Ok(())
}

/// Finds out whether each of the formats is for a kind of value that has
/// content.
pub fn check_formats(formats: &Vec<ValueFormat>) -> (b: bool)
    ensures
        b == formats_typed(formats@),
{
    let mut i: usize = 0;
    while i < formats.len()
        invariant
            i <= formats.len(),
            forall|j: int| 0 <= j < i ==> (#[trigger] formats@[j]).value_type != ValueType::Empty,
        decreases formats.len() - i,
    {
        if formats[i].value_type == ValueType::Empty {
            return false;
        }
        i += 1;
    }
    true
}

} // verus!
