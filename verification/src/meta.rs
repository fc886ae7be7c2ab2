//! The metadata of a document and the metadata document.

use crate::error::OdsError;
use crate::escape::{escaped, lemma_escaped_ident_plain};
use crate::text::{
    decimal, decimal_string, lemma_append2, lemma_append3, lemma_append4, lemma_append5,
    lemma_append_empty,
};
use crate::value::{datetime_text, duration_text, format_datetime, format_duration2, Timestamp};
use crate::xmlwriter::{
    attr_text, dtd_text, elem_text_text, end_tag_text, open_tag_text, Open, XmlWriter,
};
use vstd::prelude::*;

verus! {

/// When a linked resource is loaded.
#[derive(Clone, Copy, Debug, PartialEq, Eq, Structural)]
pub enum XLinkActuate {
    OnLoad,
    OnRequest,
}

/// How a linked resource is shown.
#[derive(Clone, Copy, Debug, PartialEq, Eq, Structural)]
pub enum XLinkShow {
    New,
    Replace,
}

/// The kind of a link.
#[derive(Clone, Copy, Debug, PartialEq, Eq, Structural)]
pub enum XLinkType {
    Simple,
    Extended,
    Locator,
    Arc,
    Resource,
    Title,
}

/// The text of an actuation.
pub open spec fn actuate_text(a: XLinkActuate) -> Seq<char> {
    match a {
        XLinkActuate::OnLoad => "onLoad"@,
        XLinkActuate::OnRequest => "onRequest"@,
    }
}

/// The text of a way of showing.
pub open spec fn show_text(s: XLinkShow) -> Seq<char> {
    match s {
        XLinkShow::New => "new"@,
        XLinkShow::Replace => "replace"@,
    }
}

/// The text of a kind of link.
pub open spec fn link_type_text(t: XLinkType) -> Seq<char> {
    match t {
        XLinkType::Simple => "simple"@,
        XLinkType::Extended => "extended"@,
        XLinkType::Locator => "locator"@,
        XLinkType::Arc => "arc"@,
        XLinkType::Resource => "resource"@,
        XLinkType::Title => "title"@,
    }
}

impl XLinkActuate {
    /// The text of this actuation.
    pub fn as_str(&self) -> (s: &'static str)
        ensures
            s@ == actuate_text(*self),
    {
        match self {
            XLinkActuate::OnLoad => "onLoad",
            XLinkActuate::OnRequest => "onRequest",
        }
    }
}

impl XLinkShow {
    /// The text of this way of showing.
    pub fn as_str(&self) -> (s: &'static str)
        ensures
            s@ == show_text(*self),
    {
        match self {
            XLinkShow::New => "new",
            XLinkShow::Replace => "replace",
        }
    }
}

impl XLinkType {
    /// The text of this kind of link.
    pub fn as_str(&self) -> (s: &'static str)
        ensures
            s@ == link_type_text(*self),
    {
        match self {
            XLinkType::Simple => "simple",
            XLinkType::Extended => "extended",
            XLinkType::Locator => "locator",
            XLinkType::Arc => "arc",
            XLinkType::Resource => "resource",
            XLinkType::Title => "title",
        }
    }
}

/// The template that a document was made from.
#[derive(Debug, PartialEq, Eq)]
pub struct MetaTemplate {
    pub date: Option<Timestamp>,
    pub actuate: Option<XLinkActuate>,
    pub href: Option<String>,
    pub title: Option<String>,
    pub link_type: Option<XLinkType>,
}

/// Whether and how a document is loaded anew.
#[derive(Debug, PartialEq, Eq)]
pub struct MetaAutoReload {
    /// After how many milliseconds.
    pub delay: Option<i64>,
    pub actuate: Option<XLinkActuate>,
    pub href: Option<String>,
    pub show: Option<XLinkShow>,
    pub link_type: Option<XLinkType>,
}

/// How the links of a document behave.
#[derive(Debug, PartialEq, Eq)]
pub struct MetaHyperlinkBehaviour {
    pub target_frame_name: Option<String>,
    pub show: Option<XLinkShow>,
}

/// What a document holds, in numbers.
#[derive(Clone, Copy, Debug, PartialEq, Eq, Structural)]
pub struct MetaDocumentStatistics {
    pub table_count: u32,
    pub cell_count: u32,
    pub object_count: u32,
    pub ole_object_count: u32,
}

/// The metadata of a document.
#[derive(Debug, PartialEq, Eq)]
pub struct Metadata {
    pub generator: String,
    pub title: String,
    pub description: String,
    pub subject: String,
    pub language: String,
    pub keyword: String,
    pub initial_creator: String,
    pub creator: String,
    pub editing_cycles: u32,
    /// For how many milliseconds the document was worked on.
    pub editing_duration: i64,
    pub printed_by: String,
    pub creation_date: Option<Timestamp>,
    pub date: Option<Timestamp>,
    pub print_date: Option<Timestamp>,
    pub template: MetaTemplate,
    pub auto_reload: MetaAutoReload,
    pub hyperlink_behaviour: MetaHyperlinkBehaviour,
    pub document_statistics: MetaDocumentStatistics,
}

impl MetaTemplate {
    /// Whether nothing is known of the template.
    pub open spec fn spec_is_empty(&self) -> bool {
        self.date is None && self.actuate is None && self.href is None && self.title is None
            && self.link_type is None
    }

    /// Whether nothing is known of the template.
    #[verifier::when_used_as_spec(spec_is_empty)]
    pub fn is_empty(&self) -> (b: bool)
        ensures
            b == self.spec_is_empty(),
    {
        self.date.is_none() && self.actuate.is_none() && self.href.is_none()
            && self.title.is_none() && self.link_type.is_none()
    }
}

impl MetaAutoReload {
    /// Whether nothing is said of loading anew.
    pub open spec fn spec_is_empty(&self) -> bool {
        self.delay is None && self.actuate is None && self.href is None && self.show is None
            && self.link_type is None
    }

    /// Whether nothing is said of loading anew.
    #[verifier::when_used_as_spec(spec_is_empty)]
    pub fn is_empty(&self) -> (b: bool)
        ensures
            b == self.spec_is_empty(),
    {
        self.delay.is_none() && self.actuate.is_none() && self.href.is_none()
            && self.show.is_none() && self.link_type.is_none()
    }
}

impl MetaHyperlinkBehaviour {
    /// Whether nothing is said of the links.
    pub open spec fn spec_is_empty(&self) -> bool {
        self.target_frame_name is None && self.show is None
    }

    /// Whether nothing is said of the links.
    #[verifier::when_used_as_spec(spec_is_empty)]
    pub fn is_empty(&self) -> (b: bool)
        ensures
            b == self.spec_is_empty(),
    {
        self.target_frame_name.is_none() && self.show.is_none()
    }
}

impl Metadata {
    /// Metadata that says nothing.
    pub fn new() -> (m: Metadata)
        ensures
            m.generator@.len() == 0,
            m.title@.len() == 0,
            m.description@.len() == 0,
            m.subject@.len() == 0,
            m.language@.len() == 0,
            m.keyword@.len() == 0,
            m.initial_creator@.len() == 0,
            m.creator@.len() == 0,
            m.editing_cycles == 0,
            m.editing_duration == 0,
            m.printed_by@.len() == 0,
            m.creation_date is None,
            m.date is None,
            m.print_date is None,
            m.template.spec_is_empty(),
            m.auto_reload.spec_is_empty(),
            m.hyperlink_behaviour.spec_is_empty(),
            m.document_statistics == (MetaDocumentStatistics {
                table_count: 0,
                cell_count: 0,
                object_count: 0,
                ole_object_count: 0,
            }),
    {
        Metadata {
            generator: String::new(),
            title: String::new(),
            description: String::new(),
            subject: String::new(),
            language: String::new(),
            keyword: String::new(),
            initial_creator: String::new(),
            creator: String::new(),
            editing_cycles: 0,
            editing_duration: 0,
            printed_by: String::new(),
            creation_date: None,
            date: None,
            print_date: None,
            template: MetaTemplate {
                date: None,
                actuate: None,
                href: None,
                title: None,
                link_type: None,
            },
            auto_reload: MetaAutoReload {
                delay: None,
                actuate: None,
                href: None,
                show: None,
                link_type: None,
            },
            hyperlink_behaviour: MetaHyperlinkBehaviour { target_frame_name: None, show: None },
            document_statistics: MetaDocumentStatistics {
                table_count: 0,
                cell_count: 0,
                object_count: 0,
                ole_object_count: 0,
            },
        }
    }

    /// Whether every date of the metadata has a text.
    pub open spec fn writable(&self) -> bool {
        &&& date_ok(self.creation_date)
        &&& date_ok(self.date)
        &&& date_ok(self.print_date)
        &&& date_ok(self.template.date)
    }

    /// The first date of the metadata that has no text.
    pub open spec fn first_bad_date(&self) -> Timestamp {
        if !date_ok(self.creation_date) {
            self.creation_date->0
        } else if !date_ok(self.date) {
            self.date->0
        } else if !date_ok(self.print_date) {
            self.print_date->0
        } else {
            self.template.date->0
        }
    }
}

/// Whether a date, where it is given, has a text.
pub open spec fn date_ok(date: Option<Timestamp>) -> bool {
    date matches Some(t) ==> datetime_text(t.secs, t.nanos) is Some
}

/// An element with escaped text, unless the text is empty.
pub open spec fn opt_elem_text(name: Seq<char>, text: Seq<char>) -> Seq<char> {
    if text.len() == 0 {
        Seq::empty()
    } else {
        elem_text_text(name, escaped(text, false))
    }
}

/// An element with the text of a date, where the date is given.
pub open spec fn opt_date_text(name: Seq<char>, date: Option<Timestamp>) -> Seq<char> {
    match date {
        Some(t) => elem_text_text(name, datetime_text(t.secs, t.nanos)->0),
        None => Seq::empty(),
    }
}

/// An attribute with the given text, where there is one.
pub open spec fn opt_plain_attr(name: Seq<char>, value: Option<Seq<char>>) -> Seq<char> {
    match value {
        Some(v) => attr_text(name, v),
        None => Seq::empty(),
    }
}

/// An attribute with an escaped value, where the value is given.
pub open spec fn opt_esc_attr(name: Seq<char>, value: Option<String>) -> Seq<char> {
    match value {
        Some(v) => attr_text(name, escaped(v@, false)),
        None => Seq::empty(),
    }
}

/// The first elements of the metadata: generator, title, description, which
/// is written twice, and subject.
#[verifier::opaque]
pub open spec fn meta_texts_a(m: &Metadata) -> Seq<char> {
    elem_text_text("meta:generator"@, m.generator@) + opt_elem_text("dc:title"@, m.title@)
        + opt_elem_text("dc:description"@, m.description@) + opt_elem_text(
        "dc:description"@,
        m.description@,
    ) + opt_elem_text("dc:subject"@, m.subject@)
}

/// Language, keyword, the two creators and the editing cycles.
#[verifier::opaque]
pub open spec fn meta_texts_b(m: &Metadata) -> Seq<char> {
    opt_elem_text("dc:language"@, m.language@) + opt_elem_text("meta:keyword"@, m.keyword@)
        + opt_elem_text("meta:initial-creator"@, m.initial_creator@) + opt_elem_text(
        "meta:creator"@,
        m.creator@,
    ) + (if m.editing_cycles > 0 {
        elem_text_text("meta:editing-cycles"@, decimal(m.editing_cycles as nat))
    } else {
        Seq::empty()
    })
}

/// The editing duration, where it is a second or more, who printed, and the
/// three dates.
#[verifier::opaque]
pub open spec fn meta_texts_c(m: &Metadata) -> Seq<char> {
    (if m.editing_duration >= 1000 {
        elem_text_text("meta:editing-duration"@, duration_text(m.editing_duration as int))
    } else {
        Seq::empty()
    }) + opt_elem_text("meta:printed-by"@, m.printed_by@) + opt_date_text(
        "meta:creation-date"@,
        m.creation_date,
    ) + opt_date_text("meta:date"@, m.date) + opt_date_text("meta:print_date"@, m.print_date)
}

/// The template, where anything is known of it.
#[verifier::opaque]
pub open spec fn meta_template_text(t: &MetaTemplate) -> Seq<char> {
    if t.spec_is_empty() {
        Seq::empty()
    } else {
        open_tag_text("meta:template"@) + (opt_plain_attr(
            "meta:date"@,
            match t.date {
                Some(d) => Some(datetime_text(d.secs, d.nanos)->0),
                None => None,
            },
        ) + opt_plain_attr(
            "xlink:actuate"@,
            match t.actuate {
                Some(a) => Some(actuate_text(a)),
                None => None,
            },
        ) + opt_esc_attr("xlink:href"@, t.href) + opt_esc_attr("xlink:title"@, t.title)
            + opt_plain_attr(
            "xlink:type"@,
            match t.link_type {
                Some(l) => Some(link_type_text(l)),
                None => None,
            },
        )) + seq!['/', '>']
    }
}

/// Loading anew, where anything is said of it.
#[verifier::opaque]
pub open spec fn meta_reload_text(r: &MetaAutoReload) -> Seq<char> {
    if r.spec_is_empty() {
        Seq::empty()
    } else {
        open_tag_text("meta:auto_reload"@) + (opt_plain_attr(
            "meta:delay"@,
            match r.delay {
                Some(d) => Some(duration_text(d as int)),
                None => None,
            },
        ) + opt_plain_attr(
            "xlink:actuate"@,
            match r.actuate {
                Some(a) => Some(actuate_text(a)),
                None => None,
            },
        ) + opt_esc_attr("xlink:href"@, r.href) + opt_plain_attr(
            "xlink:show"@,
            match r.show {
                Some(s) => Some(show_text(s)),
                None => None,
            },
        ) + opt_plain_attr(
            "xlink:type"@,
            match r.link_type {
                Some(l) => Some(link_type_text(l)),
                None => None,
            },
        )) + seq!['/', '>']
    }
}

/// The behaviour of links, where anything is said of it.
#[verifier::opaque]
pub open spec fn meta_links_text(h: &MetaHyperlinkBehaviour) -> Seq<char> {
    if h.spec_is_empty() {
        Seq::empty()
    } else {
        open_tag_text("meta:hyperlink-behaviour"@) + (opt_esc_attr(
            "office:target-frame-name"@,
            h.target_frame_name,
        ) + opt_plain_attr(
            "xlink:show"@,
            match h.show {
                Some(s) => Some(show_text(s)),
                None => None,
            },
        )) + seq!['/', '>']
    }
}

/// The statistics of the document.
#[verifier::opaque]
pub open spec fn meta_statistics_text(s: MetaDocumentStatistics) -> Seq<char> {
    open_tag_text("meta:document-statistics"@) + (attr_text(
        "meta:table-count"@,
        decimal(s.table_count as nat),
    ) + attr_text("meta:cell-count"@, decimal(s.cell_count as nat)) + attr_text(
        "meta:object-count"@,
        decimal(s.object_count as nat),
    ) + attr_text("meta:ole-object-count"@, decimal(s.ole_object_count as nat))) + seq![
        '/',
        '>',
    ]
}

/// The start of the metadata document.
#[verifier::opaque]
pub open spec fn meta_head_text(version: Seq<char>) -> Seq<char> {
    dtd_text("UTF-8"@) + (open_tag_text("office:document-meta"@) + attr_text(
        "xmlns:meta"@,
        "urn:oasis:names:tc:opendocument:xmlns:meta:1.0"@,
    ) + attr_text("xmlns:office"@, "urn:oasis:names:tc:opendocument:xmlns:office:1.0"@)
        + attr_text("office:version"@, escaped(version, false)) + seq!['>']) + (open_tag_text(
        "office:meta"@,
    ) + seq!['>'])
}

/// The metadata document.
pub open spec fn metadata_text(version: Seq<char>, m: &Metadata) -> Seq<char> {
    meta_head_text(version) + (meta_texts_a(m) + meta_texts_b(m) + meta_texts_c(m)) + (
    meta_template_text(&m.template) + meta_reload_text(&m.auto_reload) + meta_links_text(
        &m.hyperlink_behaviour,
    ) + meta_statistics_text(m.document_statistics)) + (end_tag_text("office:meta"@)
        + end_tag_text("office:document-meta"@))
}

/// Writes an element with escaped text, unless the text is empty.
fn opt_elem(xml_out: &mut XmlWriter, name: &str, text: &str) -> (r: Result<(), OdsError>)
    ensures
        r is Ok,
        final(xml_out).document() == old(xml_out).document() + opt_elem_text(name@, text@),
        final(xml_out).open_elements() == old(xml_out).open_elements(),
{
    proof {
        lemma_append_empty(xml_out.document());
    }
    if !text.is_empty() {
        xml_out.elem_text_esc(name, text)?;
    }
    Ok(())
}

/// The text of a date that has one.
fn date_string(t: &Timestamp) -> (r: Result<String, OdsError>)
    ensures
        r is Ok <==> datetime_text(t.secs, t.nanos) is Some,
        r matches Ok(s) ==> datetime_text(t.secs, t.nanos) == Some(s@),
        r matches Err(e) ==> e == (OdsError::Date { at: None, secs: t.secs, nanos: t.nanos }),
{
    match format_datetime(t.secs, t.nanos) {
        Some(s) => Ok(s),
        None => Err(OdsError::Date { at: None, secs: t.secs, nanos: t.nanos }),
    }
}

/// Writes an element with the text of a date, where the date is given.
fn opt_date_elem(xml_out: &mut XmlWriter, name: &str, date: &Option<Timestamp>) -> (r: Result<
    (),
    OdsError,
>)
    requires
        date_ok(*date),
    ensures
        r is Ok,
        final(xml_out).document() == old(xml_out).document() + opt_date_text(name@, *date),
        final(xml_out).open_elements() == old(xml_out).open_elements(),
{
    proof {
        lemma_append_empty(xml_out.document());
    }
    if let Some(t) = date {
        let text = date_string(t)?;
        xml_out.elem_text(name, text.as_str())?;
    }
    Ok(())
}

/// Writes an attribute as it is, where there is a value.
fn opt_attr_plain(xml_out: &mut XmlWriter, name: &str, value: Option<&str>) -> (r: Result<
    (),
    OdsError,
>)
    requires
        old(xml_out).open_state() != Open::Nothing,
    ensures
        r is Ok,
        final(xml_out).written() == old(xml_out).written() + opt_plain_attr(
            name@,
            match value {
                Some(v) => Some(v@),
                None => None,
            },
        ),
        final(xml_out).open_state() == old(xml_out).open_state(),
        final(xml_out).open_elements() == old(xml_out).open_elements(),
{
    proof {
        lemma_append_empty(xml_out.written());
    }
    if let Some(v) = value {
        xml_out.attr(name, v)?;
    }
    Ok(())
}

/// Writes an attribute with an escaped value, where the value is given.
fn opt_attr_esc(xml_out: &mut XmlWriter, name: &str, value: &Option<String>) -> (r: Result<
    (),
    OdsError,
>)
    requires
        old(xml_out).open_state() != Open::Nothing,
        forall|i: int|
            0 <= i < name@.len() ==> !crate::escape::is_markup(#[trigger] name@[i]) && name@[i]
                != '\\',
    ensures
        r is Ok,
        final(xml_out).written() == old(xml_out).written() + opt_esc_attr(name@, *value),
        final(xml_out).open_state() == old(xml_out).open_state(),
        final(xml_out).open_elements() == old(xml_out).open_elements(),
{
    proof {
        lemma_append_empty(xml_out.written());
        lemma_escaped_ident_plain(name@);
    }
    if let Some(v) = value {
        xml_out.attr_esc(name, v.as_str())?;
    }
    Ok(())
}

fn write_texts_a(m: &Metadata, xml_out: &mut XmlWriter) -> (r: Result<(), OdsError>)
    ensures
        r is Ok,
        final(xml_out).document() == old(xml_out).document() + meta_texts_a(m),
        final(xml_out).open_elements() == old(xml_out).open_elements(),
{
    proof {
        reveal(meta_texts_a);
        lemma_append5(
            xml_out.document(),
            elem_text_text("meta:generator"@, m.generator@),
            opt_elem_text("dc:title"@, m.title@),
            opt_elem_text("dc:description"@, m.description@),
            opt_elem_text("dc:description"@, m.description@),
            opt_elem_text("dc:subject"@, m.subject@),
        );
    }
    xml_out.elem_text("meta:generator", m.generator.as_str())?;
    opt_elem(xml_out, "dc:title", m.title.as_str())?;
    opt_elem(xml_out, "dc:description", m.description.as_str())?;
    opt_elem(xml_out, "dc:description", m.description.as_str())?;
    opt_elem(xml_out, "dc:subject", m.subject.as_str())?;
    Ok(())
}

fn write_texts_b(m: &Metadata, xml_out: &mut XmlWriter) -> (r: Result<(), OdsError>)
    ensures
        r is Ok,
        final(xml_out).document() == old(xml_out).document() + meta_texts_b(m),
        final(xml_out).open_elements() == old(xml_out).open_elements(),
{
    let ghost cycles = if m.editing_cycles > 0 {
        elem_text_text("meta:editing-cycles"@, decimal(m.editing_cycles as nat))
    } else {
        Seq::empty()
    };
    proof {
        reveal(meta_texts_b);
        lemma_append5(
            xml_out.document(),
            opt_elem_text("dc:language"@, m.language@),
            opt_elem_text("meta:keyword"@, m.keyword@),
            opt_elem_text("meta:initial-creator"@, m.initial_creator@),
            opt_elem_text("meta:creator"@, m.creator@),
            cycles,
        );
    }
    opt_elem(xml_out, "dc:language", m.language.as_str())?;
    opt_elem(xml_out, "meta:keyword", m.keyword.as_str())?;
    opt_elem(xml_out, "meta:initial-creator", m.initial_creator.as_str())?;
    opt_elem(xml_out, "meta:creator", m.creator.as_str())?;
    proof {
        lemma_append_empty(xml_out.document());
    }
    if m.editing_cycles > 0 {
        let text = decimal_string(m.editing_cycles as u64);
        xml_out.elem_text("meta:editing-cycles", text.as_str())?;
    }
    Ok(())
}

fn write_texts_c(m: &Metadata, xml_out: &mut XmlWriter) -> (r: Result<(), OdsError>)
    requires
        m.writable(),
    ensures
        r is Ok,
        final(xml_out).document() == old(xml_out).document() + meta_texts_c(m),
        final(xml_out).open_elements() == old(xml_out).open_elements(),
{
    let ghost worked = if m.editing_duration >= 1000 {
        elem_text_text("meta:editing-duration"@, duration_text(m.editing_duration as int))
    } else {
        Seq::empty()
    };
    proof {
        reveal(meta_texts_c);
        lemma_append5(
            xml_out.document(),
            worked,
            opt_elem_text("meta:printed-by"@, m.printed_by@),
            opt_date_text("meta:creation-date"@, m.creation_date),
            opt_date_text("meta:date"@, m.date),
            opt_date_text("meta:print_date"@, m.print_date),
        );
        lemma_append_empty(xml_out.document());
    }
    if m.editing_duration >= 1000 {
        let text = format_duration2(m.editing_duration);
        xml_out.elem_text("meta:editing-duration", text.as_str())?;
    }
    opt_elem(xml_out, "meta:printed-by", m.printed_by.as_str())?;
    opt_date_elem(xml_out, "meta:creation-date", &m.creation_date)?;
    opt_date_elem(xml_out, "meta:date", &m.date)?;
    opt_date_elem(xml_out, "meta:print_date", &m.print_date)?;
    Ok(())
}

fn write_template(t: &MetaTemplate, xml_out: &mut XmlWriter) -> (r: Result<(), OdsError>)
    requires
        date_ok(t.date),
    ensures
        r is Ok,
        final(xml_out).document() == old(xml_out).document() + meta_template_text(t),
        final(xml_out).open_elements() == old(xml_out).open_elements(),
{
    let ghost start = xml_out.document();
    proof {
        reveal(meta_template_text);
        lemma_append_empty(start);
    }
    if !t.is_empty() {
        xml_out.empty("meta:template")?;
        let ghost tag = xml_out.written();
        let date = match &t.date {
            Some(d) => Some(date_string(d)?),
            None => None,
        };
        let ghost a = opt_plain_attr(
            "meta:date"@,
            match t.date {
                Some(d) => Some(datetime_text(d.secs, d.nanos)->0),
                None => None,
            },
        );
        let ghost b = opt_plain_attr(
            "xlink:actuate"@,
            match t.actuate {
                Some(a) => Some(actuate_text(a)),
                None => None,
            },
        );
        let ghost e = opt_plain_attr(
            "xlink:type"@,
            match t.link_type {
                Some(l) => Some(link_type_text(l)),
                None => None,
            },
        );
        proof {
            reveal_strlit("xlink:href");
            reveal_strlit("xlink:title");
            lemma_append5(
                tag,
                a,
                b,
                opt_esc_attr("xlink:href"@, t.href),
                opt_esc_attr("xlink:title"@, t.title),
                e,
            );
            lemma_append3(
                start,
                open_tag_text("meta:template"@),
                a + b + opt_esc_attr("xlink:href"@, t.href) + opt_esc_attr(
                    "xlink:title"@,
                    t.title,
                ) + e,
                seq!['/', '>'],
            );
        }
        opt_attr_plain(
            xml_out,
            "meta:date",
            match &date {
                Some(s) => Some(s.as_str()),
                None => None,
            },
        )?;
        opt_attr_plain(
            xml_out,
            "xlink:actuate",
            match &t.actuate {
                Some(a) => Some(a.as_str()),
                None => None,
            },
        )?;
        opt_attr_esc(xml_out, "xlink:href", &t.href)?;
        opt_attr_esc(xml_out, "xlink:title", &t.title)?;
        opt_attr_plain(
            xml_out,
            "xlink:type",
            match &t.link_type {
                Some(l) => Some(l.as_str()),
                None => None,
            },
        )?;
    }
    Ok(())
}

fn write_reload(a: &MetaAutoReload, xml_out: &mut XmlWriter) -> (r: Result<(), OdsError>)
    ensures
        r is Ok,
        final(xml_out).document() == old(xml_out).document() + meta_reload_text(a),
        final(xml_out).open_elements() == old(xml_out).open_elements(),
{
    let ghost start = xml_out.document();
    proof {
        reveal(meta_reload_text);
        lemma_append_empty(start);
    }
    if !a.is_empty() {
        xml_out.empty("meta:auto_reload")?;
        let ghost tag = xml_out.written();
        let delay = match a.delay {
            Some(d) => Some(format_duration2(d)),
            None => None,
        };
        let ghost p = opt_plain_attr(
            "meta:delay"@,
            match a.delay {
                Some(d) => Some(duration_text(d as int)),
                None => None,
            },
        );
        let ghost q = opt_plain_attr(
            "xlink:actuate"@,
            match a.actuate {
                Some(x) => Some(actuate_text(x)),
                None => None,
            },
        );
        let ghost s = opt_plain_attr(
            "xlink:show"@,
            match a.show {
                Some(x) => Some(show_text(x)),
                None => None,
            },
        );
        let ghost t = opt_plain_attr(
            "xlink:type"@,
            match a.link_type {
                Some(l) => Some(link_type_text(l)),
                None => None,
            },
        );
        proof {
            reveal_strlit("xlink:href");
            lemma_append5(tag, p, q, opt_esc_attr("xlink:href"@, a.href), s, t);
            lemma_append3(
                start,
                open_tag_text("meta:auto_reload"@),
                p + q + opt_esc_attr("xlink:href"@, a.href) + s + t,
                seq!['/', '>'],
            );
        }
        opt_attr_plain(
            xml_out,
            "meta:delay",
            match &delay {
                Some(s) => Some(s.as_str()),
                None => None,
            },
        )?;
        opt_attr_plain(
            xml_out,
            "xlink:actuate",
            match &a.actuate {
                Some(x) => Some(x.as_str()),
                None => None,
            },
        )?;
        opt_attr_esc(xml_out, "xlink:href", &a.href)?;
        opt_attr_plain(
            xml_out,
            "xlink:show",
            match &a.show {
                Some(x) => Some(x.as_str()),
                None => None,
            },
        )?;
        opt_attr_plain(
            xml_out,
            "xlink:type",
            match &a.link_type {
                Some(l) => Some(l.as_str()),
                None => None,
            },
        )?;
    }
    Ok(())
}

fn write_links(h: &MetaHyperlinkBehaviour, xml_out: &mut XmlWriter) -> (r: Result<(), OdsError>)
    ensures
        r is Ok,
        final(xml_out).document() == old(xml_out).document() + meta_links_text(h),
        final(xml_out).open_elements() == old(xml_out).open_elements(),
{
    let ghost start = xml_out.document();
    proof {
        reveal(meta_links_text);
        lemma_append_empty(start);
    }
    if !h.is_empty() {
        xml_out.empty("meta:hyperlink-behaviour")?;
        let ghost tag = xml_out.written();
        let ghost s = opt_plain_attr(
            "xlink:show"@,
            match h.show {
                Some(x) => Some(show_text(x)),
                None => None,
            },
        );
        proof {
            reveal_strlit("office:target-frame-name");
            lemma_append2(tag, opt_esc_attr("office:target-frame-name"@, h.target_frame_name), s);
            lemma_append3(
                start,
                open_tag_text("meta:hyperlink-behaviour"@),
                opt_esc_attr("office:target-frame-name"@, h.target_frame_name) + s,
                seq!['/', '>'],
            );
        }
        opt_attr_esc(xml_out, "office:target-frame-name", &h.target_frame_name)?;
        opt_attr_plain(
            xml_out,
            "xlink:show",
            match &h.show {
                Some(x) => Some(x.as_str()),
                None => None,
            },
        )?;
    }
    Ok(())
}

fn write_statistics(s: &MetaDocumentStatistics, xml_out: &mut XmlWriter) -> (r: Result<
    (),
    OdsError,
>)
    ensures
        r is Ok,
        final(xml_out).document() == old(xml_out).document() + meta_statistics_text(*s),
        final(xml_out).open_elements() == old(xml_out).open_elements(),
{
    let ghost start = xml_out.document();
    xml_out.empty("meta:document-statistics")?;
    proof {
        reveal(meta_statistics_text);
        lemma_append4(
            xml_out.written(),
            attr_text("meta:table-count"@, decimal(s.table_count as nat)),
            attr_text("meta:cell-count"@, decimal(s.cell_count as nat)),
            attr_text("meta:object-count"@, decimal(s.object_count as nat)),
            attr_text("meta:ole-object-count"@, decimal(s.ole_object_count as nat)),
        );
        lemma_append3(
            start,
            open_tag_text("meta:document-statistics"@),
            attr_text("meta:table-count"@, decimal(s.table_count as nat)) + attr_text(
                "meta:cell-count"@,
                decimal(s.cell_count as nat),
            ) + attr_text("meta:object-count"@, decimal(s.object_count as nat)) + attr_text(
                "meta:ole-object-count"@,
                decimal(s.ole_object_count as nat),
            ),
            seq!['/', '>'],
        );
    }
    let a = decimal_string(s.table_count as u64);
    xml_out.attr("meta:table-count", a.as_str())?;
    let b = decimal_string(s.cell_count as u64);
    xml_out.attr("meta:cell-count", b.as_str())?;
    let c = decimal_string(s.object_count as u64);
    xml_out.attr("meta:object-count", c.as_str())?;
    let d = decimal_string(s.ole_object_count as u64);
    xml_out.attr("meta:ole-object-count", d.as_str())?;
    Ok(())
}

fn write_meta_head(version: &str, xml_out: &mut XmlWriter) -> (r: Result<(), OdsError>)
    requires
        old(xml_out).open_state() == Open::Nothing,
        old(xml_out).open_elements().len() == 0,
    ensures
        r is Ok,
        final(xml_out).document() == old(xml_out).document() + meta_head_text(version@),
        final(xml_out).open_elements() == Seq::<Seq<char>>::empty().push(
            "office:document-meta"@,
        ).push("office:meta"@),
{
    let ghost start = xml_out.document();
    xml_out.dtd("UTF-8")?;
    proof {
        lemma_append_empty(xml_out.written());
    }
    assert(xml_out.document() == start + dtd_text("UTF-8"@));
    xml_out.elem("office:document-meta")?;
    let ghost tag = xml_out.written();
    xml_out.attr("xmlns:meta", "urn:oasis:names:tc:opendocument:xmlns:meta:1.0")?;
    xml_out.attr("xmlns:office", "urn:oasis:names:tc:opendocument:xmlns:office:1.0")?;
    proof {
        reveal_strlit("office:version");
        lemma_escaped_ident_plain("office:version"@);
    }
    xml_out.attr_esc("office:version", version)?;
    proof {
        let a = attr_text("xmlns:meta"@, "urn:oasis:names:tc:opendocument:xmlns:meta:1.0"@);
        let b = attr_text("xmlns:office"@, "urn:oasis:names:tc:opendocument:xmlns:office:1.0"@);
        let c = attr_text("office:version"@, escaped(version@, false));
        lemma_append5(
            start + dtd_text("UTF-8"@),
            open_tag_text("office:document-meta"@),
            a,
            b,
            c,
            seq!['>'],
        );
        reveal(meta_head_text);
        lemma_append3(
            start,
            dtd_text("UTF-8"@),
            open_tag_text("office:document-meta"@) + a + b + c + seq!['>'],
            open_tag_text("office:meta"@) + seq!['>'],
        );
    }
    xml_out.elem("office:meta")?;
    Ok(())
}

/// Finds out whether every date of the metadata has a text.
pub fn check_metadata(m: &Metadata) -> (r: Result<(), OdsError>)
    ensures
        r is Ok <==> m.writable(),
        r matches Err(e) ==> e == (OdsError::Date {
            at: None,
            secs: m.first_bad_date().secs,
            nanos: m.first_bad_date().nanos,
        }),
{
    if let Some(t) = &m.creation_date {
        let _ = date_string(t)?;
    }
    if let Some(t) = &m.date {
        let _ = date_string(t)?;
    }
    if let Some(t) = &m.print_date {
        let _ = date_string(t)?;
    }
    if let Some(t) = &m.template.date {
        let _ = date_string(t)?;
    }
    Ok(())
}

/// Writes the metadata document. Metadata with a date that has no text are
/// refused.
pub fn write_metadata(version: &str, m: &Metadata) -> (r: Result<String, OdsError>)
    ensures
        r is Ok <==> m.writable(),
        r matches Ok(text) ==> text@ == metadata_text(version@, m),
        r matches Err(e) ==> e == (OdsError::Date {
            at: None,
            secs: m.first_bad_date().secs,
            nanos: m.first_bad_date().nanos,
        }),
{
    check_metadata(m)?;
    let mut xml_out = XmlWriter::new(String::new());
    assert(xml_out.document() == Seq::<char>::empty());
    write_meta_head(version, &mut xml_out)?;
    proof {
        lemma_append_empty(meta_head_text(version@));
    }
    let ghost head = xml_out.document();
    write_texts_a(m, &mut xml_out)?;
    write_texts_b(m, &mut xml_out)?;
    write_texts_c(m, &mut xml_out)?;
    proof {
        lemma_append3(head, meta_texts_a(m), meta_texts_b(m), meta_texts_c(m));
    }
    let ghost texts = xml_out.document();
    write_template(&m.template, &mut xml_out)?;
    write_reload(&m.auto_reload, &mut xml_out)?;
    write_links(&m.hyperlink_behaviour, &mut xml_out)?;
    write_statistics(&m.document_statistics, &mut xml_out)?;
    proof {
        lemma_append4(
            texts,
            meta_template_text(&m.template),
            meta_reload_text(&m.auto_reload),
            meta_links_text(&m.hyperlink_behaviour),
            meta_statistics_text(m.document_statistics),
        );
    }
    let ghost body = xml_out.document();
    proof {
        let one = Seq::<Seq<char>>::empty().push("office:document-meta"@);
        assert(one.push("office:meta"@).drop_last() == one);
        assert(one.drop_last() == Seq::<Seq<char>>::empty());
        lemma_append2(body, end_tag_text("office:meta"@), end_tag_text("office:document-meta"@));
    }
    xml_out.end_elem("office:meta")?;
    xml_out.end_elem("office:document-meta")?;
    xml_out.close()?;
    Ok(xml_out.into_inner())
}

} // verus!
