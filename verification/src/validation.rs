//! Rules that the content of cells is held to.

use crate::error::OdsError;
use crate::escape::{escaped, lemma_escaped_ident_plain};
use crate::text::{
    lemma_append2, lemma_append3, lemma_append4, lemma_append5, lemma_append_empty,
};
use crate::write::write_xmltag;
use crate::xmltree::{tag_text, XmlTag};
use crate::xmlwriter::{attr_text, end_tag_text, open_tag_text, XmlWriter};
use vstd::prelude::*;

verus! {

/// Whether and how the allowed values are listed.
#[derive(Clone, Copy, Debug, PartialEq, Eq, Structural)]
pub enum ValidationDisplay {
    NoDisplay,
    Unsorted,
    SortAscending,
}

/// How grave a message is.
#[derive(Clone, Copy, Debug, PartialEq, Eq, Structural)]
pub enum MessageType {
    Stop,
    Warning,
    Information,
}

/// The message for content that breaks a rule.
#[derive(Debug, PartialEq, Eq)]
pub struct ValidationError {
    pub display: bool,
    pub msg_type: MessageType,
    pub title: Option<String>,
    pub text: Option<XmlTag>,
}

/// The help for a cell that is held to a rule.
#[derive(Debug, PartialEq, Eq)]
pub struct ValidationHelp {
    pub display: bool,
    pub title: Option<String>,
    pub text: Option<XmlTag>,
}

/// A rule for the content of cells. The condition and the cell that it
/// starts from are held as the texts that the document has for them.
#[derive(Debug, PartialEq, Eq)]
pub struct Validation {
    pub name: String,
    pub condition: String,
    pub allow_empty: bool,
    pub display: ValidationDisplay,
    pub base_cell: String,
    pub err: Option<ValidationError>,
    pub help: Option<ValidationHelp>,
}

/// The text of a truth value.
pub open spec fn truth_text(b: bool) -> Seq<char> {
    if b {
        "true"@
    } else {
        "false"@
    }
}

/// The text of a truth value.
pub fn truth_str(b: bool) -> (s: &'static str)
    ensures
        s@ == truth_text(b),
{
    if b {
        "true"
    } else {
        "false"
    }
}

/// The text of a way of listing.
pub open spec fn display_text(d: ValidationDisplay) -> Seq<char> {
    match d {
        ValidationDisplay::NoDisplay => "no"@,
        ValidationDisplay::Unsorted => "unsorted"@,
        ValidationDisplay::SortAscending => "sort-ascending"@,
    }
}

/// The text of a gravity.
pub open spec fn message_type_text(t: MessageType) -> Seq<char> {
    match t {
        MessageType::Stop => "stop"@,
        MessageType::Warning => "warning"@,
        MessageType::Information => "information"@,
    }
}

impl ValidationDisplay {
    /// The text of this way of listing.
    pub fn as_str(&self) -> (s: &'static str)
        ensures
            s@ == display_text(*self),
    {
        match self {
            ValidationDisplay::NoDisplay => "no",
            ValidationDisplay::Unsorted => "unsorted",
            ValidationDisplay::SortAscending => "sort-ascending",
        }
    }
}

impl MessageType {
    /// The text of this gravity.
    pub fn as_str(&self) -> (s: &'static str)
        ensures
            s@ == message_type_text(*self),
    {
        match self {
            MessageType::Stop => "stop",
            MessageType::Warning => "warning",
            MessageType::Information => "information",
        }
    }
}

/// A message element: with the given attributes, and with its text where it
/// has one; without text it is self-closing.
pub open spec fn message_text(
    tag: Seq<char>,
    attrs: Seq<char>,
    title: Option<String>,
    text: Option<XmlTag>,
) -> Seq<char> {
    open_tag_text(tag) + attrs + (match title {
        Some(t) => attr_text("table:title"@, escaped(t@, false)),
        None => Seq::empty(),
    }) + (match text {
        Some(t) => seq!['>'] + tag_text(t) + end_tag_text(tag),
        None => seq!['/', '>'],
    })
}

/// The attributes of the message for content that breaks a rule.
pub open spec fn error_attrs_text(e: &ValidationError) -> Seq<char> {
    attr_text("table:display"@, truth_text(e.display)) + attr_text(
        "table:message-type"@,
        message_type_text(e.msg_type),
    )
}

/// The message for content that breaks a rule, where there is one.
pub open spec fn opt_error_text(e: Option<ValidationError>) -> Seq<char> {
    match e {
        Some(e) => message_text("table:error-message"@, error_attrs_text(&e), e.title, e.text),
        None => Seq::empty(),
    }
}

/// The help, where there is one.
pub open spec fn opt_help_text(h: Option<ValidationHelp>) -> Seq<char> {
    match h {
        Some(h) => message_text(
            "table:help-message"@,
            attr_text("table:display"@, truth_text(h.display)),
            h.title,
            h.text,
        ),
        None => Seq::empty(),
    }
}

/// The start tag of a rule.
#[verifier::opaque]
pub open spec fn validation_open_text(v: &Validation) -> Seq<char> {
    open_tag_text("table:content-validation"@) + (attr_text(
        "table:name"@,
        escaped(v.name@, false),
    ) + attr_text("table:condition"@, escaped(v.condition@, false)) + attr_text(
        "table:allow-empty-cell"@,
        truth_text(v.allow_empty),
    ) + attr_text("table:display-list"@, display_text(v.display)) + attr_text(
        "table:base-cell-address"@,
        escaped(v.base_cell@, false),
    )) + seq!['>']
}

/// A rule as it is written.
#[verifier::opaque]
pub open spec fn validation_text(v: &Validation) -> Seq<char> {
    validation_open_text(v) + opt_error_text(v.err) + opt_help_text(v.help) + end_tag_text(
        "table:content-validation"@,
    )
}

/// The rules, one after the other.
pub open spec fn validation_list_text(list: Seq<Validation>) -> Seq<char>
    decreases list.len(),
{
    if list.len() == 0 {
        Seq::empty()
    } else {
        validation_list_text(list.drop_last()) + validation_text(&list.last())
    }
}

/// The rules inside their element; without rules nothing is written.
pub open spec fn validations_text(list: Seq<Validation>) -> Seq<char> {
    if list.len() == 0 {
        Seq::empty()
    } else {
        (open_tag_text("table:content-validations"@) + seq!['>']) + validation_list_text(list)
            + end_tag_text("table:content-validations"@)
    }
}

/// Writes a message element.
fn write_message(
    tag: &str,
    display: bool,
    msg_type: Option<MessageType>,
    title: &Option<String>,
    text: &Option<XmlTag>,
    xml_out: &mut XmlWriter,
) -> (r: Result<(), OdsError>)
    ensures
        r is Ok,
        final(xml_out).document() == old(xml_out).document() + message_text(
            tag@,
            attr_text("table:display"@, truth_text(display)) + (match msg_type {
                Some(t) => attr_text("table:message-type"@, message_type_text(t)),
                None => Seq::empty(),
            }),
            *title,
            *text,
        ),
        final(xml_out).open_elements() == old(xml_out).open_elements(),
{
    let ghost start = xml_out.document();
    let ghost stack = xml_out.open_elements();
    let ghost a = attr_text("table:display"@, truth_text(display));
    let ghost b = match msg_type {
        Some(t) => attr_text("table:message-type"@, message_type_text(t)),
        None => Seq::empty(),
    };
    let ghost c = if title is Some {
        attr_text("table:title"@, escaped(title->0@, false))
    } else {
        Seq::empty()
    };
    if text.is_some() {
        xml_out.elem(tag)?;
    } else {
        xml_out.empty(tag)?;
    }
    let ghost opened = xml_out.written();
    xml_out.attr("table:display", truth_str(display))?;
    proof {
        lemma_append_empty(xml_out.written());
        reveal_strlit("table:title");
        lemma_escaped_ident_plain("table:title"@);
    }
    if let Some(t) = msg_type {
        xml_out.attr("table:message-type", t.as_str())?;
    }
    proof {
        lemma_append_empty(xml_out.written());
    }
    if let Some(t) = title {
        xml_out.attr_esc("table:title", t.as_str())?;
    }
    proof {
        lemma_append3(opened, a, b, c);
        lemma_append2(start, open_tag_text(tag@), a + b + c);
        assert(open_tag_text(tag@) + (a + b + c) == open_tag_text(tag@) + (a + b) + c);
    }
    let ghost attrs = xml_out.written();
    assert(attrs == start + (open_tag_text(tag@) + (a + b) + c));
    if let Some(t) = text {
        write_xmltag(t, xml_out)?;
        proof {
            assert(stack.push(tag@).drop_last() == stack);
            lemma_append3(attrs, seq!['>'], tag_text(*t), end_tag_text(tag@));
            lemma_append2(
                start,
                open_tag_text(tag@) + (a + b) + c,
                seq!['>'] + tag_text(*t) + end_tag_text(tag@),
            );
        }
        xml_out.end_elem(tag)?;
    } else {
        proof {
            lemma_append2(start, open_tag_text(tag@) + (a + b) + c, seq!['/', '>']);
        }
    }
    Ok(())
}

/// Writes the start tag of a rule.
fn write_validation_open(v: &Validation, xml_out: &mut XmlWriter) -> (r: Result<(), OdsError>)
    ensures
        r is Ok,
        final(xml_out).document() == old(xml_out).document() + validation_open_text(v),
        final(xml_out).open_elements() == old(xml_out).open_elements().push(
            "table:content-validation"@,
        ),
{
    let ghost start = xml_out.document();
    xml_out.elem("table:content-validation")?;
    let ghost opened = xml_out.written();
    proof {
        reveal(validation_open_text);
        reveal_strlit("table:name");
        reveal_strlit("table:condition");
        reveal_strlit("table:base-cell-address");
        lemma_escaped_ident_plain("table:name"@);
        lemma_escaped_ident_plain("table:condition"@);
        lemma_escaped_ident_plain("table:base-cell-address"@);
        lemma_append5(
            opened,
            attr_text("table:name"@, escaped(v.name@, false)),
            attr_text("table:condition"@, escaped(v.condition@, false)),
            attr_text("table:allow-empty-cell"@, truth_text(v.allow_empty)),
            attr_text("table:display-list"@, display_text(v.display)),
            attr_text("table:base-cell-address"@, escaped(v.base_cell@, false)),
        );
        lemma_append3(
            start,
            open_tag_text("table:content-validation"@),
            attr_text("table:name"@, escaped(v.name@, false)) + attr_text(
                "table:condition"@,
                escaped(v.condition@, false),
            ) + attr_text("table:allow-empty-cell"@, truth_text(v.allow_empty)) + attr_text(
                "table:display-list"@,
                display_text(v.display),
            ) + attr_text("table:base-cell-address"@, escaped(v.base_cell@, false)),
            seq!['>'],
        );
    }
    xml_out.attr_esc("table:name", v.name.as_str())?;
    xml_out.attr_esc("table:condition", v.condition.as_str())?;
    xml_out.attr("table:allow-empty-cell", truth_str(v.allow_empty))?;
    xml_out.attr("table:display-list", v.display.as_str())?;
    xml_out.attr_esc("table:base-cell-address", v.base_cell.as_str())?;
    Ok(())
}

/// Writes a rule.
fn write_validation(v: &Validation, xml_out: &mut XmlWriter) -> (r: Result<(), OdsError>)
    ensures
        r is Ok,
        final(xml_out).document() == old(xml_out).document() + validation_text(v),
        final(xml_out).open_elements() == old(xml_out).open_elements(),
{
    let ghost stack = xml_out.open_elements();
    proof {
        reveal(validation_text);
        lemma_append4(
            xml_out.document(),
            validation_open_text(v),
            opt_error_text(v.err),
            opt_help_text(v.help),
            end_tag_text("table:content-validation"@),
        );
        assert(stack.push("table:content-validation"@).drop_last() == stack);
    }
    write_validation_open(v, xml_out)?;
    proof {
        lemma_append_empty(xml_out.document());
    }
    if let Some(err) = &v.err {
        write_message(
            "table:error-message",
            err.display,
            Some(err.msg_type),
            &err.title,
            &err.text,
            xml_out,
        )?;
    }
    proof {
        lemma_append_empty(xml_out.document());
        lemma_append_empty(attr_text("table:display"@, truth_text(v.help->0.display)));
    }
    if let Some(help) = &v.help {
        write_message("table:help-message", help.display, None, &help.title, &help.text, xml_out)?;
    }
    xml_out.end_elem("table:content-validation")?;
    Ok(())
}

/// Writes the rules inside their element; without rules nothing is written.
pub fn write_content_validations(list: &Vec<Validation>, xml_out: &mut XmlWriter) -> (r: Result<
    (),
    OdsError,
>)
    ensures
        r is Ok,
        final(xml_out).document() == old(xml_out).document() + validations_text(list@),
        final(xml_out).open_elements() == old(xml_out).open_elements(),
{
    let ghost start = xml_out.document();
    let ghost stack = xml_out.open_elements();
    proof {
        lemma_append_empty(start);
    }
    if list.len() > 0 {
        xml_out.elem("table:content-validations")?;
        let ghost opened = xml_out.document();
        let mut i: usize = 0;
        proof {
            lemma_append_empty(opened);
        }
        while i < list.len()
            invariant
                i <= list.len(),
                xml_out.document() == opened + validation_list_text(list@.take(i as int)),
                xml_out.open_elements() == stack.push("table:content-validations"@),
            decreases list.len() - i,
        {
            proof {
                let next = list@.take(i + 1);
                assert(next.drop_last() == list@.take(i as int));
                assert(next.last() == list@[i as int]);
                lemma_append2(
                    opened,
                    validation_list_text(list@.take(i as int)),
                    validation_text(&list@[i as int]),
                );
            }
            write_validation(&list[i], xml_out)?;
            i += 1;
        }
        proof {
            assert(list@.take(list@.len() as int) == list@);
            assert(stack.push("table:content-validations"@).drop_last() == stack);
            lemma_append3(
                start,
                open_tag_text("table:content-validations"@) + seq!['>'],
                validation_list_text(list@),
                end_tag_text("table:content-validations"@),
            );
        }
        xml_out.end_elem("table:content-validations")?;
    }
    Ok(())
}

} // verus!
