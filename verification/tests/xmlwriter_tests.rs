use ods_grid::xmlwriter::{Stack, XmlError, XmlWriter};

fn finish(mut xml: XmlWriter) -> String {
    xml.close().unwrap();
    xml.into_inner()
}

#[test]
fn element_with_attribute_and_text() {
    let mut xml = XmlWriter::new(String::new());
    xml.elem("a").unwrap();
    xml.attr("k", "v").unwrap();
    xml.text("body").unwrap();
    xml.end_elem("a").unwrap();
    assert_eq!(finish(xml), "<a k=\"v\">body</a>");
}

#[test]
fn empty_element_is_self_closing() {
    let mut xml = XmlWriter::new(String::new());
    xml.elem("a").unwrap();
    xml.empty("b").unwrap();
    xml.attr("x", "1").unwrap();
    xml.empty("c").unwrap();
    xml.end_elem("a").unwrap();
    assert_eq!(finish(xml), "<a><b x=\"1\"/><c/></a>");
}

#[test]
fn close_finishes_a_pending_empty_element() {
    let mut xml = XmlWriter::new(String::new());
    xml.empty("only").unwrap();
    assert_eq!(finish(xml), "<only/>");
}

#[test]
fn writer_appends_to_the_sink_it_was_given() {
    let mut xml = XmlWriter::new(String::from("before:"));
    xml.elem_text("t", "x").unwrap();
    assert_eq!(finish(xml), "before:<t>x</t>");
}

#[test]
fn dtd_names_the_encoding() {
    let mut xml = XmlWriter::new(String::new());
    xml.dtd("UTF-8").unwrap();
    assert_eq!(finish(xml), "<?xml version=\"1.0\" encoding=\"UTF-8\" ?>\n");
}

#[test]
fn text_is_escaped_only_on_request() {
    let mut xml = XmlWriter::new(String::new());
    xml.elem("a").unwrap();
    xml.text("<raw>").unwrap();
    xml.text_esc("<\"&'>").unwrap();
    xml.end_elem("a").unwrap();
    assert_eq!(finish(xml), "<a><raw>&lt;&quot;&amp;&apos;&gt;</a>");
}

#[test]
fn attribute_values_are_escaped_only_on_request() {
    let mut xml = XmlWriter::new(String::new());
    xml.empty("a").unwrap();
    xml.attr("plain", "1<2").unwrap();
    xml.attr_esc("esc", "1<2 & \"x\"").unwrap();
    assert_eq!(finish(xml), "<a plain=\"1<2\" esc=\"1&lt;2 &amp; &quot;x&quot;\"/>");
}

#[test]
fn identifier_escaping_doubles_backslashes() {
    let mut xml = XmlWriter::new(String::new());
    xml.empty("a").unwrap();
    xml.attr_esc("n\\m", "v\\w").unwrap();
    assert_eq!(finish(xml), "<a n\\\\m=\"v\\w\"/>");
}

#[test]
fn element_text_variants() {
    let mut xml = XmlWriter::new(String::new());
    xml.elem("r").unwrap();
    xml.elem_text("a", "1&2").unwrap();
    xml.elem_text_esc("b", "1&2").unwrap();
    xml.opt_elem_text("c", "").unwrap();
    xml.opt_elem_text("d", "x").unwrap();
    xml.opt_elem_text_esc("e", "").unwrap();
    xml.opt_elem_text_esc("f", "<").unwrap();
    xml.end_elem("r").unwrap();
    assert_eq!(finish(xml), "<r><a>1&2</a><b>1&amp;2</b><d>x</d><f>&lt;</f></r>");
}

#[test]
fn sink_receives_text_when_a_start_tag_is_finished() {
    let mut xml = XmlWriter::new(String::new());
    xml.elem("a").unwrap();
    xml.attr("k", "v").unwrap();
    xml.elem("b").unwrap();
    // the start tag of `a` is finished and handed over, that of `b` is pending
    assert_eq!(xml.into_inner(), "<a k=\"v\">");
}

#[test]
fn attribute_without_pending_tag_is_refused() {
    let mut xml = XmlWriter::new(String::new());
    assert_eq!(
        xml.attr("k", "v"),
        Err(XmlError::AttrWithoutElement { attr: "k".to_string() })
    );
    xml.elem("a").unwrap();
    xml.text("t").unwrap();
    assert_eq!(
        xml.attr_esc("k2", "v"),
        Err(XmlError::AttrWithoutElement { attr: "k2".to_string() })
    );
    xml.end_elem("a").unwrap();
    assert_eq!(finish(xml), "<a>t</a>");
}

#[test]
fn closing_under_another_name_is_refused() {
    let mut xml = XmlWriter::new(String::new());
    xml.elem("a").unwrap();
    xml.elem("b").unwrap();
    assert_eq!(
        xml.end_elem("a"),
        Err(XmlError::CloseMismatch { open: "b".to_string(), closed: "a".to_string() })
    );
    // nothing was written by the refused call
    xml.end_elem("b").unwrap();
    xml.end_elem("a").unwrap();
    assert_eq!(finish(xml), "<a><b></b></a>");
}

#[test]
fn closing_without_open_element_is_refused() {
    let mut xml = XmlWriter::new(String::new());
    assert_eq!(
        xml.end_elem("a"),
        Err(XmlError::CloseWithoutElement { closed: "a".to_string() })
    );
}

#[test]
fn closing_the_document_with_open_elements_is_refused() {
    let mut xml = XmlWriter::new(String::new());
    xml.elem("a").unwrap();
    xml.elem("b").unwrap();
    assert_eq!(xml.close(), Err(XmlError::UnclosedElement { open: "b".to_string() }));
    xml.end_elem("b").unwrap();
    xml.end_elem("a").unwrap();
    assert_eq!(xml.close(), Ok(()));
}

#[test]
fn stack_is_last_in_first_out() {
    let mut stack = Stack::new();
    assert!(stack.is_empty());
    stack.push("a");
    stack.push("b");
    assert!(!stack.is_empty());
    assert_eq!(stack.top().map(|s| s.as_str()), Some("b"));
    assert_eq!(stack.pop(), Some("b".to_string()));
    assert_eq!(stack.pop(), Some("a".to_string()));
    assert_eq!(stack.pop(), None);
    assert!(stack.is_empty());
}

#[test]
fn same_calls_give_the_same_text() {
    let write = || {
        let mut xml = XmlWriter::new(String::new());
        xml.elem("a").unwrap();
        xml.attr_esc("k", "<v>").unwrap();
        xml.text_esc("x & y").unwrap();
        xml.end_elem("a").unwrap();
        finish(xml)
    };
    assert_eq!(write(), write());
}

fn escape(text: &str, ident: bool) -> String {
    let mut out = String::new();
    ods_grid::escape::push_escaped(&mut out, text, ident);
    out
}

fn read_back(text: &str) -> String {
    text.replace("&quot;", "\"")
        .replace("&apos;", "'")
        .replace("&lt;", "<")
        .replace("&gt;", ">")
        .replace("&amp;", "&")
}

#[test]
fn the_five_markup_characters_become_entities() {
    assert_eq!(escape("\"'&<>", false), "&quot;&apos;&amp;&lt;&gt;");
    assert_eq!(escape("a\\b", false), "a\\b");
    assert_eq!(escape("a\\b", true), "a\\\\b");
    assert_eq!(escape("", true), "");
    assert_eq!(escape("plain ä €", false), "plain ä €");
    let mut out = "kept<".to_string();
    ods_grid::escape::push_escaped(&mut out, "<", false);
    assert_eq!(out, "kept<&lt;");
}

#[test]
fn escaped_text_has_no_markup_and_reads_back() {
    for text in ["", "a", "<a href=\"x\">it's & more</a>", "&amp;", "&&&", "a&lt;b", "1 < 2 > 0", "\\"] {
        let out = escape(text, false);
        assert!(!out.contains(['<', '>', '"', '\'']));
        for (i, _) in out.match_indices('&') {
            let rest = &out[i..];
            assert!(["&quot;", "&apos;", "&amp;", "&lt;", "&gt;"].iter().any(|e| rest.starts_with(e)));
        }
        assert_eq!(read_back(&out), text);
    }
}

#[test]
fn escaping_goes_piece_by_piece() {
    for (a, b) in [("a&", "b"), ("", "<"), ("&", "amp;"), ("x\\", "\\y"), ("'", "\"")] {
        for ident in [false, true] {
            let whole = [a, b].concat();
            assert_eq!(escape(&whole, ident), [escape(a, ident), escape(b, ident)].concat());
        }
    }
}
