use ods_grid::error::OdsError;
use ods_grid::refs::CellSpan;
use ods_grid::sheet::{CellContent, WorkBook};
use ods_grid::value::{Timestamp, Value, ValueType};
use ods_grid::write::{write_cell, write_empty_cells, write_plain_value, write_xmltag};
use ods_grid::xmltree::{XmlContent, XmlTag};
use ods_grid::xmlwriter::XmlWriter;

fn content(value: Option<Value>) -> CellContent {
    CellContent { value, formula: None, style: None, validation_name: None, span: None }
}

fn cell_text(book: &WorkBook, cell: &CellContent, hidden: bool) -> String {
    let mut xml = XmlWriter::new(String::new());
    write_cell(book, cell, hidden, &mut xml).unwrap();
    xml.close().unwrap();
    xml.into_inner()
}

#[test]
fn cell_without_value_is_self_closing() {
    let book = WorkBook::new();
    assert_eq!(cell_text(&book, &content(None), false), "<table:table-cell/>");
    assert_eq!(cell_text(&book, &content(Some(Value::Empty)), false), "<table:table-cell/>");
    assert_eq!(cell_text(&book, &content(None), true), "<table:covered-table-cell/>");
}

#[test]
fn text_cell_has_one_paragraph_for_each_line() {
    let book = WorkBook::new();
    let cell = content(Some(Value::Text("a<b\n\nlast".to_string())));
    assert_eq!(
        cell_text(&book, &cell, false),
        "<table:table-cell office:value-type=\"string\"><text:p>a&lt;b</text:p><text:p></text:p><text:p>last</text:p></table:table-cell>"
    );
}

#[test]
fn empty_text_is_one_empty_paragraph() {
    let book = WorkBook::new();
    let cell = content(Some(Value::Text(String::new())));
    assert_eq!(
        cell_text(&book, &cell, false),
        "<table:table-cell office:value-type=\"string\"><text:p></text:p></table:table-cell>"
    );
}

#[test]
fn text_ending_in_a_line_break_ends_in_an_empty_paragraph() {
    let book = WorkBook::new();
    let cell = content(Some(Value::Text("x\n".to_string())));
    assert_eq!(
        cell_text(&book, &cell, false),
        "<table:table-cell office:value-type=\"string\"><text:p>x</text:p><text:p></text:p></table:table-cell>"
    );
}

#[test]
fn escaped_text_reads_back_as_it_was() {
    let book = WorkBook::new();
    let plain = "if a < b && c > \"d\" then 'e'";
    let cell = content(Some(Value::Text(plain.to_string())));
    let out = cell_text(&book, &cell, false);
    let start = out.find("<text:p>").unwrap() + "<text:p>".len();
    let end = out.find("</text:p>").unwrap();
    let inner = &out[start..end];
    assert_eq!(
        inner,
        "if a &lt; b &amp;&amp; c &gt; &quot;d&quot; then &apos;e&apos;"
    );
    let back = inner
        .replace("&lt;", "<")
        .replace("&gt;", ">")
        .replace("&quot;", "\"")
        .replace("&apos;", "'")
        .replace("&amp;", "&");
    assert_eq!(back, plain);
}

#[test]
fn number_cell() {
    let book = WorkBook::new();
    let cell = content(Some(Value::Number("1.5".to_string())));
    assert_eq!(
        cell_text(&book, &cell, false),
        "<table:table-cell office:value-type=\"float\" office:value=\"1.5\"><text:p>1.5</text:p></table:table-cell>"
    );
}

#[test]
fn percentage_cell() {
    let book = WorkBook::new();
    let cell = content(Some(Value::Percentage("0.25".to_string())));
    assert_eq!(
        cell_text(&book, &cell, false),
        "<table:table-cell office:value-type=\"percentage\" office:value=\"0.25\"><text:p>0.25</text:p></table:table-cell>"
    );
}

#[test]
fn currency_cell() {
    let book = WorkBook::new();
    let cell = content(Some(Value::Currency("12.5".to_string(), "EUR".to_string())));
    assert_eq!(
        cell_text(&book, &cell, false),
        "<table:table-cell office:value-type=\"currency\" office:currency=\"EUR\" office:value=\"12.5\"><text:p>EUR 12.5</text:p></table:table-cell>"
    );
}

#[test]
fn boolean_cell() {
    let book = WorkBook::new();
    assert_eq!(
        cell_text(&book, &content(Some(Value::Boolean(true))), false),
        "<table:table-cell office:value-type=\"boolean\" office:boolean-value=\"true\"><text:p>true</text:p></table:table-cell>"
    );
    assert_eq!(
        cell_text(&book, &content(Some(Value::Boolean(false))), false),
        "<table:table-cell office:value-type=\"boolean\" office:boolean-value=\"false\"><text:p>false</text:p></table:table-cell>"
    );
}

#[test]
fn duration_cell() {
    let book = WorkBook::new();
    let cell = content(Some(Value::TimeDuration(3_723_004)));
    assert_eq!(
        cell_text(&book, &cell, false),
        "<table:table-cell office:value-type=\"time\" office:time-value=\"PT01H02M03.004S\"><text:p>PT01H02M03.004S</text:p></table:table-cell>"
    );
}

#[test]
fn date_cell_is_formatted_by_the_calendar() {
    let book = WorkBook::new();
    let cell = content(Some(Value::DateTime(Timestamp { secs: 1577934245, nanos: 0 })));
    assert_eq!(
        cell_text(&book, &cell, false),
        "<table:table-cell office:value-type=\"date\" office:date-value=\"2020-01-02T03:04:05\"><text:p>2020-01-02T03:04:05</text:p></table:table-cell>"
    );
}

#[test]
fn date_cell_with_fraction_of_a_second() {
    let book = WorkBook::new();
    let cell = content(Some(Value::DateTime(Timestamp { secs: 0, nanos: 500_000_000 })));
    assert_eq!(
        cell_text(&book, &cell, false),
        "<table:table-cell office:value-type=\"date\" office:date-value=\"1970-01-01T00:00:00.500\"><text:p>1970-01-01T00:00:00.500</text:p></table:table-cell>"
    );
}

#[test]
fn date_before_the_epoch() {
    let book = WorkBook::new();
    let cell = content(Some(Value::DateTime(Timestamp { secs: -1, nanos: 0 })));
    assert_eq!(
        cell_text(&book, &cell, false),
        "<table:table-cell office:value-type=\"date\" office:date-value=\"1969-12-31T23:59:59\"><text:p>1969-12-31T23:59:59</text:p></table:table-cell>"
    );
}

#[test]
fn date_without_text_is_refused() {
    let book = WorkBook::new();
    let mut xml = XmlWriter::new(String::new());
    let far = content(Some(Value::DateTime(Timestamp { secs: i64::MAX, nanos: 0 })));
    assert_eq!(
        write_cell(&book, &far, false, &mut xml),
        Err(OdsError::Date { at: None, secs: i64::MAX, nanos: 0 })
    );
    let mut xml = XmlWriter::new(String::new());
    let bad = content(Some(Value::DateTime(Timestamp { secs: 0, nanos: 2_000_000_000 })));
    assert_eq!(
        write_cell(&book, &bad, false, &mut xml),
        Err(OdsError::Date { at: None, secs: 0, nanos: 2_000_000_000 })
    );
}

#[test]
fn plain_value_is_written_as_given() {
    let mut xml = XmlWriter::new(String::new());
    xml.elem("table:table-cell").unwrap();
    write_plain_value("date", "office:date-value", "2001-02-03T04:05:06", &mut xml).unwrap();
    xml.end_elem("table:table-cell").unwrap();
    xml.close().unwrap();
    assert_eq!(
        xml.into_inner(),
        "<table:table-cell office:value-type=\"date\" office:date-value=\"2001-02-03T04:05:06\"><text:p>2001-02-03T04:05:06</text:p></table:table-cell>"
    );
}

#[test]
fn plain_value_needs_a_pending_start_tag() {
    let mut xml = XmlWriter::new(String::new());
    assert!(write_plain_value("date", "office:date-value", "x", &mut xml).is_err());
}

#[test]
fn cell_attributes_come_in_order() {
    let mut book = WorkBook::new();
    book.def_styles.push((ValueType::Number, "num-default".to_string()));
    let cell = CellContent {
        value: Some(Value::Number("2".to_string())),
        formula: Some("of:=1+1".to_string()),
        style: Some("s\"1".to_string()),
        validation_name: Some("val1".to_string()),
        span: Some(CellSpan::new(3, 1)),
    };
    assert_eq!(
        cell_text(&book, &cell, false),
        "<table:table-cell table:formula=\"of:=1+1\" table:style-name=\"s&quot;1\" table:content-validation-name=\"val1\" table:number-rows-spanned=\"3\" office:value-type=\"float\" office:value=\"2\"><text:p>2</text:p></table:table-cell>"
    );
}

#[test]
fn default_style_follows_the_kind_of_the_value() {
    let mut book = WorkBook::new();
    book.def_styles.push((ValueType::Text, "text-default".to_string()));
    book.def_styles.push((ValueType::Number, "num-default".to_string()));
    book.def_styles.push((ValueType::Number, "later".to_string()));
    assert_eq!(book.def_style(ValueType::Number), Some(&"num-default".to_string()));
    assert_eq!(book.def_style(ValueType::Boolean), None);
    let cell = content(Some(Value::Number("2".to_string())));
    assert_eq!(
        cell_text(&book, &cell, false),
        "<table:table-cell table:style-name=\"num-default\" office:value-type=\"float\" office:value=\"2\"><text:p>2</text:p></table:table-cell>"
    );
    let no_value = content(None);
    assert_eq!(cell_text(&book, &no_value, false), "<table:table-cell/>");
}

#[test]
fn column_span_alone() {
    let book = WorkBook::new();
    let mut cell = content(None);
    cell.span = Some(CellSpan::new(1, 4));
    assert_eq!(
        cell_text(&book, &cell, false),
        "<table:table-cell table:number-columns-spanned=\"4\"/>"
    );
    cell.span = Some(CellSpan::new(1, 1));
    assert_eq!(cell_text(&book, &cell, false), "<table:table-cell/>");
}

#[test]
fn covered_cell_keeps_its_content() {
    let book = WorkBook::new();
    let cell = content(Some(Value::Text("t".to_string())));
    assert_eq!(
        cell_text(&book, &cell, true),
        "<table:covered-table-cell office:value-type=\"string\"><text:p>t</text:p></table:covered-table-cell>"
    );
}

fn tag(name: &str, attr: Vec<(&str, &str)>, content: Vec<XmlContent>) -> XmlTag {
    XmlTag {
        name: name.to_string(),
        attr: attr.into_iter().map(|(k, v)| (k.to_string(), v.to_string())).collect(),
        content,
    }
}

#[test]
fn foreign_tags_are_written_as_they_are() {
    let inner = tag("text:span", vec![("text:style-name", "T1")], vec![XmlContent::Text("b & c".to_string())]);
    let outer = tag(
        "text:p",
        vec![],
        vec![
            XmlContent::Text("a".to_string()),
            XmlContent::Tag(inner),
            XmlContent::Tag(tag("text:line-break", vec![], vec![])),
            XmlContent::Text("d".to_string()),
        ],
    );
    let mut xml = XmlWriter::new(String::new());
    write_xmltag(&outer, &mut xml).unwrap();
    xml.close().unwrap();
    assert_eq!(
        xml.into_inner(),
        "<text:p>a<text:span text:style-name=\"T1\">b &amp; c</text:span><text:line-break/>d</text:p>"
    );
}

#[test]
fn foreign_tag_without_content_is_self_closing() {
    let t = tag("text:s", vec![("text:c", "2"), ("x", "<")], vec![]);
    let mut xml = XmlWriter::new(String::new());
    write_xmltag(&t, &mut xml).unwrap();
    xml.close().unwrap();
    assert_eq!(xml.into_inner(), "<text:s text:c=\"2\" x=\"&lt;\"/>");
}

#[test]
fn marked_up_text_is_passed_through() {
    let book = WorkBook::new();
    let p1 = tag("text:p", vec![], vec![XmlContent::Text("one".to_string())]);
    let p2 = tag("text:p", vec![], vec![]);
    let cell = content(Some(Value::TextXml(vec![p1, p2])));
    assert_eq!(
        cell_text(&book, &cell, false),
        "<table:table-cell office:value-type=\"string\"><text:p>one</text:p><text:p/></table:table-cell>"
    );
    let none = content(Some(Value::TextXml(Vec::new())));
    assert_eq!(
        cell_text(&book, &none, false),
        "<table:table-cell office:value-type=\"string\"></table:table-cell>"
    );
}

fn fillers(forward: u32, hidden: u32) -> String {
    let mut xml = XmlWriter::new(String::new());
    write_empty_cells(forward, hidden, &mut xml).unwrap();
    xml.close().unwrap();
    xml.into_inner()
}

#[test]
fn fillers_are_split_between_covered_and_blank() {
    assert_eq!(fillers(1, 0), "");
    assert_eq!(fillers(1, 3), "");
    assert_eq!(fillers(4, 0), "<table:table-cell table:number-columns-repeated=\"3\"/>");
    assert_eq!(
        fillers(4, 1),
        "<table:covered-table-cell table:number-columns-repeated=\"1\"/><table:table-cell table:number-columns-repeated=\"2\"/>"
    );
    assert_eq!(fillers(4, 3), "<table:covered-table-cell table:number-columns-repeated=\"3\"/>");
    assert_eq!(fillers(4, 9), "<table:covered-table-cell table:number-columns-repeated=\"3\"/>");
}
