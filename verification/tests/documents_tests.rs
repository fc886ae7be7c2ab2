use ods_grid::config::{
    long_decimal_string, write_config_at, write_config_item, write_config_item_map_entry,
    write_config_item_map_indexed, write_config_item_map_named, write_config_item_set,
    write_settings, ConfigItem, ConfigPlace, ConfigValue,
};
use ods_grid::document::write_ods_content;
use ods_grid::error::OdsError;
use ods_grid::format::{
    check_formats, format_tag_of, signed_decimal_string, write_valuestyles, FormatPart,
    FormatPartType, ValueFormat,
};
use ods_grid::markup::TagPlace;
use ods_grid::meta::{
    check_metadata, write_metadata, Metadata, XLinkActuate, XLinkShow, XLinkType,
};
use ods_grid::page::{write_masterpage, write_pagestyles, write_regions, HeaderFooter, MasterPage, PageStyle};
use ods_grid::sheet::{CellContent, GridCell, Sheet, WorkBook};
use ods_grid::style::{
    write_attrs, write_font_decl, write_props, write_style, write_stylemaps, write_styles,
    FontFaceDecl, Style, StyleFamily, StyleMap, StyleOrigin, StyleUse,
};
use ods_grid::stylesdoc::write_ods_styles;
use ods_grid::validate::sanity_checks;
use ods_grid::validation::{
    truth_str, write_content_validations, MessageType, Validation, ValidationDisplay,
    ValidationError, ValidationHelp,
};
use ods_grid::value::{Timestamp, Value, ValueType};
use ods_grid::write::{tag_belongs, write_placed_tags, write_sheet};
use ods_grid::xmltree::{XmlContent, XmlTag};
use ods_grid::xmlwriter::XmlWriter;

const META_HEAD: &str = "<?xml version=\"1.0\" encoding=\"UTF-8\" ?>\n\
<office:document-meta xmlns:meta=\"urn:oasis:names:tc:opendocument:xmlns:meta:1.0\" xmlns:office=\"urn:oasis:names:tc:opendocument:xmlns:office:1.0\" office:version=\"1.3\">\
<office:meta>";

const SETTINGS_HEAD: &str = "<?xml version=\"1.0\" encoding=\"UTF-8\" ?>\n\
<office:document-settings xmlns:office=\"urn:oasis:names:tc:opendocument:xmlns:office:1.0\" xmlns:ooo=\"http://openoffice.org/2004/office\" xmlns:config=\"urn:oasis:names:tc:opendocument:xmlns:config:1.0\" office:version=\"1.3\">\
<office:settings>";

const SETTINGS_TAIL: &str = "</office:settings></office:document-settings>";

const MISPLACED: &str = "The settings hold an item where it may not stand.";

fn pairs(list: &[(&str, &str)]) -> Vec<(String, String)> {
    list.iter().map(|(k, v)| (k.to_string(), v.to_string())).collect()
}

fn named(list: Vec<(&str, ConfigItem)>) -> Vec<(String, ConfigItem)> {
    list.into_iter().map(|(k, v)| (k.to_string(), v)).collect()
}

fn whole(n: i32) -> ConfigItem {
    ConfigItem::Value(ConfigValue::Int(n))
}

fn plain(name: &str, text: &str) -> XmlTag {
    XmlTag {
        name: name.to_string(),
        attr: Vec::new(),
        content: if text.is_empty() { Vec::new() } else { vec![XmlContent::Text(text.to_string())] },
    }
}

fn written<F: FnOnce(&mut XmlWriter) -> Result<(), OdsError>>(write: F) -> Result<String, OdsError> {
    let mut xml = XmlWriter::new(String::new());
    write(&mut xml)?;
    xml.close().unwrap();
    Ok(xml.into_inner())
}

fn in_element<F: FnOnce(&mut XmlWriter) -> Result<(), OdsError>>(write: F) -> String {
    let mut xml = XmlWriter::new(String::new());
    xml.elem("e").unwrap();
    write(&mut xml).unwrap();
    xml.end_elem("e").unwrap();
    xml.close().unwrap();
    xml.into_inner()
}

fn style(family: StyleFamily, origin: StyleOrigin, styleuse: StyleUse, name: &str) -> Style {
    Style {
        family,
        origin,
        styleuse,
        name: name.to_string(),
        attr: Vec::new(),
        properties: Vec::new(),
        paragraphstyle: Vec::new(),
        tabstops: None,
        textstyle: Vec::new(),
        stylemaps: None,
    }
}

fn format(value_type: ValueType, origin: StyleOrigin, styleuse: StyleUse, name: &str) -> ValueFormat {
    ValueFormat {
        value_type,
        origin,
        styleuse,
        name: name.to_string(),
        attr: Vec::new(),
        textstyle: Vec::new(),
        parts: Vec::new(),
        stylemaps: None,
    }
}

fn part(part_type: FormatPartType, attr: &[(&str, &str)], content: Option<&str>) -> FormatPart {
    FormatPart { part_type, attr: pairs(attr), position: 0, content: content.map(|c| c.to_string()) }
}

#[test]
fn metadata_that_say_nothing() {
    assert_eq!(
        write_metadata("1.3", &Metadata::new()),
        Ok([
            META_HEAD,
            "<meta:generator></meta:generator>",
            "<meta:document-statistics meta:table-count=\"0\" meta:cell-count=\"0\" meta:object-count=\"0\" meta:ole-object-count=\"0\"/>",
            "</office:meta></office:document-meta>",
        ]
        .concat())
    );
}

#[test]
fn metadata_with_everything() {
    let mut m = Metadata::new();
    m.generator = "gen".to_string();
    m.title = "a & b".to_string();
    m.description = "d".to_string();
    m.subject = "s".to_string();
    m.language = "en".to_string();
    m.keyword = "k".to_string();
    m.initial_creator = "ic".to_string();
    m.creator = "<c>".to_string();
    m.editing_cycles = 3;
    m.editing_duration = 5_400_250;
    m.printed_by = "p".to_string();
    m.creation_date = Some(Timestamp { secs: 0, nanos: 0 });
    m.date = Some(Timestamp { secs: 1577934245, nanos: 0 });
    m.print_date = Some(Timestamp { secs: 0, nanos: 500_000_000 });
    m.template.date = Some(Timestamp { secs: -1, nanos: 0 });
    m.template.actuate = Some(XLinkActuate::OnRequest);
    m.template.href = Some("h&".to_string());
    m.template.title = Some("t".to_string());
    m.template.link_type = Some(XLinkType::Simple);
    m.auto_reload.delay = Some(1000);
    m.auto_reload.actuate = Some(XLinkActuate::OnLoad);
    m.auto_reload.href = Some("r".to_string());
    m.auto_reload.show = Some(XLinkShow::Replace);
    m.auto_reload.link_type = Some(XLinkType::Locator);
    m.hyperlink_behaviour.target_frame_name = Some("_blank".to_string());
    m.hyperlink_behaviour.show = Some(XLinkShow::New);
    m.document_statistics.table_count = 1;
    m.document_statistics.cell_count = 20;
    m.document_statistics.object_count = 300;
    m.document_statistics.ole_object_count = 4_000_000_000;
    assert_eq!(check_metadata(&m), Ok(()));
    assert_eq!(
        write_metadata("1.2", &m),
        Ok([
            "<?xml version=\"1.0\" encoding=\"UTF-8\" ?>\n",
            "<office:document-meta xmlns:meta=\"urn:oasis:names:tc:opendocument:xmlns:meta:1.0\" xmlns:office=\"urn:oasis:names:tc:opendocument:xmlns:office:1.0\" office:version=\"1.2\">",
            "<office:meta>",
            "<meta:generator>gen</meta:generator>",
            "<dc:title>a &amp; b</dc:title>",
            "<dc:description>d</dc:description>",
            "<dc:description>d</dc:description>",
            "<dc:subject>s</dc:subject>",
            "<dc:language>en</dc:language>",
            "<meta:keyword>k</meta:keyword>",
            "<meta:initial-creator>ic</meta:initial-creator>",
            "<meta:creator>&lt;c&gt;</meta:creator>",
            "<meta:editing-cycles>3</meta:editing-cycles>",
            "<meta:editing-duration>PT01H30M00.250S</meta:editing-duration>",
            "<meta:printed-by>p</meta:printed-by>",
            "<meta:creation-date>1970-01-01T00:00:00</meta:creation-date>",
            "<meta:date>2020-01-02T03:04:05</meta:date>",
            "<meta:print_date>1970-01-01T00:00:00.500</meta:print_date>",
            "<meta:template meta:date=\"1969-12-31T23:59:59\" xlink:actuate=\"onRequest\" xlink:href=\"h&amp;\" xlink:title=\"t\" xlink:type=\"simple\"/>",
            "<meta:auto_reload meta:delay=\"PT00H00M01.000S\" xlink:actuate=\"onLoad\" xlink:href=\"r\" xlink:show=\"replace\" xlink:type=\"locator\"/>",
            "<meta:hyperlink-behaviour office:target-frame-name=\"_blank\" xlink:show=\"new\"/>",
            "<meta:document-statistics meta:table-count=\"1\" meta:cell-count=\"20\" meta:object-count=\"300\" meta:ole-object-count=\"4000000000\"/>",
            "</office:meta></office:document-meta>",
        ]
        .concat())
    );
}

#[test]
fn short_editing_durations_are_left_out() {
    let mut m = Metadata::new();
    m.editing_duration = 999;
    let text = write_metadata("1.3", &m).unwrap();
    assert!(!text.contains("editing-duration"));
    m.editing_duration = 1000;
    let text = write_metadata("1.3", &m).unwrap();
    assert!(text.contains("<meta:editing-duration>PT00H00M01.000S</meta:editing-duration>"));
}

#[test]
fn metadata_with_a_date_without_text_are_refused() {
    let bad = Timestamp { secs: i64::MAX, nanos: 1 };
    let worse = Timestamp { secs: i64::MIN, nanos: 2 };
    let mut m = Metadata::new();
    m.template.date = Some(bad);
    assert_eq!(check_metadata(&m), Err(OdsError::Date { at: None, secs: i64::MAX, nanos: 1 }));
    assert_eq!(write_metadata("1.3", &m), Err(OdsError::Date { at: None, secs: i64::MAX, nanos: 1 }));
    m.print_date = Some(worse);
    assert_eq!(write_metadata("1.3", &m), Err(OdsError::Date { at: None, secs: i64::MIN, nanos: 2 }));
    m.date = Some(bad);
    assert_eq!(write_metadata("1.3", &m), Err(OdsError::Date { at: None, secs: i64::MAX, nanos: 1 }));
    m.creation_date = Some(worse);
    assert_eq!(write_metadata("1.3", &m), Err(OdsError::Date { at: None, secs: i64::MIN, nanos: 2 }));
}

#[test]
fn link_words() {
    assert_eq!(XLinkActuate::OnLoad.as_str(), "onLoad");
    assert_eq!(XLinkActuate::OnRequest.as_str(), "onRequest");
    assert_eq!(XLinkShow::New.as_str(), "new");
    assert_eq!(XLinkShow::Replace.as_str(), "replace");
    assert_eq!(XLinkType::Simple.as_str(), "simple");
    assert_eq!(XLinkType::Extended.as_str(), "extended");
    assert_eq!(XLinkType::Locator.as_str(), "locator");
    assert_eq!(XLinkType::Arc.as_str(), "arc");
    assert_eq!(XLinkType::Resource.as_str(), "resource");
    assert_eq!(XLinkType::Title.as_str(), "title");
}

#[test]
fn settings_of_each_kind() {
    let values = vec![
        ("b64", ConfigValue::Base64Binary("QUJD".to_string()), "base64Binary", "QUJD"),
        ("yes", ConfigValue::Boolean(true), "boolean", "true"),
        ("no", ConfigValue::Boolean(false), "boolean", "false"),
        ("when", ConfigValue::DateTime(Timestamp { secs: 1577934245, nanos: 0 }), "datetime", "2020-01-02T03:04:05"),
        ("d", ConfigValue::Double("1.5".to_string()), "double", "1.5"),
        ("i", ConfigValue::Int(-42), "int", "-42"),
        ("l", ConfigValue::Long(i64::MIN), "long", "-9223372036854775808"),
        ("s", ConfigValue::Short(i16::MIN), "short", "-32768"),
        ("t", ConfigValue::Text("a<b".to_string()), "string", "a<b"),
    ];
    for (name, value, kind, text) in values {
        assert_eq!(value.kind_name(), kind);
        assert_eq!(
            written(|xml| write_config_item(name, &value, xml)),
            Ok(format!(
                "<config:config-item config:name=\"{}\" config:type=\"{}\">{}</config:config-item>",
                name, kind, text
            ))
        );
    }
}

#[test]
fn settings_without_text_are_self_closing() {
    assert_eq!(
        written(|xml| write_config_item("a\"b", &ConfigValue::Text(String::new()), xml)),
        Ok("<config:config-item config:name=\"a&quot;b\" config:type=\"string\"/>".to_string())
    );
    assert_eq!(
        written(|xml| write_config_item("e", &ConfigValue::Base64Binary(String::new()), xml)),
        Ok("<config:config-item config:name=\"e\" config:type=\"base64Binary\"/>".to_string())
    );
}

#[test]
fn setting_with_a_date_without_text_is_refused() {
    let value = ConfigValue::DateTime(Timestamp { secs: i64::MAX, nanos: 0 });
    let r = written(|xml| write_config_item("when", &value, xml));
    assert_eq!(r, Err(OdsError::Date { at: None, secs: i64::MAX, nanos: 0 }));
    let config = named(vec![("set", ConfigItem::ItemSet(named(vec![("when", ConfigItem::Value(value))])))]);
    assert!(matches!(write_settings("1.3", &config), Err(OdsError::Date { .. })));
}

#[test]
fn settings_document_without_settings() {
    assert_eq!(write_settings("1.3", &Vec::new()), Ok([SETTINGS_HEAD, SETTINGS_TAIL].concat()));
}

#[test]
fn settings_document_with_a_tree() {
    let table = ConfigItem::Entry(named(vec![("CursorPositionX", whole(3))]));
    let view = ConfigItem::Entry(named(vec![
        ("ActiveTable", ConfigItem::Value(ConfigValue::Text("s".to_string()))),
        ("Tables", ConfigItem::Named(named(vec![("s", table)]))),
    ]));
    let config = named(vec![
        (
            "ooo:view-settings",
            ConfigItem::ItemSet(named(vec![
                ("VisibleAreaTop", whole(0)),
                ("Views", ConfigItem::Indexed(named(vec![("0", view)]))),
            ])),
        ),
        ("ooo:configuration-settings", ConfigItem::ItemSet(Vec::new())),
    ]);
    assert_eq!(
        write_settings("1.3", &config),
        Ok([
            SETTINGS_HEAD,
            "<config:config-item-set config:name=\"ooo:view-settings\">",
            "<config:config-item config:name=\"VisibleAreaTop\" config:type=\"int\">0</config:config-item>",
            "<config:config-item-map-indexed config:name=\"Views\">",
            "<config:config-item-map-entry>",
            "<config:config-item config:name=\"ActiveTable\" config:type=\"string\">s</config:config-item>",
            "<config:config-item-map-named config:name=\"Tables\">",
            "<config:config-item-map-entry config:name=\"s\">",
            "<config:config-item config:name=\"CursorPositionX\" config:type=\"int\">3</config:config-item>",
            "</config:config-item-map-entry>",
            "</config:config-item-map-named>",
            "</config:config-item-map-entry>",
            "</config:config-item-map-indexed>",
            "</config:config-item-set>",
            "<config:config-item-set config:name=\"ooo:configuration-settings\"></config:config-item-set>",
            SETTINGS_TAIL,
        ]
        .concat())
    );
}

#[test]
fn list_of_settings_is_counted_through() {
    let entry = |n: i32| ConfigItem::Entry(named(vec![("v", whole(n))]));
    let list = ConfigItem::Indexed(named(vec![
        ("1", entry(11)),
        ("3", entry(33)),
        ("0", entry(0)),
        ("other", entry(99)),
        ("0", entry(100)),
    ]));
    let one = |n: i32| {
        format!(
            "<config:config-item-map-entry><config:config-item config:name=\"v\" config:type=\"int\">{}</config:config-item></config:config-item-map-entry>",
            n
        )
    };
    assert_eq!(
        written(|xml| write_config_item_map_indexed("L", &list, xml)),
        Ok(format!(
            "<config:config-item-map-indexed config:name=\"L\">{}{}</config:config-item-map-indexed>",
            one(0),
            one(11)
        ))
    );
    assert_eq!(
        written(|xml| write_config_item_map_indexed("L", &ConfigItem::Indexed(Vec::new()), xml)),
        Ok("<config:config-item-map-indexed config:name=\"L\"></config:config-item-map-indexed>".to_string())
    );
}

#[test]
fn containers_of_settings() {
    let kids = || named(vec![("a", whole(1)), ("b", ConfigItem::ItemSet(Vec::new()))]);
    let inner = "<config:config-item config:name=\"a\" config:type=\"int\">1</config:config-item><config:config-item-set config:name=\"b\"></config:config-item-set>";
    assert_eq!(
        written(|xml| write_config_item_set("S", &ConfigItem::ItemSet(kids()), xml)),
        Ok(format!("<config:config-item-set config:name=\"S\">{}</config:config-item-set>", inner))
    );
    assert_eq!(
        written(|xml| write_config_item_map_entry(Some("E"), &ConfigItem::Entry(kids()), xml)),
        Ok(format!("<config:config-item-map-entry config:name=\"E\">{}</config:config-item-map-entry>", inner))
    );
    assert_eq!(
        written(|xml| write_config_item_map_entry(None, &ConfigItem::Entry(kids()), xml)),
        Ok(format!("<config:config-item-map-entry>{}</config:config-item-map-entry>", inner))
    );
    let map = ConfigItem::Named(named(vec![("x", ConfigItem::Entry(Vec::new()))]));
    assert_eq!(
        written(|xml| write_config_item_map_named("M", &map, xml)),
        Ok("<config:config-item-map-named config:name=\"M\"><config:config-item-map-entry config:name=\"x\"></config:config-item-map-entry></config:config-item-map-named>".to_string())
    );
}

#[test]
fn settings_that_stand_where_they_may_not_are_refused() {
    let refused = Err(OdsError::Ods(MISPLACED.to_string()));
    // at the top only sets may stand
    assert_eq!(write_settings("1.3", &named(vec![("v", whole(1))])), refused);
    assert_eq!(write_settings("1.3", &named(vec![("m", ConfigItem::Named(Vec::new()))])), refused);
    assert_eq!(write_settings("1.3", &named(vec![("l", ConfigItem::Indexed(Vec::new()))])), refused);
    assert_eq!(write_settings("1.3", &named(vec![("e", ConfigItem::Entry(Vec::new()))])), refused);
    // in a set no entry may stand
    let set = ConfigItem::ItemSet(named(vec![("e", ConfigItem::Entry(Vec::new()))]));
    assert_eq!(written(|xml| write_config_item_set("S", &set, xml)), Err(OdsError::Ods(MISPLACED.to_string())));
    // in a map only values and entries may stand
    let map = ConfigItem::Named(named(vec![("v", whole(1)), ("s", ConfigItem::ItemSet(Vec::new()))]));
    assert_eq!(written(|xml| write_config_item_map_named("M", &map, xml)), Err(OdsError::Ods(MISPLACED.to_string())));
    // in a list only values and entries may stand; a value has the name of the list
    let list = ConfigItem::Indexed(named(vec![("0", whole(1)), ("1", ConfigItem::Named(Vec::new()))]));
    assert_eq!(written(|xml| write_config_item_map_indexed("L", &list, xml)), Err(OdsError::Ods(MISPLACED.to_string())));
    let list = ConfigItem::Indexed(named(vec![("0", whole(1))]));
    assert_eq!(
        written(|xml| write_config_item_map_indexed("L", &list, xml)),
        Ok("<config:config-item-map-indexed config:name=\"L\"><config:config-item config:name=\"L\" config:type=\"int\">1</config:config-item></config:config-item-map-indexed>".to_string())
    );
    // a value may stand anywhere but at the top
    assert!(written(|xml| write_config_at(ConfigPlace::InSet, "v", &whole(1), xml)).is_ok());
    assert!(written(|xml| write_config_at(ConfigPlace::InNamed, "v", &whole(1), xml)).is_ok());
    assert!(written(|xml| write_config_at(ConfigPlace::Top, "v", &whole(1), xml)).is_err());
    assert!(written(|xml| write_config_at(ConfigPlace::InNamed, "s", &ConfigItem::ItemSet(Vec::new()), xml)).is_err());
    assert!(written(|xml| write_config_at(ConfigPlace::InIndexed, "e", &ConfigItem::Entry(Vec::new()), xml)).is_ok());
}

#[test]
fn numbers_with_their_sign() {
    assert_eq!(long_decimal_string(0), "0");
    assert_eq!(long_decimal_string(i64::MAX), "9223372036854775807");
    assert_eq!(long_decimal_string(i64::MIN), "-9223372036854775808");
    assert_eq!(signed_decimal_string(0), "0");
    assert_eq!(signed_decimal_string(-7), "-7");
    assert_eq!(signed_decimal_string(i32::MIN), "-2147483648");
    assert_eq!(signed_decimal_string(i32::MAX), "2147483647");
}

#[test]
fn attributes_of_styles() {
    let attrs = pairs(&[("fo:color", "#000"), ("a\\b", "x&y")]);
    assert_eq!(
        in_element(|xml| write_attrs(&attrs, xml)),
        "<e fo:color=\"#000\" a\\\\b=\"x&amp;y\"></e>"
    );
    assert_eq!(
        written(|xml| write_props("style:text-properties", &attrs, xml)),
        Ok("<style:text-properties fo:color=\"#000\" a\\\\b=\"x&amp;y\"/>".to_string())
    );
    assert_eq!(written(|xml| write_props("style:text-properties", &Vec::new(), xml)), Ok(String::new()));
}

#[test]
fn style_with_all_its_properties() {
    let mut s = style(StyleFamily::TableCell, StyleOrigin::Content, StyleUse::Automatic, "ce<1>");
    s.attr = pairs(&[
        ("style:name", "left out"),
        ("style:parent-style-name", "Default"),
        ("style:family", "left out"),
        ("style:data-style-name", "N1"),
    ]);
    s.properties = pairs(&[("fo:background-color", "#fff")]);
    s.paragraphstyle = pairs(&[("fo:text-align", "end")]);
    s.textstyle = pairs(&[("fo:font-weight", "bold")]);
    s.stylemaps = Some(vec![
        StyleMap {
            condition: "cell-content()>5".to_string(),
            applied_style: "big".to_string(),
            base_cell: Some("s.A1".to_string()),
        },
        StyleMap { condition: "c".to_string(), applied_style: "d".to_string(), base_cell: None },
    ]);
    assert_eq!(
        written(|xml| write_style(&s, xml)),
        Ok([
            "<style:style style:name=\"ce&lt;1&gt;\" style:family=\"table-cell\" style:parent-style-name=\"Default\" style:data-style-name=\"N1\">",
            "<style:table-cell-properties fo:background-color=\"#fff\"/>",
            "<style:paragraph-properties fo:text-align=\"end\"/>",
            "<style:text-properties fo:font-weight=\"bold\"/>",
            "<style:map style:condition=\"cell-content()&gt;5\" style:apply-style-name=\"big\" style:base-cell-address=\"s.A1\"/>",
            "<style:map style:condition=\"c\" style:apply-style-name=\"d\"/>",
            "</style:style>",
        ]
        .concat())
    );
}

#[test]
fn default_style_has_no_name() {
    let mut s = style(StyleFamily::Table, StyleOrigin::Styles, StyleUse::Default, "ignored");
    s.properties = pairs(&[("table:display", "true")]);
    assert_eq!(
        written(|xml| write_style(&s, xml)),
        Ok("<style:default-style style:family=\"table\"><style:table-properties table:display=\"true\"/></style:default-style>".to_string())
    );
}

#[test]
fn paragraph_style_with_tab_stops() {
    let mut s = style(StyleFamily::Paragraph, StyleOrigin::Styles, StyleUse::Named, "p");
    s.properties = pairs(&[("not", "written")]);
    s.paragraphstyle = pairs(&[("fo:margin", "0")]);
    s.tabstops = Some(vec![pairs(&[("style:position", "1cm")]), Vec::new()]);
    assert_eq!(
        written(|xml| write_style(&s, xml)),
        Ok([
            "<style:style style:name=\"p\" style:family=\"paragraph\">",
            "<style:paragraph-properties fo:margin=\"0\"><style:tab-stops>",
            "<style:tab-stop style:position=\"1cm\"/><style:tab-stop/>",
            "</style:tab-stops></style:paragraph-properties>",
            "</style:style>",
        ]
        .concat())
    );
    // without properties of paragraphs the tab stops are not written
    s.paragraphstyle = Vec::new();
    assert_eq!(
        written(|xml| write_style(&s, xml)),
        Ok("<style:style style:name=\"p\" style:family=\"paragraph\"></style:style>".to_string())
    );
}

#[test]
fn families_of_styles() {
    let all = [
        (StyleFamily::Table, "table", Some("style:table-properties")),
        (StyleFamily::TableRow, "table-row", Some("style:table-row-properties")),
        (StyleFamily::TableColumn, "table-column", Some("style:table-column-properties")),
        (StyleFamily::TableCell, "table-cell", Some("style:table-cell-properties")),
        (StyleFamily::Paragraph, "paragraph", None),
        (StyleFamily::Text, "text", None),
        (StyleFamily::Graphic, "graphic", Some("style:graphic-properties")),
    ];
    for (family, name, tag) in all {
        assert_eq!(family.as_str(), name);
        assert_eq!(family.tag(), tag);
    }
}

#[test]
fn styles_are_written_family_by_family() {
    let styles = vec![
        style(StyleFamily::Graphic, StyleOrigin::Content, StyleUse::Automatic, "g"),
        style(StyleFamily::TableCell, StyleOrigin::Content, StyleUse::Automatic, "c1"),
        style(StyleFamily::Table, StyleOrigin::Styles, StyleUse::Automatic, "other document"),
        style(StyleFamily::Table, StyleOrigin::Content, StyleUse::Named, "other use"),
        style(StyleFamily::Text, StyleOrigin::Content, StyleUse::Automatic, "t"),
        style(StyleFamily::TableCell, StyleOrigin::Content, StyleUse::Automatic, "c2"),
        style(StyleFamily::TableColumn, StyleOrigin::Content, StyleUse::Automatic, "co"),
        style(StyleFamily::Paragraph, StyleOrigin::Content, StyleUse::Automatic, "p"),
        style(StyleFamily::TableRow, StyleOrigin::Content, StyleUse::Automatic, "ro"),
        style(StyleFamily::Table, StyleOrigin::Content, StyleUse::Automatic, "ta"),
    ];
    let one = |name: &str, family: &str| format!("<style:style style:name=\"{}\" style:family=\"{}\"></style:style>", name, family);
    assert_eq!(
        written(|xml| write_styles(&styles, StyleOrigin::Content, StyleUse::Automatic, xml)),
        Ok([
            one("ta", "table"),
            one("ro", "table-row"),
            one("co", "table-column"),
            one("c1", "table-cell"),
            one("c2", "table-cell"),
            one("p", "paragraph"),
            one("t", "text"),
            one("g", "graphic"),
        ]
        .concat())
    );
    assert_eq!(
        written(|xml| write_styles(&styles, StyleOrigin::Styles, StyleUse::Default, xml)),
        Ok(String::new())
    );
}

#[test]
fn conditional_styles() {
    assert_eq!(written(|xml| write_stylemaps(&None, xml)), Ok(String::new()));
    assert_eq!(written(|xml| write_stylemaps(&Some(Vec::new()), xml)), Ok(String::new()));
}

#[test]
fn fonts_of_one_document() {
    let fonts = vec![
        FontFaceDecl { name: "A & B".to_string(), origin: StyleOrigin::Content, attr: pairs(&[("svg:font-family", "'A'")]) },
        FontFaceDecl { name: "S".to_string(), origin: StyleOrigin::Styles, attr: Vec::new() },
    ];
    assert_eq!(
        written(|xml| write_font_decl(&fonts, StyleOrigin::Content, xml)),
        Ok("<style:font-face style:name=\"A &amp; B\" svg:font-family=\"&apos;A&apos;\"/>".to_string())
    );
    assert_eq!(
        written(|xml| write_font_decl(&fonts, StyleOrigin::Styles, xml)),
        Ok("<style:font-face style:name=\"S\"/>".to_string())
    );
}

#[test]
fn value_format_with_its_parts() {
    let mut f = format(ValueType::Currency, StyleOrigin::Styles, StyleUse::Named, "N<1>");
    f.attr = pairs(&[("number:language", "de")]);
    f.textstyle = pairs(&[("fo:color", "#f00")]);
    f.parts = vec![
        part(FormatPartType::Number, &[("number:decimal-places", "2")], None),
        part(FormatPartType::Text, &[], Some(" & ")),
        part(FormatPartType::CurrencySymbol, &[("number:country", "AT")], Some("€")),
        part(FormatPartType::FillCharacter, &[], None),
        FormatPart {
            part_type: FormatPartType::Number,
            attr: Vec::new(),
            position: -3,
            content: Some("<".to_string()),
        },
        part(FormatPartType::Day, &[], Some("not written")),
    ];
    f.stylemaps = Some(vec![StyleMap {
        condition: "value()>=0".to_string(),
        applied_style: "pos".to_string(),
        base_cell: Some("not written".to_string()),
    }]);
    let formats = vec![f];
    assert_eq!(
        written(|xml| write_valuestyles(&formats, StyleOrigin::Styles, StyleUse::Named, xml)),
        Ok([
            "<number:currency-style style:name=\"N&lt;1&gt;\" number:language=\"de\">",
            "<style:text-properties fo:color=\"#f00\"/>",
            "<number:number number:decimal-places=\"2\"/>",
            "<number:text> &amp; </number:text>",
            "<number:currency-symbol number:country=\"AT\">€</number:currency-symbol>",
            "<number:fill-character></number:fill-character>",
            "<number:number><number:embedded-text number:position=\"-3\">&lt;</number:embedded-text></number:number>",
            "<number:day/>",
            "<style:map style:condition=\"value()&gt;=0\" style:apply-style-name=\"pos\"/>",
            "</number:currency-style>",
        ]
        .concat())
    );
    assert_eq!(
        written(|xml| write_valuestyles(&formats, StyleOrigin::Content, StyleUse::Named, xml)),
        Ok(String::new())
    );
}

#[test]
fn value_formats_are_written_kind_by_kind() {
    let formats = vec![
        format(ValueType::TimeDuration, StyleOrigin::Content, StyleUse::Automatic, "t"),
        format(ValueType::TextXml, StyleOrigin::Content, StyleUse::Automatic, "x"),
        format(ValueType::Text, StyleOrigin::Content, StyleUse::Automatic, "s"),
        format(ValueType::Percentage, StyleOrigin::Content, StyleUse::Automatic, "p"),
        format(ValueType::Number, StyleOrigin::Content, StyleUse::Automatic, "n"),
        format(ValueType::DateTime, StyleOrigin::Content, StyleUse::Automatic, "d"),
        format(ValueType::Currency, StyleOrigin::Content, StyleUse::Automatic, "c"),
        format(ValueType::Boolean, StyleOrigin::Content, StyleUse::Automatic, "b"),
    ];
    assert!(check_formats(&formats));
    let one = |tag: &str, name: &str| format!("<number:{}-style style:name=\"{}\"></number:{}-style>", tag, name, tag);
    assert_eq!(
        written(|xml| write_valuestyles(&formats, StyleOrigin::Content, StyleUse::Automatic, xml)),
        Ok([
            one("boolean", "b"),
            one("currency", "c"),
            one("date", "d"),
            one("number", "n"),
            one("percentage", "p"),
            one("text", "x"),
            one("text", "s"),
            one("time", "t"),
        ]
        .concat())
    );
}

#[test]
fn kinds_of_value_formats() {
    assert_eq!(format_tag_of(ValueType::Empty), None);
    assert_eq!(format_tag_of(ValueType::Boolean), Some("number:boolean-style"));
    assert_eq!(format_tag_of(ValueType::Number), Some("number:number-style"));
    assert_eq!(format_tag_of(ValueType::Text), Some("number:text-style"));
    assert_eq!(format_tag_of(ValueType::TextXml), Some("number:text-style"));
    assert_eq!(format_tag_of(ValueType::TimeDuration), Some("number:time-style"));
    assert_eq!(format_tag_of(ValueType::Percentage), Some("number:percentage-style"));
    assert_eq!(format_tag_of(ValueType::Currency), Some("number:currency-style"));
    assert_eq!(format_tag_of(ValueType::DateTime), Some("number:date-style"));
    assert_eq!(FormatPartType::ScientificNumber.tag(), "number:scientific-number");
    assert_eq!(FormatPartType::AmPm.tag(), "number:am-pm");
    assert_eq!(FormatPartType::TextContent.tag(), "number:text-content");
    assert!(FormatPartType::Text.holds_text());
    assert!(FormatPartType::CurrencySymbol.holds_text());
    assert!(FormatPartType::FillCharacter.holds_text());
    assert!(!FormatPartType::Number.holds_text());
}

#[test]
fn value_format_for_values_without_content_is_refused() {
    let mut book = WorkBook::new();
    book.sheets.push(Sheet::new("s"));
    book.formats.push(format(ValueType::Number, StyleOrigin::Styles, StyleUse::Named, "ok"));
    book.formats.push(format(ValueType::Empty, StyleOrigin::Styles, StyleUse::Named, "bad"));
    assert!(!check_formats(&book.formats));
    let refused = Err(OdsError::Ods("A value format is for values without content.".to_string()));
    assert_eq!(write_ods_styles(&book), refused);
    assert_eq!(sanity_checks(&book), Err(OdsError::Ods("A value format is for values without content.".to_string())));
    let mut out = "kept".to_string();
    assert_eq!(
        write_ods_content(&book, &mut out),
        Err(OdsError::Ods("A value format is for values without content.".to_string()))
    );
    assert_eq!(out, "kept");
}

#[test]
fn page_layouts() {
    let pages = vec![
        PageStyle {
            name: "Mpm1".to_string(),
            master_page_usage: Some("all".to_string()),
            style: pairs(&[("fo:margin", "2cm")]),
            headerstyle: pairs(&[("fo:min-height", "1cm")]),
            footerstyle: Vec::new(),
        },
        PageStyle {
            name: "b&c".to_string(),
            master_page_usage: None,
            style: Vec::new(),
            headerstyle: Vec::new(),
            footerstyle: Vec::new(),
        },
    ];
    assert_eq!(
        written(|xml| write_pagestyles(&pages, xml)),
        Ok([
            "<style:page-layout style:name=\"Mpm1\" style:page-usage=\"all\">",
            "<style:page-layout-properties fo:margin=\"2cm\"/>",
            "<style:header-style><style:header-footer-properties fo:min-height=\"1cm\"/></style:header-style>",
            "<style:footer-style><style:header-footer-properties/></style:footer-style>",
            "</style:page-layout>",
            "<style:page-layout style:name=\"b&amp;c\">",
            "<style:header-style><style:header-footer-properties/></style:header-style>",
            "<style:footer-style><style:header-footer-properties/></style:footer-style>",
            "</style:page-layout>",
        ]
        .concat())
    );
}

#[test]
fn regions_of_a_header() {
    let mut hf = HeaderFooter::new();
    assert!(hf.is_empty());
    assert!(hf.display);
    hf.content.push(plain("text:p", "all"));
    hf.right.push(plain("text:p", "r"));
    hf.left.push(plain("text:p", "l1"));
    hf.left.push(plain("text:p", "l2"));
    hf.center.push(plain("text:p", ""));
    assert!(!hf.is_empty());
    assert_eq!(
        written(|xml| write_regions(&hf, xml)),
        Ok([
            "<style:region-left><text:p>l1</text:p></style:region-left>",
            "<style:region-left><text:p>l2</text:p></style:region-left>",
            "<style:region-center><text:p/></style:region-center>",
            "<style:region-right><text:p>r</text:p></style:region-right>",
            "<text:p>all</text:p>",
        ]
        .concat())
    );
}

#[test]
fn master_pages() {
    let mut first = HeaderFooter::new();
    first.content.push(plain("text:p", "first"));
    first.display = false;
    let mut left = HeaderFooter::new();
    left.content.push(plain("text:p", "left"));
    let mut hidden = HeaderFooter::new();
    hidden.display = false;
    let masters = vec![
        MasterPage {
            name: "Default".to_string(),
            pagestyle: "Mpm1".to_string(),
            header: HeaderFooter::new(),
            header_first: HeaderFooter::new(),
            header_left: HeaderFooter::new(),
            footer: HeaderFooter::new(),
            footer_first: HeaderFooter::new(),
            footer_left: HeaderFooter::new(),
        },
        MasterPage {
            name: "a\"b".to_string(),
            pagestyle: "p".to_string(),
            header: hidden,
            header_first: first,
            header_left: left,
            footer: HeaderFooter::new(),
            footer_first: HeaderFooter::new(),
            footer_left: HeaderFooter::new(),
        },
    ];
    assert_eq!(
        written(|xml| write_masterpage(&masters, xml)),
        Ok([
            "<style:master-page style:name=\"Default\" style:page-layout-name=\"Mpm1\">",
            "<style:header></style:header>",
            "<style:header_left style:display=\"false\"></style:header_left>",
            "<style:footer></style:footer>",
            "<style:footer_left style:display=\"false\"></style:footer_left>",
            "</style:master-page>",
            "<style:master-page style:name=\"a&quot;b\" style:page-layout-name=\"p\">",
            "<style:header style:display=\"false\"></style:header>",
            "<style:header_first style:display=\"false\"><text:p>first</text:p></style:header_first>",
            "<style:header_left><text:p>left</text:p></style:header_left>",
            "<style:footer></style:footer>",
            "<style:footer_left style:display=\"false\"></style:footer_left>",
            "</style:master-page>",
        ]
        .concat())
    );
}

#[test]
fn rules_for_the_content_of_cells() {
    assert_eq!(written(|xml| write_content_validations(&Vec::new(), xml)), Ok(String::new()));
    let list = vec![
        Validation {
            name: "val1".to_string(),
            condition: "of:cell-content()>=1".to_string(),
            allow_empty: true,
            display: ValidationDisplay::Unsorted,
            base_cell: "s.A1".to_string(),
            err: Some(ValidationError {
                display: true,
                msg_type: MessageType::Warning,
                title: Some("T&".to_string()),
                text: Some(plain("text:p", "wrong")),
            }),
            help: Some(ValidationHelp { display: false, title: None, text: None }),
        },
        Validation {
            name: "val2".to_string(),
            condition: String::new(),
            allow_empty: false,
            display: ValidationDisplay::SortAscending,
            base_cell: String::new(),
            err: Some(ValidationError { display: false, msg_type: MessageType::Stop, title: None, text: None }),
            help: Some(ValidationHelp {
                display: true,
                title: Some("h".to_string()),
                text: Some(plain("text:p", "help")),
            }),
        },
        Validation {
            name: "val3".to_string(),
            condition: "c".to_string(),
            allow_empty: false,
            display: ValidationDisplay::NoDisplay,
            base_cell: "b".to_string(),
            err: None,
            help: None,
        },
    ];
    assert_eq!(
        written(|xml| write_content_validations(&list, xml)),
        Ok([
            "<table:content-validations>",
            "<table:content-validation table:name=\"val1\" table:condition=\"of:cell-content()&gt;=1\" table:allow-empty-cell=\"true\" table:display-list=\"unsorted\" table:base-cell-address=\"s.A1\">",
            "<table:error-message table:display=\"true\" table:message-type=\"warning\" table:title=\"T&amp;\"><text:p>wrong</text:p></table:error-message>",
            "<table:help-message table:display=\"false\"/>",
            "</table:content-validation>",
            "<table:content-validation table:name=\"val2\" table:condition=\"\" table:allow-empty-cell=\"false\" table:display-list=\"sort-ascending\" table:base-cell-address=\"\">",
            "<table:error-message table:display=\"false\" table:message-type=\"stop\"/>",
            "<table:help-message table:display=\"true\" table:title=\"h\"><text:p>help</text:p></table:help-message>",
            "</table:content-validation>",
            "<table:content-validation table:name=\"val3\" table:condition=\"c\" table:allow-empty-cell=\"false\" table:display-list=\"no\" table:base-cell-address=\"b\">",
            "</table:content-validation>",
            "</table:content-validations>",
        ]
        .concat())
    );
}

#[test]
fn words_of_rules() {
    assert_eq!(truth_str(true), "true");
    assert_eq!(truth_str(false), "false");
    assert_eq!(ValidationDisplay::NoDisplay.as_str(), "no");
    assert_eq!(ValidationDisplay::Unsorted.as_str(), "unsorted");
    assert_eq!(ValidationDisplay::SortAscending.as_str(), "sort-ascending");
    assert_eq!(MessageType::Stop.as_str(), "stop");
    assert_eq!(MessageType::Warning.as_str(), "warning");
    assert_eq!(MessageType::Information.as_str(), "information");
}

#[test]
fn foreign_tags_stand_at_their_places() {
    let tags = vec![
        plain("table:named-expressions", "n"),
        plain("table:shapes", "s"),
        plain("unknown", "u"),
        plain("table:title", "t"),
        plain("table:calculation-settings", "c"),
        plain("table:database-ranges", "d"),
        plain("calcext:conditional-formats", "f"),
    ];
    assert_eq!(
        written(|xml| write_placed_tags(&tags, TagPlace::TableHead, xml)),
        Ok("<table:shapes>s</table:shapes><table:title>t</table:title>".to_string())
    );
    assert_eq!(
        written(|xml| write_placed_tags(&tags, TagPlace::TableTail, xml)),
        Ok("<table:named-expressions>n</table:named-expressions><calcext:conditional-formats>f</calcext:conditional-formats>".to_string())
    );
    assert_eq!(
        written(|xml| write_placed_tags(&tags, TagPlace::BookHead, xml)),
        Ok("<table:calculation-settings>c</table:calculation-settings>".to_string())
    );
    assert_eq!(
        written(|xml| write_placed_tags(&tags, TagPlace::BookTail, xml)),
        Ok("<table:named-expressions>n</table:named-expressions><table:database-ranges>d</table:database-ranges>".to_string())
    );
    assert!(tag_belongs(TagPlace::TableHead, "office:forms"));
    assert!(!tag_belongs(TagPlace::TableHead, "table:named-expressions"));
    assert!(tag_belongs(TagPlace::BookHead, "office:scripts"));
    assert!(tag_belongs(TagPlace::BookTail, "table:dde-links"));
    assert!(!tag_belongs(TagPlace::BookTail, "office:scripts"));
}

#[test]
fn foreign_tags_of_a_sheet_and_of_a_workbook_are_written() {
    let mut sheet = Sheet::new("s");
    sheet.cells.push(GridCell {
        row: 0,
        col: 0,
        content: CellContent {
            value: Some(Value::Text("X".to_string())),
            formula: None,
            style: None,
            validation_name: None,
            span: None,
        },
    });
    sheet.extent = (1, 1);
    sheet.extra.push(plain("table:named-expressions", "after"));
    sheet.extra.push(plain("table:title", "before"));
    let mut book = WorkBook::new();
    book.extra.push(plain("table:database-ranges", "tail"));
    book.extra.push(plain("table:calculation-settings", "head"));
    let table = "<table:table table:name=\"s\"><table:title>before</table:title><table:table-column/><table:table-row><table:table-cell office:value-type=\"string\"><text:p>X</text:p></table:table-cell></table:table-row></table:table><table:named-expressions>after</table:named-expressions>";
    assert_eq!(written(|xml| write_sheet(&book, &sheet, xml)), Ok(table.to_string()));
    book.sheets.push(sheet);
    let mut out = String::new();
    write_ods_content(&book, &mut out).unwrap();
    let body = out.split("<office:body>").nth(1).unwrap();
    assert_eq!(
        body,
        format!(
            "<office:spreadsheet><table:calculation-settings>head</table:calculation-settings>{}<table:database-ranges>tail</table:database-ranges></office:spreadsheet></office:body></office:document-content>",
            table
        )
    );
}

#[test]
fn content_document_with_fonts_styles_and_rules() {
    let mut book = WorkBook::new();
    let mut sheet = Sheet::new("s");
    sheet.extent = (1, 1);
    sheet.cells.push(GridCell {
        row: 0,
        col: 0,
        content: CellContent {
            value: None,
            formula: None,
            style: Some("ce1".to_string()),
            validation_name: Some("val1".to_string()),
            span: None,
        },
    });
    book.sheets.push(sheet);
    book.fonts.push(FontFaceDecl { name: "F".to_string(), origin: StyleOrigin::Content, attr: Vec::new() });
    book.fonts.push(FontFaceDecl { name: "G".to_string(), origin: StyleOrigin::Styles, attr: Vec::new() });
    book.styles.push(style(StyleFamily::TableCell, StyleOrigin::Content, StyleUse::Automatic, "ce1"));
    book.styles.push(style(StyleFamily::TableCell, StyleOrigin::Styles, StyleUse::Named, "Default"));
    book.formats.push(format(ValueType::Number, StyleOrigin::Content, StyleUse::Automatic, "N1"));
    book.validations.push(Validation {
        name: "val1".to_string(),
        condition: "c".to_string(),
        allow_empty: true,
        display: ValidationDisplay::NoDisplay,
        base_cell: "s.A1".to_string(),
        err: None,
        help: None,
    });
    let mut out = String::new();
    write_ods_content(&book, &mut out).unwrap();
    let rest = out.split(" office:version=\"1.3\">").nth(1).unwrap();
    assert_eq!(
        rest,
        [
            "<office:scripts/>",
            "<office:font-face-decls><style:font-face style:name=\"F\"/></office:font-face-decls>",
            "<office:automatic-styles>",
            "<style:style style:name=\"ce1\" style:family=\"table-cell\"></style:style>",
            "<number:number-style style:name=\"N1\"></number:number-style>",
            "</office:automatic-styles>",
            "<office:body><office:spreadsheet>",
            "<table:content-validations><table:content-validation table:name=\"val1\" table:condition=\"c\" table:allow-empty-cell=\"true\" table:display-list=\"no\" table:base-cell-address=\"s.A1\"></table:content-validation></table:content-validations>",
            "<table:table table:name=\"s\"><table:table-column/><table:table-row><table:table-cell table:style-name=\"ce1\" table:content-validation-name=\"val1\"/></table:table-row></table:table>",
            "</office:spreadsheet></office:body></office:document-content>",
        ]
        .concat()
    );
}

#[test]
fn styles_document_with_everything() {
    let mut book = WorkBook::new();
    book.version = "1.2".to_string();
    book.fonts.push(FontFaceDecl { name: "F".to_string(), origin: StyleOrigin::Content, attr: Vec::new() });
    book.fonts.push(FontFaceDecl { name: "G".to_string(), origin: StyleOrigin::Styles, attr: Vec::new() });
    book.styles.push(style(StyleFamily::TableCell, StyleOrigin::Styles, StyleUse::Automatic, "auto"));
    book.styles.push(style(StyleFamily::TableCell, StyleOrigin::Styles, StyleUse::Named, "named"));
    book.styles.push(style(StyleFamily::TableCell, StyleOrigin::Styles, StyleUse::Default, "default"));
    book.styles.push(style(StyleFamily::TableCell, StyleOrigin::Content, StyleUse::Automatic, "content"));
    book.formats.push(format(ValueType::Number, StyleOrigin::Styles, StyleUse::Default, "fd"));
    book.formats.push(format(ValueType::Number, StyleOrigin::Styles, StyleUse::Named, "fn"));
    book.formats.push(format(ValueType::Number, StyleOrigin::Styles, StyleUse::Automatic, "fa"));
    book.pagestyles.push(PageStyle {
        name: "pl".to_string(),
        master_page_usage: None,
        style: Vec::new(),
        headerstyle: Vec::new(),
        footerstyle: Vec::new(),
    });
    book.masterpages.push(MasterPage {
        name: "m".to_string(),
        pagestyle: "pl".to_string(),
        header: HeaderFooter::new(),
        header_first: HeaderFooter::new(),
        header_left: HeaderFooter::new(),
        footer: HeaderFooter::new(),
        footer_first: HeaderFooter::new(),
        footer_left: HeaderFooter::new(),
    });
    let text = write_ods_styles(&book).unwrap();
    assert!(text.starts_with("<?xml version=\"1.0\" encoding=\"UTF-8\" ?>\n<office:document-styles xmlns:meta=\"urn:oasis:names:tc:opendocument:xmlns:meta:1.0\""));
    let rest = text.split(" office:version=\"1.2\">").nth(1).unwrap();
    assert_eq!(
        rest,
        [
            "<office:font-face-decls><style:font-face style:name=\"G\"/></office:font-face-decls>",
            "<office:styles>",
            "<style:default-style style:family=\"table-cell\"></style:default-style>",
            "<style:style style:name=\"named\" style:family=\"table-cell\"></style:style>",
            "<number:number-style style:name=\"fn\"></number:number-style>",
            "<number:number-style style:name=\"fd\"></number:number-style>",
            "</office:styles>",
            "<office:automatic-styles>",
            "<style:page-layout style:name=\"pl\"><style:header-style><style:header-footer-properties/></style:header-style><style:footer-style><style:header-footer-properties/></style:footer-style></style:page-layout>",
            "<style:style style:name=\"auto\" style:family=\"table-cell\"></style:style>",
            "<number:number-style style:name=\"fa\"></number:number-style>",
            "</office:automatic-styles>",
            "<office:master-styles>",
            "<style:master-page style:name=\"m\" style:page-layout-name=\"pl\"><style:header></style:header><style:header_left style:display=\"false\"></style:header_left><style:footer></style:footer><style:footer_left style:display=\"false\"></style:footer_left></style:master-page>",
            "</office:master-styles>",
            "</office:document-styles>",
        ]
        .concat()
    );
}

#[test]
fn a_date_without_text_is_found_before_anything_is_written() {
    let mut sheet = Sheet::new("s");
    sheet.extent = (1, 2);
    for (col, secs) in [(0u32, 0i64), (1, i64::MAX)] {
        sheet.cells.push(GridCell {
            row: 0,
            col,
            content: CellContent {
                value: Some(Value::DateTime(Timestamp { secs, nanos: 0 })),
                formula: None,
                style: None,
                validation_name: None,
                span: None,
            },
        });
    }
    let book = WorkBook::new();
    let mut xml = XmlWriter::new("before".to_string());
    assert_eq!(
        write_sheet(&book, &sheet, &mut xml),
        Err(OdsError::Date { at: Some((0, 1)), secs: i64::MAX, nanos: 0 })
    );
    xml.close().unwrap();
    assert_eq!(xml.into_inner(), "before");
}

#[test]
fn only_what_a_family_has_is_written() {
    let full = |family: StyleFamily| {
        let mut s = style(family, StyleOrigin::Styles, StyleUse::Named, "n");
        s.properties = pairs(&[("own", "1")]);
        s.paragraphstyle = pairs(&[("par", "2")]);
        s.tabstops = Some(vec![pairs(&[("tab", "3")])]);
        s.textstyle = pairs(&[("txt", "4")]);
        s.stylemaps = Some(vec![StyleMap {
            condition: "c".to_string(),
            applied_style: "a".to_string(),
            base_cell: None,
        }]);
        written(|xml| write_style(&s, xml)).unwrap()
    };
    let own = |tag: &str| format!("<style:{}-properties own=\"1\"/>", tag);
    let frame = |family: &str, body: String| {
        format!("<style:style style:name=\"n\" style:family=\"{}\">{}</style:style>", family, body)
    };
    let par = "<style:paragraph-properties par=\"2\"/>";
    let tabs = "<style:paragraph-properties par=\"2\"><style:tab-stops><style:tab-stop tab=\"3\"/></style:tab-stops></style:paragraph-properties>";
    let txt = "<style:text-properties txt=\"4\"/>";
    let map = "<style:map style:condition=\"c\" style:apply-style-name=\"a\"/>";
    assert_eq!(full(StyleFamily::Table), frame("table", own("table")));
    assert_eq!(full(StyleFamily::TableRow), frame("table-row", own("table-row")));
    assert_eq!(full(StyleFamily::TableColumn), frame("table-column", own("table-column")));
    assert_eq!(full(StyleFamily::Graphic), frame("graphic", own("graphic")));
    assert_eq!(
        full(StyleFamily::TableCell),
        frame("table-cell", [own("table-cell").as_str(), par, txt, map].concat())
    );
    assert_eq!(full(StyleFamily::Paragraph), frame("paragraph", [tabs, txt].concat()));
    assert_eq!(full(StyleFamily::Text), frame("text", txt.to_string()));
}
