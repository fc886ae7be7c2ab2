//! The settings of a document: a tree of named items, and the settings
//! document.

use crate::error::OdsError;
use crate::escape::{escaped, lemma_escaped_ident_plain};
use crate::format::{signed_decimal, signed_decimal_string};
use crate::text::{
    decimal, decimal_string, lemma_append2, lemma_append3, lemma_append4, lemma_append5,
    lemma_append_empty, push_decimal, str_eq,
};
use crate::value::{datetime_text, format_datetime, Timestamp};
use crate::xmlwriter::{attr_text, dtd_text, end_tag_text, open_tag_text, Open, XmlWriter};
use vstd::prelude::*;

verus! {

/// The value of a setting. A floating point number is held as its text.
#[derive(Debug, PartialEq, Eq)]
pub enum ConfigValue {
    Base64Binary(String),
    Boolean(bool),
    DateTime(Timestamp),
    Double(String),
    Int(i32),
    Long(i64),
    Short(i16),
    Text(String),
}

/// An item of the settings: a value, or named items in a set, in a list
/// that is counted through, in a map, or in an entry of a list or map.
#[derive(Debug, PartialEq, Eq)]
pub enum ConfigItem {
    Value(ConfigValue),
    ItemSet(Vec<(String, ConfigItem)>),
    Indexed(Vec<(String, ConfigItem)>),
    Named(Vec<(String, ConfigItem)>),
    Entry(Vec<(String, ConfigItem)>),
}

/// Where an item stands.
#[derive(Clone, Copy, Debug, PartialEq, Eq, Structural)]
pub enum ConfigPlace {
    /// Directly in the settings.
    Top,
    /// In a set or in an entry.
    InSet,
    /// In a list that is counted through.
    InIndexed,
    /// In a map.
    InNamed,
}

/// The text of a 64 bit number with its sign.
pub open spec fn long_decimal(n: int) -> Seq<char> {
    signed_decimal(n)
}

/// The text of a 64 bit number with its sign.
pub fn long_decimal_string(n: i64) -> (s: String)
    ensures
        s@ == long_decimal(n as int),
{
    let mut out = String::new();
    if n < 0 {
        out.push('-');
        push_decimal(&mut out, ((-(n + 1)) as u64) + 1);
    } else {
        push_decimal(&mut out, n as u64);
    }
    out
}

impl ConfigValue {
    /// The name of the type of the value.
    pub open spec fn type_text(&self) -> Seq<char> {
        match self {
            ConfigValue::Base64Binary(_) => "base64Binary"@,
            ConfigValue::Boolean(_) => "boolean"@,
            ConfigValue::DateTime(_) => "datetime"@,
            ConfigValue::Double(_) => "double"@,
            ConfigValue::Int(_) => "int"@,
            ConfigValue::Long(_) => "long"@,
            ConfigValue::Short(_) => "short"@,
            ConfigValue::Text(_) => "string"@,
        }
    }

    /// The name of the type of the value.
    pub fn kind_name(&self) -> (s: &'static str)
        ensures
            s@ == self.type_text(),
    {
        match self {
            ConfigValue::Base64Binary(_) => "base64Binary",
            ConfigValue::Boolean(_) => "boolean",
            ConfigValue::DateTime(_) => "datetime",
            ConfigValue::Double(_) => "double",
            ConfigValue::Int(_) => "int",
            ConfigValue::Long(_) => "long",
            ConfigValue::Short(_) => "short",
            ConfigValue::Text(_) => "string",
        }
    }

    /// Whether the value is text without characters.
    pub open spec fn is_blank(&self) -> bool {
        match self {
            ConfigValue::Base64Binary(t) => t@.len() == 0,
            ConfigValue::Text(t) => t@.len() == 0,
            _ => false,
        }
    }

    /// The text of the value, written as it is; a date may have none.
    pub open spec fn body_text(&self) -> Option<Seq<char>> {
        match self {
            ConfigValue::Base64Binary(t) => Some(t@),
            ConfigValue::Boolean(b) => Some(
                if *b {
                    "true"@
                } else {
                    "false"@
                },
            ),
            ConfigValue::DateTime(t) => datetime_text(t.secs, t.nanos),
            ConfigValue::Double(t) => Some(t@),
            ConfigValue::Int(n) => Some(signed_decimal(*n as int)),
            ConfigValue::Long(n) => Some(long_decimal(*n as int)),
            ConfigValue::Short(n) => Some(signed_decimal(*n as int)),
            ConfigValue::Text(t) => Some(t@),
        }
    }
}

/// A setting as it is written: self-closing where its value is text without
/// characters.
pub open spec fn config_value_text(name: Seq<char>, v: &ConfigValue) -> Option<Seq<char>> {
    match v.body_text() {
        None => None,
        Some(body) => Some(
            open_tag_text("config:config-item"@) + attr_text("config:name"@, escaped(name, false))
                + attr_text("config:type"@, v.type_text()) + if v.is_blank() {
                seq!['/', '>']
            } else {
                seq!['>'] + body + end_tag_text("config:config-item"@)
            },
        ),
    }
}

/// Two texts one after the other, where both are there.
pub open spec fn both(a: Option<Seq<char>>, b: Option<Seq<char>>) -> Option<Seq<char>> {
    match (a, b) {
        (Some(x), Some(y)) => Some(x + y),
        _ => None,
    }
}

/// An element with an optional name and the given content.
pub open spec fn wrapped(tag: Seq<char>, name: Option<Seq<char>>, content: Option<Seq<char>>) -> Option<
    Seq<char>,
> {
    match content {
        None => None,
        Some(c) => Some(
            open_tag_text(tag) + (match name {
                Some(n) => attr_text("config:name"@, escaped(n, false)),
                None => Seq::empty(),
            }) + seq!['>'] + c + end_tag_text(tag),
        ),
    }
}

/// The first of the named items from `from` on that has the name `key`.
pub open spec fn find_key(items: Seq<(String, ConfigItem)>, key: Seq<char>, from: int) -> Option<
    int,
>
    decreases items.len() - from,
{
    if from < 0 || from >= items.len() {
        None
    } else if items[from].0@ == key {
        Some(from)
    } else {
        find_key(items, key, from + 1)
    }
}

impl ConfigItem {
    /// The named items that an item holds; a value holds none.
    pub open spec fn kids(&self) -> Seq<(String, ConfigItem)> {
        match self {
            ConfigItem::Value(_) => Seq::empty(),
            ConfigItem::ItemSet(c) => c@,
            ConfigItem::Indexed(c) => c@,
            ConfigItem::Named(c) => c@,
            ConfigItem::Entry(c) => c@,
        }
    }

    /// How many items of a list are counted through from `index` on: the
    /// items with the names 0, 1, 2 and so on, up to the first number that
    /// no item is named by.
    pub open spec fn run_end(&self, index: int) -> int
        decreases self.kids().len() - index,
    {
        if 0 <= index < self.kids().len() && find_key(self.kids(), decimal(index as nat), 0)
            is Some {
            self.run_end(index + 1)
        } else {
            index
        }
    }

    /// The item as it is written at the given place under the given name;
    /// `None` where an item of its kind may not stand there, or where
    /// something inside it cannot be written.
    pub open spec fn text_at(&self, place: ConfigPlace, name: Seq<char>) -> Option<Seq<char>>
        decreases self, 1nat, 0nat,
    {
        match self {
            ConfigItem::Value(v) => if place == ConfigPlace::Top {
                None
            } else {
                config_value_text(name, v)
            },
            ConfigItem::ItemSet(c) => if place == ConfigPlace::Top || place == ConfigPlace::InSet {
                wrapped(
                    "config:config-item-set"@,
                    Some(name),
                    self.kids_text(ConfigPlace::InSet, c@.len()),
                )
            } else {
                None
            },
            ConfigItem::Indexed(c) => if place == ConfigPlace::InSet {
                wrapped(
                    "config:config-item-map-indexed"@,
                    Some(name),
                    self.indexed_text(name, self.run_end(0) as nat),
                )
            } else {
                None
            },
            ConfigItem::Named(c) => if place == ConfigPlace::InSet {
                wrapped(
                    "config:config-item-map-named"@,
                    Some(name),
                    self.kids_text(ConfigPlace::InNamed, c@.len()),
                )
            } else {
                None
            },
            ConfigItem::Entry(c) => if place == ConfigPlace::InNamed {
                wrapped(
                    "config:config-item-map-entry"@,
                    Some(name),
                    self.kids_text(ConfigPlace::InSet, c@.len()),
                )
            } else if place == ConfigPlace::InIndexed {
                wrapped(
                    "config:config-item-map-entry"@,
                    None,
                    self.kids_text(ConfigPlace::InSet, c@.len()),
                )
            } else {
                None
            },
        }
    }

    /// The first `n` items that this item holds, each written at the given
    /// place under its own name.
    pub open spec fn kids_text(&self, place: ConfigPlace, n: nat) -> Option<Seq<char>>
        decreases self, 0nat, n,
    {
        if n == 0 || n > self.kids().len() || self is Value {
            Some(Seq::empty())
        } else {
            both(
                self.kids_text(place, (n - 1) as nat),
                self.kids()[n - 1].1.text_at(place, self.kids()[n - 1].0@),
            )
        }
    }

    /// The items of a list with the names 0 up to `n`, `n` left out, each
    /// written under the name of the list.
    pub open spec fn indexed_text(&self, name: Seq<char>, n: nat) -> Option<Seq<char>>
        decreases self, 0nat, n,
    {
        if n == 0 || self is Value {
            Some(Seq::empty())
        } else {
            match find_key(self.kids(), decimal((n - 1) as nat), 0) {
                Some(k) => if 0 <= k < self.kids().len() {
                    both(
                        self.indexed_text(name, (n - 1) as nat),
                        self.kids()[k].1.text_at(ConfigPlace::InIndexed, name),
                    )
                } else {
                    None
                },
                None => None,
            }
        }
    }
}

/// The settings as they are written: each at the top.
pub open spec fn settings_items_text(items: Seq<(String, ConfigItem)>, n: nat) -> Option<
    Seq<char>,
>
    decreases n,
{
    if n == 0 || n > items.len() {
        Some(Seq::empty())
    } else {
        both(
            settings_items_text(items, (n - 1) as nat),
            items[n - 1].1.text_at(ConfigPlace::Top, items[n - 1].0@),
        )
    }
}

/// The start of the settings document.
#[verifier::opaque]
pub open spec fn settings_head_text(version: Seq<char>) -> Seq<char> {
    dtd_text("UTF-8"@) + (open_tag_text("office:document-settings"@) + attr_text(
        "xmlns:office"@,
        "urn:oasis:names:tc:opendocument:xmlns:office:1.0"@,
    ) + attr_text("xmlns:ooo"@, "http://openoffice.org/2004/office"@) + attr_text(
        "xmlns:config"@,
        "urn:oasis:names:tc:opendocument:xmlns:config:1.0"@,
    ) + attr_text("office:version"@, escaped(version, false)) + seq!['>']) + (open_tag_text(
        "office:settings"@,
    ) + seq!['>'])
}

/// The settings document, where the settings can be written.
pub open spec fn settings_text(version: Seq<char>, items: Seq<(String, ConfigItem)>) -> Option<
    Seq<char>,
> {
    match settings_items_text(items, items.len()) {
        Some(t) => Some(
            settings_head_text(version) + t + (end_tag_text("office:settings"@) + end_tag_text(
                "office:document-settings"@,
            )),
        ),
        None => None,
    }
}

/// Finds the first of the named items that has the name `key`.
fn find_item<'a>(items: &'a Vec<(String, ConfigItem)>, key: &str) -> (r: Option<usize>)
    ensures
        match r {
            Some(k) => find_key(items@, key@, 0) == Some(k as int) && k < items@.len(),
            None => find_key(items@, key@, 0) is None,
        },
{
    let mut i: usize = 0;
    while i < items.len()
        invariant
            i <= items.len(),
            find_key(items@, key@, 0) == find_key(items@, key@, i as int),
        decreases items.len() - i,
    {
        if str_eq(items[i].0.as_str(), key) {
            return Some(i);
        }
        i += 1;
    }
    None
}

/// The message for settings in which an item stands where it may not.
pub open spec fn misplaced_text() -> Seq<char> {
    "The settings hold an item where it may not stand."@
}

/// Whether `e` is an error of settings that cannot be written: an item
/// stands where it may not, or a date has no text.
pub open spec fn is_settings_error(e: OdsError) -> bool {
    ||| (e matches OdsError::Ods(msg) && msg@ == misplaced_text())
    ||| (e matches OdsError::Date { at, secs, nanos } && at is None && datetime_text(secs, nanos)
        is None)
}

/// The error for an item that stands where it may not.
fn misplaced() -> (e: OdsError)
    ensures
        e matches OdsError::Ods(msg) && msg@ == misplaced_text(),
{
    OdsError::Ods("The settings hold an item where it may not stand.".to_owned())
}

/// Writes a setting.
pub fn write_config_item(name: &str, value: &ConfigValue, xml_out: &mut XmlWriter) -> (r: Result<
    (),
    OdsError,
>)
    ensures
        r is Ok <==> config_value_text(name@, value) is Some,
        r is Ok ==> final(xml_out).document() == old(xml_out).document() + config_value_text(
            name@,
            value,
        )->0 && final(xml_out).open_elements() == old(xml_out).open_elements(),
        r is Err ==> *final(xml_out) == *old(xml_out),
        r matches Err(e) ==> (value matches ConfigValue::DateTime(t) && e == (OdsError::Date {
            at: None,
            secs: t.secs,
            nanos: t.nanos,
        })),
{
    let body = match value {
        ConfigValue::Base64Binary(v) => v.clone(),
        ConfigValue::Boolean(v) => if *v {
            "true".to_owned()
        } else {
            "false".to_owned()
        },
        ConfigValue::DateTime(v) => match format_datetime(v.secs, v.nanos) {
            Some(text) => text,
            None => {
                return Err(OdsError::Date { at: None, secs: v.secs, nanos: v.nanos });
            },
        },
        ConfigValue::Double(v) => v.clone(),
        ConfigValue::Int(v) => signed_decimal_string(*v),
        ConfigValue::Long(v) => long_decimal_string(*v),
        ConfigValue::Short(v) => signed_decimal_string(*v as i32),
        ConfigValue::Text(v) => v.clone(),
    };
    let ghost start = xml_out.document();
    let ghost stack = xml_out.open_elements();
    let ghost shown = value.body_text()->0;
    assert(shown == body@);
    let is_empty = match value {
        ConfigValue::Base64Binary(t) => t.as_str().is_empty(),
        ConfigValue::Text(t) => t.as_str().is_empty(),
        _ => false,
    };
    proof {
        reveal_strlit("config:name");
        lemma_escaped_ident_plain("config:name"@);
    }
    if is_empty {
        xml_out.empty("config:config-item")?;
    } else {
        xml_out.elem("config:config-item")?;
    }
    xml_out.attr_esc("config:name", name)?;
    xml_out.attr("config:type", value.kind_name())?;
    proof {
        lemma_append4(
            start,
            open_tag_text("config:config-item"@),
            attr_text("config:name"@, escaped(name@, false)),
            attr_text("config:type"@, value.type_text()),
            if is_empty {
                seq!['/', '>']
            } else {
                seq!['>']
            },
        );
    }
    let ghost tag = xml_out.document();
    if !is_empty {
        xml_out.text(body.as_str())?;
        proof {
            assert(stack.push("config:config-item"@).drop_last() == stack);
            lemma_append2(tag, shown, end_tag_text("config:config-item"@));
            lemma_append2(
                start + open_tag_text("config:config-item"@) + attr_text(
                    "config:name"@,
                    escaped(name@, false),
                ) + attr_text("config:type"@, value.type_text()),
                seq!['>'],
                shown + end_tag_text("config:config-item"@),
            );
            lemma_append4(
                start,
                open_tag_text("config:config-item"@),
                attr_text("config:name"@, escaped(name@, false)),
                attr_text("config:type"@, value.type_text()),
                seq!['>'] + shown + end_tag_text("config:config-item"@),
            );
            assert(seq!['>'] + (shown + end_tag_text("config:config-item"@)) == seq!['>'] + shown
                + end_tag_text("config:config-item"@));
        }
        xml_out.end_elem("config:config-item")?;
    }
    Ok(())
}

impl ConfigItem {
    /// Once one of the first items cannot be written, the items cannot.
    pub proof fn lemma_kids_none(&self, place: ConfigPlace, i: nat, n: nat)
        requires
            i <= n <= self.kids().len(),
            self.kids_text(place, i) is None,
        ensures
            self.kids_text(place, n) is None,
        decreases n - i,
    {
        if i < n {
            self.lemma_kids_none(place, i, (n - 1) as nat);
        }
    }

    /// All items up to the end of the run are named by their numbers.
    pub proof fn lemma_run(&self, index: int, upto: int)
        requires
            0 <= index <= upto < self.run_end(index),
        ensures
            upto < self.kids().len(),
            find_key(self.kids(), decimal(upto as nat), 0) is Some,
            self.run_end(upto + 1) == self.run_end(index),
        decreases upto - index,
    {
        if index < upto {
            self.lemma_run(index + 1, upto);
        }
    }

    /// The run does not end before it begins.
    pub proof fn lemma_run_ge(&self, index: int)
        requires
            0 <= index,
        ensures
            self.run_end(index) >= index,
        decreases self.kids().len() - index,
    {
        if 0 <= index < self.kids().len() && find_key(self.kids(), decimal(index as nat), 0)
            is Some {
            self.lemma_run_ge(index + 1);
        }
    }

    /// Once one of the first counted items cannot be written, the list
    /// cannot.
    pub proof fn lemma_indexed_none(&self, name: Seq<char>, i: nat, n: nat)
        requires
            i <= n,
            self.indexed_text(name, i) is None,
        ensures
            self.indexed_text(name, n) is None,
        decreases n - i,
    {
        if i < n {
            self.lemma_indexed_none(name, i, (n - 1) as nat);
        }
    }

    /// The named items that this item holds; a value holds none.
    pub fn children(&self) -> (c: Option<&Vec<(String, ConfigItem)>>)
        ensures
            match c {
                Some(list) => list@ == self.kids() && !(self is Value),
                None => self is Value,
            },
    {
        match self {
            ConfigItem::Value(_) => None,
            ConfigItem::ItemSet(c) => Some(c),
            ConfigItem::Indexed(c) => Some(c),
            ConfigItem::Named(c) => Some(c),
            ConfigItem::Entry(c) => Some(c),
        }
    }
}

/// Writes an element with an optional name and, in it, the items that
/// `item` holds, each at the given place.
fn write_container(
    tag: &str,
    name: Option<&str>,
    item: &ConfigItem,
    place: ConfigPlace,
    xml_out: &mut XmlWriter,
) -> (r: Result<(), OdsError>)
    ensures
        r is Ok <==> item.kids_text(place, item.kids().len()) is Some,
        r is Ok ==> final(xml_out).document() == old(xml_out).document() + wrapped(
            tag@,
            match name {
                Some(n) => Some(n@),
                None => None,
            },
            item.kids_text(place, item.kids().len()),
        )->0 && final(xml_out).open_elements() == old(xml_out).open_elements(),
        r matches Err(e) ==> is_settings_error(e),
    decreases item, 0nat,
{
    let ghost start = xml_out.document();
    let ghost stack = xml_out.open_elements();
    let ghost named = match name {
        Some(n) => attr_text("config:name"@, escaped(n@, false)),
        None => Seq::empty(),
    };
    xml_out.elem(tag)?;
    proof {
        reveal_strlit("config:name");
        lemma_escaped_ident_plain("config:name"@);
        lemma_append_empty(xml_out.written());
        lemma_append3(start, open_tag_text(tag@), named, seq!['>']);
    }
    if let Some(n) = name {
        xml_out.attr_esc("config:name", n)?;
    }
    let ghost opened = xml_out.document();
    assert(opened == start + (open_tag_text(tag@) + named + seq!['>']));
    if let Some(list) = item.children() {
        let mut i: usize = 0;
        proof {
            lemma_append_empty(opened);
        }
        while i < list.len()
            invariant
                i <= list.len(),
                list@ == item.kids(),
                !(item is Value),
                item.kids_text(place, i as nat) is Some,
                xml_out.document() == opened + item.kids_text(place, i as nat)->0,
                xml_out.open_elements() == stack.push(tag@),
            decreases list.len() - i,
        {
            proof {
                lemma_append2(
                    opened,
                    item.kids_text(place, i as nat)->0,
                    list@[i as int].1.text_at(place, list@[i as int].0@)->0,
                );
                if list@[i as int].1.text_at(place, list@[i as int].0@) is None {
                    item.lemma_kids_none(place, (i + 1) as nat, list@.len());
                }
            }
            write_config_at(place, list[i].0.as_str(), &list[i].1, xml_out)?;
            i += 1;
        }
    }
    proof {
        assert(stack.push(tag@).drop_last() == stack);
        let kids = item.kids_text(place, item.kids().len())->0;
        lemma_append3(start, open_tag_text(tag@) + named + seq!['>'], kids, end_tag_text(tag@));
        assert(open_tag_text(tag@) + named + seq!['>'] + kids + end_tag_text(tag@) == (
        open_tag_text(tag@) + named + seq!['>']) + kids + end_tag_text(tag@));
    }
    xml_out.end_elem(tag)?;
    Ok(())
}

/// Writes a list that is counted through: the items with the names 0, 1, 2
/// and so on, up to the first number that names no item.
pub fn write_config_item_map_indexed(name: &str, vec: &ConfigItem, xml_out: &mut XmlWriter) -> (r:
    Result<(), OdsError>)
    ensures
        r is Ok <==> vec.indexed_text(name@, vec.run_end(0) as nat) is Some,
        r is Ok ==> final(xml_out).document() == old(xml_out).document() + wrapped(
            "config:config-item-map-indexed"@,
            Some(name@),
            vec.indexed_text(name@, vec.run_end(0) as nat),
        )->0 && final(xml_out).open_elements() == old(xml_out).open_elements(),
        r matches Err(e) ==> is_settings_error(e),
    decreases vec, 0nat,
{
    let ghost start = xml_out.document();
    let ghost stack = xml_out.open_elements();
    let ghost tag = "config:config-item-map-indexed"@;
    let ghost named = attr_text("config:name"@, escaped(name@, false));
    xml_out.elem("config:config-item-map-indexed")?;
    proof {
        reveal_strlit("config:name");
        lemma_escaped_ident_plain("config:name"@);
        lemma_append3(start, open_tag_text(tag), named, seq!['>']);
    }
    xml_out.attr_esc("config:name", name)?;
    let ghost opened = xml_out.document();
    let ghost mut end: int = 0;
    if let Some(list) = vec.children() {
        let mut index: usize = 0;
        proof {
            lemma_append_empty(opened);
        }
        loop
            invariant_except_break
                index <= list.len(),
                list@ == vec.kids(),
                !(vec is Value),
                vec.run_end(0) == vec.run_end(index as int),
                vec.indexed_text(name@, index as nat) is Some,
                xml_out.document() == opened + vec.indexed_text(name@, index as nat)->0,
                xml_out.open_elements() == stack.push(tag),
            ensures
                end == vec.run_end(0),
                end >= 0,
                vec.indexed_text(name@, end as nat) is Some,
                xml_out.document() == opened + vec.indexed_text(name@, end as nat)->0,
                xml_out.open_elements() == stack.push(tag),
            decreases list.len() - index,
        {
            if index >= list.len() {
                proof {
                    end = index as int;
                }
                break;
            }
            let index_str = decimal_string(index as u64);
            match find_item(list, index_str.as_str()) {
                Some(k) => {
                    proof {
                        lemma_append2(
                            opened,
                            vec.indexed_text(name@, index as nat)->0,
                            list@[k as int].1.text_at(ConfigPlace::InIndexed, name@)->0,
                        );
                        vec.lemma_run_ge(index + 1);
                        assert(vec.run_end(index as int) == vec.run_end(index + 1));
                        if list@[k as int].1.text_at(ConfigPlace::InIndexed, name@) is None {
                            vec.lemma_indexed_none(
                                name@,
                                (index + 1) as nat,
                                vec.run_end(0) as nat,
                            );
                        }
                    }
                    write_config_at(ConfigPlace::InIndexed, name, &list[k].1, xml_out)?;
                },
                None => {
                    proof {
                        end = index as int;
                    }
                    break;
                },
            }
            index += 1;
        }
    } else {
        proof {
            lemma_append_empty(opened);
        }
    }
    proof {
        assert(stack.push(tag).drop_last() == stack);
        let kids = vec.indexed_text(name@, vec.run_end(0) as nat)->0;
        lemma_append3(start, open_tag_text(tag) + named + seq!['>'], kids, end_tag_text(tag));
        assert(open_tag_text(tag) + named + seq!['>'] + kids + end_tag_text(tag) == (
        open_tag_text(tag) + named + seq!['>']) + kids + end_tag_text(tag));
    }
    xml_out.end_elem("config:config-item-map-indexed")?;
    Ok(())
}

/// Writes a set of settings.
pub fn write_config_item_set(name: &str, set: &ConfigItem, xml_out: &mut XmlWriter) -> (r: Result<
    (),
    OdsError,
>)
    ensures
        r is Ok <==> set.kids_text(ConfigPlace::InSet, set.kids().len()) is Some,
        r is Ok ==> final(xml_out).document() == old(xml_out).document() + wrapped(
            "config:config-item-set"@,
            Some(name@),
            set.kids_text(ConfigPlace::InSet, set.kids().len()),
        )->0 && final(xml_out).open_elements() == old(xml_out).open_elements(),
        r matches Err(e) ==> is_settings_error(e),
    decreases set, 1nat,
{
    write_container("config:config-item-set", Some(name), set, ConfigPlace::InSet, xml_out)
}

/// Writes a map of settings.
pub fn write_config_item_map_named(name: &str, map: &ConfigItem, xml_out: &mut XmlWriter) -> (r:
    Result<(), OdsError>)
    ensures
        r is Ok <==> map.kids_text(ConfigPlace::InNamed, map.kids().len()) is Some,
        r is Ok ==> final(xml_out).document() == old(xml_out).document() + wrapped(
            "config:config-item-map-named"@,
            Some(name@),
            map.kids_text(ConfigPlace::InNamed, map.kids().len()),
        )->0 && final(xml_out).open_elements() == old(xml_out).open_elements(),
        r matches Err(e) ==> is_settings_error(e),
    decreases map, 1nat,
{
    write_container(
        "config:config-item-map-named",
        Some(name),
        map,
        ConfigPlace::InNamed,
        xml_out,
    )
}

/// Writes an entry of a list or of a map; in a map it has a name.
pub fn write_config_item_map_entry(
    name: Option<&str>,
    map_entry: &ConfigItem,
    xml_out: &mut XmlWriter,
) -> (r: Result<(), OdsError>)
    ensures
        r is Ok <==> map_entry.kids_text(ConfigPlace::InSet, map_entry.kids().len()) is Some,
        r is Ok ==> final(xml_out).document() == old(xml_out).document() + wrapped(
            "config:config-item-map-entry"@,
            match name {
                Some(n) => Some(n@),
                None => None,
            },
            map_entry.kids_text(ConfigPlace::InSet, map_entry.kids().len()),
        )->0 && final(xml_out).open_elements() == old(xml_out).open_elements(),
        r matches Err(e) ==> is_settings_error(e),
    decreases map_entry, 1nat,
{
    write_container("config:config-item-map-entry", name, map_entry, ConfigPlace::InSet, xml_out)
}

/// Writes an item at the given place under the given name. An item that may
/// not stand at the place is refused.
pub fn write_config_at(
    place: ConfigPlace,
    name: &str,
    item: &ConfigItem,
    xml_out: &mut XmlWriter,
) -> (r: Result<(), OdsError>)
    ensures
        r is Ok <==> item.text_at(place, name@) is Some,
        r is Ok ==> final(xml_out).document() == old(xml_out).document() + item.text_at(
            place,
            name@,
        )->0 && final(xml_out).open_elements() == old(xml_out).open_elements(),
        r matches Err(e) ==> is_settings_error(e),
    decreases item, 2nat,
{
    match item {
        ConfigItem::Value(value) => {
            if place == ConfigPlace::Top {
                return Err(misplaced());
            }
            write_config_item(name, value, xml_out)
        },
        ConfigItem::ItemSet(_) => {
            if place == ConfigPlace::Top || place == ConfigPlace::InSet {
                write_config_item_set(name, item, xml_out)
            } else {
                Err(misplaced())
            }
        },
        ConfigItem::Indexed(_) => {
            if place == ConfigPlace::InSet {
                write_config_item_map_indexed(name, item, xml_out)
            } else {
                Err(misplaced())
            }
        },
        ConfigItem::Named(_) => {
            if place == ConfigPlace::InSet {
                write_config_item_map_named(name, item, xml_out)
            } else {
                Err(misplaced())
            }
        },
        ConfigItem::Entry(_) => {
            if place == ConfigPlace::InNamed {
                write_config_item_map_entry(Some(name), item, xml_out)
            } else if place == ConfigPlace::InIndexed {
                write_config_item_map_entry(None, item, xml_out)
            } else {
                Err(misplaced())
            }
        },
    }
}

/// Once one of the first settings cannot be written, the settings cannot.
pub proof fn lemma_settings_none(items: Seq<(String, ConfigItem)>, i: nat, n: nat)
    requires
        i <= n <= items.len(),
        settings_items_text(items, i) is None,
    ensures
        settings_items_text(items, n) is None,
    decreases n - i,
{
    if i < n {
        lemma_settings_none(items, i, (n - 1) as nat);
    }
}

/// Writes the start of the settings document.
fn write_settings_head(version: &str, xml_out: &mut XmlWriter) -> (r: Result<(), OdsError>)
    requires
        old(xml_out).open_state() == Open::Nothing,
        old(xml_out).open_elements().len() == 0,
    ensures
        r is Ok,
        final(xml_out).document() == old(xml_out).document() + settings_head_text(version@),
        final(xml_out).open_elements() == Seq::<Seq<char>>::empty().push(
            "office:document-settings"@,
        ).push("office:settings"@),
{
    let ghost start = xml_out.document();
    xml_out.dtd("UTF-8")?;
    proof {
        lemma_append_empty(xml_out.written());
    }
    assert(xml_out.document() == start + dtd_text("UTF-8"@));
    xml_out.elem("office:document-settings")?;
    xml_out.attr("xmlns:office", "urn:oasis:names:tc:opendocument:xmlns:office:1.0")?;
    xml_out.attr("xmlns:ooo", "http://openoffice.org/2004/office")?;
    xml_out.attr("xmlns:config", "urn:oasis:names:tc:opendocument:xmlns:config:1.0")?;
    proof {
        reveal_strlit("office:version");
        lemma_escaped_ident_plain("office:version"@);
    }
    xml_out.attr_esc("office:version", version)?;
    proof {
        let a = attr_text("xmlns:office"@, "urn:oasis:names:tc:opendocument:xmlns:office:1.0"@);
        let b = attr_text("xmlns:ooo"@, "http://openoffice.org/2004/office"@);
        let c = attr_text("xmlns:config"@, "urn:oasis:names:tc:opendocument:xmlns:config:1.0"@);
        let d = attr_text("office:version"@, escaped(version@, false));
        lemma_append5(start + dtd_text("UTF-8"@) + open_tag_text("office:document-settings"@), a, b, c, d, seq!['>']);
        lemma_append2(
            start + dtd_text("UTF-8"@),
            open_tag_text("office:document-settings"@),
            a + b + c + d + seq!['>'],
        );
        assert(open_tag_text("office:document-settings"@) + (a + b + c + d + seq!['>'])
            == open_tag_text("office:document-settings"@) + a + b + c + d + seq!['>']);
        reveal(settings_head_text);
        lemma_append3(
            start,
            dtd_text("UTF-8"@),
            open_tag_text("office:document-settings"@) + a + b + c + d + seq!['>'],
            open_tag_text("office:settings"@) + seq!['>'],
        );
    }
    xml_out.elem("office:settings")?;
    Ok(())
}

/// Writes the settings document. Settings in which an item stands where it
/// may not, or with a date that has no text, are refused.
pub fn write_settings(version: &str, config: &Vec<(String, ConfigItem)>) -> (r: Result<
    String,
    OdsError,
>)
    ensures
        r is Ok <==> settings_text(version@, config@) is Some,
        r matches Ok(text) ==> Some(text@) == settings_text(version@, config@),
        r matches Err(e) ==> is_settings_error(e),
{
    let mut xml_out = XmlWriter::new(String::new());
    assert(xml_out.document() == Seq::<char>::empty());
    write_settings_head(version, &mut xml_out)?;
    proof {
        lemma_append_empty(settings_head_text(version@));
    }
    let ghost head = xml_out.document();
    let ghost stack = xml_out.open_elements();
    let mut i: usize = 0;
    proof {
        lemma_append_empty(head);
    }
    while i < config.len()
        invariant
            i <= config.len(),
            settings_items_text(config@, i as nat) is Some,
            xml_out.document() == head + settings_items_text(config@, i as nat)->0,
            xml_out.open_elements() == stack,
        decreases config.len() - i,
    {
        proof {
            lemma_append2(
                head,
                settings_items_text(config@, i as nat)->0,
                config@[i as int].1.text_at(ConfigPlace::Top, config@[i as int].0@)->0,
            );
            if config@[i as int].1.text_at(ConfigPlace::Top, config@[i as int].0@) is None {
                lemma_settings_none(config@, (i + 1) as nat, config@.len());
            }
        }
        write_config_at(ConfigPlace::Top, config[i].0.as_str(), &config[i].1, &mut xml_out)?;
        i += 1;
    }
    proof {
        let one = Seq::<Seq<char>>::empty().push("office:document-settings"@);
        assert(one.push("office:settings"@).drop_last() == one);
        assert(one.drop_last() == Seq::<Seq<char>>::empty());
        lemma_append2(
            xml_out.document(),
            end_tag_text("office:settings"@),
            end_tag_text("office:document-settings"@),
        );
        lemma_append3(
            Seq::<char>::empty(),
            settings_head_text(version@),
            settings_items_text(config@, config@.len())->0,
            end_tag_text("office:settings"@) + end_tag_text("office:document-settings"@),
        );
        lemma_append_empty(
            settings_head_text(version@) + settings_items_text(config@, config@.len())->0 + (
            end_tag_text("office:settings"@) + end_tag_text("office:document-settings"@)),
        );
    }
    xml_out.end_elem("office:settings")?;
    xml_out.end_elem("office:document-settings")?;
    xml_out.close()?;
    Ok(xml_out.into_inner())
}

} // verus!
