//! Foreign XML that is carried through unchanged: a tree of tags and text.

use crate::escape::escaped;
use crate::xmlwriter::{attr_text, end_tag_text, open_tag_text};
use vstd::prelude::*;

verus! {

/// One piece of a tag's content.
#[derive(Debug, PartialEq, Eq)]
pub enum XmlContent {
    /// Character data.
    Text(String),
    /// A nested tag.
    Tag(XmlTag),
}

/// A tag with its attributes, in their order, and its content.
#[derive(Debug, PartialEq, Eq)]
pub struct XmlTag {
    pub name: String,
    pub attr: Vec<(String, String)>,
    pub content: Vec<XmlContent>,
}

/// The attributes of a tag as they are written: each name escaped as an
/// identifier, each value as text.
pub open spec fn attrs_text(attrs: Seq<(String, String)>) -> Seq<char>
    decreases attrs.len(),
{
    if attrs.len() == 0 {
        Seq::empty()
    } else {
        attrs_text(attrs.drop_last()) + attr_text(
            escaped(attrs.last().0@, true),
            escaped(attrs.last().1@, false),
        )
    }
}

/// A tag as it is written. Without content it is self-closing; else its
/// content stands between its start tag and its end tag.
pub open spec fn tag_text(x: XmlTag) -> Seq<char>
    decreases x, 1nat,
{
    if x.content@.len() == 0 {
        open_tag_text(x.name@) + attrs_text(x.attr@) + seq!['/', '>']
    } else {
        open_tag_text(x.name@) + attrs_text(x.attr@) + seq!['>'] + contents_text(
            x,
            x.content@.len(),
        ) + end_tag_text(x.name@)
    }
}

/// The first `n` pieces of the content of `x` as they are written: text is
/// escaped, tags are written in full.
pub open spec fn contents_text(x: XmlTag, n: nat) -> Seq<char>
    decreases x, 0nat, n,
{
    if n == 0 || n > x.content@.len() {
        Seq::empty()
    } else {
        contents_text(x, (n - 1) as nat) + match x.content@[n - 1] {
            XmlContent::Text(t) => escaped(t@, false),
            XmlContent::Tag(t) => tag_text(t),
        }
    }
}

} // verus!
