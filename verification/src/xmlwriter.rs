//! A streaming writer for XML text that keeps track of the open elements.

use crate::escape::{escaped, push_escaped};
use crate::text::str_eq;
use vstd::prelude::*;

verus! {

/// The start tag that is still being written, if any.
#[derive(Clone, Copy, Debug, PartialEq, Eq, Structural)]
pub enum Open {
    /// No start tag is pending.
    Nothing,
    /// The start tag of an element with content is pending.
    Elem,
    /// The tag of a self-closing element is pending.
    Empty,
}

/// What finishes a pending start tag.
pub open spec fn finish_text(open: Open) -> Seq<char> {
    match open {
        Open::Nothing => Seq::empty(),
        Open::Elem => seq!['>'],
        Open::Empty => seq!['/', '>'],
    }
}

/// The text of an attribute inside a start tag: a blank, the name, and the
/// value between double quotes.
pub open spec fn attr_text(name: Seq<char>, value: Seq<char>) -> Seq<char> {
    seq![' '] + name + seq!['=', '"'] + value + seq!['"']
}

/// The start tag of `name`, still without the `>` that finishes it.
pub open spec fn open_tag_text(name: Seq<char>) -> Seq<char> {
    seq!['<'] + name
}

/// The end tag of `name`.
pub open spec fn end_tag_text(name: Seq<char>) -> Seq<char> {
    seq!['<', '/'] + name + seq!['>']
}

/// An element that holds nothing but `text`.
pub open spec fn elem_text_text(name: Seq<char>, text: Seq<char>) -> Seq<char> {
    seq!['<'] + name + seq!['>'] + text + end_tag_text(name)
}

/// What went wrong when the writer was used against its rules. Each variant
/// names the element or attribute at which the call was refused.
#[derive(Debug, PartialEq, Eq)]
pub enum XmlError {
    /// An attribute was written while no start tag was pending.
    AttrWithoutElement { attr: String },
    /// An element was closed under another name than the innermost open one.
    CloseMismatch { open: String, closed: String },
    /// An element was closed while none was open.
    CloseWithoutElement { closed: String },
    /// The document was closed while this element, the innermost, was open.
    UnclosedElement { open: String },
}

/// The names of the elements that are open, outermost first.
#[derive(Debug)]
pub struct Stack {
    stack: Vec<String>,
}

impl Stack {
    /// The names on the stack, the innermost element last.
    pub closed spec fn names(&self) -> Seq<Seq<char>> {
        self.stack@.map_values(|s: String| s@)
    }

    /// An empty stack.
    pub fn new() -> (s: Self)
        ensures
            s.names() == Seq::<Seq<char>>::empty(),
    {
        Self { stack: Vec::new() }
    }

    /// Puts `name` on top.
    pub fn push(&mut self, name: &str)
        ensures
            final(self).names() == old(self).names().push(name@),
    {
        self.stack.push(name.to_owned());
    }

    /// Takes the innermost name off, if there is one.
    pub fn pop(&mut self) -> (top: Option<String>)
        ensures
            old(self).names().len() == 0 ==> top is None && final(self).names() == old(
                self,
            ).names(),
            old(self).names().len() > 0 ==> top is Some && top->0@ == old(self).names().last()
                && final(self).names() == old(self).names().drop_last(),
    {
        self.stack.pop()
    }

    /// Whether no element is open.
    pub fn is_empty(&self) -> (b: bool)
        ensures
            b == (self.names().len() == 0),
    {
        self.stack.len() == 0
    }

    /// The innermost name, if there is one.
    pub fn top(&self) -> (top: Option<&String>)
        ensures
            self.names().len() == 0 ==> top is None,
            self.names().len() > 0 ==> top is Some && top->0@ == self.names().last(),
    {
        let n = self.stack.len();
        if n == 0 {
            None
        } else {
            Some(&self.stack[n - 1])
        }
    }
}

/// The declaration that opens a document, for the given encoding.
pub open spec fn dtd_text(encoding: Seq<char>) -> Seq<char> {
    "<?xml version=\"1.0\" encoding=\""@ + encoding + "\" ?>\n"@
}

/// The XML writer. It appends to a sink that it owns, through a buffer that it
/// hands over whenever a start tag is finished and when the document is closed.
#[derive(Debug)]
pub struct XmlWriter {
    writer: String,
    buf: String,
    stack: Stack,
    open: Open,
}

impl XmlWriter {
    /// What has been handed to the sink.
    pub closed spec fn flushed(&self) -> Seq<char> {
        self.writer@
    }

    /// What is held back in the buffer.
    pub closed spec fn buffered(&self) -> Seq<char> {
        self.buf@
    }

    /// The names of the open elements, the innermost last.
    pub closed spec fn open_elements(&self) -> Seq<Seq<char>> {
        self.stack.names()
    }

    /// The start tag that is pending.
    pub closed spec fn open_state(&self) -> Open {
        self.open
    }

    /// Every character written so far, in the sink or in the buffer.
    pub open spec fn written(&self) -> Seq<char> {
        self.flushed() + self.buffered()
    }

    /// The document as it stands once the pending start tag is finished.
    pub open spec fn document(&self) -> Seq<char> {
        self.written() + finish_text(self.open_state())
    }

    /// A writer that appends to `writer`.
    pub fn new(writer: String) -> (w: XmlWriter)
        ensures
            w.flushed() == writer@,
            w.buffered() == Seq::<char>::empty(),
            w.open_elements() == Seq::<Seq<char>>::empty(),
            w.open_state() == Open::Nothing,
    {
        XmlWriter { stack: Stack::new(), buf: String::new(), writer, open: Open::Nothing }
    }

    /// Gives the sink back, with what has been handed to it. What is still
    /// buffered or pending is left out: `close` hands that over.
    pub fn into_inner(self) -> (sink: String)
        ensures
            sink@ == self.flushed(),
    {
        self.writer
    }

    /// Writes the XML declaration. The caller sees to it that the sink is
    /// stored in that encoding.
    pub fn dtd(&mut self, encoding: &str) -> (r: Result<(), XmlError>)
        ensures
            r is Ok,
            final(self).buffered() == old(self).buffered() + dtd_text(encoding@),
            final(self).flushed() == old(self).flushed(),
            final(self).open_elements() == old(self).open_elements(),
            final(self).open_state() == old(self).open_state(),
    {
        self.buf.append("<?xml version=\"1.0\" encoding=\"");
        self.buf.append(encoding);
        self.buf.append("\" ?>\n");
        Ok(())
    }

    /// Writes an element that holds `text` as it is, without escaping.
    pub fn elem_text(&mut self, name: &str, text: &str) -> (r: Result<(), XmlError>)
        ensures
            r is Ok,
            final(self).flushed() == old(self).document(),
            final(self).buffered() == elem_text_text(name@, text@),
            final(self).open_elements() == old(self).open_elements(),
            final(self).open_state() == Open::Nothing,
            final(self).document() == old(self).document() + elem_text_text(name@, text@),
    {
        self.close_elem()?;

        self.buf.push('<');
        self.buf.append(name);
        self.buf.push('>');

        self.buf.append(text);

        self.buf.push('<');
        self.buf.push('/');
        self.buf.append(name);
        self.buf.push('>');

        Ok(())
    }

    /// Writes an element that holds `text` as it is, unless `text` is empty:
    /// then nothing is written.
    pub fn opt_elem_text(&mut self, name: &str, text: &str) -> (r: Result<(), XmlError>)
        ensures
            r is Ok,
            text@.len() == 0 ==> *final(self) == *old(self),
            text@.len() > 0 ==> {
                &&& final(self).flushed() == old(self).document()
                &&& final(self).buffered() == elem_text_text(name@, text@)
                &&& final(self).open_elements() == old(self).open_elements()
                &&& final(self).open_state() == Open::Nothing
                &&& final(self).document() == old(self).document() + elem_text_text(name@, text@)
            },
    {
        if !text.is_empty() {
            self.elem_text(name, text)
        } else {
            Ok(())
        }
    }

    /// Writes an element that holds the escaped form of `text`, unless `text`
    /// is empty: then nothing is written.
    pub fn opt_elem_text_esc(&mut self, name: &str, text: &str) -> (r: Result<(), XmlError>)
        ensures
            r is Ok,
            text@.len() == 0 ==> *final(self) == *old(self),
            text@.len() > 0 ==> {
                &&& final(self).flushed() == old(self).document()
                &&& final(self).buffered() == elem_text_text(name@, escaped(text@, false))
                &&& final(self).open_elements() == old(self).open_elements()
                &&& final(self).open_state() == Open::Nothing
                &&& final(self).document() == old(self).document() + elem_text_text(
                    name@,
                    escaped(text@, false),
                )
            },
    {
        if !text.is_empty() {
            self.elem_text_esc(name, text)
        } else {
            Ok(())
        }
    }

    /// Writes an element that holds the escaped form of `text`.
    pub fn elem_text_esc(&mut self, name: &str, text: &str) -> (r: Result<(), XmlError>)
        ensures
            r is Ok,
            final(self).flushed() == old(self).document(),
            final(self).buffered() == elem_text_text(name@, escaped(text@, false)),
            final(self).open_elements() == old(self).open_elements(),
            final(self).open_state() == Open::Nothing,
            final(self).document() == old(self).document() + elem_text_text(
                name@,
                escaped(text@, false),
            ),
    {
        self.close_elem()?;

        self.buf.push('<');
        self.buf.append(name);
        self.buf.push('>');

        self.escape(text, false);

        self.buf.push('<');
        self.buf.push('/');
        self.buf.append(name);
        self.buf.push('>');

        Ok(())
    }

    /// Begins an element. The caller sees to it that `name` is a valid name.
    pub fn elem(&mut self, name: &str) -> (r: Result<(), XmlError>)
        ensures
            r is Ok,
            final(self).flushed() == old(self).document(),
            final(self).buffered() == open_tag_text(name@),
            final(self).open_elements() == old(self).open_elements().push(name@),
            final(self).open_state() == Open::Elem,
            final(self).written() == old(self).document() + open_tag_text(name@),
            final(self).document() == old(self).document() + open_tag_text(name@) + seq!['>'],
    {
        self.close_elem()?;

        self.stack.push(name);

        self.buf.push('<');
        self.open = Open::Elem;
        self.buf.append(name);
        Ok(())
    }

    /// Begins a self-closing element.
    pub fn empty(&mut self, name: &str) -> (r: Result<(), XmlError>)
        ensures
            r is Ok,
            final(self).flushed() == old(self).document(),
            final(self).buffered() == open_tag_text(name@),
            final(self).open_elements() == old(self).open_elements(),
            final(self).open_state() == Open::Empty,
            final(self).written() == old(self).document() + open_tag_text(name@),
            final(self).document() == old(self).document() + open_tag_text(name@) + seq!['/', '>'],
    {
        self.close_elem()?;

        self.buf.push('<');
        self.open = Open::Empty;
        self.buf.append(name);
        Ok(())
    }

    /// Finishes the pending start tag, if there is one, and hands the buffer
    /// to the sink.
    fn close_elem(&mut self) -> (r: Result<(), XmlError>)
        ensures
            r is Ok,
            final(self).flushed() == old(self).document(),
            final(self).buffered() == Seq::<char>::empty(),
            final(self).open_elements() == old(self).open_elements(),
            final(self).open_state() == Open::Nothing,
    {
        match self.open {
            Open::Nothing => {},
            Open::Elem => {
                self.buf.push('>');
            },
            Open::Empty => {
                self.buf.push('/');
                self.buf.push('>');
            },
        }
        self.open = Open::Nothing;
        self.write_buf()?;
        Ok(())
    }

    /// Writes an attribute into the pending start tag, name and value as they
    /// are. It is refused when no start tag is pending.
    pub fn attr(&mut self, name: &str, value: &str) -> (r: Result<(), XmlError>)
        ensures
            r is Ok <==> old(self).open_state() != Open::Nothing,
            r is Ok ==> {
                &&& final(self).buffered() == old(self).buffered() + attr_text(name@, value@)
                &&& final(self).written() == old(self).written() + attr_text(name@, value@)
                &&& final(self).flushed() == old(self).flushed()
                &&& final(self).open_elements() == old(self).open_elements()
                &&& final(self).open_state() == old(self).open_state()
            },
            r matches Err(e) ==> {
                &&& e matches XmlError::AttrWithoutElement { attr }
                &&& attr@ == name@
                &&& *final(self) == *old(self)
            },
    {
        if self.open == Open::Nothing {
            return Err(XmlError::AttrWithoutElement { attr: name.to_owned() });
        }
        self.buf.push(' ');
        self.buf.append(name);
        self.buf.push('=');
        self.buf.push('"');
        self.buf.append(value);
        self.buf.push('"');
        Ok(())
    }

    /// Writes an attribute into the pending start tag, the name escaped as an
    /// identifier and the value as text. It is refused when no start tag is
    /// pending.
    pub fn attr_esc(&mut self, name: &str, value: &str) -> (r: Result<(), XmlError>)
        ensures
            r is Ok <==> old(self).open_state() != Open::Nothing,
            r is Ok ==> {
                &&& final(self).buffered() == old(self).buffered() + attr_text(
                    escaped(name@, true),
                    escaped(value@, false),
                )
                &&& final(self).written() == old(self).written() + attr_text(
                    escaped(name@, true),
                    escaped(value@, false),
                )
                &&& final(self).flushed() == old(self).flushed()
                &&& final(self).open_elements() == old(self).open_elements()
                &&& final(self).open_state() == old(self).open_state()
            },
            r matches Err(e) ==> {
                &&& e matches XmlError::AttrWithoutElement { attr }
                &&& attr@ == name@
                &&& *final(self) == *old(self)
            },
    {
        if self.open == Open::Nothing {
            return Err(XmlError::AttrWithoutElement { attr: name.to_owned() });
        }
        self.buf.push(' ');
        self.escape(name, true);
        self.buf.push('=');
        self.buf.push('"');
        self.escape(value, false);
        self.buf.push('"');
        Ok(())
    }

    /// Appends the escaped form of `text` to the buffer.
    fn escape(&mut self, text: &str, ident: bool)
        ensures
            final(self).buffered() == old(self).buffered() + escaped(text@, ident),
            final(self).flushed() == old(self).flushed(),
            final(self).open_elements() == old(self).open_elements(),
            final(self).open_state() == old(self).open_state(),
    {
        push_escaped(&mut self.buf, text, ident);
    }

    /// Writes `text` as it is, without escaping.
    pub fn text(&mut self, text: &str) -> (r: Result<(), XmlError>)
        ensures
            r is Ok,
            final(self).flushed() == old(self).document(),
            final(self).buffered() == text@,
            final(self).open_elements() == old(self).open_elements(),
            final(self).open_state() == Open::Nothing,
            final(self).document() == old(self).document() + text@,
    {
        self.close_elem()?;
        self.buf.append(text);
        Ok(())
    }

    /// Writes the escaped form of `text`.
    pub fn text_esc(&mut self, text: &str) -> (r: Result<(), XmlError>)
        ensures
            r is Ok,
            final(self).flushed() == old(self).document(),
            final(self).buffered() == escaped(text@, false),
            final(self).open_elements() == old(self).open_elements(),
            final(self).open_state() == Open::Nothing,
            final(self).document() == old(self).document() + escaped(text@, false),
    {
        self.close_elem()?;
        self.escape(text, false);
        Ok(())
    }

    /// Ends the innermost open element, which must be `name`. It is refused,
    /// and nothing is written, when no element is open or when the innermost
    /// one has another name.
    pub fn end_elem(&mut self, name: &str) -> (r: Result<(), XmlError>)
        ensures
            r is Ok <==> old(self).open_elements().len() > 0 && old(self).open_elements().last()
                == name@,
            r is Ok ==> {
                &&& final(self).flushed() == old(self).document()
                &&& final(self).buffered() == end_tag_text(name@)
                &&& final(self).open_elements() == old(self).open_elements().drop_last()
                &&& final(self).open_state() == Open::Nothing
                &&& final(self).document() == old(self).document() + end_tag_text(name@)
            },
            r is Err ==> *final(self) == *old(self),
            r matches Err(e) ==> if old(self).open_elements().len() == 0 {
                e matches XmlError::CloseWithoutElement { closed } && closed@ == name@
            } else {
                e matches XmlError::CloseMismatch { open, closed } && closed@ == name@ && open@
                    == old(self).open_elements().last()
            },
    {
        match self.stack.top() {
            Some(test) => {
                if !str_eq(name, test.as_str()) {
                    return Err(
                        XmlError::CloseMismatch { open: test.clone(), closed: name.to_owned() },
                    );
                }
            },
            None => {
                return Err(XmlError::CloseWithoutElement { closed: name.to_owned() });
            },
        }

        self.close_elem()?;
        let _ = self.stack.pop();

        self.buf.push('<');
        self.buf.push('/');
        self.buf.append(name);
        self.buf.push('>');

        Ok(())
    }

    /// Hands the buffer to the sink.
    fn write_buf(&mut self) -> (r: Result<(), XmlError>)
        ensures
            r is Ok,
            final(self).flushed() == old(self).flushed() + old(self).buffered(),
            final(self).buffered() == Seq::<char>::empty(),
            final(self).open_elements() == old(self).open_elements(),
            final(self).open_state() == old(self).open_state(),
    {
        self.writer.append(self.buf.as_str());
        self.buf = String::new();
        Ok(())
    }

    /// Closes the document: finishes a pending start tag and hands everything
    /// to the sink. It is refused, and nothing is written, while an element is
    /// open.
    pub fn close(&mut self) -> (r: Result<(), XmlError>)
        ensures
            r is Ok <==> old(self).open_elements().len() == 0,
            r is Ok ==> {
                &&& final(self).flushed() == old(self).document()
                &&& final(self).buffered() == Seq::<char>::empty()
                &&& final(self).open_elements() == old(self).open_elements()
                &&& final(self).open_state() == Open::Nothing
            },
            r matches Err(e) ==> {
                &&& e matches XmlError::UnclosedElement { open }
                &&& open@ == old(self).open_elements().last()
                &&& *final(self) == *old(self)
            },
    {
        match self.stack.top() {
            Some(open) => {
                return Err(XmlError::UnclosedElement { open: open.clone() });
            },
            None => {},
        }
        self.close_elem()?;
        Ok(())
    }
}

} // verus!
