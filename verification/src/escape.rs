//! The escaping rule for text and attribute values, and what a parser makes of it.

use vstd::prelude::*;

verus! {

/// What stands for one character in escaped text. The five characters that
/// carry meaning in markup become entity references; in identifier mode a
/// backslash is doubled as well.
pub open spec fn escape_char(c: char, ident: bool) -> Seq<char> {
    if c == '"' {
        seq!['&', 'q', 'u', 'o', 't', ';']
    } else if c == '\'' {
        seq!['&', 'a', 'p', 'o', 's', ';']
    } else if c == '&' {
        seq!['&', 'a', 'm', 'p', ';']
    } else if c == '<' {
        seq!['&', 'l', 't', ';']
    } else if c == '>' {
        seq!['&', 'g', 't', ';']
    } else if c == '\\' && ident {
        seq!['\\', '\\']
    } else {
        seq![c]
    }
}

/// The escaped form of a text: each character replaced by `escape_char`.
pub open spec fn escaped(s: Seq<char>, ident: bool) -> Seq<char>
    decreases s.len(),
{
    if s.len() == 0 {
        Seq::empty()
    } else {
        escape_char(s[0], ident) + escaped(s.drop_first(), ident)
    }
}

/// Whether `t` begins with `p`.
pub open spec fn starts_with(t: Seq<char>, p: Seq<char>) -> bool {
    p.len() <= t.len() && t.subrange(0, p.len() as int) == p
}

/// What a parser reads back from character data: the five predefined entity
/// references stand for their characters, every other character for itself.
pub open spec fn unescaped(t: Seq<char>) -> Seq<char>
    decreases t.len(),
{
    if t.len() == 0 {
        Seq::empty()
    } else if starts_with(t, seq!['&', 'q', 'u', 'o', 't', ';']) {
        seq!['"'] + unescaped(t.skip(6))
    } else if starts_with(t, seq!['&', 'a', 'p', 'o', 's', ';']) {
        seq!['\''] + unescaped(t.skip(6))
    } else if starts_with(t, seq!['&', 'a', 'm', 'p', ';']) {
        seq!['&'] + unescaped(t.skip(5))
    } else if starts_with(t, seq!['&', 'l', 't', ';']) {
        seq!['<'] + unescaped(t.skip(4))
    } else if starts_with(t, seq!['&', 'g', 't', ';']) {
        seq!['>'] + unescaped(t.skip(4))
    } else {
        seq![t[0]] + unescaped(t.skip(1))
    }
}

/// A character that may not stand for itself in character data or in a quoted
/// attribute value.
pub open spec fn is_markup(c: char) -> bool {
    c == '<' || c == '>' || c == '"' || c == '\'' || c == '&'
}

/// Escaping goes left to right: the escaped form of a concatenation is the
/// concatenation of the escaped forms.
pub proof fn lemma_escaped_concat(a: Seq<char>, b: Seq<char>, ident: bool)
    ensures
        escaped(a + b, ident) == escaped(a, ident) + escaped(b, ident),
    decreases a.len(),
{
    if a.len() == 0 {
        assert(a + b == b);
    } else {
        lemma_escaped_concat(a.drop_first(), b, ident);
        assert((a + b).drop_first() == a.drop_first() + b);
        assert((a + b)[0] == a[0]);
    }
}

/// Escaping one more character appends what stands for it.
pub proof fn lemma_escaped_push(s: Seq<char>, c: char, ident: bool)
    ensures
        escaped(s.push(c), ident) == escaped(s, ident) + escape_char(c, ident),
{
    lemma_escaped_concat(s, seq![c], ident);
    assert(s.push(c) == s + seq![c]);
    assert(seq![c].drop_first() == Seq::<char>::empty());
    assert(escaped(seq![c], ident) == escape_char(c, ident)) by {
        reveal_with_fuel(escaped, 2);
    }
}

/// Escaping round trip. Reading back escaped text gives the text that was
/// escaped: the entity references are resolved to exactly the characters
/// that they replaced.
pub proof fn lemma_unescape_escaped(s: Seq<char>)
    ensures
        unescaped(escaped(s, false)) == s,
    decreases s.len(),
{
    if s.len() > 0 {
        let c = s[0];
        let rest = s.drop_first();
        let e = escape_char(c, false);
        let t = escaped(s, false);
        lemma_unescape_escaped(rest);
        assert(t == e + escaped(rest, false));
        assert(t.skip(e.len() as int) == escaped(rest, false));
        assert(t.subrange(0, e.len() as int) == e);
        assert(t[0] == e[0]);
        if is_markup(c) {
            assert(t[1] == e[1]);
            assert(t[2] == e[2]);
            assert(starts_with(t, e));
        } else {
            assert(t[0] != '&');
        }
        assert(s == seq![c] + rest);
    }
}

/// Escaped text holds no markup character but the `&` that opens an entity
/// reference: none of `<`, `>`, `"`, `'` occurs in it.
pub proof fn lemma_escaped_no_markup(s: Seq<char>, ident: bool, i: int)
    requires
        0 <= i < escaped(s, ident).len(),
    ensures
        escaped(s, ident)[i] != '<',
        escaped(s, ident)[i] != '>',
        escaped(s, ident)[i] != '"',
        escaped(s, ident)[i] != '\'',
    decreases s.len(),
{
    if s.len() > 0 {
        let e = escape_char(s[0], ident);
        if i >= e.len() {
            lemma_escaped_no_markup(s.drop_first(), ident, i - e.len());
        }
    }
}

/// Text without markup characters and without backslashes is its own escaped
/// form in identifier mode as well.
pub proof fn lemma_escaped_ident_plain(s: Seq<char>)
    requires
        forall|i: int| 0 <= i < s.len() ==> !is_markup(#[trigger] s[i]) && s[i] != '\\',
    ensures
        escaped(s, true) == s,
    decreases s.len(),
{
    if s.len() > 0 {
        lemma_escaped_ident_plain(s.drop_first());
        assert(s == seq![s[0]] + s.drop_first());
    }
}

/// Whether one of the five entity references starts at the place `i` of
/// the text `t`.
pub open spec fn entity_at(t: Seq<char>, i: int) -> bool {
    0 <= i <= t.len() && (starts_with(t.skip(i), seq!['&', 'q', 'u', 'o', 't', ';'])
        || starts_with(t.skip(i), seq!['&', 'a', 'p', 'o', 's', ';']) || starts_with(
        t.skip(i),
        seq!['&', 'a', 'm', 'p', ';'],
    ) || starts_with(t.skip(i), seq!['&', 'l', 't', ';']) || starts_with(
        t.skip(i),
        seq!['&', 'g', 't', ';'],
    ))
}

/// In escaped text every `&` opens one of the five entity references.
pub proof fn lemma_escaped_ampersand(s: Seq<char>, ident: bool, i: int)
    requires
        0 <= i < escaped(s, ident).len(),
        escaped(s, ident)[i] == '&',
    ensures
        entity_at(escaped(s, ident), i),
    decreases s.len(),
{
    if s.len() > 0 {
        let head = escape_char(s[0], ident);
        let tail = escaped(s.drop_first(), ident);
        let all = head + tail;
        if i >= head.len() {
            lemma_escaped_ampersand(s.drop_first(), ident, i - head.len());
            assert(all.skip(i) =~= tail.skip(i - head.len()));
        } else {
            assert(i == 0);
            assert(all.skip(0).subrange(0, head.len() as int) =~= head);
        }
    }
}

/// Appends the escaped form of `text` to `out`: text and attribute values
/// with `ident` off, names with `ident` on.
///
/// What is appended holds none of `<`, `>`, `"`, `'`, and every `&` in it
/// opens an entity reference. Without `ident` a parser reads the text back
/// from it.
pub fn push_escaped(out: &mut String, text: &str, ident: bool)
    ensures
        final(out)@ == old(out)@ + escaped(text@, ident),
        !ident ==> unescaped(escaped(text@, ident)) == text@,
        forall|i: int|
            0 <= i < escaped(text@, ident).len() ==> {
                let c = #[trigger] escaped(text@, ident)[i];
                &&& c != '<' && c != '>' && c != '"' && c != '\''
                &&& c == '&' ==> entity_at(escaped(text@, ident), i)
            },
{
    let ghost before = out@;
    for c in it: text.chars()
        invariant
            it.seq() == text@,
            out@ == before + escaped(text@.subrange(0, it.index()), ident),
    {
        proof {
            let done = text@.subrange(0, it.index());
            lemma_escaped_push(done, c, ident);
            assert(done.push(c) == text@.subrange(0, it.index() + 1));
            reveal_strlit("&quot;");
            reveal_strlit("&apos;");
            reveal_strlit("&amp;");
            reveal_strlit("&lt;");
            reveal_strlit("&gt;");
            assert("&quot;"@ == seq!['&', 'q', 'u', 'o', 't', ';']);
            assert("&apos;"@ == seq!['&', 'a', 'p', 'o', 's', ';']);
            assert("&amp;"@ == seq!['&', 'a', 'm', 'p', ';']);
            assert("&lt;"@ == seq!['&', 'l', 't', ';']);
            assert("&gt;"@ == seq!['&', 'g', 't', ';']);
        }
        if c == '"' {
            out.append("&quot;");
        } else if c == '\'' {
            out.append("&apos;");
        } else if c == '&' {
            out.append("&amp;");
        } else if c == '<' {
            out.append("&lt;");
        } else if c == '>' {
            out.append("&gt;");
        } else if c == '\\' && ident {
            out.push('\\');
            out.push('\\');
        } else {
            out.push(c);
        }
    }
    proof {
        assert(text@.subrange(0, text@.len() as int) == text@);
        if !ident {
            lemma_unescape_escaped(text@);
        }
        assert forall|i: int| 0 <= i < escaped(text@, ident).len() implies {
            let c = #[trigger] escaped(text@, ident)[i];
            &&& c != '<' && c != '>' && c != '"' && c != '\''
            &&& c == '&' ==> entity_at(escaped(text@, ident), i)
        } by {
            lemma_escaped_no_markup(text@, ident, i);
            if escaped(text@, ident)[i] == '&' {
                lemma_escaped_ampersand(text@, ident, i);
            }
        }
    }
}

} // verus!
