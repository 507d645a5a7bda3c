//! Escaping text for the exported reports: CSV fields, Markdown links and
//! HTML.

use vstd::prelude::*;
use crate::text::{push_char, push_str, to_chars};

verus! {

/// How HTML writes one character.
pub open spec fn html_char(c: char) -> Seq<char> {
    if c == '&' {
        "&amp;"@
    } else if c == '<' {
        "&lt;"@
    } else if c == '>' {
        "&gt;"@
    } else if c == '"' {
        "&quot;"@
    } else if c == '\'' {
        "&#39;"@
    } else {
        seq![c]
    }
}

/// `s` with `& < > " '` written as HTML entities.
pub open spec fn html_escaped(s: Seq<char>) -> Seq<char>
    decreases s.len(),
{
    if s.len() == 0 {
        Seq::empty()
    } else {
        html_escaped(s.drop_last()) + html_char(s.last())
    }
}

/// Escapes text for HTML.
pub fn html_escape(value: &str) -> (r: String)
    ensures
        r@ == html_escaped(value@),
{
    let cs = to_chars(value);
    let mut out = String::new();
    let mut i: usize = 0;
    while i < cs.len()
        invariant
            i <= cs@.len(),
            cs@ == value@,
            out@ == html_escaped(cs@.subrange(0, i as int)),
        decreases cs.len() - i,
    {
        let c = cs[i];
        assert(cs@.subrange(0, i + 1).drop_last() =~= cs@.subrange(0, i as int));
        if c == '&' {
            push_str(&mut out, "&amp;");
        } else if c == '<' {
            push_str(&mut out, "&lt;");
        } else if c == '>' {
            push_str(&mut out, "&gt;");
        } else if c == '"' {
            push_str(&mut out, "&quot;");
        } else if c == '\'' {
            push_str(&mut out, "&#39;");
        } else {
            push_char(&mut out, c);
            assert(out@ =~= html_escaped(cs@.subrange(0, i as int)) + seq![c]);
        }
        i = i + 1;
    }
    assert(cs@.subrange(0, cs@.len() as int) =~= cs@);
    out
}

/// How a Markdown link label writes one character.
pub open spec fn label_char(c: char) -> Seq<char> {
    if c == '\\' || c == '[' || c == ']' {
        seq!['\\', c]
    } else {
        seq![c]
    }
}

/// `s` with `\`, `[` and `]` escaped by a backslash.
pub open spec fn label_escaped(s: Seq<char>) -> Seq<char>
    decreases s.len(),
{
    if s.len() == 0 {
        Seq::empty()
    } else {
        label_escaped(s.drop_last()) + label_char(s.last())
    }
}

/// A Markdown link to `path`, labelled with the path itself:
/// `[label](<path>)`.
pub fn markdown_link(path: &str) -> (r: String)
    ensures
        r@ == seq!['['] + label_escaped(path@) + seq![']', '(', '<'] + path@ + seq!['>', ')'],
{
    let cs = to_chars(path);
    let mut out = String::new();
    push_char(&mut out, '[');
    let mut i: usize = 0;
    while i < cs.len()
        invariant
            i <= cs@.len(),
            cs@ == path@,
            out@ == seq!['['] + label_escaped(cs@.subrange(0, i as int)),
        decreases cs.len() - i,
    {
        let c = cs[i];
        assert(cs@.subrange(0, i + 1).drop_last() =~= cs@.subrange(0, i as int));
        if c == '\\' || c == '[' || c == ']' {
            push_char(&mut out, '\\');
        }
        push_char(&mut out, c);
        assert(out@ =~= seq!['['] + label_escaped(cs@.subrange(0, i as int)) + label_char(c));
        i = i + 1;
    }
    assert(cs@.subrange(0, cs@.len() as int) =~= cs@);
    push_char(&mut out, ']');
    push_char(&mut out, '(');
    push_char(&mut out, '<');
    push_str(&mut out, path);
    push_char(&mut out, '>');
    push_char(&mut out, ')');
    assert(out@ =~= seq!['['] + label_escaped(path@) + seq![']', '(', '<'] + path@ + seq!['>', ')']);
    out
}

/// A character that forces a CSV field into quotes.
pub open spec fn needs_quotes(c: char) -> bool {
    c == ',' || c == '"' || c == '\n' || c == '\r'
}

/// `s` with each `"` doubled.
pub open spec fn quotes_doubled(s: Seq<char>) -> Seq<char>
    decreases s.len(),
{
    if s.len() == 0 {
        Seq::empty()
    } else {
        quotes_doubled(s.drop_last()) + if s.last() == '"' {
            seq!['"', '"']
        } else {
            seq![s.last()]
        }
    }
}

/// A CSV field: quoted, with quotes doubled, when it holds a comma, a
/// quote or a line break; else as it is.
pub open spec fn csv_field(s: Seq<char>) -> Seq<char> {
    if exists|i: int| 0 <= i < s.len() && needs_quotes(#[trigger] s[i]) {
        seq!['"'] + quotes_doubled(s) + seq!['"']
    } else {
        s
    }
}

/// Writes a value as a CSV field.
pub fn csv_escape(value: &str) -> (r: String)
    ensures
        r@ == csv_field(value@),
{
    let cs = to_chars(value);
    let mut quote = false;
    let mut inner = String::new();
    let mut i: usize = 0;
    while i < cs.len()
        invariant
            i <= cs@.len(),
            cs@ == value@,
            inner@ == quotes_doubled(cs@.subrange(0, i as int)),
            quote == exists|j: int| 0 <= j < i && needs_quotes(#[trigger] cs@[j]),
        decreases cs.len() - i,
    {
        let c = cs[i];
        assert(cs@.subrange(0, i + 1).drop_last() =~= cs@.subrange(0, i as int));
        if c == ',' || c == '"' || c == '\n' || c == '\r' {
            quote = true;
        }
        if c == '"' {
            push_char(&mut inner, '"');
        }
        push_char(&mut inner, c);
        assert(inner@ =~= quotes_doubled(cs@.subrange(0, i as int)) + if c == '"' {
            seq!['"', '"']
        } else {
            seq![c]
        });
        i = i + 1;
    }
    assert(cs@.subrange(0, cs@.len() as int) =~= cs@);
    if quote {
        let mut out = String::new();
        push_char(&mut out, '"');
        push_str(&mut out, inner.as_str());
        push_char(&mut out, '"');
        assert(out@ =~= seq!['"'] + quotes_doubled(value@) + seq!['"']);
        out
    } else {
        value.to_owned()
    }
}

} // verus!
