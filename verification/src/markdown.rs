//! Markdown report text helpers.
use vstd::prelude::*;

use crate::text::{chars_of, push_char, string_of};

verus! {

/// The label cut to `max_chars - 1` characters and an ellipsis where it is
/// longer; the label itself otherwise.
pub open spec fn shorten_spec(s: Seq<char>, max_chars: nat) -> Seq<char> {
    let keep: nat = if max_chars > 0 {
        (max_chars - 1) as nat
    } else {
        0
    };
    if s.len() > keep {
        s.take(keep as int).push('\u{2026}')
    } else {
        s
    }
}

/// A chart label that fits `max_chars` characters.
pub fn shorten(s: &str, max_chars: usize) -> (r: String)
    ensures
        r@ == shorten_spec(s@, max_chars as nat),
{
    let v = chars_of(s);
    let keep: usize = if max_chars > 0 {
        max_chars - 1
    } else {
        0
    };
    let mut out: Vec<char> = Vec::new();
    let mut idx: usize = 0;
    while idx < v.len()
        invariant
            idx <= v.len(),
            v@ == s@,
            idx <= keep,
            keep == (if max_chars > 0 {
                max_chars - 1
            } else {
                0
            }),
            out@ == v@.take(idx as int),
        decreases v.len() - idx,
    {
        if idx >= keep {
            assert(idx == keep);
            assert(v@.len() > keep);
            out.push('\u{2026}');
            assert(out@ =~= v@.take(keep as int).push('\u{2026}'));
            return string_of(out.as_slice());
        }
        out.push(v[idx]);
        assert(out@ =~= v@.take(idx + 1));
        idx += 1;
    }
    assert(v@.take(v.len() as int) =~= v@);
    string_of(out.as_slice())
}

/// The inline Markdown form of one character.
pub open spec fn md_char(c: char) -> Seq<char> {
    if c == '\\' || c == '|' || c == '`' {
        seq!['\\', c]
    } else if c == '\r' || c == '\n' {
        seq![' ']
    } else {
        seq![c]
    }
}

/// Text made safe for a Markdown table cell or inline code span.
pub open spec fn escape_md_spec(s: Seq<char>) -> Seq<char>
    decreases s.len(),
{
    if s.len() == 0 {
        Seq::empty()
    } else {
        escape_md_spec(s.drop_last()) + md_char(s.last())
    }
}

/// Markdown-safe inline text: backslashes, pipes and backticks escaped by a
/// backslash, line breaks folded into spaces.
pub fn escape_md(text: &str) -> (r: String)
    ensures
        r@ == escape_md_spec(text@),
{
    let v = chars_of(text);
    let mut out = String::new();
    let mut i: usize = 0;
    while i < v.len()
        invariant
            i <= v.len(),
            v@ == text@,
            out@ == escape_md_spec(v@.take(i as int)),
        decreases v.len() - i,
    {
        let c = v[i];
        assert(v@.take(i + 1).drop_last() =~= v@.take(i as int));
        if c == '\\' || c == '|' || c == '`' {
            push_char(&mut out, '\\');
            push_char(&mut out, c);
        } else if c == '\r' || c == '\n' {
            push_char(&mut out, ' ');
        } else {
            push_char(&mut out, c);
        }
        assert(out@ =~= escape_md_spec(v@.take(i + 1)));
        i += 1;
    }
    assert(v@.take(v.len() as int) =~= v@);
    out
}

} // verus!
