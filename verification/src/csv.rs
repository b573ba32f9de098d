//! CSV rows: comma-separated cells, each quoted where it holds a comma, a
//! quote or a line break, with quotes doubled.
use vstd::prelude::*;

use crate::text::{chars_of, decimal, decimal_chars, push_char, push_chars, push_str, string_of};

verus! {

/// A character that forces a cell into quotes.
pub open spec fn needs_quote_char(c: char) -> bool {
    c == ',' || c == '"' || c == '\n' || c == '\r'
}

/// The cell holds a character that forces quotes.
pub open spec fn needs_quotes(s: Seq<char>) -> bool {
    exists|i: int| 0 <= i < s.len() && needs_quote_char(#[trigger] s[i])
}

/// The text with every `"` doubled.
pub open spec fn double_quotes(s: Seq<char>) -> Seq<char>
    decreases s.len(),
{
    if s.len() == 0 {
        Seq::empty()
    } else {
        double_quotes(s.drop_last()) + if s.last() == '"' {
            seq!['"', '"']
        } else {
            seq![s.last()]
        }
    }
}

/// The written form of one cell.
pub open spec fn escape_spec(s: Seq<char>) -> Seq<char> {
    if needs_quotes(s) {
        seq!['"'] + double_quotes(s) + seq!['"']
    } else {
        s
    }
}

/// Cells joined by commas, each written by `write`.
pub open spec fn join_cells(cells: Seq<Seq<char>>, escape: bool) -> Seq<char>
    decreases cells.len(),
{
    if cells.len() == 0 {
        Seq::empty()
    } else {
        let last = if escape {
            escape_spec(cells.last())
        } else {
            cells.last()
        };
        if cells.len() == 1 {
            last
        } else {
            join_cells(cells.drop_last(), escape).push(',') + last
        }
    }
}

/// The written form of one cell: quoted, with quotes doubled, where it
/// holds a comma, a quote or a line break; as it is otherwise.
pub fn csv_escape(cell: &str) -> (r: String)
    ensures
        r@ == escape_spec(cell@),
{
    let v = chars_of(cell);
    let mut quote = false;
    let mut i: usize = 0;
    while i < v.len()
        invariant
            i <= v.len(),
            v@ == cell@,
            quote == exists|j: int| 0 <= j < i && needs_quote_char(#[trigger] v@[j]),
        decreases v.len() - i,
    {
        let c = v[i];
        if c == ',' || c == '"' || c == '\n' || c == '\r' {
            quote = true;
        }
        i += 1;
    }
    if !quote {
        return cell.to_owned();
    }
    let mut out = String::new();
    push_char(&mut out, '"');
    let mut i: usize = 0;
    while i < v.len()
        invariant
            i <= v.len(),
            v@ == cell@,
            out@ == seq!['"'] + double_quotes(v@.take(i as int)),
        decreases v.len() - i,
    {
        let c = v[i];
        assert(v@.take(i + 1).drop_last() =~= v@.take(i as int));
        if c == '"' {
            push_char(&mut out, '"');
            push_char(&mut out, '"');
        } else {
            push_char(&mut out, c);
        }
        assert(out@ =~= seq!['"'] + double_quotes(v@.take(i + 1)));
        i += 1;
    }
    assert(v@.take(v.len() as int) =~= v@);
    push_char(&mut out, '"');
    out
}

/// The texts of string slices.
pub open spec fn str_texts(cols: Seq<&str>) -> Seq<Seq<char>> {
    cols.map_values(|c: &str| c@)
}

/// The texts of strings.
pub open spec fn string_texts(cells: Seq<String>) -> Seq<Seq<char>> {
    cells.map_values(|c: String| c@)
}

/// A header line: the column names joined by commas, then a newline.
pub fn csv_header(cols: &[&str]) -> (r: String)
    ensures
        r@ == join_cells(str_texts(cols@), false).push('\n'),
{
    let ghost cs = str_texts(cols@);
    let mut out = String::new();
    let mut i: usize = 0;
    while i < cols.len()
        invariant
            i <= cols.len(),
            cs == str_texts(cols@),
            out@ == join_cells(cs.take(i as int), false),
        decreases cols.len() - i,
    {
        assert(cs.take(i + 1).drop_last() =~= cs.take(i as int));
        if i > 0 {
            push_char(&mut out, ',');
        }
        push_str(&mut out, cols[i]);
        i += 1;
    }
    assert(cs.take(cols.len() as int) =~= cs);
    push_char(&mut out, '\n');
    out
}

/// Appends a row: the escaped cells joined by commas, then a newline.
pub fn csv_push(out: &mut String, cells: &[String])
    ensures
        final(out)@ == old(out)@ + join_cells(string_texts(cells@), true).push('\n'),
{
    let ghost start = out@;
    let ghost cs = string_texts(cells@);
    let mut i: usize = 0;
    while i < cells.len()
        invariant
            i <= cells.len(),
            cs == string_texts(cells@),
            out@ == start + join_cells(cs.take(i as int), true),
        decreases cells.len() - i,
    {
        assert(cs.take(i + 1).drop_last() =~= cs.take(i as int));
        let e = csv_escape(cells[i].as_str());
        if i > 0 {
            push_char(out, ',');
        }
        push_str(out, e.as_str());
        assert(out@ =~= start + join_cells(cs.take(i + 1), true));
        i += 1;
    }
    assert(cs.take(cells.len() as int) =~= cs);
    push_char(out, '\n');
    assert(out@ =~= start + join_cells(cs, true).push('\n'));
}

/// The one-based rank of position `idx`.
pub fn rank(idx: usize) -> (r: String)
    requires
        idx < usize::MAX,
    ensures
        r@ == decimal(idx as nat + 1),
{
    let n: u64 = (idx + 1) as u64;
    let v = decimal_chars(n);
    string_of(v.as_slice())
}

} // verus!
