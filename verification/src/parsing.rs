//! Reading durations out of free text: `12.5 ms` phrases in event details
//! and `name=1.5ms` breakdown lists. The library finds the number texts;
//! turning a number text into a value is the caller's.
use vstd::prelude::*;

use crate::text::{
    chars_eq_ignore_case, is_ascii_digit, is_digit, chars_of, eq_ignore_case, split_whitespace_chars, string_of, strip_by,
    strip_pred, strip_where, trim_chars, trim_seq, ws_tokens,
};

use crate::metadata::{meta_get, opt_view, texts, MetaEntry, MetaValue, Metadata};

verus! {

/// A millisecond unit word, in any ASCII case.
pub open spec fn is_ms_unit(unit: Seq<char>) -> bool {
    ||| eq_ignore_case(unit, "ms"@)
    ||| eq_ignore_case(unit, "msec"@)
    ||| eq_ignore_case(unit, "millisecond"@)
    ||| eq_ignore_case(unit, "milliseconds"@)
}

/// A token's unit: the token without surrounding non-letters.
pub open spec fn unit_of(token: Seq<char>) -> Seq<char> {
    strip_by(token, strip_pred(false))
}

/// A token's number text: the token without surrounding characters other
/// than digits, `.` and `-`.
pub open spec fn number_of(token: Seq<char>) -> Seq<char> {
    strip_by(token, strip_pred(true))
}

/// The number texts in front of millisecond units, in order, after the
/// token `prev`. A unit with no token in front ends the list.
pub open spec fn ms_candidates_from(tokens: Seq<Seq<char>>, prev: Option<Seq<char>>) -> Seq<
    Seq<char>,
>
    decreases tokens.len(),
{
    if tokens.len() == 0 {
        Seq::empty()
    } else if is_ms_unit(unit_of(tokens[0])) {
        match prev {
            None => Seq::empty(),
            Some(p) => seq![number_of(p)] + ms_candidates_from(
                tokens.drop_first(),
                Some(tokens[0]),
            ),
        }
    } else {
        ms_candidates_from(tokens.drop_first(), Some(tokens[0]))
    }
}

/// A token whose letters spell `ms`, `msec`, `millisecond` or
/// `milliseconds`, in any ASCII case, makes the number text of the token
/// before it a duration candidate, ahead of the candidates that follow.
pub proof fn lemma_unit_token_takes_number(
    number: Seq<char>,
    unit: Seq<char>,
    rest: Seq<Seq<char>>,
    word: Seq<char>,
)
    requires
        word == "ms"@ || word == "msec"@ || word == "millisecond"@ || word == "milliseconds"@,
        eq_ignore_case(unit_of(unit), word),
    ensures
        ms_candidates_from(seq![unit] + rest, Some(number)) == seq![number_of(number)]
            + ms_candidates_from(rest, Some(unit)),
{
    let tokens = seq![unit] + rest;
    assert(tokens[0] == unit);
    assert(tokens.drop_first() =~= rest);
}

/// The number texts that a duration phrase may hold: for each
/// white-space separated token whose unit is `ms`, `msec`, `millisecond` or
/// `milliseconds` (any ASCII case), the number text of the token before it.
/// The first of them that parses is the phrase's duration.
pub fn millisecond_value_candidates(text: &str) -> (r: Vec<String>)
    ensures
        r@.map_values(|s: String| s@) == ms_candidates_from(ws_tokens(text@), None),
{
    let v = chars_of(text);
    let tokens = split_whitespace_chars(v.as_slice());
    let ghost ts = ws_tokens(text@);
    let ms = chars_of("ms");
    let msec = chars_of("msec");
    let milli = chars_of("millisecond");
    let millis = chars_of("milliseconds");
    let mut out: Vec<String> = Vec::new();
    let mut prev: Option<usize> = None;
    let mut i: usize = 0;
    assert(ts.skip(0) =~= ts);
    while i < tokens.len()
        invariant
            i <= tokens.len(),
            tokens@.map_values(|t: Vec<char>| t@) == ts,
            ts == ws_tokens(text@),
            ms@ == "ms"@,
            msec@ == "msec"@,
            milli@ == "millisecond"@,
            millis@ == "milliseconds"@,
            match prev {
                Some(p) => p < i && i > 0 && p == i - 1,
                None => i == 0,
            },
            out@.map_values(|s: String| s@) + ms_candidates_from(
                ts.skip(i as int),
                match prev {
                    Some(p) => Some(ts[p as int]),
                    None => None,
                },
            ) == ms_candidates_from(ts, None),
        decreases tokens.len() - i,
    {
        assert(ts.skip(i as int).drop_first() =~= ts.skip(i + 1));
        assert(ts.skip(i as int)[0] == ts[i as int]);
        assert(ts[i as int] == tokens@[i as int]@);
        let unit = strip_where(tokens[i].as_slice(), false);
        let is_unit = chars_eq_ignore_case(unit.as_slice(), ms.as_slice()) || chars_eq_ignore_case(
            unit.as_slice(),
            msec.as_slice(),
        ) || chars_eq_ignore_case(unit.as_slice(), milli.as_slice()) || chars_eq_ignore_case(
            unit.as_slice(),
            millis.as_slice(),
        );
        if is_unit {
            match prev {
                None => {
                    assert(ms_candidates_from(ts.skip(i as int), None) =~= Seq::<Seq<char>>::empty());
                    assert(out@.map_values(|s: String| s@) + Seq::<Seq<char>>::empty()
                        =~= out@.map_values(|s: String| s@));
                    return out;
                },
                Some(p) => {
                    assert(ts[p as int] == tokens@[p as int]@);
                    let number = strip_where(tokens[p].as_slice(), true);
                    let ghost before = out@.map_values(|s: String| s@);
                    out.push(string_of(number.as_slice()));
                    assert(out@.map_values(|s: String| s@) =~= before.push(number@));
                    assert(before.push(number@) + ms_candidates_from(ts.skip(i + 1), Some(ts[i as int]))
                        =~= before + (seq![number@] + ms_candidates_from(
                        ts.skip(i + 1),
                        Some(ts[i as int]),
                    )));
                },
            }
        }
        prev = Some(i);
        i += 1;
    }
    assert(ts.skip(tokens.len() as int) =~= Seq::<Seq<char>>::empty());
    assert(out@.map_values(|s: String| s@) + Seq::<Seq<char>>::empty() =~= out@.map_values(
        |s: String| s@,
    ));
    out
}

/// The position of the first `=` in a token.
pub open spec fn is_first_eq(t: Seq<char>, e: int) -> bool {
    &&& 0 <= e < t.len()
    &&& t[e] == '='
    &&& forall|j: int| 0 <= j < e ==> #[trigger] t[j] != '='
}

/// The token holds a `=`.
pub open spec fn has_eq(t: Seq<char>) -> bool {
    exists|e: int| 0 <= e < t.len() && #[trigger] t[e] == '='
}

/// The text without a trailing `ms`.
pub open spec fn without_ms(s: Seq<char>) -> Seq<char> {
    if s.len() >= 2 && s.skip(s.len() - 2) == "ms"@ {
        s.take(s.len() - 2)
    } else {
        s
    }
}

/// The breakdown entry of a token: the trimmed name before its first `=`
/// and the trimmed text after it without a trailing `ms`, where the name is
/// not blank.
pub open spec fn breakdown_entry(t: Seq<char>) -> Option<(Seq<char>, Seq<char>)> {
    if has_eq(t) {
        let e = choose|e: int| is_first_eq(t, e);
        let name = trim_seq(t.take(e));
        let raw = without_ms(trim_seq(t.skip(e + 1)));
        if name.len() > 0 {
            Some((name, raw))
        } else {
            None
        }
    } else {
        None
    }
}

/// The breakdown entries of a token list, in order.
pub open spec fn breakdown_entries(tokens: Seq<Seq<char>>) -> Seq<(Seq<char>, Seq<char>)>
    decreases tokens.len(),
{
    if tokens.len() == 0 {
        Seq::empty()
    } else {
        match breakdown_entry(tokens[0]) {
            Some(p) => seq![p] + breakdown_entries(tokens.drop_first()),
            None => breakdown_entries(tokens.drop_first()),
        }
    }
}

/// The texts of a list of string pairs.
pub open spec fn pair_texts(v: Seq<(String, String)>) -> Seq<(Seq<char>, Seq<char>)> {
    v.map_values(|p: (String, String)| (p.0@, p.1@))
}

proof fn lemma_first_eq_unique(t: Seq<char>, e: int)
    requires
        is_first_eq(t, e),
    ensures
        has_eq(t),
        (choose|q: int| is_first_eq(t, q)) == e,
{
    assert(t[e] == '=');
    let q = choose|q: int| is_first_eq(t, q);
    assert(is_first_eq(t, q));
    if q < e {
        assert(t[q] != '=');
    }
    if e < q {
        assert(t[e] != '=');
    }
}

/// The breakdown entry of one token.
fn breakdown_token(t: &[char]) -> (r: Option<(String, String)>)
    ensures
        match r {
            Some(p) => breakdown_entry(t@) == Some((p.0@, p.1@)),
            None => breakdown_entry(t@) is None,
        },
{
    let mut e: usize = 0;
    while e < t.len() && t[e] != '='
        invariant
            e <= t.len(),
            forall|j: int| 0 <= j < e ==> #[trigger] t@[j] != '=',
        decreases t.len() - e,
    {
        e += 1;
    }
    if e == t.len() {
        assert(!has_eq(t@));
        return None;
    }
    proof {
        lemma_first_eq_unique(t@, e as int);
    }
    let head = crate::text::slice_range(t, 0, e);
    assert(head@ =~= t@.take(e as int));
    let tail = crate::text::slice_range(t, e + 1, t.len());
    assert(tail@ =~= t@.skip(e + 1));
    let name = trim_chars(head.as_slice());
    if name.len() == 0 {
        return None;
    }
    let raw = trim_chars(tail.as_slice());
    let n = raw.len();
    let mut raw_out = raw;
    if n >= 2 && raw_out[n - 2] == 'm' && raw_out[n - 1] == 's' {
        proof {
            reveal_strlit("ms");
            assert(raw@.skip(n - 2) =~= "ms"@);
        }
        raw_out = crate::text::slice_range(raw_out.as_slice(), 0, n - 2);
        assert(raw_out@ =~= raw@.take(n - 2));
        assert(raw_out@ == without_ms(raw@));
    } else {
        proof {
            reveal_strlit("ms");
            if n >= 2 {
                assert(raw@.skip(n - 2)[0] == raw@[n - 2]);
                assert(raw@.skip(n - 2)[1] == raw@[n - 1]);
                if raw@.skip(n - 2) == "ms"@ {
                    assert("ms"@[0] == 'm');
                    assert("ms"@[1] == 's');
                }
            }
            assert(raw_out@ == without_ms(raw@));
        }
    }
    Some((string_of(name.as_slice()), string_of(raw_out.as_slice())))
}

/// The entries of a breakdown list such as `decode=1.5ms upload=2ms`: for
/// each white-space separated token with a `=` and a non-blank name, the
/// name and the value text without a trailing `ms`. Tokens without `=` or
/// with a blank name are skipped.
pub fn breakdown_part_texts(breakdown: &str) -> (r: Vec<(String, String)>)
    ensures
        pair_texts(r@) == breakdown_entries(ws_tokens(breakdown@)),
{
    let v = chars_of(breakdown);
    let tokens = split_whitespace_chars(v.as_slice());
    let ghost ts = ws_tokens(breakdown@);
    let mut out: Vec<(String, String)> = Vec::new();
    let mut i: usize = 0;
    assert(ts.skip(0) =~= ts);
    while i < tokens.len()
        invariant
            i <= tokens.len(),
            tokens@.map_values(|t: Vec<char>| t@) == ts,
            pair_texts(out@) + breakdown_entries(ts.skip(i as int)) == breakdown_entries(ts),
        decreases tokens.len() - i,
    {
        assert(ts.skip(i as int).drop_first() =~= ts.skip(i + 1));
        assert(ts.skip(i as int)[0] == tokens@[i as int]@);
        let ghost before = pair_texts(out@);
        match breakdown_token(tokens[i].as_slice()) {
            Some(p) => {
                let ghost pt = (p.0@, p.1@);
                out.push(p);
                assert(pair_texts(out@) =~= before.push(pt));
                assert(before.push(pt) + breakdown_entries(ts.skip(i + 1)) =~= before + (seq![pt]
                    + breakdown_entries(ts.skip(i + 1))));
            },
            None => {},
        }
        i += 1;
    }
    assert(ts.skip(tokens.len() as int) =~= Seq::<Seq<char>>::empty());
    assert(pair_texts(out@) + Seq::<(Seq<char>, Seq<char>)>::empty() =~= pair_texts(out@));
    out
}

/// A sign character.
pub open spec fn is_sign(c: char) -> bool {
    c == '+' || c == '-'
}

/// The text without one leading sign.
pub open spec fn unsigned(s: Seq<char>) -> Seq<char> {
    if s.len() > 0 && is_sign(s[0]) {
        s.drop_first()
    } else {
        s
    }
}

/// A non-empty run of ASCII digits.
pub open spec fn digit_run(s: Seq<char>) -> bool {
    s.len() > 0 && forall|i: int| 0 <= i < s.len() ==> is_ascii_digit(#[trigger] s[i])
}

/// Digits with at most one `.` among them, and at least one digit.
pub open spec fn mantissa(m: Seq<char>) -> bool {
    &&& forall|i: int| 0 <= i < m.len() ==> is_ascii_digit(#[trigger] m[i]) || m[i] == '.'
    &&& forall|i: int, j: int|
        0 <= i < m.len() && 0 <= j < m.len() && #[trigger] m[i] == '.' && #[trigger] m[j] == '.'
            ==> i == j
    &&& exists|i: int| 0 <= i < m.len() && is_ascii_digit(#[trigger] m[i])
}

/// An exponent mark.
pub open spec fn is_exp_mark(c: char) -> bool {
    c == 'e' || c == 'E'
}

/// A decimal number: a mantissa, then optionally an exponent mark and a
/// signed run of digits.
pub open spec fn decimal_number(s: Seq<char>) -> bool {
    ||| (forall|i: int| 0 <= i < s.len() ==> !is_exp_mark(#[trigger] s[i])) && mantissa(s)
    ||| exists|k: int|
        0 <= k < s.len() && is_exp_mark(#[trigger] s[k]) && mantissa(s.take(k)) && digit_run(
            unsigned(s.skip(k + 1)),
        )
}

/// The texts that `str::parse::<f64>` accepts: an optional sign, then
/// `inf`, `infinity` or `nan` in any ASCII case, or a decimal number.
pub open spec fn float_text(s: Seq<char>) -> bool {
    let b = unsigned(s);
    ||| eq_ignore_case(b, "inf"@)
    ||| eq_ignore_case(b, "infinity"@)
    ||| eq_ignore_case(b, "nan"@)
    ||| decimal_number(b)
}

/// The text without one leading sign.
fn unsigned_chars(s: &[char]) -> (r: Vec<char>)
    ensures
        r@ == unsigned(s@),
{
    if s.len() > 0 && (s[0] == '+' || s[0] == '-') {
        let r = crate::text::slice_range(s, 1, s.len());
        assert(r@ =~= s@.drop_first());
        r
    } else {
        let r = crate::text::slice_range(s, 0, s.len());
        assert(r@ =~= s@);
        r
    }
}

/// Whether the text is a non-empty run of ASCII digits.
fn is_digit_run(s: &[char]) -> (r: bool)
    ensures
        r == digit_run(s@),
{
    if s.len() == 0 {
        return false;
    }
    let mut i: usize = 0;
    while i < s.len()
        invariant
            i <= s@.len(),
            forall|j: int| 0 <= j < i ==> is_ascii_digit(#[trigger] s@[j]),
        decreases s@.len() - i,
    {
        if !is_digit(s[i]) {
            return false;
        }
        i += 1;
    }
    true
}

/// Whether the text is a mantissa.
fn is_mantissa(m: &[char]) -> (r: bool)
    ensures
        r == mantissa(m@),
{
    let mut dot: Option<usize> = None;
    let mut digit: Option<usize> = None;
    let mut i: usize = 0;
    while i < m.len()
        invariant
            i <= m@.len(),
            forall|j: int| 0 <= j < i ==> is_ascii_digit(#[trigger] m@[j]) || m@[j] == '.',
            match dot {
                Some(d) => d < i && m@[d as int] == '.' && forall|j: int|
                    0 <= j < i && #[trigger] m@[j] == '.' ==> j == d,
                None => forall|j: int| 0 <= j < i ==> #[trigger] m@[j] != '.',
            },
            match digit {
                Some(d) => d < i && is_ascii_digit(m@[d as int]),
                None => forall|j: int| 0 <= j < i ==> !is_ascii_digit(#[trigger] m@[j]),
            },
        decreases m@.len() - i,
    {
        let c = m[i];
        if is_digit(c) {
            digit = Some(i);
        } else if c == '.' {
            match dot {
                Some(d) => {
                    assert(m@[d as int] == '.' && m@[i as int] == '.');
                    return false;
                },
                None => {
                    dot = Some(i);
                },
            }
        } else {
            return false;
        }
        i += 1;
    }
    match digit {
        Some(d) => {
            assert(is_ascii_digit(m@[d as int]));
            true
        },
        None => false,
    }
}

/// Whether `str::parse::<f64>` accepts the text.
pub fn is_float_text(s: &[char]) -> (r: bool)
    ensures
        r == float_text(s@),
{
    let b = unsigned_chars(s);
    let inf = chars_of("inf");
    let infinity = chars_of("infinity");
    let nan = chars_of("nan");
    if chars_eq_ignore_case(b.as_slice(), inf.as_slice()) || chars_eq_ignore_case(
        b.as_slice(),
        infinity.as_slice(),
    ) || chars_eq_ignore_case(b.as_slice(), nan.as_slice()) {
        return true;
    }
    let mut k: usize = 0;
    while k < b.len() && b[k] != 'e' && b[k] != 'E'
        invariant
            k <= b@.len(),
            forall|j: int| 0 <= j < k ==> !is_exp_mark(#[trigger] b@[j]),
        decreases b@.len() - k,
    {
        k += 1;
    }
    if k == b.len() {
        let r = is_mantissa(b.as_slice());
        proof {
            if !r {
                assert forall|q: int|
                    0 <= q < b@.len() && is_exp_mark(#[trigger] b@[q]) implies !(mantissa(
                    b@.take(q),
                ) && digit_run(unsigned(b@.skip(q + 1)))) by {}
            }
        }
        return r;
    }
    let head = crate::text::slice_range(b.as_slice(), 0, k);
    let tail = crate::text::slice_range(b.as_slice(), k + 1, b.len());
    assert(head@ =~= b@.take(k as int));
    assert(tail@ =~= b@.skip(k + 1));
    let exp = unsigned_chars(tail.as_slice());
    let r = is_mantissa(head.as_slice()) && is_digit_run(exp.as_slice());
    proof {
        assert(is_exp_mark(b@[k as int]));
        if !r {
            assert forall|q: int|
                0 <= q < b@.len() && is_exp_mark(#[trigger] b@[q]) implies !(mantissa(b@.take(q))
                && digit_run(unsigned(b@.skip(q + 1)))) by {
                if q > k {
                    assert(b@.take(q)[k as int] == b@[k as int]);
                }
            }
        }
    }
    r
}

/// The first number text in front of a millisecond unit that parses as a
/// number: the duration a phrase such as `load took 12.5 ms` states.
pub open spec fn first_float(cands: Seq<Seq<char>>) -> Option<Seq<char>>
    decreases cands.len(),
{
    if cands.len() == 0 {
        None
    } else if float_text(cands[0]) {
        Some(cands[0])
    } else {
        first_float(cands.drop_first())
    }
}

/// The number text of the first millisecond phrase in `text` whose number
/// parses; `None` where there is none, or where the text opens with a unit.
pub fn parse_first_ms_from_text(text: &str) -> (r: Option<String>)
    ensures
        match r {
            Some(t) => first_float(ms_candidates_from(ws_tokens(text@), None)) == Some(t@),
            None => first_float(ms_candidates_from(ws_tokens(text@), None)) is None,
        },
{
    let cands = millisecond_value_candidates(text);
    let ghost cs = ms_candidates_from(ws_tokens(text@), None);
    let mut i: usize = 0;
    assert(cs.skip(0) =~= cs);
    while i < cands.len()
        invariant
            i <= cands@.len(),
            cands@.map_values(|s: String| s@) == cs,
            cs == ms_candidates_from(ws_tokens(text@), None),
            first_float(cs.skip(i as int)) == first_float(cs),
        decreases cands@.len() - i,
    {
        assert(cs.skip(i as int)[0] == cands@[i as int]@);
        assert(cs.skip(i as int).drop_first() =~= cs.skip(i + 1));
        let c = chars_of(cands[i].as_str());
        if is_float_text(c.as_slice()) {
            let r = cands[i].clone();
            assert(float_text(cs.skip(i as int)[0]));
            assert(first_float(cs.skip(i as int)) == Some(cs.skip(i as int)[0]));
            assert(r@ == cs.skip(i as int)[0]);
            assert(first_float(cs) == Some(r@));
            return Some(r);
        }
        i += 1;
    }
    assert(cs.skip(i as int).len() == 0);
    None
}

/// The breakdown entries whose value text parses as a number.
pub open spec fn float_entries(es: Seq<(Seq<char>, Seq<char>)>) -> Seq<(Seq<char>, Seq<char>)>
    decreases es.len(),
{
    if es.len() == 0 {
        Seq::empty()
    } else if float_text(es[0].1) {
        seq![es[0]] + float_entries(es.drop_first())
    } else {
        float_entries(es.drop_first())
    }
}

/// The parts of a breakdown list such as `decode=1.5ms upload=2ms ignored
/// broken=x`: each entry with a non-blank name whose value text parses as a
/// number, as its name and that number text, in order.
pub fn parse_breakdown_parts(breakdown: &str) -> (r: Vec<(String, String)>)
    ensures
        pair_texts(r@) == float_entries(breakdown_entries(ws_tokens(breakdown@))),
{
    let all = breakdown_part_texts(breakdown);
    let ghost es = breakdown_entries(ws_tokens(breakdown@));
    let mut out: Vec<(String, String)> = Vec::new();
    let mut i: usize = 0;
    assert(es.skip(0) =~= es);
    while i < all.len()
        invariant
            i <= all@.len(),
            pair_texts(all@) == es,
            es == breakdown_entries(ws_tokens(breakdown@)),
            pair_texts(out@) + float_entries(es.skip(i as int)) == float_entries(es),
        decreases all@.len() - i,
    {
        assert(es.skip(i as int)[0] == (all@[i as int].0@, all@[i as int].1@));
        assert(es.skip(i as int).drop_first() =~= es.skip(i + 1));
        let c = chars_of(all[i].1.as_str());
        let ghost before = pair_texts(out@);
        if is_float_text(c.as_slice()) {
            let p = (all[i].0.clone(), all[i].1.clone());
            let ghost pt = (p.0@, p.1@);
            out.push(p);
            assert(pair_texts(out@) =~= before.push(pt));
            assert(before.push(pt) + float_entries(es.skip(i + 1)) =~= before + (seq![pt]
                + float_entries(es.skip(i + 1))));
        }
        i += 1;
    }
    assert(es.skip(i as int).len() == 0);
    assert(pair_texts(out@) + Seq::<(Seq<char>, Seq<char>)>::empty() =~= pair_texts(out@));
    out
}

/// A duration at `p`: a JSON number as it is written, or a string whose
/// trimmed text parses as a number.
pub open spec fn duration_text_at(entries: Seq<MetaEntry>, p: Seq<char>) -> Option<Seq<char>> {
    match meta_get(entries, p) {
        Some(MetaValue::Number(t)) => Some(t@),
        Some(MetaValue::Str(s)) => if float_text(trim_seq(s@)) {
            Some(trim_seq(s@))
        } else {
            None
        },
        _ => None,
    }
}

/// The duration at the first of `paths` that holds one.
pub open spec fn first_duration_text(entries: Seq<MetaEntry>, paths: Seq<Seq<char>>) -> Option<
    Seq<char>,
>
    decreases paths.len(),
{
    if paths.len() == 0 {
        None
    } else if duration_text_at(entries, paths[0]) is Some {
        duration_text_at(entries, paths[0])
    } else {
        first_duration_text(entries, paths.drop_first())
    }
}

/// The number text of the duration at `p`.
pub fn value_to_ms_text(value: &Metadata, p: &str) -> (r: Option<String>)
    ensures
        opt_view(r) == duration_text_at(value.entries@, p@),
{
    match value.get(p) {
        Some(MetaValue::Number(t)) => Some(t),
        Some(MetaValue::Str(s)) => {
            let c = chars_of(s.as_str());
            let t = trim_chars(c.as_slice());
            if is_float_text(t.as_slice()) {
                Some(string_of(t.as_slice()))
            } else {
                None
            }
        },
        _ => None,
    }
}

/// The number text of the duration at the first of `paths` that holds one.
pub fn first_value_ms_text(value: &Metadata, paths: &[&str]) -> (r: Option<String>)
    ensures
        opt_view(r) == first_duration_text(value.entries@, texts(paths@)),
{
    let ghost all = texts(paths@);
    let mut i: usize = 0;
    assert(all.skip(0) =~= all);
    while i < paths.len()
        invariant
            i <= paths.len(),
            all == texts(paths@),
            first_duration_text(value.entries@, all) == first_duration_text(
                value.entries@,
                all.skip(i as int),
            ),
        decreases paths.len() - i,
    {
        assert(all.skip(i as int).drop_first() =~= all.skip(i + 1));
        assert(all.skip(i as int)[0] == paths@[i as int]@);
        let found = value_to_ms_text(value, paths[i]);
        if found.is_some() {
            return found;
        }
        i += 1;
    }
    None
}

/// Where a job's metadata gives its frame budget.
pub open spec fn frame_budget_paths() -> Seq<Seq<char>> {
    seq![
        "/frame_budget_ms"@,
        "/budget/frame_ms"@,
        "/metadata/frame_budget_ms"@,
        "/metadata/budget/frame_ms"@,
    ]
}

/// Where a job's metadata gives its time spent waiting on the GPU.
pub open spec fn gpu_wait_paths() -> Seq<Seq<char>> {
    seq!["/gpu_wait_ms"@, "/waited_gpu_ms"@, "/metadata/gpu_wait_ms"@, "/metadata/waited_gpu_ms"@]
}

/// The frame budget a job's metadata gives, as a number text.
pub fn frame_budget_ms_text(metadata: &Metadata) -> (r: Option<String>)
    ensures
        opt_view(r) == first_duration_text(metadata.entries@, frame_budget_paths()),
{
    let paths: [&str; 4] = [
        "/frame_budget_ms",
        "/budget/frame_ms",
        "/metadata/frame_budget_ms",
        "/metadata/budget/frame_ms",
    ];
    assert(texts(paths@) =~= frame_budget_paths());
    first_value_ms_text(metadata, &paths)
}

/// The GPU wait a job's metadata gives, as a number text.
pub fn gpu_wait_ms_text(metadata: &Metadata) -> (r: Option<String>)
    ensures
        opt_view(r) == first_duration_text(metadata.entries@, gpu_wait_paths()),
{
    let paths: [&str; 4] = [
        "/gpu_wait_ms",
        "/waited_gpu_ms",
        "/metadata/gpu_wait_ms",
        "/metadata/waited_gpu_ms",
    ];
    assert(texts(paths@) =~= gpu_wait_paths());
    first_value_ms_text(metadata, &paths)
}

} // verus!

