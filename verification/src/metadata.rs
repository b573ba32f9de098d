//! Job metadata as the classifiers read it: every node of a JSON document
//! listed under its JSON pointer, with the scalar that sits there.
use vstd::prelude::*;

use crate::text::{
    chars_eq, chars_eq_ignore_case, chars_of, eq_ignore_case, is_ascii_digit, is_digit, string_of,
    trim_chars, trim_seq,
};

verus! {

/// The value found at one JSON pointer. A number keeps the text by which the
/// document writes it; containers only record that they are there.
#[derive(Clone, Debug)]
pub enum MetaValue {
    Null,
    Bool(bool),
    Number(String),
    Str(String),
    Array,
    Object,
}

/// One node of the document.
#[derive(Clone, Debug)]
pub struct MetaEntry {
    pub pointer: String,
    pub value: MetaValue,
}

/// A document as the list of its nodes. Where a pointer is listed twice the
/// first entry counts.
#[derive(Clone, Debug)]
pub struct Metadata {
    pub entries: Vec<MetaEntry>,
}

/// The value at pointer `p`: the first entry listed under it.
pub open spec fn meta_get(entries: Seq<MetaEntry>, p: Seq<char>) -> Option<MetaValue>
    decreases entries.len(),
{
    if entries.len() == 0 {
        None
    } else if entries[0].pointer@ == p {
        Some(entries[0].value)
    } else {
        meta_get(entries.drop_first(), p)
    }
}

/// Every character is an ASCII digit.
pub open spec fn all_digits(s: Seq<char>) -> bool {
    forall|i: int| 0 <= i < s.len() ==> is_ascii_digit(#[trigger] s[i])
}

/// The number written by a run of decimal digits.
pub open spec fn digits_value(s: Seq<char>) -> nat
    decreases s.len(),
{
    if s.len() == 0 {
        0
    } else {
        digits_value(s.drop_last()) * 10 + ((s.last() as u32) - 48) as nat
    }
}

/// A non-empty run of digits whose value fits in `u64`.
pub open spec fn digits_u64(s: Seq<char>) -> Option<u64> {
    if s.len() > 0 && all_digits(s) && digits_value(s) <= u64::MAX {
        Some(digits_value(s) as u64)
    } else {
        None
    }
}

/// `str::parse::<u64>`: an optional `+`, then a non-empty run of digits
/// whose value fits.
pub open spec fn parse_u64_spec(s: Seq<char>) -> Option<u64> {
    if s.len() > 0 && s[0] == '+' {
        digits_u64(s.drop_first())
    } else {
        digits_u64(s)
    }
}

/// The trimmed text of a string value, where it is not blank.
pub open spec fn str_at(entries: Seq<MetaEntry>, p: Seq<char>) -> Option<Seq<char>> {
    match meta_get(entries, p) {
        Some(MetaValue::Str(s)) => if trim_seq(s@).len() > 0 {
            Some(trim_seq(s@))
        } else {
            None
        },
        _ => None,
    }
}

/// An unsigned integer at `p`: a non-negative integer number, or a string
/// whose trimmed text parses as `u64`.
pub open spec fn u64_at(entries: Seq<MetaEntry>, p: Seq<char>) -> Option<u64> {
    match meta_get(entries, p) {
        Some(MetaValue::Number(t)) => digits_u64(t@),
        Some(MetaValue::Str(s)) => parse_u64_spec(trim_seq(s@)),
        _ => None,
    }
}

/// Spellings read as true, compared without ASCII case.
pub open spec fn truthy(t: Seq<char>) -> bool {
    ||| eq_ignore_case(t, "1"@)
    ||| eq_ignore_case(t, "true"@)
    ||| eq_ignore_case(t, "yes"@)
    ||| eq_ignore_case(t, "y"@)
    ||| eq_ignore_case(t, "on"@)
}

/// Spellings read as false, compared without ASCII case.
pub open spec fn falsy(t: Seq<char>) -> bool {
    ||| eq_ignore_case(t, "0"@)
    ||| eq_ignore_case(t, "false"@)
    ||| eq_ignore_case(t, "no"@)
    ||| eq_ignore_case(t, "n"@)
    ||| eq_ignore_case(t, "off"@)
}

/// A boolean at `p`: a JSON boolean, or a string spelling one.
pub open spec fn bool_at(entries: Seq<MetaEntry>, p: Seq<char>) -> Option<bool> {
    match meta_get(entries, p) {
        Some(MetaValue::Bool(b)) => Some(b),
        Some(MetaValue::Str(s)) => if truthy(trim_seq(s@)) {
            Some(true)
        } else if falsy(trim_seq(s@)) {
            Some(false)
        } else {
            None
        },
        _ => None,
    }
}

/// The first of `paths` at which a non-blank string sits, trimmed.
pub open spec fn first_str(entries: Seq<MetaEntry>, paths: Seq<Seq<char>>) -> Option<Seq<char>>
    decreases paths.len(),
{
    if paths.len() == 0 {
        None
    } else if str_at(entries, paths[0]) is Some {
        str_at(entries, paths[0])
    } else {
        first_str(entries, paths.drop_first())
    }
}

/// The first of `paths` at which an unsigned integer sits.
pub open spec fn first_u64(entries: Seq<MetaEntry>, paths: Seq<Seq<char>>) -> Option<u64>
    decreases paths.len(),
{
    if paths.len() == 0 {
        None
    } else if u64_at(entries, paths[0]) is Some {
        u64_at(entries, paths[0])
    } else {
        first_u64(entries, paths.drop_first())
    }
}

/// The first of `paths` at which a boolean sits.
pub open spec fn first_bool(entries: Seq<MetaEntry>, paths: Seq<Seq<char>>) -> Option<bool>
    decreases paths.len(),
{
    if paths.len() == 0 {
        None
    } else if bool_at(entries, paths[0]) is Some {
        bool_at(entries, paths[0])
    } else {
        first_bool(entries, paths.drop_first())
    }
}

/// The texts of a list of string slices.
pub open spec fn texts(paths: Seq<&str>) -> Seq<Seq<char>> {
    paths.map_values(|p: &str| p@)
}

impl MetaValue {
    /// A copy of the value.
    pub fn duplicate(&self) -> (r: MetaValue)
        ensures
            r == *self,
    {
        match self {
            MetaValue::Null => MetaValue::Null,
            MetaValue::Bool(b) => MetaValue::Bool(*b),
            MetaValue::Number(t) => MetaValue::Number(t.clone()),
            MetaValue::Str(s) => MetaValue::Str(s.clone()),
            MetaValue::Array => MetaValue::Array,
            MetaValue::Object => MetaValue::Object,
        }
    }
}

impl Metadata {
    /// A document with no nodes.
    pub fn new() -> (r: Metadata)
        ensures
            r.entries@.len() == 0,
    {
        Metadata { entries: Vec::new() }
    }

    /// Adds a node at the end of the list.
    pub fn push(&mut self, pointer: &str, value: MetaValue)
        ensures
            final(self).entries@.len() == old(self).entries@.len() + 1,
            final(self).entries@.take(old(self).entries@.len() as int) == old(self).entries@,
            final(self).entries@.last().pointer@ == pointer@,
            final(self).entries@.last().value == value,
    {
        let ghost before = self.entries@;
        self.entries.push(MetaEntry { pointer: pointer.to_owned(), value });
        assert(self.entries@.take(before.len() as int) =~= before);
    }

    /// A copy of the document.
    pub fn duplicate(&self) -> (r: Metadata)
        ensures
            r.entries@ == self.entries@,
    {
        let mut out: Vec<MetaEntry> = Vec::new();
        let mut i: usize = 0;
        while i < self.entries.len()
            invariant
                i <= self.entries.len(),
                out@ == self.entries@.take(i as int),
            decreases self.entries.len() - i,
        {
            let e = &self.entries[i];
            out.push(MetaEntry { pointer: e.pointer.clone(), value: e.value.duplicate() });
            assert(out@ =~= self.entries@.take(i + 1));
            i += 1;
        }
        assert(self.entries@.take(self.entries.len() as int) =~= self.entries@);
        Metadata { entries: out }
    }

    /// The index of the entry that `meta_get` reads at `p`.
    pub fn find(&self, p: &[char]) -> (r: Option<usize>)
        ensures
            match r {
                Some(i) => i < self.entries@.len() && meta_get(self.entries@, p@) == Some(
                    self.entries@[i as int].value,
                ),
                None => meta_get(self.entries@, p@) is None,
            },
    {
        let mut i: usize = 0;
        assert(self.entries@.skip(0) =~= self.entries@);
        while i < self.entries.len()
            invariant
                i <= self.entries.len(),
                meta_get(self.entries@, p@) == meta_get(self.entries@.skip(i as int), p@),
            decreases self.entries.len() - i,
        {
            let key = chars_of(self.entries[i].pointer.as_str());
            assert(self.entries@.skip(i as int).drop_first() =~= self.entries@.skip(i + 1));
            if chars_eq(key.as_slice(), p) {
                return Some(i);
            }
            i += 1;
        }
        None
    }

    /// The value at pointer `p`, as `serde_json::Value::pointer` gives it.
    pub fn get(&self, p: &str) -> (r: Option<MetaValue>)
        ensures
            r == meta_get(self.entries@, p@),
    {
        let key = chars_of(p);
        match self.find(key.as_slice()) {
            Some(i) => Some(self.entries[i].value.duplicate()),
            None => None,
        }
    }
}

/// `digits_u64` computed over characters.
pub fn parse_digits_u64(v: &[char]) -> (r: Option<u64>)
    ensures
        r == digits_u64(v@),
{
    if v.len() == 0 {
        return None;
    }
    let mut value: u64 = 0;
    let mut i: usize = 0;
    while i < v.len()
        invariant
            0 < v.len(),
            i <= v.len(),
            all_digits(v@.take(i as int)),
            value as nat == digits_value(v@.take(i as int)),
        decreases v.len() - i,
    {
        let c = v[i];
        assert(v@.take(i + 1).drop_last() =~= v@.take(i as int));
        if !is_digit(c) {
            assert(!all_digits(v@)) by {
                assert(!is_ascii_digit(v@[i as int]));
            }
            return None;
        }
        let d: u64 = (c as u32 - 48) as u64;
        match value.checked_mul(10) {
            Some(m) => match m.checked_add(d) {
                Some(n) => {
                    value = n;
                },
                None => {
                    proof {
                        if all_digits(v@) {
                            lemma_digits_prefix_bound(v@, i + 1);
                        }
                    }
                    return None;
                },
            },
            None => {
                proof {
                    if all_digits(v@) {
                        lemma_digits_prefix_bound(v@, i + 1);
                    }
                }
                return None;
            },
        }
        i += 1;
    }
    assert(v@.take(v.len() as int) =~= v@);
    Some(value)
}

/// The value of a digit run is at least the value of each of its prefixes.
proof fn lemma_digits_prefix_bound(s: Seq<char>, k: int)
    requires
        0 <= k <= s.len(),
        all_digits(s),
    ensures
        digits_value(s.take(k)) <= digits_value(s),
    decreases s.len() - k,
{
    if k < s.len() {
        lemma_digits_prefix_bound(s, k + 1);
        assert(s.take(k + 1).drop_last() =~= s.take(k));
        assert(is_ascii_digit(s[k]));
    } else {
        assert(s.take(k) =~= s);
    }
}

/// `str::parse::<u64>` over characters.
pub fn parse_u64(v: &[char]) -> (r: Option<u64>)
    ensures
        r == parse_u64_spec(v@),
{
    if v.len() > 0 && v[0] == '+' {
        let mut rest: Vec<char> = Vec::new();
        let mut i: usize = 1;
        while i < v.len()
            invariant
                1 <= i <= v.len(),
                rest@ == v@.subrange(1, i as int),
            decreases v.len() - i,
        {
            rest.push(v[i]);
            assert(rest@ =~= v@.subrange(1, i + 1));
            i += 1;
        }
        assert(rest@ =~= v@.drop_first());
        parse_digits_u64(rest.as_slice())
    } else {
        parse_digits_u64(v)
    }
}

/// Whether `t` equals any of the given spellings, ignoring ASCII case.
fn matches_any_ignore_case(t: &[char], words: &[&str]) -> (r: bool)
    ensures
        r == exists|i: int| 0 <= i < words@.len() && eq_ignore_case(t@, #[trigger] words@[i]@),
{
    let mut i: usize = 0;
    while i < words.len()
        invariant
            i <= words.len(),
            forall|j: int| 0 <= j < i ==> !eq_ignore_case(t@, #[trigger] words@[j]@),
        decreases words.len() - i,
    {
        let w = chars_of(words[i]);
        if chars_eq_ignore_case(t, w.as_slice()) {
            return true;
        }
        i += 1;
    }
    false
}

/// The boolean that a string spells: `1`, `true`, `yes`, `y`, `on` or `0`,
/// `false`, `no`, `n`, `off`, trimmed and ignoring ASCII case.
pub fn parse_bool_text(s: &str) -> (r: Option<bool>)
    ensures
        r == (if truthy(trim_seq(s@)) {
            Some(true)
        } else if falsy(trim_seq(s@)) {
            Some(false)
        } else {
            None
        }),
{
    let v = chars_of(s);
    let t = trim_chars(v.as_slice());
    let yes = ["1", "true", "yes", "y", "on"];
    let no = ["0", "false", "no", "n", "off"];
    proof {
        reveal_strlit("1");
        reveal_strlit("true");
        reveal_strlit("yes");
        reveal_strlit("y");
        reveal_strlit("on");
        reveal_strlit("0");
        reveal_strlit("false");
        reveal_strlit("no");
        reveal_strlit("n");
        reveal_strlit("off");
    }
    let is_yes = matches_any_ignore_case(t.as_slice(), &yes);
    assert(is_yes == truthy(trim_seq(s@))) by {
        if truthy(trim_seq(s@)) {
            if eq_ignore_case(t@, "1"@) { assert(eq_ignore_case(t@, yes@[0]@)); }
            if eq_ignore_case(t@, "true"@) { assert(eq_ignore_case(t@, yes@[1]@)); }
            if eq_ignore_case(t@, "yes"@) { assert(eq_ignore_case(t@, yes@[2]@)); }
            if eq_ignore_case(t@, "y"@) { assert(eq_ignore_case(t@, yes@[3]@)); }
            if eq_ignore_case(t@, "on"@) { assert(eq_ignore_case(t@, yes@[4]@)); }
        }
    }
    if is_yes {
        return Some(true);
    }
    let is_no = matches_any_ignore_case(t.as_slice(), &no);
    assert(is_no == falsy(trim_seq(s@))) by {
        if falsy(trim_seq(s@)) {
            if eq_ignore_case(t@, "0"@) { assert(eq_ignore_case(t@, no@[0]@)); }
            if eq_ignore_case(t@, "false"@) { assert(eq_ignore_case(t@, no@[1]@)); }
            if eq_ignore_case(t@, "no"@) { assert(eq_ignore_case(t@, no@[2]@)); }
            if eq_ignore_case(t@, "n"@) { assert(eq_ignore_case(t@, no@[3]@)); }
            if eq_ignore_case(t@, "off"@) { assert(eq_ignore_case(t@, no@[4]@)); }
        }
    }
    if is_no {
        Some(false)
    } else {
        None
    }
}

/// The trimmed text of the string at `p`, where it is not blank.
pub fn str_value_at(value: &Metadata, p: &str) -> (r: Option<String>)
    ensures
        match r {
            Some(s) => str_at(value.entries@, p@) == Some(s@),
            None => str_at(value.entries@, p@) is None,
        },
{
    match value.get(p) {
        Some(MetaValue::Str(s)) => {
            let v = chars_of(s.as_str());
            let t = trim_chars(v.as_slice());
            if t.len() > 0 {
                Some(string_of(t.as_slice()))
            } else {
                None
            }
        },
        _ => None,
    }
}

/// The unsigned integer at `p`.
pub fn u64_value_at(value: &Metadata, p: &str) -> (r: Option<u64>)
    ensures
        r == u64_at(value.entries@, p@),
{
    match value.get(p) {
        Some(MetaValue::Number(t)) => {
            let v = chars_of(t.as_str());
            parse_digits_u64(v.as_slice())
        },
        Some(MetaValue::Str(s)) => {
            let v = chars_of(s.as_str());
            let t = trim_chars(v.as_slice());
            parse_u64(t.as_slice())
        },
        _ => None,
    }
}

/// The boolean at `p`.
pub fn bool_value_at(value: &Metadata, p: &str) -> (r: Option<bool>)
    ensures
        r == bool_at(value.entries@, p@),
{
    match value.get(p) {
        Some(MetaValue::Bool(b)) => Some(b),
        Some(MetaValue::Str(s)) => parse_bool_text(s.as_str()),
        _ => None,
    }
}

/// The first of `paths` at which a non-blank string sits, trimmed.
pub fn first_value_str(value: &Metadata, paths: &[&str]) -> (r: Option<String>)
    ensures
        match r {
            Some(s) => first_str(value.entries@, texts(paths@)) == Some(s@),
            None => first_str(value.entries@, texts(paths@)) is None,
        },
{
    let ghost all = texts(paths@);
    let mut i: usize = 0;
    assert(all.skip(0) =~= all);
    while i < paths.len()
        invariant
            i <= paths.len(),
            all == texts(paths@),
            first_str(value.entries@, all) == first_str(value.entries@, all.skip(i as int)),
        decreases paths.len() - i,
    {
        assert(all.skip(i as int).drop_first() =~= all.skip(i + 1));
        assert(all.skip(i as int)[0] == paths@[i as int]@);
        let found = str_value_at(value, paths[i]);
        if found.is_some() {
            return found;
        }
        i += 1;
    }
    None
}

/// The first of `paths` at which an unsigned integer sits.
pub fn first_value_u64(value: &Metadata, paths: &[&str]) -> (r: Option<u64>)
    ensures
        r == first_u64(value.entries@, texts(paths@)),
{
    let ghost all = texts(paths@);
    let mut i: usize = 0;
    assert(all.skip(0) =~= all);
    while i < paths.len()
        invariant
            i <= paths.len(),
            all == texts(paths@),
            first_u64(value.entries@, all) == first_u64(value.entries@, all.skip(i as int)),
        decreases paths.len() - i,
    {
        assert(all.skip(i as int).drop_first() =~= all.skip(i + 1));
        assert(all.skip(i as int)[0] == paths@[i as int]@);
        let found = u64_value_at(value, paths[i]);
        if found.is_some() {
            return found;
        }
        i += 1;
    }
    None
}

/// The first of `paths` at which a boolean sits: a JSON boolean, or a string
/// spelling one in any ASCII case.
pub fn first_value_bool(value: &Metadata, paths: &[&str]) -> (r: Option<bool>)
    ensures
        r == first_bool(value.entries@, texts(paths@)),
{
    let ghost all = texts(paths@);
    let mut i: usize = 0;
    assert(all.skip(0) =~= all);
    while i < paths.len()
        invariant
            i <= paths.len(),
            all == texts(paths@),
            first_bool(value.entries@, all) == first_bool(value.entries@, all.skip(i as int)),
        decreases paths.len() - i,
    {
        assert(all.skip(i as int).drop_first() =~= all.skip(i + 1));
        assert(all.skip(i as int)[0] == paths@[i as int]@);
        let found = bool_value_at(value, paths[i]);
        if found.is_some() {
            return found;
        }
        i += 1;
    }
    None
}

/// The string at `p`, untrimmed, as `Value::as_str` reads it.
pub open spec fn text_at(entries: Seq<MetaEntry>, p: Seq<char>) -> Option<Seq<char>> {
    match meta_get(entries, p) {
        Some(MetaValue::Str(s)) => Some(s@),
        _ => None,
    }
}

/// The string of the first of two fields that is present at all: a value
/// at `p` that is no string gives `None` without looking at `q`.
pub open spec fn text_of_present(entries: Seq<MetaEntry>, p: Seq<char>, q: Seq<char>) -> Option<
    Seq<char>,
> {
    match meta_get(entries, p) {
        Some(MetaValue::Str(s)) => Some(s@),
        Some(_) => None,
        None => text_at(entries, q),
    }
}

/// An integer number at `p` that fits in `u64`, as `Value::as_u64` reads
/// it; a string gives `None`.
pub open spec fn number_u64_at(entries: Seq<MetaEntry>, p: Seq<char>) -> Option<u64> {
    match meta_get(entries, p) {
        Some(MetaValue::Number(t)) => digits_u64(t@),
        _ => None,
    }
}

/// The text of an optional string.
pub open spec fn opt_view(s: Option<String>) -> Option<Seq<char>> {
    match s {
        Some(t) => Some(t@),
        None => None,
    }
}

/// The string at `p`, untrimmed.
pub fn text_value_at(value: &Metadata, p: &str) -> (r: Option<String>)
    ensures
        opt_view(r) == text_at(value.entries@, p@),
{
    match value.get(p) {
        Some(MetaValue::Str(s)) => Some(s),
        _ => None,
    }
}

/// The string of the first of `p` and `q` that is present.
pub fn text_of_first_present(value: &Metadata, p: &str, q: &str) -> (r: Option<String>)
    ensures
        opt_view(r) == text_of_present(value.entries@, p@, q@),
{
    match value.get(p) {
        Some(MetaValue::Str(s)) => Some(s),
        Some(_) => None,
        None => text_value_at(value, q),
    }
}

/// The integer number at `p`.
pub fn number_u64_value_at(value: &Metadata, p: &str) -> (r: Option<u64>)
    ensures
        r == number_u64_at(value.entries@, p@),
{
    match value.get(p) {
        Some(MetaValue::Number(t)) => {
            let v = chars_of(t.as_str());
            parse_digits_u64(v.as_slice())
        },
        _ => None,
    }
}

/// A pointer to a top-level field: `/` and a name without a further `/`.
pub open spec fn is_top_field(p: Seq<char>) -> bool {
    &&& p.len() > 0
    &&& p[0] == '/'
    &&& forall|i: int| 1 <= i < p.len() ==> #[trigger] p[i] != '/'
}

/// `p` points at the field `f` or inside it.
pub open spec fn under(p: Seq<char>, f: Seq<char>) -> bool {
    ||| p == f
    ||| p.len() > f.len() && p.take(f.len() as int) == f && p[f.len() as int] == '/'
}

/// `p` points at or inside a top-level field that `extra` has.
pub open spec fn covered(p: Seq<char>, extra: Seq<MetaEntry>) -> bool {
    exists|i: int|
        0 <= i < extra.len() && is_top_field(#[trigger] extra[i].pointer@) && under(
            p,
            extra[i].pointer@,
        )
}

/// The entries of `base` outside every top-level field of `extra`, in order.
pub open spec fn uncovered(base: Seq<MetaEntry>, extra: Seq<MetaEntry>) -> Seq<MetaEntry>
    decreases base.len(),
{
    if base.len() == 0 {
        Seq::empty()
    } else if covered(base.last().pointer@, extra) {
        uncovered(base.drop_last(), extra)
    } else {
        uncovered(base.drop_last(), extra).push(base.last())
    }
}

/// The entries below the root, in order.
pub open spec fn inner(es: Seq<MetaEntry>) -> Seq<MetaEntry>
    decreases es.len(),
{
    if es.len() == 0 {
        Seq::empty()
    } else if es.last().pointer@.len() == 0 {
        inner(es.drop_last())
    } else {
        inner(es.drop_last()).push(es.last())
    }
}

/// The document is an object.
pub open spec fn is_object(es: Seq<MetaEntry>) -> bool {
    meta_get(es, Seq::empty()) == Some(MetaValue::Object)
}

/// The document is `null`.
pub open spec fn is_null(es: Seq<MetaEntry>) -> bool {
    meta_get(es, Seq::empty()) == Some(MetaValue::Null)
}

/// `extra` merged into `base`: two objects merge field by field, each
/// top-level field of `extra` replacing that of `base`; a `null` leaves
/// `base`; anything else replaces it.
pub open spec fn merged(base: Seq<MetaEntry>, extra: Seq<MetaEntry>) -> Seq<MetaEntry> {
    if is_object(base) && is_object(extra) {
        uncovered(base, extra) + inner(extra)
    } else if is_null(extra) {
        base
    } else {
        extra
    }
}

/// Whether the pointer names a top-level field.
pub fn top_field(p: &[char]) -> (r: bool)
    ensures
        r == is_top_field(p@),
{
    if p.len() == 0 || p[0] != '/' {
        return false;
    }
    let mut i: usize = 1;
    while i < p.len()
        invariant
            1 <= i <= p@.len(),
            forall|j: int| 1 <= j < i ==> #[trigger] p@[j] != '/',
        decreases p@.len() - i,
    {
        if p[i] == '/' {
            return false;
        }
        i += 1;
    }
    true
}

/// Whether `p` points at `f` or inside it.
pub fn points_under(p: &[char], f: &[char]) -> (r: bool)
    ensures
        r == under(p@, f@),
{
    if chars_eq(p, f) {
        return true;
    }
    if p.len() <= f.len() {
        return false;
    }
    let same = crate::text::matches_at(p, f, 0);
    assert(p@.subrange(0, f@.len() as int) =~= p@.take(f@.len() as int));
    same && p[f.len()] == '/'
}

/// Whether `p` points at or inside a top-level field of `extra`.
fn is_covered(p: &[char], extra: &Vec<MetaEntry>) -> (r: bool)
    ensures
        r == covered(p@, extra@),
{
    let mut i: usize = 0;
    while i < extra.len()
        invariant
            i <= extra@.len(),
            forall|j: int|
                0 <= j < i ==> !(is_top_field(#[trigger] extra@[j].pointer@) && under(
                    p@,
                    extra@[j].pointer@,
                )),
        decreases extra@.len() - i,
    {
        let f = chars_of(extra[i].pointer.as_str());
        if top_field(f.as_slice()) && points_under(p, f.as_slice()) {
            return true;
        }
        i += 1;
    }
    false
}

/// Merges `extra` into `base`: where both are objects each top-level field
/// of `extra` replaces that of `base`; a `null` `extra` leaves `base`;
/// otherwise `extra` replaces `base`.
pub fn merge_metadata(base: Metadata, extra: Metadata) -> (r: Metadata)
    ensures
        r.entries@ == merged(base.entries@, extra.entries@),
{
    let root: Vec<char> = Vec::new();
    let base_root = base.find(root.as_slice());
    let extra_root = match extra.find(root.as_slice()) {
        Some(i) => Some(extra.entries[i].value.duplicate()),
        None => None,
    };
    let base_object = match base_root {
        Some(i) => match &base.entries[i].value {
            MetaValue::Object => true,
            _ => false,
        },
        None => false,
    };
    match extra_root {
        Some(MetaValue::Object) => {
            if !base_object {
                return extra;
            }
        },
        Some(MetaValue::Null) => {
            assert(is_null(extra.entries@));
            if !base_object {
                return base;
            }
            assert(!is_object(extra.entries@));
            return base;
        },
        _ => {
            return extra;
        },
    }
    let mut out: Vec<MetaEntry> = Vec::new();
    let mut i: usize = 0;
    while i < base.entries.len()
        invariant
            i <= base.entries@.len(),
            out@ == uncovered(base.entries@.take(i as int), extra.entries@),
        decreases base.entries@.len() - i,
    {
        let e = &base.entries[i];
        let p = chars_of(e.pointer.as_str());
        assert(base.entries@.take(i + 1).drop_last() =~= base.entries@.take(i as int));
        assert(base.entries@.take(i + 1).last() == base.entries@[i as int]);
        if !is_covered(p.as_slice(), &extra.entries) {
            out.push(MetaEntry { pointer: e.pointer.clone(), value: e.value.duplicate() });
        }
        i += 1;
    }
    assert(base.entries@.take(base.entries@.len() as int) =~= base.entries@);
    let ghost kept = out@;
    let mut j: usize = 0;
    while j < extra.entries.len()
        invariant
            j <= extra.entries@.len(),
            out@ == kept + inner(extra.entries@.take(j as int)),
        decreases extra.entries@.len() - j,
    {
        let e = &extra.entries[j];
        assert(extra.entries@.take(j + 1).drop_last() =~= extra.entries@.take(j as int));
        assert(extra.entries@.take(j + 1).last() == extra.entries@[j as int]);
        let ep = chars_of(e.pointer.as_str());
        if ep.len() > 0 {
            let ghost before = out@;
            out.push(MetaEntry { pointer: e.pointer.clone(), value: e.value.duplicate() });
            assert(out@ =~= kept + inner(extra.entries@.take(j + 1)));
        }
        j += 1;
    }
    assert(extra.entries@.take(extra.entries@.len() as int) =~= extra.entries@);
    Metadata { entries: out }
}

/// The text of the number at `p`.
pub open spec fn number_text_at(entries: Seq<MetaEntry>, p: Seq<char>) -> Option<Seq<char>> {
    match meta_get(entries, p) {
        Some(MetaValue::Number(t)) => Some(t@),
        _ => None,
    }
}

/// The text of the number at `p`.
pub fn number_text_value_at(value: &Metadata, p: &str) -> (r: Option<String>)
    ensures
        opt_view(r) == number_text_at(value.entries@, p@),
{
    match value.get(p) {
        Some(MetaValue::Number(t)) => Some(t),
        _ => None,
    }
}

/// Looking a pointer up in two lists one after the other.
pub proof fn lemma_meta_get_append(a: Seq<MetaEntry>, b: Seq<MetaEntry>, p: Seq<char>)
    ensures
        meta_get(a + b, p) == (match meta_get(a, p) {
            Some(v) => Some(v),
            None => meta_get(b, p),
        }),
    decreases a.len(),
{
    if a.len() > 0 {
        assert((a + b).drop_first() =~= a.drop_first() + b);
        assert((a + b)[0] == a[0]);
        lemma_meta_get_append(a.drop_first(), b, p);
    } else {
        assert(a + b =~= b);
    }
}

/// A pointer that the list holds is found.
proof fn lemma_meta_get_found(es: Seq<MetaEntry>, p: Seq<char>)
    requires
        meta_get(es, p) is Some,
    ensures
        exists|i: int| 0 <= i < es.len() && #[trigger] es[i].pointer@ == p,
    decreases es.len(),
{
    if es[0].pointer@ != p {
        lemma_meta_get_found(es.drop_first(), p);
        let i = choose|i: int| 0 <= i < es.drop_first().len() && #[trigger] es.drop_first()[i].pointer@ == p;
        assert(es[i + 1] == es.drop_first()[i]);
    }
}

/// A pointer that no entry has is not found.
proof fn lemma_meta_get_absent(es: Seq<MetaEntry>, p: Seq<char>)
    requires
        forall|i: int| 0 <= i < es.len() ==> #[trigger] es[i].pointer@ != p,
    ensures
        meta_get(es, p) is None,
    decreases es.len(),
{
    if es.len() > 0 {
        assert forall|i: int| 0 <= i < es.drop_first().len() implies #[trigger] es.drop_first()[i].pointer@ != p by {
            assert(es.drop_first()[i] == es[i + 1]);
        }
        lemma_meta_get_absent(es.drop_first(), p);
    }
}

/// No entry kept by `uncovered` lies under a top-level field of `extra`.
proof fn lemma_uncovered_outside(base: Seq<MetaEntry>, extra: Seq<MetaEntry>)
    ensures
        forall|i: int| 0 <= i < uncovered(base, extra).len() ==> !covered(#[trigger] uncovered(base, extra)[i].pointer@, extra),
    decreases base.len(),
{
    if base.len() > 0 {
        lemma_uncovered_outside(base.drop_last(), extra);
    }
}

/// Below the root, `inner` finds what the whole list finds.
proof fn lemma_inner_get(es: Seq<MetaEntry>, p: Seq<char>)
    requires
        p.len() > 0,
    ensures
        meta_get(inner(es), p) == meta_get(es, p),
    decreases es.len(),
{
    if es.len() > 0 {
        let init = es.drop_last();
        let last = es.last();
        lemma_inner_get(init, p);
        assert(es =~= init + seq![last]);
        lemma_meta_get_append(init, seq![last], p);
        if last.pointer@.len() > 0 {
            lemma_meta_get_append(inner(init), seq![last], p);
            assert(inner(es) =~= inner(init) + seq![last]);
        } else {
            assert(last.pointer@ != p);
            assert(meta_get(seq![last], p) is None) by {
                assert(seq![last][0] == last);
                assert(seq![last].drop_first() =~= Seq::<MetaEntry>::empty());
                assert(meta_get(Seq::<MetaEntry>::empty(), p) is None);
            }
        }
    }
}

/// Merging two objects, a top-level field of `extra` reads back what
/// `extra` holds there, and a top-level field that `extra` lacks reads
/// back what `base` holds.
pub proof fn lemma_merge_reads(base: Seq<MetaEntry>, extra: Seq<MetaEntry>, f: Seq<char>)
    requires
        is_object(base),
        is_object(extra),
        is_top_field(f),
    ensures
        meta_get(extra, f) is Some ==> meta_get(merged(base, extra), f) == meta_get(extra, f),
        meta_get(extra, f) is None && (forall|i: int|
            0 <= i < extra.len() && is_top_field(#[trigger] extra[i].pointer@) ==> extra[i].pointer@
                != f) ==> meta_get(merged(base, extra), f) == meta_get(base, f),
{
    let u = uncovered(base, extra);
    lemma_meta_get_append(u, inner(extra), f);
    lemma_inner_get(extra, f);
    lemma_uncovered_outside(base, extra);
    if meta_get(extra, f) is Some {
        lemma_meta_get_found(extra, f);
        let i = choose|i: int| 0 <= i < extra.len() && #[trigger] extra[i].pointer@ == f;
        assert(covered(f, extra)) by {
            assert(is_top_field(extra[i].pointer@) && under(f, extra[i].pointer@));
        }
        assert forall|k: int| 0 <= k < u.len() implies #[trigger] u[k].pointer@ != f by {
            assert(!covered(u[k].pointer@, extra));
        }
        lemma_meta_get_absent(u, f);
    } else {
        lemma_uncovered_get(base, extra, f);
    }
}

/// Outside the top-level fields of `extra`, `uncovered` finds what `base`
/// finds.
proof fn lemma_uncovered_get(base: Seq<MetaEntry>, extra: Seq<MetaEntry>, f: Seq<char>)
    ensures
        is_top_field(f) && (forall|i: int|
            0 <= i < extra.len() && is_top_field(#[trigger] extra[i].pointer@) ==> extra[i].pointer@
                != f) ==> meta_get(uncovered(base, extra), f) == meta_get(base, f),
    decreases base.len(),
{
    if is_top_field(f) && (forall|i: int|
        0 <= i < extra.len() && is_top_field(#[trigger] extra[i].pointer@) ==> extra[i].pointer@
            != f) {
        assert(!covered(f, extra)) by {
            if covered(f, extra) {
                let i = choose|i: int|
                    0 <= i < extra.len() && is_top_field(#[trigger] extra[i].pointer@) && under(
                        f,
                        extra[i].pointer@,
                    );
                let g = extra[i].pointer@;
                if f != g {
                    assert(f.len() > g.len() && f[g.len() as int] == '/');
                }
            }
        }
        if base.len() > 0 {
            let init = base.drop_last();
            let last = base.last();
            lemma_uncovered_get(init, extra, f);
            assert(base =~= init + seq![last]);
            lemma_meta_get_append(init, seq![last], f);
            if covered(last.pointer@, extra) {
                assert(last.pointer@ != f);
                assert(meta_get(seq![last], f) is None) by {
                    assert(seq![last][0] == last);
                    assert(seq![last].drop_first() =~= Seq::<MetaEntry>::empty());
                    assert(meta_get(Seq::<MetaEntry>::empty(), f) is None);
                }
            } else {
                lemma_meta_get_append(uncovered(init, extra), seq![last], f);
                assert(uncovered(base, extra) =~= uncovered(init, extra) + seq![last]);
            }
        }
    }
}

} // verus!
