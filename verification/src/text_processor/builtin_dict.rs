//! Built-in homophone / typo dictionary, applied after the user's own rules.
//!
//! Entries whose source is pure CJK are replaced as plain substrings (a word
//! boundary never fires between two CJK characters, so a whole-word match
//! would miss embedded occurrences such as "用百渡搜索"); every other entry is
//! a whole-word, case-insensitive rule with the same semantics as the user
//! dictionary.

use vstd::prelude::*;
use crate::text_processor::word_rules::{apply_rule, rule_applied};
use crate::unicode::{from_chars, to_chars};

verus! {

/// Kana, CJK extension A, CJK unified and compatibility ideographs.
pub open spec fn is_cjk_char(c: char) -> bool {
    ('\u{3040}' <= c && c <= '\u{30ff}') || ('\u{3400}' <= c && c <= '\u{4dbf}')
        || ('\u{4e00}' <= c && c <= '\u{9fff}') || ('\u{f900}' <= c && c <= '\u{faff}')
}

pub open spec fn is_pure_cjk(s: Seq<char>) -> bool {
    s.len() > 0 && forall|i: int| 0 <= i < s.len() ==> is_cjk_char(#[trigger] s[i])
}

fn cjk_char(c: char) -> (r: bool)
    ensures
        r == is_cjk_char(c),
{
    ('\u{3040}' <= c && c <= '\u{30ff}') || ('\u{3400}' <= c && c <= '\u{4dbf}')
        || ('\u{4e00}' <= c && c <= '\u{9fff}') || ('\u{f900}' <= c && c <= '\u{faff}')
}

/// Whether the characters are non-empty and all CJK.
pub fn pure_cjk(s: &Vec<char>) -> (r: bool)
    ensures
        r == is_pure_cjk(s@),
{
    if s.len() == 0 {
        return false;
    }
    let mut i: usize = 0;
    while i < s.len()
        invariant
            i <= s.len(),
            forall|k: int| 0 <= k < i ==> is_cjk_char(#[trigger] s@[k]),
        decreases s.len() - i,
    {
        if !cjk_char(s[i]) {
            return false;
        }
        i += 1;
    }
    true
}

/// Every non-overlapping occurrence of `from`, scanning left to right,
/// replaced by `to` (the semantics of `str::replace` for a non-empty
/// pattern). An empty pattern leaves the text as it is.
pub open spec fn literal_replaced(s: Seq<char>, from: Seq<char>, to: Seq<char>) -> Seq<char>
    decreases s.len(),
{
    if from.len() == 0 || s.len() < from.len() {
        s
    } else if s.take(from.len() as int) == from {
        to + literal_replaced(s.skip(from.len() as int), from, to)
    } else {
        seq![s[0]] + literal_replaced(s.skip(1), from, to)
    }
}

/// `from` occurs in `s` at position `i`.
pub open spec fn found_at(s: Seq<char>, from: Seq<char>, i: int) -> bool {
    0 <= i && i + from.len() <= s.len() && s.subrange(i, i + from.len()) == from
}

/// Text in which the source does not occur is left as it is.
pub proof fn law_literal_replace_without_occurrence(s: Seq<char>, from: Seq<char>, to: Seq<char>)
    requires
        forall|i: int| !found_at(s, from, i),
    ensures
        literal_replaced(s, from, to) == s,
    decreases s.len(),
{
    if from.len() > 0 && s.len() >= from.len() {
        assert(!found_at(s, from, 0));
        assert(s.take(from.len() as int) == s.subrange(0, from.len() as int));
        let t = s.skip(1);
        assert forall|i: int| !found_at(t, from, i) by {
            if found_at(t, from, i) {
                assert(s.subrange(i + 1, i + 1 + from.len()) == t.subrange(i, i + from.len()));
                assert(found_at(s, from, i + 1));
            }
        }
        law_literal_replace_without_occurrence(t, from, to);
        assert(seq![s[0]] + t == s);
    }
}

fn occurs_at(s: &Vec<char>, i: usize, pat: &Vec<char>) -> (r: bool)
    requires
        i + pat.len() <= s.len(),
    ensures
        r == (s@.subrange(i as int, i + pat.len()) == pat@),
{
    let mut k: usize = 0;
    while k < pat.len()
        invariant
            k <= pat.len(),
            i + pat.len() <= s.len(),
            forall|j: int| 0 <= j < k ==> s@[i + j] == pat@[j],
        decreases pat.len() - k,
    {
        if s[i + k] != pat[k] {
            assert(s@.subrange(i as int, i + pat.len())[k as int] != pat@[k as int]);
            return false;
        }
        k += 1;
    }
    assert(s@.subrange(i as int, i + pat.len()) =~= pat@);
    true
}

/// Replaces every non-overlapping occurrence of `from` by `to`.
pub fn replace_literal(s: &Vec<char>, from: &Vec<char>, to: &Vec<char>) -> (r: Vec<char>)
    ensures
        r@ == literal_replaced(s@, from@, to@),
{
    let ghost src = s@;
    let n = from.len();
    let mut out: Vec<char> = Vec::new();
    if n == 0 {
        let mut j: usize = 0;
        while j < s.len()
            invariant
                j <= s.len(),
                out@ == src.take(j as int),
                src == s@,
            decreases s.len() - j,
        {
            out.push(s[j]);
            j += 1;
            assert(src.take(j as int) == src.take(j - 1).push(src[j - 1]));
        }
        assert(src.take(s.len() as int) == src);
        return out;
    }
    let mut i: usize = 0;
    assert(src.skip(0) == src);
    assert(out@ + literal_replaced(src, from@, to@) == literal_replaced(src, from@, to@));
    while i < s.len()
        invariant
            i <= s.len(),
            n == from.len(),
            n > 0,
            src == s@,
            out@ + literal_replaced(src.skip(i as int), from@, to@) == literal_replaced(src, from@, to@),
        decreases s.len() - i,
    {
        let ghost rest = src.skip(i as int);
        if s.len() - i < n {
            // too short for another occurrence: the rest is copied unchanged
            let ghost before = out@;
            let mut j: usize = i;
            while j < s.len()
                invariant
                    i <= j <= s.len(),
                    src == s@,
                    out@ == before + src.subrange(i as int, j as int),
                decreases s.len() - j,
            {
                out.push(s[j]);
                j += 1;
                assert(src.subrange(i as int, j as int)
                    == src.subrange(i as int, j - 1).push(src[j - 1]));
            }
            proof {
                assert(literal_replaced(rest, from@, to@) == rest);
                assert(rest == src.subrange(i as int, s.len() as int));
            }
            return out;
        }
        if occurs_at(s, i, from) {
            proof {
                assert(rest.take(n as int) == src.subrange(i as int, i + n));
                assert(rest.skip(n as int) == src.skip(i + n));
            }
            let mut k: usize = 0;
            let ghost before = out@;
            while k < to.len()
                invariant
                    k <= to.len(),
                    out@ == before + to@.take(k as int),
                decreases to.len() - k,
            {
                out.push(to[k]);
                k += 1;
                assert(to@.take(k as int) == to@.take(k - 1).push(to@[k - 1]));
            }
            assert(to@.take(to.len() as int) == to@);
            assert(out@ + literal_replaced(src.skip(i + n), from@, to@)
                == before + (to@ + literal_replaced(rest.skip(n as int), from@, to@)));
            i += n;
        } else {
            proof {
                assert(rest.take(n as int) == src.subrange(i as int, i + n));
                assert(rest.skip(1) == src.skip(i + 1));
            }
            let ghost before = out@;
            out.push(s[i]);
            assert(out@ + literal_replaced(src.skip(i + 1), from@, to@)
                == before + (seq![rest[0]] + literal_replaced(rest.skip(1), from@, to@)));
            i += 1;
        }
    }
    proof {
        assert(src.skip(i as int).len() == 0);
        assert(out@ + Seq::<char>::empty() == out@);
    }
    out
}

/// The built-in entries, in the order they are applied: source text and
/// its correction.
pub open spec fn builtin_entries() -> Seq<(Seq<char>, Seq<char>)> {
    seq![
        (seq!['百', '渡'], seq!['百', '度']),
        (seq!['腾', '迅'], seq!['腾', '讯']),
        (seq!['g', 'i', 't', 'h', 'u', 'b'], seq!['G', 'i', 't', 'H', 'u', 'b']),
    ]
}

/// Number of built-in entries.
pub const BUILTIN_ENTRY_COUNT: usize = 3;

fn chars_of2(a: char, b: char) -> (v: Vec<char>)
    ensures
        v@ == seq![a, b],
{
    let mut v: Vec<char> = Vec::new();
    v.push(a);
    v.push(b);
    v
}

fn chars_of6(a: char, b: char, c: char, d: char, e: char, f: char) -> (v: Vec<char>)
    ensures
        v@ == seq![a, b, c, d, e, f],
{
    let mut v: Vec<char> = Vec::new();
    v.push(a);
    v.push(b);
    v.push(c);
    v.push(d);
    v.push(e);
    v.push(f);
    v
}

/// The `k`-th built-in entry.
pub fn builtin_entry(k: usize) -> (e: (Vec<char>, Vec<char>))
    requires
        k < BUILTIN_ENTRY_COUNT,
    ensures
        (e.0@, e.1@) == builtin_entries()[k as int],
{
    if k == 0 {
        (chars_of2('百', '渡'), chars_of2('百', '度'))
    } else if k == 1 {
        (chars_of2('腾', '迅'), chars_of2('腾', '讯'))
    } else {
        (chars_of6('g', 'i', 't', 'h', 'u', 'b'), chars_of6('G', 'i', 't', 'H', 'u', 'b'))
    }
}

/// One entry applied: plain substring replacement for a pure-CJK source,
/// a whole-word case-insensitive rule otherwise.
pub open spec fn entry_applied(text: Seq<char>, from: Seq<char>, to: Seq<char>) -> Seq<char> {
    if is_pure_cjk(from) {
        literal_replaced(text, from, to)
    } else {
        rule_applied(text, from, to)
    }
}

/// The entries applied one after the other, in order.
pub open spec fn entries_applied(text: Seq<char>, entries: Seq<(Seq<char>, Seq<char>)>) -> Seq<char>
    decreases entries.len(),
{
    if entries.len() == 0 {
        text
    } else {
        entry_applied(entries_applied(text, entries.drop_last()), entries.last().0, entries.last().1)
    }
}

/// Apply all built-in dictionary entries to `text`, in table order.
pub fn apply_builtin_dict(text: &str) -> (r: String)
    ensures
        r@ == entries_applied(text@, builtin_entries()),
{
    let ghost entries = builtin_entries();
    let mut result: Vec<char> = to_chars(text);
    let mut k: usize = 0;
    while k < BUILTIN_ENTRY_COUNT
        invariant
            k <= BUILTIN_ENTRY_COUNT,
            entries == builtin_entries(),
            result@ == entries_applied(text@, entries.take(k as int)),
        decreases BUILTIN_ENTRY_COUNT - k,
    {
        let (from, to) = builtin_entry(k);
        proof {
            assert(entries.take(k + 1).drop_last() == entries.take(k as int));
            assert(entries.take(k + 1).last() == entries[k as int]);
        }
        if pure_cjk(&from) {
            result = replace_literal(&result, &from, &to);
        } else {
            let current = from_chars(&result);
            let f = from_chars(&from);
            let t = from_chars(&to);
            let replaced = apply_rule(current, f.as_str(), t.as_str());
            result = to_chars(replaced.as_str());
        }
        k += 1;
    }
    assert(entries.take(3) == entries);
    from_chars(&result)
}

} // verus!
