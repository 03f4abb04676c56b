//! Whole-word, case-insensitive replacement rules (the user's dictionary and
//! the ASCII entries of the built-in one). Matching and case folding are the
//! `regex` crate's; this module builds the pattern and chains the rules.

use vstd::prelude::*;
use regex::RegexBuilder;
use crate::unicode::{from_chars, to_chars};

verus! {

/// The characters that `regex::escape` prefixes with a backslash.
pub open spec fn is_regex_meta(c: char) -> bool {
    c == '\\' || c == '.' || c == '+' || c == '*' || c == '?' || c == '(' || c == ')'
        || c == '|' || c == '[' || c == ']' || c == '{' || c == '}' || c == '^' || c == '$'
        || c == '#' || c == '&' || c == '-' || c == '~'
}

/// `s` with a backslash before every meta character.
pub open spec fn regex_escaped(s: Seq<char>) -> Seq<char>
    decreases s.len(),
{
    if s.len() == 0 {
        Seq::empty()
    } else {
        let c = s.last();
        let tail = if is_regex_meta(c) { seq!['\\', c] } else { seq![c] };
        regex_escaped(s.drop_last()) + tail
    }
}

/// The whole-word pattern for a literal: `\b<escaped literal>\b`.
pub open spec fn word_pattern_of(literal: Seq<char>) -> Seq<char> {
    seq!['\\', 'b'] + regex_escaped(literal) + seq!['\\', 'b']
}

/// Whether `RegexBuilder::new(pattern).case_insensitive(true).build()`
/// succeeds.
pub uninterp spec fn ci_regex_compiles(pattern: Seq<char>) -> bool;

/// What `Regex::replace_all(text, replacement)` returns for the
/// case-insensitive regex built from `pattern`.
pub uninterp spec fn ci_regex_replace_all(
    pattern: Seq<char>,
    text: Seq<char>,
    replacement: Seq<char>,
) -> Seq<char>;

fn regex_meta(c: char) -> (r: bool)
    ensures
        r == is_regex_meta(c),
{
    c == '\\' || c == '.' || c == '+' || c == '*' || c == '?' || c == '(' || c == ')'
        || c == '|' || c == '[' || c == ']' || c == '{' || c == '}' || c == '^' || c == '$'
        || c == '#' || c == '&' || c == '-' || c == '~'
}

/// What `regex::escape` does (through `regex_syntax::escape_into`): copies
/// the text and puts `\` before each of `\ . + * ? ( ) | [ ] { } ^ $ # & - ~`.
fn regex_escape(s: &str) -> (r: String)
    ensures
        r@ == regex_escaped(s@),
{
    let chars = to_chars(s);
    let mut out: Vec<char> = Vec::new();
    let mut i: usize = 0;
    while i < chars.len()
        invariant
            i <= chars.len(),
            out@ == regex_escaped(chars@.take(i as int)),
        decreases chars.len() - i,
    {
        let c = chars[i];
        assert(chars@.take(i + 1).drop_last() == chars@.take(i as int));
        if regex_meta(c) {
            out.push('\\');
        }
        out.push(c);
        i += 1;
    }
    assert(chars@.take(chars.len() as int) == chars@);
    from_chars(&out)
}

/// Builds a case-insensitive regex from `pattern` with `RegexBuilder` and,
/// when that succeeds, returns `Regex::replace_all(text, replacement)`
/// (`$` references in `replacement` are expanded by the crate). Both results
/// are named; the crate's matching rules are not restated.
#[verifier::external_body]
fn ci_replace_all(pattern: &str, text: &str, replacement: &str) -> (r: Option<String>)
    ensures
        r is Some <==> ci_regex_compiles(pattern@),
        r matches Some(t) ==> t@ == ci_regex_replace_all(pattern@, text@, replacement@),
{
    match RegexBuilder::new(pattern).case_insensitive(true).build() {
        Ok(re) => Some(re.replace_all(text, replacement).into_owned()),
        Err(_) => None,
    }
}

/// One rule applied to `text`: every whole-word, case-insensitive occurrence
/// of `original` replaced; a rule whose pattern does not compile is skipped.
pub open spec fn rule_applied(text: Seq<char>, original: Seq<char>, replacement: Seq<char>) -> Seq<char> {
    let p = word_pattern_of(original);
    if ci_regex_compiles(p) {
        ci_regex_replace_all(p, text, replacement)
    } else {
        text
    }
}

/// The rules applied one after the other, in order.
pub open spec fn rules_applied(text: Seq<char>, rules: Seq<(Seq<char>, Seq<char>)>) -> Seq<char>
    decreases rules.len(),
{
    if rules.len() == 0 {
        text
    } else {
        rule_applied(rules_applied(text, rules.drop_last()), rules.last().0, rules.last().1)
    }
}

/// With no rules the text is left as it is, and each rule applies to the
/// result of the ones before it.
pub proof fn law_rules_apply_in_order(text: Seq<char>, rules: Seq<(Seq<char>, Seq<char>)>, last: (Seq<char>, Seq<char>))
    ensures
        rules_applied(text, Seq::empty()) == text,
        rules_applied(text, rules.push(last)) == rule_applied(rules_applied(text, rules), last.0, last.1),
{
    assert(rules.push(last).drop_last() == rules);
}

/// The rules as pairs of character sequences.
pub open spec fn rules_view(rules: Seq<(String, String)>) -> Seq<(Seq<char>, Seq<char>)> {
    rules.map_values(|r: (String, String)| (r.0@, r.1@))
}

/// The pattern `\b<escaped original>\b`.
pub fn word_pattern(original: &str) -> (p: String)
    ensures
        p@ == word_pattern_of(original@),
{
    let escaped = regex_escape(original);
    let mut p = String::new();
    p.push('\\');
    p.push('b');
    let mut i: usize = 0;
    let ghost e = escaped@;
    let chars = crate::unicode::to_chars(escaped.as_str());
    while i < chars.len()
        invariant
            i <= chars.len(),
            chars@ == e,
            p@ == seq!['\\', 'b'] + e.take(i as int),
        decreases chars.len() - i,
    {
        p.push(chars[i]);
        i += 1;
        assert(e.take(i as int) == e.take(i - 1).push(e[i - 1]));
    }
    assert(e.take(e.len() as int) == e);
    p.push('\\');
    p.push('b');
    p
}

/// The text after one rule, given what the regex step returned: the
/// replaced text, or the text unchanged when the pattern did not compile.
pub fn rule_outcome(current: String, replaced: Option<String>) -> (r: String)
    ensures
        r == (match replaced {
            Some(t) => t,
            None => current,
        }),
{
    match replaced {
        Some(t) => t,
        None => current,
    }
}

/// Applies one whole-word, case-insensitive rule.
pub fn apply_rule(text: String, original: &str, replacement: &str) -> (r: String)
    ensures
        r@ == rule_applied(text@, original@, replacement@),
{
    let pattern = word_pattern(original);
    let replaced = ci_replace_all(pattern.as_str(), text.as_str(), replacement);
    rule_outcome(text, replaced)
}

/// Apply word-boundary-aware, case-insensitive replacements, in order.
pub fn apply_replacements(text: &str, replacements: &[(String, String)]) -> (r: String)
    ensures
        r@ == rules_applied(text@, rules_view(replacements@)),
{
    let ghost rules = rules_view(replacements@);
    let mut result = crate::unicode::from_chars(&crate::unicode::to_chars(text));
    let mut i: usize = 0;
    while i < replacements.len()
        invariant
            i <= replacements.len(),
            rules == rules_view(replacements@),
            result@ == rules_applied(text@, rules.take(i as int)),
        decreases replacements.len() - i,
    {
        let rule = &replacements[i];
        proof {
            assert(rules.take(i + 1).drop_last() == rules.take(i as int));
            assert(rules.take(i + 1).last() == (rule.0@, rule.1@));
        }
        result = apply_rule(result, rule.0.as_str(), rule.1.as_str());
        i += 1;
    }
    assert(rules.take(replacements.len() as int) == rules);
    result
}

} // verus!
