//! Transcript post-processing: user replacements, the built-in dictionary,
//! acronym merging, Chinese numeral conversion, CJK/ASCII spacing,
//! sentence capitalisation and the terminal period.

pub mod cn_numerals;
pub mod builtin_dict;
pub mod word_rules;

use vstd::prelude::*;
use crate::unicode::{alphabetic, uppercase, is_white_space, word_char, alphanumeric};
use crate::unicode::{to_chars, from_chars, is_whitespace, char_is_alphabetic, char_to_uppercase};
use crate::unicode::{is_word_character, char_is_alphanumeric};
pub use self::builtin_dict::apply_builtin_dict;
pub use self::cn_numerals::convert_cn_numerals;
pub use self::word_rules::apply_replacements;
use self::word_rules::{rules_applied, rules_view};
use self::builtin_dict::{entries_applied, builtin_entries};
use self::cn_numerals::cn_numerals_converted;

verus! {

/// Appends the characters of `s`.
pub fn push_str_chars(out: &mut Vec<char>, s: &str)
    ensures
        final(out)@ == old(out)@ + s@,
{
    for c in it: s.chars()
        invariant
            out@ == old(out)@ + it.seq().take(it.index()),
            it.seq() == s@,
    {
        out.push(c);
    }
    assert(s@.take(s@.len() as int) =~= s@);
}

// ---------------------------------------------------------------------------
// Sentence capitalisation
// ---------------------------------------------------------------------------

/// Output so far and whether the next letter starts a sentence: at the start
/// and after `.`, `?`, `!` (whitespace in between keeps the flag, anything
/// else clears it), an alphabetic character is uppercased.
pub open spec fn capitalize_state(s: Seq<char>) -> (Seq<char>, bool)
    decreases s.len(),
{
    if s.len() == 0 {
        (Seq::empty(), true)
    } else {
        let (out, cap) = capitalize_state(s.drop_last());
        let ch = s.last();
        if cap && alphabetic(ch) {
            (out + uppercase(ch), false)
        } else {
            let next = if ch == '.' || ch == '?' || ch == '!' {
                true
            } else if !is_white_space(ch) {
                false
            } else {
                cap
            };
            (out.push(ch), next)
        }
    }
}

pub open spec fn capitalized(s: Seq<char>) -> Seq<char> {
    capitalize_state(s).0
}

/// `.`, `?` or `!`.
pub open spec fn is_sentence_end(c: char) -> bool {
    c == '.' || c == '?' || c == '!'
}

/// Whether a letter after `p` would start a sentence: every character of `p`
/// after its last `.`, `?` or `!` (all of `p` when it has none) is
/// whitespace.
pub open spec fn sentence_pending(p: Seq<char>) -> bool
    decreases p.len(),
{
    if p.len() == 0 {
        true
    } else if is_sentence_end(p.last()) {
        true
    } else if is_white_space(p.last()) {
        sentence_pending(p.drop_last())
    } else {
        false
    }
}

/// What character `i` of `s` becomes: its uppercase when it is alphabetic
/// and starts a sentence, else itself.
pub open spec fn capital_piece(s: Seq<char>, i: int) -> Seq<char> {
    if alphabetic(s[i]) && sentence_pending(s.take(i)) {
        uppercase(s[i])
    } else {
        seq![s[i]]
    }
}

/// The pieces of the first `n` characters of `s`, in order.
pub open spec fn capital_pieces(s: Seq<char>, n: nat) -> Seq<char>
    decreases n,
{
    if n == 0 {
        Seq::empty()
    } else {
        capital_pieces(s, (n - 1) as nat) + capital_piece(s, n - 1)
    }
}

proof fn lemma_capitalize_prefix(s: Seq<char>, n: nat)
    requires
        n <= s.len(),
        forall|i: int| 0 <= i < s.len() && #[trigger] alphabetic(s[i])
            ==> !is_white_space(s[i]) && !is_sentence_end(s[i]),
    ensures
        capitalize_state(s.take(n as int)) == (capital_pieces(s, n), sentence_pending(s.take(n as int))),
    decreases n,
{
    if n > 0 {
        let m = (n - 1) as nat;
        lemma_capitalize_prefix(s, m);
        let p = s.take(n as int);
        assert(p.drop_last() =~= s.take(m as int));
        assert(p.last() == s[m as int]);
    } else {
        assert(s.take(0) =~= Seq::<char>::empty());
    }
}

/// Capitalisation character by character: each character becomes its
/// uppercase exactly when it is alphabetic and everything between the last
/// `.`, `?` or `!` before it (or the start) and it is whitespace; every
/// other character is copied. This rests on the Unicode fact, which the
/// named `alphabetic` does not carry, that no alphabetic character is
/// whitespace or one of `.?!`; it is required of the text's characters.
pub proof fn law_capitalization_per_character(s: Seq<char>)
    requires
        forall|i: int| 0 <= i < s.len() && #[trigger] alphabetic(s[i])
            ==> !is_white_space(s[i]) && !is_sentence_end(s[i]),
    ensures
        capitalized(s) == capital_pieces(s, s.len()),
{
    lemma_capitalize_prefix(s, s.len());
    assert(s.take(s.len() as int) =~= s);
}

/// Capitalize the first letter after `.`, `?`, `!`, and at start of string.
pub fn capitalize_sentences(text: &str) -> (r: String)
    ensures
        r@ == capitalized(text@),
{
    let chars = to_chars(text);
    let ghost s = chars@;
    let mut out: Vec<char> = Vec::new();
    let mut cap = true;
    let mut i: usize = 0;
    while i < chars.len()
        invariant
            i <= chars.len(),
            s == chars@,
            capitalize_state(s.take(i as int)) == (out@, cap),
        decreases chars.len() - i,
    {
        let ch = chars[i];
        proof {
            assert(s.take(i + 1).drop_last() =~= s.take(i as int));
            assert(s.take(i + 1).last() == ch);
        }
        if cap && char_is_alphabetic(ch) {
            let up = char_to_uppercase(ch);
            push_str_chars(&mut out, up.as_str());
            cap = false;
        } else {
            out.push(ch);
            if ch == '.' || ch == '?' || ch == '!' {
                cap = true;
            } else if !is_whitespace(ch) {
                cap = false;
            }
        }
        i += 1;
    }
    assert(s.take(s.len() as int) =~= s);
    from_chars(&out)
}

// ---------------------------------------------------------------------------
// CJK ↔ ASCII spacing
// ---------------------------------------------------------------------------

/// Kana, CJK extension A and CJK unified ideographs.
pub open spec fn is_spacing_cjk(c: char) -> bool {
    ('\u{3040}' <= c && c <= '\u{30ff}') || ('\u{3400}' <= c && c <= '\u{4dbf}')
        || ('\u{4e00}' <= c && c <= '\u{9fff}')
}

pub open spec fn is_ascii_alnum(c: char) -> bool {
    ('A' <= c && c <= 'Z') || ('a' <= c && c <= 'z') || ('0' <= c && c <= '9')
}

/// A boundary that gets a space: CJK then ASCII letter/digit (`cjk_first`),
/// or ASCII letter/digit then CJK.
pub open spec fn needs_space(a: char, b: char, cjk_first: bool) -> bool {
    if cjk_first {
        is_spacing_cjk(a) && is_ascii_alnum(b)
    } else {
        is_ascii_alnum(a) && is_spacing_cjk(b)
    }
}

/// One pass: a space inserted at every boundary of the given direction.
pub open spec fn spaced_pass(s: Seq<char>, cjk_first: bool) -> Seq<char>
    decreases s.len(),
{
    if s.len() <= 1 {
        s
    } else {
        let t = spaced_pass(s.drop_last(), cjk_first);
        if needs_space(s[s.len() - 2], s.last(), cjk_first) {
            t.push(' ').push(s.last())
        } else {
            t.push(s.last())
        }
    }
}

/// CJK-then-ASCII boundaries first, then ASCII-then-CJK.
pub open spec fn cjk_spaced(s: Seq<char>) -> Seq<char> {
    spaced_pass(spaced_pass(s, true), false)
}

fn spacing_pass(chars: &Vec<char>, cjk_first: bool) -> (out: Vec<char>)
    ensures
        out@ == spaced_pass(chars@, cjk_first),
{
    let ghost s = chars@;
    let mut out: Vec<char> = Vec::new();
    if chars.len() == 0 {
        return out;
    }
    out.push(chars[0]);
    assert(s.take(1) =~= seq![s[0]]);
    let mut i: usize = 1;
    while i < chars.len()
        invariant
            1 <= i <= chars.len(),
            s == chars@,
            out@ == spaced_pass(s.take(i as int), cjk_first),
        decreases chars.len() - i,
    {
        let a = chars[i - 1];
        let b = chars[i];
        proof {
            assert(s.take(i + 1).drop_last() =~= s.take(i as int));
        }
        let gap = if cjk_first {
            is_spacing_cjk_char(a) && is_ascii_alnum_char(b)
        } else {
            is_ascii_alnum_char(a) && is_spacing_cjk_char(b)
        };
        if gap {
            out.push(' ');
        }
        out.push(b);
        i += 1;
    }
    assert(s.take(s.len() as int) =~= s);
    out
}

fn is_spacing_cjk_char(c: char) -> (r: bool)
    ensures
        r == is_spacing_cjk(c),
{
    ('\u{3040}' <= c && c <= '\u{30ff}') || ('\u{3400}' <= c && c <= '\u{4dbf}')
        || ('\u{4e00}' <= c && c <= '\u{9fff}')
}

fn is_ascii_alnum_char(c: char) -> (r: bool)
    ensures
        r == is_ascii_alnum(c),
{
    ('A' <= c && c <= 'Z') || ('a' <= c && c <= 'z') || ('0' <= c && c <= '9')
}

/// Insert a single space at every CJK ↔ ASCII letter/digit boundary.
pub fn add_cjk_spacing(text: &str) -> (r: String)
    ensures
        r@ == cjk_spaced(text@),
{
    let chars = to_chars(text);
    let first = spacing_pass(&chars, true);
    let second = spacing_pass(&first, false);
    from_chars(&second)
}

pub open spec fn no_boundary(s: Seq<char>, cjk_first: bool) -> bool {
    forall|k: int| 0 <= k < s.len() - 1 ==> !needs_space(#[trigger] s[k], s[k + 1], cjk_first)
}

proof fn lemma_spaced_pass_last(s: Seq<char>, cjk_first: bool)
    requires
        s.len() > 0,
    ensures
        spaced_pass(s, cjk_first).len() > 0,
        spaced_pass(s, cjk_first).last() == s.last(),
    decreases s.len(),
{
}

proof fn lemma_spaced_pass_identity(s: Seq<char>, cjk_first: bool)
    requires
        no_boundary(s, cjk_first),
    ensures
        spaced_pass(s, cjk_first) == s,
    decreases s.len(),
{
    if s.len() > 1 {
        assert(no_boundary(s.drop_last(), cjk_first)) by {
            assert forall|k: int| 0 <= k < s.drop_last().len() - 1 implies
                !needs_space(#[trigger] s.drop_last()[k], s.drop_last()[k + 1], cjk_first) by {
                assert(!needs_space(s[k], s[k + 1], cjk_first));
            }
        }
        lemma_spaced_pass_identity(s.drop_last(), cjk_first);
        assert(!needs_space(s[s.len() - 2], s[s.len() - 1], cjk_first));
        assert(s.drop_last().push(s.last()) =~= s);
    }
}

/// After a pass no boundary of its direction is left, and a boundary of the
/// other direction is never created.
proof fn lemma_spaced_pass_clears(s: Seq<char>, cjk_first: bool, other: bool)
    ensures
        no_boundary(spaced_pass(s, cjk_first), cjk_first),
        no_boundary(s, other) ==> no_boundary(spaced_pass(s, cjk_first), other),
    decreases s.len(),
{
    if s.len() > 1 {
        let d = s.drop_last();
        lemma_spaced_pass_clears(d, cjk_first, other);
        lemma_spaced_pass_last(d, cjk_first);
        let t = spaced_pass(d, cjk_first);
        let x = s.last();
        assert(t.last() == s[s.len() - 2]);
        if no_boundary(s, other) {
            assert(no_boundary(d, other)) by {
                assert forall|k: int| 0 <= k < d.len() - 1 implies
                    !needs_space(#[trigger] d[k], d[k + 1], other) by {
                    assert(!needs_space(s[k], s[k + 1], other));
                }
            }
            assert(!needs_space(s[s.len() - 2], s[s.len() - 1], other));
        }
        let r = spaced_pass(s, cjk_first);
        if needs_space(s[s.len() - 2], x, cjk_first) {
            assert(r == t.push(' ').push(x));
            assert forall|k: int| 0 <= k < r.len() - 1 implies
                !needs_space(#[trigger] r[k], r[k + 1], cjk_first) by {
                if k < t.len() - 1 {
                    assert(r[k] == t[k] && r[k + 1] == t[k + 1]);
                }
            }
            if no_boundary(s, other) {
                assert forall|k: int| 0 <= k < r.len() - 1 implies
                    !needs_space(#[trigger] r[k], r[k + 1], other) by {
                    if k < t.len() - 1 {
                        assert(r[k] == t[k] && r[k + 1] == t[k + 1]);
                    }
                }
            }
        } else {
            assert(r == t.push(x));
            assert forall|k: int| 0 <= k < r.len() - 1 implies
                !needs_space(#[trigger] r[k], r[k + 1], cjk_first) by {
                if k < t.len() - 1 {
                    assert(r[k] == t[k] && r[k + 1] == t[k + 1]);
                } else {
                    assert(r[k] == s[s.len() - 2]);
                }
            }
            if no_boundary(s, other) {
                assert forall|k: int| 0 <= k < r.len() - 1 implies
                    !needs_space(#[trigger] r[k], r[k + 1], other) by {
                    if k < t.len() - 1 {
                        assert(r[k] == t[k] && r[k + 1] == t[k + 1]);
                    } else {
                        assert(r[k] == s[s.len() - 2]);
                    }
                }
            }
        }
    }
}

/// Spacing is idempotent: spaced text has no boundary left to space.
pub proof fn law_cjk_spacing_idempotent(s: Seq<char>)
    ensures
        cjk_spaced(cjk_spaced(s)) == cjk_spaced(s),
{
    let u = spaced_pass(s, true);
    let w = spaced_pass(u, false);
    lemma_spaced_pass_clears(s, true, false);
    lemma_spaced_pass_clears(u, false, true);
    lemma_spaced_pass_identity(w, true);
    lemma_spaced_pass_identity(w, false);
}

/// After spacing, no ASCII letter (of either case) or digit stands right
/// next to a kana or CJK ideograph, in either order: every such boundary
/// got a space.
pub proof fn law_cjk_spacing_separates(s: Seq<char>)
    ensures
        forall|k: int| 0 <= k < cjk_spaced(s).len() - 1 ==> {
            let a = #[trigger] cjk_spaced(s)[k];
            let b = cjk_spaced(s)[k + 1];
            let a_ascii = ('A' <= a && a <= 'Z') || ('a' <= a && a <= 'z') || ('0' <= a && a <= '9');
            let b_ascii = ('A' <= b && b <= 'Z') || ('a' <= b && b <= 'z') || ('0' <= b && b <= '9');
            let a_cjk = ('\u{3040}' <= a && a <= '\u{30ff}') || ('\u{3400}' <= a && a <= '\u{4dbf}')
                || ('\u{4e00}' <= a && a <= '\u{9fff}');
            let b_cjk = ('\u{3040}' <= b && b <= '\u{30ff}') || ('\u{3400}' <= b && b <= '\u{4dbf}')
                || ('\u{4e00}' <= b && b <= '\u{9fff}');
            !(a_ascii && b_cjk) && !(a_cjk && b_ascii)
        },
{
    let u = spaced_pass(s, true);
    let w = spaced_pass(u, false);
    lemma_spaced_pass_clears(s, true, false);
    lemma_spaced_pass_clears(u, false, true);
    assert forall|k: int| 0 <= k < w.len() - 1 implies !needs_space(#[trigger] w[k], w[k + 1], true)
        && !needs_space(w[k], w[k + 1], false) by {
    }
}

/// The characters of `s` other than the space `' '`.
pub open spec fn spaces_removed(s: Seq<char>) -> Seq<char>
    decreases s.len(),
{
    if s.len() == 0 {
        s
    } else if s.last() == ' ' {
        spaces_removed(s.drop_last())
    } else {
        spaces_removed(s.drop_last()).push(s.last())
    }
}

proof fn lemma_spaced_pass_only_spaces(s: Seq<char>, cjk_first: bool)
    ensures
        spaces_removed(spaced_pass(s, cjk_first)) == spaces_removed(s),
        spaced_pass(s, cjk_first).len() >= s.len(),
    decreases s.len(),
{
    if s.len() > 1 {
        let t = spaced_pass(s.drop_last(), cjk_first);
        lemma_spaced_pass_only_spaces(s.drop_last(), cjk_first);
        let l = s.last();
        assert(s.last() == l);
        if needs_space(s[s.len() - 2], l, cjk_first) {
            let a = t.push(' ');
            let b = a.push(l);
            assert(b.drop_last() =~= a);
            assert(a.drop_last() =~= t);
            assert(a.last() == ' ');
            assert(b.last() == l);
            assert(spaces_removed(a) == spaces_removed(t));
        } else {
            let b = t.push(l);
            assert(b.drop_last() =~= t);
            assert(b.last() == l);
        }
    }
}

/// Spacing only inserts spaces: with the spaces taken out, the spaced text
/// is the text.
pub proof fn law_cjk_spacing_only_inserts_spaces(s: Seq<char>)
    ensures
        spaces_removed(cjk_spaced(s)) == spaces_removed(s),
{
    lemma_spaced_pass_only_spaces(s, true);
    lemma_spaced_pass_only_spaces(spaced_pass(s, true), false);
}

// ---------------------------------------------------------------------------
// Trimming
// ---------------------------------------------------------------------------

/// `s` without trailing White_Space characters (`str::trim_end`).
pub open spec fn trimmed_end(s: Seq<char>) -> Seq<char>
    decreases s.len(),
{
    if s.len() > 0 && is_white_space(s.last()) {
        trimmed_end(s.drop_last())
    } else {
        s
    }
}

/// `s` without leading White_Space characters (`str::trim_start`).
pub open spec fn trimmed_start(s: Seq<char>) -> Seq<char>
    decreases s.len(),
{
    if s.len() > 0 && is_white_space(s[0]) {
        trimmed_start(s.skip(1))
    } else {
        s
    }
}

/// `str::trim`.
pub open spec fn trimmed(s: Seq<char>) -> Seq<char> {
    trimmed_end(trimmed_start(s))
}

/// Length of `chars` once trailing whitespace is dropped.
pub fn trim_end_len(chars: &Vec<char>) -> (k: usize)
    ensures
        k <= chars.len(),
        chars@.take(k as int) == trimmed_end(chars@),
{
    let ghost s = chars@;
    let mut k = chars.len();
    assert(s.take(k as int) == s);
    while k > 0 && is_whitespace(chars[k - 1])
        invariant
            k <= chars.len(),
            s == chars@,
            trimmed_end(s.take(k as int)) == trimmed_end(s),
        decreases k,
    {
        assert(s.take(k as int).drop_last() == s.take(k - 1));
        k -= 1;
    }
    k
}

/// Index of the first character that is not whitespace (or the length).
pub fn trim_start_index(chars: &Vec<char>) -> (j: usize)
    ensures
        j <= chars.len(),
        chars@.skip(j as int) == trimmed_start(chars@),
{
    let ghost s = chars@;
    let mut j: usize = 0;
    assert(s.skip(0) == s);
    while j < chars.len() && is_whitespace(chars[j])
        invariant
            j <= chars.len(),
            s == chars@,
            trimmed_start(s.skip(j as int)) == trimmed_start(s),
        decreases chars.len() - j,
    {
        assert(s.skip(j as int).skip(1) == s.skip(j + 1));
        j += 1;
    }
    j
}

/// The characters of `chars` in `[from, to)`.
pub fn slice_chars(chars: &Vec<char>, from: usize, to: usize) -> (r: Vec<char>)
    requires
        from <= to <= chars.len(),
    ensures
        r@ == chars@.subrange(from as int, to as int),
{
    let mut r: Vec<char> = Vec::new();
    let mut i = from;
    while i < to
        invariant
            from <= i <= to <= chars.len(),
            r@ == chars@.subrange(from as int, i as int),
        decreases to - i,
    {
        r.push(chars[i]);
        i += 1;
        assert(chars@.subrange(from as int, i as int)
            == chars@.subrange(from as int, i - 1).push(chars@[i - 1]));
    }
    r
}

// ---------------------------------------------------------------------------
// Terminal period
// ---------------------------------------------------------------------------

/// Characters that already end a sentence: `.?!。？！…⋯`.
pub open spec fn is_terminal_punct(c: char) -> bool {
    c == '.' || c == '?' || c == '!' || c == '。' || c == '？' || c == '！' || c == '…' || c == '⋯'
}

/// Kana, CJK ideographs, CJK compatibility ideographs, half/full-width
/// forms and CJK symbols: text ending in one of these gets `。`.
pub open spec fn is_cjk_terminator(c: char) -> bool {
    ('\u{3040}' <= c && c <= '\u{30ff}') || ('\u{3400}' <= c && c <= '\u{4dbf}')
        || ('\u{4e00}' <= c && c <= '\u{9fff}') || ('\u{f900}' <= c && c <= '\u{faff}')
        || ('\u{ff00}' <= c && c <= '\u{ffef}') || ('\u{3000}' <= c && c <= '\u{303f}')
}

/// The text with a sentence-ending period: the trailing whitespace is dropped
/// and `。` (after CJK) or `.` (otherwise) appended; unchanged when it is
/// blank or already ends with a terminator.
pub open spec fn with_terminal_period(s: Seq<char>) -> Seq<char> {
    let t = trimmed_end(s);
    if t.len() == 0 || is_terminal_punct(t.last()) {
        s
    } else if is_cjk_terminator(t.last()) {
        t.push('。')
    } else {
        t.push('.')
    }
}

fn terminal_punct(c: char) -> (r: bool)
    ensures
        r == is_terminal_punct(c),
{
    c == '.' || c == '?' || c == '!' || c == '。' || c == '？' || c == '！' || c == '…' || c == '⋯'
}

fn cjk_terminator(c: char) -> (r: bool)
    ensures
        r == is_cjk_terminator(c),
{
    ('\u{3040}' <= c && c <= '\u{30ff}') || ('\u{3400}' <= c && c <= '\u{4dbf}')
        || ('\u{4e00}' <= c && c <= '\u{9fff}') || ('\u{f900}' <= c && c <= '\u{faff}')
        || ('\u{ff00}' <= c && c <= '\u{ffef}') || ('\u{3000}' <= c && c <= '\u{303f}')
}

/// Append a sentence-ending period to `text` when it does not already end with
/// one. Picks `。` for CJK-ending text, `.` for ASCII-ending text. Returns the
/// original text unchanged when empty / whitespace-only or already terminated
/// by `.?!。？！…⋯`.
pub fn append_terminal_period(text: &str) -> (r: String)
    ensures
        r@ == with_terminal_period(text@),
{
    let chars = to_chars(text);
    let k = trim_end_len(&chars);
    if k == 0 || terminal_punct(chars[k - 1]) {
        return from_chars(&chars);
    }
    let last = chars[k - 1];
    let mut out = slice_chars(&chars, 0, k);
    if cjk_terminator(last) {
        out.push('。');
    } else {
        out.push('.');
    }
    from_chars(&out)
}

/// `.` and `。`, the periods that are stripped.
pub open spec fn is_period(c: char) -> bool {
    c == '.' || c == '。'
}

/// `s` without its trailing run of periods.
pub open spec fn periods_trimmed(s: Seq<char>) -> Seq<char>
    decreases s.len(),
{
    if s.len() > 0 && is_period(s.last()) {
        periods_trimmed(s.drop_last())
    } else {
        s
    }
}

/// Ends with `...`, an ellipsis that is kept.
pub open spec fn ends_with_dots(t: Seq<char>) -> bool {
    t.len() >= 3 && t[t.len() - 1] == '.' && t[t.len() - 2] == '.' && t[t.len() - 3] == '.'
}

/// The text without its sentence-ending period: after the trailing
/// whitespace, the whole trailing run of `.`/`。` goes; unchanged when blank,
/// when it ends with `...`, or when it ends with no period (`?!？！…⋯` stay).
pub open spec fn without_terminal_period(s: Seq<char>) -> Seq<char> {
    let t = trimmed_end(s);
    let u = periods_trimmed(t);
    if t.len() == 0 || ends_with_dots(t) || u.len() == t.len() {
        s
    } else {
        u
    }
}

/// The length of the trailing run of periods of `t`.
pub open spec fn trailing_periods(t: Seq<char>) -> nat
    decreases t.len(),
{
    if t.len() > 0 && is_period(t.last()) {
        trailing_periods(t.drop_last()) + 1
    } else {
        0
    }
}

proof fn lemma_periods_trimmed(t: Seq<char>)
    ensures
        trailing_periods(t) <= t.len(),
        periods_trimmed(t) == t.take(t.len() - trailing_periods(t)),
        forall|i: int| t.len() - trailing_periods(t) <= i < t.len() ==> is_period(#[trigger] t[i]),
        trailing_periods(t) < t.len() ==> !is_period(t[t.len() - trailing_periods(t) - 1]),
    decreases t.len(),
{
    if t.len() > 0 && is_period(t.last()) {
        let u = t.drop_last();
        lemma_periods_trimmed(u);
        assert(u.take(u.len() - trailing_periods(u)) =~= t.take(t.len() - trailing_periods(t)));
        assert forall|i: int| t.len() - trailing_periods(t) <= i < t.len() implies is_period(#[trigger] t[i]) by {
            if i < t.len() - 1 {
                assert(t[i] == u[i]);
            }
        }
        if trailing_periods(t) < t.len() {
            assert(t[t.len() - trailing_periods(t) - 1] == u[u.len() - trailing_periods(u) - 1]);
        }
    } else {
        assert(t.take(t.len() as int) =~= t);
    }
}

/// With the period option off, the trailing run of `.`/`。` after the text's
/// trailing whitespace is removed (with that whitespace), all of it and
/// nothing before it; the text is returned as it is when it is blank, ends
/// with `...`, or ends with no period.
pub proof fn law_period_stripping(s: Seq<char>)
    ensures
        ({
            let t = trimmed_end(s);
            let k = trailing_periods(t);
            &&& k <= t.len()
            &&& (t.len() == 0 || k == 0 || ends_with_dots(t)) ==> without_terminal_period(s) == s
            &&& !(t.len() == 0 || k == 0 || ends_with_dots(t)) ==> without_terminal_period(s) == t.take(t.len() - k)
            &&& forall|i: int| t.len() - k <= i < t.len() ==> is_period(#[trigger] t[i])
            &&& k < t.len() ==> !is_period(t[t.len() - k - 1])
        }),
{
    let t = trimmed_end(s);
    lemma_periods_trimmed(t);
}

/// Strip the sentence-ending `.`/`。` run from `text`, keeping `?!？！…⋯` and
/// an ASCII `...` ellipsis; blank text and text without a final period are
/// returned as they are.
pub fn strip_terminal_period(text: &str) -> (r: String)
    ensures
        r@ == without_terminal_period(text@),
{
    let chars = to_chars(text);
    let ghost s = chars@;
    let k = trim_end_len(&chars);
    let ghost t = s.take(k as int);
    if k == 0 || (k >= 3 && chars[k - 1] == '.' && chars[k - 2] == '.' && chars[k - 3] == '.') {
        return from_chars(&chars);
    }
    let mut m = k;
    while m > 0 && (chars[m - 1] == '.' || chars[m - 1] == '。')
        invariant
            m <= k <= chars.len(),
            s == chars@,
            t == s.take(k as int),
            periods_trimmed(s.take(m as int)) == periods_trimmed(t),
        decreases m,
    {
        assert(s.take(m as int).drop_last() == s.take(m - 1));
        m -= 1;
    }
    if m == k {
        return from_chars(&chars);
    }
    let out = slice_chars(&chars, 0, m);
    from_chars(&out)
}

proof fn lemma_trimmed_end_push(t: Seq<char>, c: char)
    requires
        !is_white_space(c),
    ensures
        trimmed_end(t.push(c)) == t.push(c),
{
}

/// The period step is idempotent: a text it produced already ends with a
/// terminator.
pub proof fn law_terminal_period_idempotent(s: Seq<char>)
    ensures
        with_terminal_period(with_terminal_period(s)) == with_terminal_period(s),
{
    let t = trimmed_end(s);
    if !(t.len() == 0 || is_terminal_punct(t.last())) {
        let p = if is_cjk_terminator(t.last()) { '。' } else { '.' };
        lemma_trimmed_end_push(t, p);
        assert(t.push(p).last() == p);
    }
}

/// Whitespace after the last visible character does not change the result.
pub proof fn law_terminal_period_ignores_trailing_space(s: Seq<char>, c: char)
    requires
        is_white_space(c),
        trimmed_end(s).len() > 0,
        !is_terminal_punct(trimmed_end(s).last()),
    ensures
        with_terminal_period(s.push(c)) == with_terminal_period(s),
{
    assert(s.push(c).drop_last() == s);
}

/// The period matches the script of the last visible character: after any
/// character of the CJK blocks (CJK symbols and punctuation such as `》` or
/// `」`, kana, ideographs, compatibility ideographs, half/full-width forms)
/// that is not itself a full stop, question or exclamation mark, `。` is
/// appended; after an ASCII letter or digit, `.`. Trailing whitespace goes.
pub proof fn law_terminal_period_by_script(s: Seq<char>)
    ensures
        ({
            let t = trimmed_end(s);
            let c = t.last();
            &&& (t.len() > 0
                && (('\u{3000}' <= c && c <= '\u{303f}') || ('\u{3040}' <= c && c <= '\u{30ff}')
                    || ('\u{3400}' <= c && c <= '\u{4dbf}') || ('\u{4e00}' <= c && c <= '\u{9fff}')
                    || ('\u{f900}' <= c && c <= '\u{faff}') || ('\u{ff00}' <= c && c <= '\u{ffef}'))
                && c != '。' && c != '？' && c != '！')
                ==> with_terminal_period(s) == t.push('。')
            &&& (t.len() > 0 && (('A' <= c && c <= 'Z') || ('a' <= c && c <= 'z') || ('0' <= c && c <= '9')))
                ==> with_terminal_period(s) == t.push('.')
        }),
{
}

/// Stripping undoes appending: on text whose last visible character is not a
/// terminator, appending and then stripping the period gives the text without
/// its trailing whitespace.
pub proof fn law_strip_undoes_append(s: Seq<char>)
    requires
        trimmed_end(s).len() > 0,
        !is_terminal_punct(trimmed_end(s).last()),
    ensures
        without_terminal_period(with_terminal_period(s)) == trimmed_end(s),
{
    let t = trimmed_end(s);
    let p = if is_cjk_terminator(t.last()) { '。' } else { '.' };
    let w = t.push(p);
    assert(with_terminal_period(s) == w);
    lemma_trimmed_end_push(t, p);
    assert(w.drop_last() == t);
    assert(periods_trimmed(w) == periods_trimmed(t));
    assert(periods_trimmed(t) == t);
    assert(!ends_with_dots(w)) by {
        if w.len() >= 3 {
            assert(w[w.len() - 2] == t.last());
        }
    }
}

// ---------------------------------------------------------------------------
// Hallucination filter
// ---------------------------------------------------------------------------

/// The first position at or after `i` that does not hold whitespace (the
/// end of `t` when there is none).
pub open spec fn skip_ws(t: Seq<char>, i: nat) -> nat
    decreases t.len() - i,
{
    if i < t.len() && is_white_space(t[i as int]) {
        skip_ws(t, i + 1)
    } else {
        i
    }
}

/// Skipping whitespace moves forward and stays within the text.
pub proof fn lemma_skip_ws_bounds(t: Seq<char>, i: nat)
    ensures
        i <= skip_ws(t, i),
        i <= t.len() ==> skip_ws(t, i) <= t.len(),
    decreases t.len() - i,
{
    if i < t.len() && is_white_space(t[i as int]) {
        lemma_skip_ws_bounds(t, i + 1);
    }
}

/// From position `i` the rest of `t` is `tok` followed by optional
/// whitespace, again and again, at least `n` times, and nothing else.
pub open spec fn repeats_to_end(t: Seq<char>, tok: Seq<char>, i: nat, n: nat) -> bool
    decreases t.len() - i,
{
    if i >= t.len() {
        n == 0
    } else if tok.len() > 0 && i + tok.len() <= t.len() && t.subrange(i as int, (i + tok.len()) as int) == tok {
        proof { lemma_skip_ws_bounds(t, i + tok.len()); }
        repeats_to_end(t, tok, skip_ws(t, i + tok.len()), if n > 0 { (n - 1) as nat } else { 0 })
    } else {
        false
    }
}

/// The text is its first `len` characters (none of them a line break),
/// optional whitespace, and then that token with optional whitespace at
/// least twice more.
pub open spec fn token_repeats(t: Seq<char>, len: nat) -> bool {
    &&& 1 <= len <= t.len()
    &&& !t.take(len as int).contains('\n')
    &&& repeats_to_end(t, t.take(len as int), skip_ws(t, len), 2)
}

/// One token of one to four characters repeated at least three times, with
/// optional whitespace in between and nothing else — e.g. `ん ん ん ん` or
/// `... ... ...`. This is the rule `^(.{1,4})\s*(\1\s*){2,}$` on trimmed
/// text.
pub open spec fn repeated_token(t: Seq<char>) -> bool {
    token_repeats(t, 1) || token_repeats(t, 2) || token_repeats(t, 3) || token_repeats(t, 4)
}

/// The first position at or after `i` that does not hold whitespace.
fn skip_whitespace(t: &Vec<char>, i: usize) -> (r: usize)
    requires
        i <= t.len(),
    ensures
        r == skip_ws(t@, i as nat),
        i <= r <= t.len(),
{
    let mut j = i;
    while j < t.len() && is_whitespace(t[j])
        invariant
            i <= j <= t.len(),
            skip_ws(t@, j as nat) == skip_ws(t@, i as nat),
        decreases t.len() - j,
    {
        j += 1;
    }
    j
}

/// Whether the `len` characters from `i` are the first `len` characters.
fn token_at(t: &Vec<char>, len: usize, i: usize) -> (r: bool)
    requires
        len <= t.len(),
    ensures
        r == (i + len <= t.len() && t@.subrange(i as int, i + len) == t@.take(len as int)),
{
    if i > t.len() || len > t.len() - i {
        return false;
    }
    let mut k: usize = 0;
    while k < len
        invariant
            k <= len,
            len <= t.len(),
            i + len <= t.len(),
            forall|m: int| 0 <= m < k ==> t@[i + m] == #[trigger] t@[m],
        decreases len - k,
    {
        if t[i + k] != t[k] {
            assert(t@.subrange(i as int, i + len)[k as int] != t@.take(len as int)[k as int]);
            return false;
        }
        k += 1;
    }
    assert(t@.subrange(i as int, i + len) =~= t@.take(len as int));
    true
}

/// Decides `repeats_to_end` for the token made of the first `len`
/// characters.
fn repeats_from(t: &Vec<char>, len: usize, i: usize, n: usize) -> (r: bool)
    requires
        1 <= len <= t.len(),
        i <= t.len(),
    ensures
        r == repeats_to_end(t@, t@.take(len as int), i as nat, n as nat),
{
    let ghost tok = t@.take(len as int);
    let mut pos = i;
    let mut need = n;
    while pos < t.len()
        invariant
            1 <= len <= t.len(),
            pos <= t.len(),
            tok == t@.take(len as int),
            repeats_to_end(t@, tok, i as nat, n as nat) == repeats_to_end(t@, tok, pos as nat, need as nat),
        decreases t.len() - pos,
    {
        if !token_at(t, len, pos) {
            return false;
        }
        proof { lemma_skip_ws_bounds(t@, (pos + len) as nat); }
        pos = skip_whitespace(t, pos + len);
        need = if need > 0 { need - 1 } else { 0 };
    }
    need == 0
}

/// Whether the first `len` characters hold a line break.
fn has_line_break(t: &Vec<char>, len: usize) -> (r: bool)
    requires
        len <= t.len(),
    ensures
        r == t@.take(len as int).contains('\n'),
{
    let mut k: usize = 0;
    while k < len
        invariant
            k <= len <= t.len(),
            forall|m: int| 0 <= m < k ==> t@[m] != '\n',
        decreases len - k,
    {
        if t[k] == '\n' {
            assert(t@.take(len as int)[k as int] == '\n');
            return true;
        }
        k += 1;
    }
    proof {
        if t@.take(len as int).contains('\n') {
            let m = choose|m: int| 0 <= m < t@.take(len as int).len() && t@.take(len as int)[m] == '\n';
            assert(t@[m] == '\n');
        }
    }
    false
}

/// Whether the text is one short token repeated (see `repeated_token`).
pub fn is_repeated_token(t: &Vec<char>) -> (r: bool)
    ensures
        r == repeated_token(t@),
{
    let mut len: usize = 1;
    while len <= 4
        invariant
            1 <= len <= 5,
            forall|l: nat| 1 <= l < len ==> !token_repeats(t@, l),
        decreases 5 - len,
    {
        if len <= t.len() && !has_line_break(t, len) {
            let start = skip_whitespace(t, len);
            if repeats_from(t, len, start, 2) {
                assert(token_repeats(t@, len as nat));
                return true;
            }
        }
        len += 1;
    }
    assert(!token_repeats(t@, 1) && !token_repeats(t@, 2) && !token_repeats(t@, 3) && !token_repeats(t@, 4));
    false
}

/// Letters and digits (`char::is_alphanumeric`), CJK ideographs and kana.
pub open spec fn is_meaningful(c: char) -> bool {
    ('0' <= c && c <= '9') || ('a' <= c && c <= 'z') || ('A' <= c && c <= 'Z')
        || alphanumeric(c) || ('\u{4e00}' <= c && c <= '\u{9fff}') || ('\u{3040}' <= c && c <= '\u{30ff}')
}

pub open spec fn count_meaningful(s: Seq<char>) -> nat
    decreases s.len(),
{
    if s.len() == 0 {
        0
    } else {
        count_meaningful(s.drop_last()) + if is_meaningful(s.last()) { 1nat } else { 0nat }
    }
}

pub open spec fn count_visible(s: Seq<char>) -> nat
    decreases s.len(),
{
    if s.len() == 0 {
        0
    } else {
        count_visible(s.drop_last()) + if !is_white_space(s.last()) { 1nat } else { 0nat }
    }
}

/// Wrapped whole in `()`, `[]`, `（）` or `【】`.
pub open spec fn bracketed(t: Seq<char>) -> bool {
    t.len() > 0 && (
        (t[0] == '(' && t.last() == ')') || (t[0] == '[' && t.last() == ']')
            || (t[0] == '（' && t.last() == '）') || (t[0] == '【' && t.last() == '】'))
}

/// Fewer than 30% of the visible characters are meaningful.
pub open spec fn symbol_heavy(t: Seq<char>) -> bool {
    count_visible(t) > 0 && 10 * count_meaningful(t) < 3 * count_visible(t)
}

/// The verdict on trimmed text.
pub open spec fn hallucination_given(t: Seq<char>) -> bool {
    t.len() == 0 || bracketed(t) || symbol_heavy(t) || repeated_token(t)
}

fn meaningful_char(c: char) -> (r: bool)
    ensures
        r == is_meaningful(c),
{
    ('0' <= c && c <= '9') || ('a' <= c && c <= 'z') || ('A' <= c && c <= 'Z')
        || char_is_alphanumeric(c) || ('\u{4e00}' <= c && c <= '\u{9fff}') || ('\u{3040}' <= c && c <= '\u{30ff}')
}

/// Decides whether trimmed transcription output is hallucinated: blank,
/// bracketed, mostly symbols, or one short token repeated.
pub fn hallucination_verdict(trimmed_text: &Vec<char>) -> (r: bool)
    ensures
        r == hallucination_given(trimmed_text@),
{
    let ghost t = trimmed_text@;
    let n = trimmed_text.len();
    if n == 0 {
        return true;
    }
    let first = trimmed_text[0];
    let last = trimmed_text[n - 1];
    if (first == '(' && last == ')') || (first == '[' && last == ']') || (first == '（' && last == '）')
        || (first == '【' && last == '】') {
        return true;
    }
    let mut meaningful: usize = 0;
    let mut visible: usize = 0;
    let mut i: usize = 0;
    while i < n
        invariant
            i <= n,
            n == trimmed_text.len(),
            t == trimmed_text@,
            meaningful == count_meaningful(t.take(i as int)),
            visible == count_visible(t.take(i as int)),
            meaningful <= i,
            visible <= i,
        decreases n - i,
    {
        let c = trimmed_text[i];
        assert(t.take(i + 1).drop_last() == t.take(i as int));
        if meaningful_char(c) {
            meaningful += 1;
        }
        if !is_whitespace(c) {
            visible += 1;
        }
        i += 1;
    }
    assert(t.take(n as int) == t);
    if visible > 0 && (meaningful as u128) * 10 < (visible as u128) * 3 {
        return true;
    }
    is_repeated_token(trimmed_text)
}

proof fn lemma_counts_all_alnum(t: Seq<char>)
    requires
        forall|k: int| 0 <= k < t.len() ==> {
            let c = #[trigger] t[k];
            ('0' <= c && c <= '9') || ('a' <= c && c <= 'z') || ('A' <= c && c <= 'Z')
        },
    ensures
        count_meaningful(t) == t.len(),
        count_visible(t) == t.len(),
    decreases t.len(),
{
    if t.len() > 0 {
        let u = t.drop_last();
        assert forall|k: int| 0 <= k < u.len() implies {
            let c = #[trigger] u[k];
            ('0' <= c && c <= '9') || ('a' <= c && c <= 'z') || ('A' <= c && c <= 'Z')
        } by {
            assert(u[k] == t[k]);
        }
        lemma_counts_all_alnum(u);
        let c = t[t.len() - 1];
        assert(('0' <= c && c <= '9') || ('a' <= c && c <= 'z') || ('A' <= c && c <= 'Z'));
    }
}

/// Digits and ASCII letters are meaningful, never symbols: a transcript made
/// only of them (e.g. `2024`) is kept unless it is one short token repeated.
pub proof fn law_digits_and_letters_are_kept(text: Seq<char>)
    requires
        text.len() > 0,
        forall|k: int| 0 <= k < text.len() ==> {
            let c = #[trigger] text[k];
            ('0' <= c && c <= '9') || ('a' <= c && c <= 'z') || ('A' <= c && c <= 'Z')
        },
        !repeated_token(text),
    ensures
        !hallucination_given(trimmed(text)),
{
    let c0 = text[0];
    let cl = text[text.len() - 1];
    assert(('0' <= c0 && c0 <= '9') || ('a' <= c0 && c0 <= 'z') || ('A' <= c0 && c0 <= 'Z'));
    assert(('0' <= cl && cl <= '9') || ('a' <= cl && cl <= 'z') || ('A' <= cl && cl <= 'Z'));
    assert(trimmed_start(text) == text);
    assert(trimmed_end(text) == text);
    lemma_counts_all_alnum(text);
}

/// Blank output is always discarded.
pub proof fn law_blank_is_hallucinated(text: Seq<char>)
    requires
        trimmed(text).len() == 0,
    ensures
        hallucination_given(trimmed(text)),
{
}

/// Output wrapped whole in brackets is always discarded.
pub proof fn law_bracketed_is_hallucinated(text: Seq<char>)
    requires
        bracketed(trimmed(text)),
    ensures
        hallucination_given(trimmed(text)),
{
}

/// Detect hallucinated transcription output from Whisper-like models:
/// after trimming, empty text, text wrapped whole in brackets, text that is
/// mostly symbols (CJK counts as meaningful), or a short token repeated.
/// Returns `true` if the text should be discarded.
pub fn is_hallucinated(text: &str) -> (r: bool)
    ensures
        r == hallucination_given(trimmed(text@)),
{
    let chars = to_chars(text);
    let j = trim_start_index(&chars);
    let rest = slice_chars(&chars, j, chars.len());
    assert(rest@ == chars@.skip(j as int));
    let k = trim_end_len(&rest);
    let t = slice_chars(&rest, 0, k);
    hallucination_verdict(&t)
}

// ---------------------------------------------------------------------------
// Merge whitespace-separated uppercase letters back into acronyms:
// the pattern `\b[A-Z](?:[ \t]+[A-Z]\b)+`, replaced by its letters.
// ---------------------------------------------------------------------------

pub open spec fn is_ascii_upper(c: char) -> bool {
    'A' <= c && c <= 'Z'
}

pub open spec fn is_hspace(c: char) -> bool {
    c == ' ' || c == '\t'
}

/// A word boundary at position `p` (between `s[p-1]` and `s[p]`): exactly
/// one side is a word character, the text's ends counting as non-word.
pub open spec fn boundary_at(s: Seq<char>, p: int) -> bool {
    let before = 0 < p && p <= s.len() && word_char(s[p - 1]);
    let after = 0 <= p && p < s.len() && word_char(s[p]);
    before != after
}

/// End of the run of spaces and tabs that starts at `j`.
pub open spec fn hspace_end(s: Seq<char>, j: int) -> int
    decreases s.len() - j,
{
    if 0 <= j < s.len() && is_hspace(s[j]) {
        hspace_end(s, j + 1)
    } else {
        j
    }
}

/// `[ \t]+[A-Z]\b` matches at `j`.
pub open spec fn letter_group_at(s: Seq<char>, j: int) -> bool {
    let k = hspace_end(s, j);
    &&& j < k
    &&& k < s.len()
    &&& is_ascii_upper(s[k])
    &&& boundary_at(s, k + 1)
}

/// End of the greedy repetition of letter groups that starts at `j`.
pub open spec fn groups_end(s: Seq<char>, j: int) -> int
    decreases s.len() - j,
{
    if 0 <= j && letter_group_at(s, j) {
        groups_end(s, hspace_end(s, j) + 1)
    } else {
        j
    }
}

/// The acronym pattern matches at `i`.
pub open spec fn acronym_at(s: Seq<char>, i: int) -> bool {
    &&& 0 <= i < s.len()
    &&& is_ascii_upper(s[i])
    &&& boundary_at(s, i)
    &&& letter_group_at(s, i + 1)
}

/// The characters of `s` that are not whitespace.
pub open spec fn without_whitespace(s: Seq<char>) -> Seq<char>
    decreases s.len(),
{
    if s.len() == 0 {
        s
    } else if is_white_space(s.last()) {
        without_whitespace(s.drop_last())
    } else {
        without_whitespace(s.drop_last()).push(s.last())
    }
}

pub proof fn lemma_hspace_end_bounds(s: Seq<char>, j: int)
    requires
        0 <= j <= s.len(),
    ensures
        j <= hspace_end(s, j) <= s.len(),
    decreases s.len() - j,
{
    if 0 <= j < s.len() && is_hspace(s[j]) {
        lemma_hspace_end_bounds(s, j + 1);
    }
}

pub proof fn lemma_groups_end_bounds(s: Seq<char>, j: int)
    requires
        0 <= j <= s.len(),
    ensures
        j <= groups_end(s, j) <= s.len(),
    decreases s.len() - j,
{
    if letter_group_at(s, j) {
        lemma_groups_end_bounds(s, hspace_end(s, j) + 1);
    }
}

/// The text from position `i` on, every acronym match replaced by its
/// letters, scanning left to right without overlap.
pub open spec fn merged_from(s: Seq<char>, i: int) -> Seq<char>
    decreases s.len() - i,
{
    if i < 0 || i >= s.len() {
        Seq::empty()
    } else if acronym_at(s, i) {
        let e = groups_end(s, i + 1);
        proof {
            lemma_groups_end_bounds(s, i + 1);
        }
        without_whitespace(s.subrange(i, e)) + merged_from(s, e)
    } else {
        seq![s[i]] + merged_from(s, i + 1)
    }
}

pub open spec fn uppercase_merged(s: Seq<char>) -> Seq<char> {
    merged_from(s, 0)
}

fn word_char_at(chars: &Vec<char>, p: usize) -> (r: bool)
    requires
        p < chars.len(),
    ensures
        r == word_char(chars@[p as int]),
{
    is_word_character(chars[p])
}

fn boundary(chars: &Vec<char>, p: usize) -> (r: bool)
    requires
        p <= chars.len(),
    ensures
        r == boundary_at(chars@, p as int),
{
    let before = p > 0 && word_char_at(chars, p - 1);
    let after = p < chars.len() && word_char_at(chars, p);
    before != after
}

fn hspace_run_end(chars: &Vec<char>, j: usize) -> (k: usize)
    requires
        j <= chars.len(),
    ensures
        k == hspace_end(chars@, j as int),
        j <= k <= chars.len(),
{
    let mut k = j;
    while k < chars.len() && (chars[k] == ' ' || chars[k] == '\t')
        invariant
            j <= k <= chars.len(),
            hspace_end(chars@, j as int) == hspace_end(chars@, k as int),
        decreases chars.len() - k,
    {
        k += 1;
    }
    k
}

/// `Some(end of the group)` when a letter group matches at `j`.
fn letter_group(chars: &Vec<char>, j: usize) -> (r: Option<usize>)
    requires
        j <= chars.len(),
    ensures
        r is Some <==> letter_group_at(chars@, j as int),
        r matches Some(e) ==> e == hspace_end(chars@, j as int) + 1,
{
    let k = hspace_run_end(chars, j);
    if j < k && k < chars.len() && chars[k] >= 'A' && chars[k] <= 'Z' && boundary(chars, k + 1) {
        Some(k + 1)
    } else {
        None
    }
}

fn letter_groups_end(chars: &Vec<char>, j: usize) -> (e: usize)
    requires
        j <= chars.len(),
    ensures
        e == groups_end(chars@, j as int),
{
    let mut cur = j;
    loop
        invariant
            j <= cur <= chars.len(),
            groups_end(chars@, j as int) == groups_end(chars@, cur as int),
        decreases chars.len() - cur,
    {
        match letter_group(chars, cur) {
            Some(next) => {
                cur = next;
            },
            None => {
                return cur;
            },
        }
    }
}

proof fn lemma_merged_without_capitals(s: Seq<char>, i: int)
    requires
        0 <= i <= s.len(),
        forall|k: int| 0 <= k < s.len() ==> !is_ascii_upper(#[trigger] s[k]),
    ensures
        merged_from(s, i) == s.subrange(i, s.len() as int),
    decreases s.len() - i,
{
    if i < s.len() {
        lemma_merged_without_capitals(s, i + 1);
        assert(s.subrange(i, s.len() as int) == seq![s[i]] + s.subrange(i + 1, s.len() as int));
    } else {
        assert(s.subrange(i, s.len() as int) == Seq::<char>::empty());
    }
}

/// Text without ASCII capitals is left as it is by acronym merging.
pub proof fn law_merge_keeps_text_without_capitals(s: Seq<char>)
    requires
        forall|k: int| 0 <= k < s.len() ==> !is_ascii_upper(#[trigger] s[k]),
    ensures
        uppercase_merged(s) == s,
{
    lemma_merged_without_capitals(s, 0);
    assert(s.subrange(0, s.len() as int) == s);
}

/// A capital letter that is not followed (after spaces or tabs) by another
/// capital forming a whole word is kept as it is: a merge needs at least
/// two letters.
pub proof fn law_merge_needs_two_letters(s: Seq<char>, i: int)
    requires
        0 <= i < s.len(),
        !letter_group_at(s, i + 1),
    ensures
        !acronym_at(s, i),
{
}

/// Collapse sequences of isolated uppercase letters (≥2 letters separated by
/// spaces or tabs) into a single acronym token: "C D N" → "CDN". Lowercase
/// letters or other tokens break the sequence, so "A the B" stays unchanged,
/// and single uppercase letters ("维生素 A") are untouched.
pub fn merge_uppercase_letter_sequences(text: &str) -> (r: String)
    ensures
        r@ == uppercase_merged(text@),
{
    let chars = to_chars(text);
    let ghost s = chars@;
    let mut out: Vec<char> = Vec::new();
    let mut i: usize = 0;
    while i < chars.len()
        invariant
            i <= chars.len(),
            s == chars@,
            out@ + merged_from(s, i as int) == merged_from(s, 0),
        decreases chars.len() - i,
    {
        let c = chars[i];
        let starts = c >= 'A' && c <= 'Z' && boundary(&chars, i) && i + 1 <= chars.len()
            && letter_group(&chars, i + 1).is_some();
        if starts {
            let e = letter_groups_end(&chars, i + 1);
            proof {
                lemma_groups_end_bounds(s, i + 1);
            }
            let ghost before = out@;
            let mut k = i;
            while k < e
                invariant
                    i <= k <= e <= chars.len(),
                    s == chars@,
                    out@ == before + without_whitespace(s.subrange(i as int, k as int)),
                decreases e - k,
            {
                assert(s.subrange(i as int, k + 1).drop_last() == s.subrange(i as int, k as int));
                if !is_whitespace(chars[k]) {
                    out.push(chars[k]);
                }
                k += 1;
            }
            assert(out@ + merged_from(s, e as int) == before + merged_from(s, i as int));
            i = e;
        } else {
            let ghost before = out@;
            out.push(c);
            assert(out@ + merged_from(s, i + 1) == before + merged_from(s, i as int));
            i += 1;
        }
    }
    assert(merged_from(s, i as int) == Seq::<char>::empty());
    assert(out@ + Seq::<char>::empty() == out@);
    from_chars(&out)
}

// ---------------------------------------------------------------------------
// process_text — the whole post-processing pipeline
// ---------------------------------------------------------------------------

/// Bundle of post-processing toggles, one per settings switch. The default
/// turns every optional step off; product defaults are decided where the
/// settings are read.
#[derive(Debug, Clone, Copy)]
pub struct ProcessOptions {
    pub auto_capitalize: bool,
    pub append_period: bool,
    pub convert_cn_numerals: bool,
    pub use_builtin_dictionary: bool,
}

impl Default for ProcessOptions {
    fn default() -> (o: Self)
        ensures
            !o.auto_capitalize,
            !o.append_period,
            !o.convert_cn_numerals,
            !o.use_builtin_dictionary,
    {
        ProcessOptions {
            auto_capitalize: false,
            append_period: false,
            convert_cn_numerals: false,
            use_builtin_dictionary: false,
        }
    }
}

/// The pipeline: user rules, the built-in dictionary (optional), acronym
/// merging, numeral conversion (optional), CJK/ASCII spacing,
/// capitalisation (optional), then the period appended (when enabled) or
/// stripped (when not).
pub open spec fn processed(
    text: Seq<char>,
    rules: Seq<(Seq<char>, Seq<char>)>,
    opts: ProcessOptions,
) -> Seq<char> {
    let s1 = rules_applied(text, rules);
    let s2 = if opts.use_builtin_dictionary { entries_applied(s1, builtin_entries()) } else { s1 };
    let s3 = uppercase_merged(s2);
    let s4 = if opts.convert_cn_numerals { cn_numerals_converted(s3) } else { s3 };
    let s5 = cjk_spaced(s4);
    let s6 = if opts.auto_capitalize { capitalized(s5) } else { s5 };
    if opts.append_period {
        with_terminal_period(s6)
    } else {
        without_terminal_period(s6)
    }
}

/// Apply the full transcript post-processing pipeline. The optional steps
/// are gated by `opts`; user replacements, uppercase-letter merging and
/// CJK/ASCII spacing always run; with `append_period` off a trailing period
/// is stripped.
pub fn process_text(text: &str, user_replacements: &[(String, String)], opts: &ProcessOptions) -> (r: String)
    ensures
        r@ == processed(text@, rules_view(user_replacements@), *opts),
{
    let s = apply_replacements(text, user_replacements);
    let s = if opts.use_builtin_dictionary {
        apply_builtin_dict(s.as_str())
    } else {
        s
    };
    let s = merge_uppercase_letter_sequences(s.as_str());
    let s = if opts.convert_cn_numerals {
        convert_cn_numerals(s.as_str())
    } else {
        s
    };
    let s = add_cjk_spacing(s.as_str());
    let s = if opts.auto_capitalize {
        capitalize_sentences(s.as_str())
    } else {
        s
    };
    if opts.append_period {
        append_terminal_period(s.as_str())
    } else {
        strip_terminal_period(s.as_str())
    }
}

} // verus!
