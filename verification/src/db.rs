//! Database records and the text statistics computed over transcriptions.
//! The SQLite access itself lives in the application layer; the records it
//! exchanges and every computation on their contents are here.

use vstd::prelude::*;
use crate::unicode::{is_white_space, is_whitespace, to_chars, from_chars};
use vstd::string::StringSliceAdditionalSpecFns;

verus! {

#[derive(Debug, Clone)]
pub struct VocabularyWord {
    pub id: String,
    pub word: String,
    pub created_at: String,
}

#[derive(Debug, Clone)]
pub struct Replacement {
    pub id: String,
    pub original: String,
    pub replacement: String,
    pub created_at: String,
}

#[derive(Debug, Clone)]
pub struct Prompt {
    pub id: String,
    pub name: String,
    pub system_message: String,
    pub user_message_template: String,
    pub is_predefined: bool,
    pub created_at: String,
}

/// What an import of the legacy VoiceInk database brought over.
#[derive(Debug, Clone, Copy, PartialEq, Eq)]
pub struct ImportResult {
    pub transcriptions_imported: usize,
    pub transcriptions_skipped: usize,
    pub vocabulary_imported: usize,
    pub replacements_imported: usize,
    pub recordings_copied: usize,
}

// ---------------------------------------------------------------------------
// Word counting
// ---------------------------------------------------------------------------

/// CJK unified ideographs, extension A, compatibility ideographs and the
/// compatibility supplement: each counts as one word.
pub open spec fn is_cjk(c: char) -> bool {
    ('\u{4e00}' <= c && c <= '\u{9fff}') || ('\u{3400}' <= c && c <= '\u{4dbf}')
        || ('\u{f900}' <= c && c <= '\u{faff}') || ('\u{2f800}' <= c && c <= '\u{2fa1f}')
}

pub fn is_cjk_char(c: char) -> (r: bool)
    ensures
        r == is_cjk(c),
{
    ('\u{4e00}' <= c && c <= '\u{9fff}') || ('\u{3400}' <= c && c <= '\u{4dbf}')
        || ('\u{f900}' <= c && c <= '\u{faff}') || ('\u{2f800}' <= c && c <= '\u{2fa1f}')
}

/// Scanning `s`: the number of CJK characters, the number of other words
/// (maximal runs of characters that are neither CJK nor whitespace), and
/// whether the scan ends inside such a word.
pub open spec fn tally(s: Seq<char>) -> (nat, nat, bool)
    decreases s.len(),
{
    if s.len() == 0 {
        (0, 0, false)
    } else {
        let (cjk, words, in_word) = tally(s.drop_last());
        let c = s.last();
        if is_cjk(c) {
            (cjk + 1, words, false)
        } else if is_white_space(c) {
            (cjk, words, false)
        } else if !in_word {
            (cjk, words + 1, true)
        } else {
            (cjk, words, true)
        }
    }
}

/// CJK-aware word count: every CJK character plus every other word.
pub open spec fn word_count(s: Seq<char>) -> nat {
    tally(s).0 + tally(s).1
}

/// Keystrokes typing would have taken: six per CJK character (pinyin and
/// selection), five per other word.
pub open spec fn keystrokes(s: Seq<char>) -> nat {
    6 * tally(s).0 + 5 * tally(s).1
}

proof fn lemma_tally_bound(s: Seq<char>)
    ensures
        tally(s).0 + tally(s).1 <= s.len(),
    decreases s.len(),
{
    if s.len() > 0 {
        lemma_tally_bound(s.drop_last());
    }
}

fn tally_chars(chars: &Vec<char>) -> (r: (u64, u64))
    requires
        chars.len() <= u64::MAX,
    ensures
        r.0 == tally(chars@).0,
        r.1 == tally(chars@).1,
{
    let ghost s = chars@;
    let mut cjk: u64 = 0;
    let mut words: u64 = 0;
    let mut in_word = false;
    let mut i: usize = 0;
    while i < chars.len()
        invariant
            i <= chars.len() <= u64::MAX,
            s == chars@,
            tally(s.take(i as int)) == (cjk as nat, words as nat, in_word),
        decreases chars.len() - i,
    {
        proof {
            assert(s.take(i + 1).drop_last() == s.take(i as int));
            lemma_tally_bound(s.take(i as int));
        }
        let c = chars[i];
        if is_cjk_char(c) {
            cjk += 1;
            in_word = false;
        } else if is_whitespace(c) {
            in_word = false;
        } else if !in_word {
            words += 1;
            in_word = true;
        }
        i += 1;
    }
    assert(s.take(s.len() as int) == s);
    (cjk, words)
}

/// The number of CJK characters and of other words in `text`.
pub fn cjk_and_words(text: &str) -> (r: (u64, u64))
    ensures
        r.0 == tally(text@).0,
        r.1 == tally(text@).1,
{
    let chars = to_chars(text);
    tally_chars(&chars)
}

/// CJK-aware word count: each CJK character is one word; other words are
/// runs of non-whitespace, non-CJK characters.
pub fn count_words(text: &str) -> (r: i64)
    requires
        word_count(text@) <= i64::MAX,
    ensures
        r == word_count(text@),
{
    let chars = to_chars(text);
    let (cjk, words) = tally_chars(&chars);
    ((cjk as u128) + (words as u128)) as i64
}

/// Keystrokes saved by dictating `text` instead of typing it.
pub fn calc_keystrokes(text: &str) -> (r: i64)
    requires
        keystrokes(text@) <= i64::MAX,
    ensures
        r == keystrokes(text@),
{
    let chars = to_chars(text);
    let (cjk, words) = tally_chars(&chars);
    (6 * (cjk as u128) + 5 * (words as u128)) as i64
}

/// The word count never exceeds the number of characters.
pub proof fn law_word_count_bounded(s: Seq<char>)
    ensures
        word_count(s) <= s.len(),
        keystrokes(s) <= 6 * s.len(),
{
    lemma_tally_bound(s);
}

/// Whitespace separates words: appending whitespace adds none, and a CJK
/// character adds exactly one.
pub proof fn law_word_count_extend(s: Seq<char>, c: char)
    ensures
        is_white_space(c) && !is_cjk(c) ==> word_count(s.push(c)) == word_count(s),
        is_cjk(c) ==> word_count(s.push(c)) == word_count(s) + 1,
{
    assert(s.push(c).drop_last() == s);
}

proof fn lemma_tally_run(p: Seq<char>, run: Seq<char>)
    requires
        run.len() > 0,
        !tally(p).2,
        forall|k: int| 0 <= k < run.len() ==> !is_white_space(#[trigger] run[k]) && !is_cjk(run[k]),
    ensures
        tally(p + run) == (tally(p).0, tally(p).1 + 1, true),
    decreases run.len(),
{
    let c = run.last();
    let r1 = run.drop_last();
    assert((p + run).drop_last() =~= p + r1);
    assert((p + run).last() == c);
    assert(!is_white_space(run[run.len() - 1]) && !is_cjk(run[run.len() - 1]));
    if r1.len() > 0 {
        assert forall|k: int| 0 <= k < r1.len() implies !is_white_space(#[trigger] r1[k]) && !is_cjk(r1[k]) by {
            assert(r1[k] == run[k]);
        }
        lemma_tally_run(p, r1);
    } else {
        assert(p + r1 =~= p);
    }
}

/// A word is any run of characters that are neither whitespace nor CJK,
/// whatever they are (letters, digits, symbols): appending a space and such
/// a run to a text adds exactly one word, and five saved keystrokes.
pub proof fn law_word_count_new_run(s: Seq<char>, run: Seq<char>)
    requires
        run.len() > 0,
        forall|k: int| 0 <= k < run.len() ==> !is_white_space(#[trigger] run[k]) && !is_cjk(run[k]),
    ensures
        word_count(s.push(' ') + run) == word_count(s) + 1,
        keystrokes(s.push(' ') + run) == keystrokes(s) + 5,
{
    let p = s.push(' ');
    assert(p.drop_last() == s);
    assert(is_white_space(' ') && !is_cjk(' '));
    lemma_tally_run(p, run);
}

// ---------------------------------------------------------------------------
// Pagination
// ---------------------------------------------------------------------------

/// The cursor for the next page: the timestamp of the last item when the
/// page came back full, otherwise none (no more pages).
pub fn next_cursor(page_len: usize, limit: usize, last_timestamp: Option<String>) -> (r: Option<String>)
    ensures
        r == (if page_len == limit { last_timestamp } else { None }),
{
    if page_len == limit {
        last_timestamp
    } else {
        None
    }
}

// ---------------------------------------------------------------------------
// Legacy import
// ---------------------------------------------------------------------------

/// The value of an ASCII hex digit.
pub open spec fn hex_digit(b: u8) -> Option<int> {
    if 48 <= b <= 57 {
        Some(b - 48)
    } else if 97 <= b <= 102 {
        Some(b - 87)
    } else if 65 <= b <= 70 {
        Some(b - 55)
    } else {
        None
    }
}

/// What `u8::from_str_radix` makes of the two bytes after a `%`: two hex
/// digits, or `+` and one hex digit (an explicit sign is accepted).
pub open spec fn escape_value(hi: u8, lo: u8) -> Option<int> {
    match (hex_digit(hi), hex_digit(lo)) {
        (Some(h), Some(l)) => Some(16 * h + l),
        (None, Some(l)) => if hi == 43 { Some(l) } else { None },
        _ => None,
    }
}

/// Percent-decoding of a URL path, byte by byte: `%` followed by a valid
/// escape becomes that byte; an invalid one is kept as `%` and the two
/// bytes that followed (a missing byte reads as 0); every other byte is
/// kept.
pub open spec fn percent_decoded_bytes(bs: Seq<u8>) -> Seq<u8>
    decreases bs.len(),
{
    if bs.len() == 0 {
        Seq::empty()
    } else if bs[0] == 37 {
        let hi: u8 = if bs.len() > 1 { bs[1] } else { 0 };
        let lo: u8 = if bs.len() > 2 { bs[2] } else { 0 };
        let n: int = if bs.len() >= 3 { 3 } else { bs.len() as int };
        let head = match escape_value(hi, lo) {
            Some(v) => seq![v as u8],
            None => seq![37u8, hi, lo],
        };
        head + percent_decoded_bytes(bs.skip(n))
    } else {
        seq![bs[0]] + percent_decoded_bytes(bs.skip(1))
    }
}

/// What `String::from_utf8_lossy` makes of `bytes`: the UTF-8 text they
/// encode, each invalid sequence replaced by U+FFFD.
pub uninterp spec fn utf8_lossy(bytes: Seq<u8>) -> Seq<char>;

/// Calls `String::from_utf8_lossy`; the result is named `utf8_lossy`.
/// Bytes that are valid UTF-8 decode to the characters they encode, as the
/// documentation says; the replacement of invalid sequences is not restated.
#[verifier::external_body]
fn decode_utf8_lossy(bytes: &[u8]) -> (r: String)
    ensures
        r@ == utf8_lossy(bytes@),
        vstd::utf8::valid_utf8(bytes@) ==> r@ == vstd::utf8::decode_utf8(bytes@),
{
    String::from_utf8_lossy(bytes).into_owned()
}

/// A percent-encoded URL path decoded: the escapes turned into bytes, and
/// the bytes read as UTF-8 (lossily).
pub open spec fn percent_decoded(bs: Seq<u8>) -> Seq<char> {
    utf8_lossy(percent_decoded_bytes(bs))
}

fn hex_digit_value(b: u8) -> (r: Option<u8>)
    ensures
        r matches Some(v) ==> hex_digit(b) == Some(v as int),
        r is None ==> hex_digit(b) is None,
{
    if 48 <= b && b <= 57 {
        Some(b - 48)
    } else if 97 <= b && b <= 102 {
        Some(b - 87)
    } else if 65 <= b && b <= 70 {
        Some(b - 55)
    } else {
        None
    }
}

fn escape_byte(hi: u8, lo: u8) -> (r: Option<u8>)
    ensures
        r matches Some(v) ==> escape_value(hi, lo) == Some(v as int),
        r is None ==> escape_value(hi, lo) is None,
{
    match (hex_digit_value(hi), hex_digit_value(lo)) {
        (Some(h), Some(l)) => Some(16 * h + l),
        (None, Some(l)) => if hi == 43 { Some(l) } else { None },
        _ => None,
    }
}

/// The bytes of a percent-encoded URL path with its escapes decoded.
fn percent_unescape(bytes: &[u8]) -> (r: Vec<u8>)
    ensures
        r@ == percent_decoded_bytes(bytes@),
{
    let ghost bs = bytes@;
    let mut out: Vec<u8> = Vec::new();
    let mut i: usize = 0;
    assert(bs.skip(0) == bs);
    while i < bytes.len()
        invariant
            i <= bytes.len(),
            bs == bytes@,
            out@ + percent_decoded_bytes(bs.skip(i as int)) == percent_decoded_bytes(bs),
        decreases bytes.len() - i,
    {
        let ghost rest = bs.skip(i as int);
        let ghost before = out@;
        let b = bytes[i];
        if b == 37 {
            let hi: u8 = if bytes.len() - i > 1 { bytes[i + 1] } else { 0 };
            let lo: u8 = if bytes.len() - i > 2 { bytes[i + 2] } else { 0 };
            let n: usize = if bytes.len() - i >= 3 { 3 } else { bytes.len() - i };
            match escape_byte(hi, lo) {
                Some(v) => {
                    out.push(v);
                },
                None => {
                    out.push(37);
                    out.push(hi);
                    out.push(lo);
                },
            }
            proof {
                assert(rest.skip(n as int) == bs.skip(i + n));
                assert(out@ + percent_decoded_bytes(bs.skip(i + n)) == before + percent_decoded_bytes(rest));
            }
            i += n;
        } else {
            out.push(b);
            proof {
                assert(rest.skip(1) == bs.skip(i + 1));
                assert(out@ + percent_decoded_bytes(bs.skip(i + 1)) == before + percent_decoded_bytes(rest));
            }
            i += 1;
        }
    }
    assert(out@ + Seq::<u8>::empty() == out@);
    out
}

/// Decodes a percent-encoded URL path: escapes become bytes, and the bytes
/// are read as UTF-8 (invalid sequences become U+FFFD).
pub fn percent_decode(s: &str) -> (r: String)
    ensures
        r@ == percent_decoded(s.spec_bytes()),
        vstd::utf8::valid_utf8(percent_decoded_bytes(s.spec_bytes()))
            ==> r@ == vstd::utf8::decode_utf8(percent_decoded_bytes(s.spec_bytes())),
{
    let bytes = percent_unescape(s.as_bytes());
    decode_utf8_lossy(bytes.as_slice())
}

/// The local path of a legacy recording: a `file://` URL, percent-decoded;
/// empty for any other URL.
pub open spec fn legacy_audio_path(url: Seq<char>) -> Seq<char> {
    if url.len() >= 7 && url.take(7) == "file://"@ {
        percent_decoded(vstd::utf8::encode_utf8(url.skip(7)))
    } else {
        Seq::empty()
    }
}

/// The local path of a legacy recording's `file://` URL; empty when the
/// URL has another scheme.
pub fn legacy_audio_source_path(url: &str) -> (r: String)
    ensures
        r@ == legacy_audio_path(url@),
{
    let n = url.unicode_len();
    if n >= 7 {
        let head = url.substring_char(0, 7);
        if crate::unicode::same_text(head, "file://") {
            let rest = url.substring_char(7, n);
            assert(rest@ == url@.skip(7));
            return percent_decode(rest);
        }
    }
    String::new()
}

// ---------------------------------------------------------------------------
// Statistics totals
// ---------------------------------------------------------------------------

/// Total CJK-aware words over the texts.
pub open spec fn total_words(texts: Seq<String>) -> nat
    decreases texts.len(),
{
    if texts.len() == 0 {
        0
    } else {
        total_words(texts.drop_last()) + word_count(texts.last()@)
    }
}

/// Total keystrokes saved over the texts.
pub open spec fn total_keystrokes(texts: Seq<String>) -> nat
    decreases texts.len(),
{
    if texts.len() == 0 {
        0
    } else {
        total_keystrokes(texts.drop_last()) + keystrokes(texts.last()@)
    }
}

proof fn lemma_words_le_keystrokes(s: Seq<char>)
    ensures
        word_count(s) <= keystrokes(s),
{
}

proof fn lemma_totals_monotone(texts: Seq<String>, k: int)
    requires
        0 <= k <= texts.len(),
    ensures
        total_words(texts.take(k)) <= total_words(texts),
        total_keystrokes(texts.take(k)) <= total_keystrokes(texts),
        total_words(texts) <= total_keystrokes(texts),
    decreases texts.len() - k,
{
    if k < texts.len() {
        lemma_totals_monotone(texts, k + 1);
        assert(texts.take(k + 1).drop_last() == texts.take(k));
    } else {
        assert(texts.take(k) == texts);
    }
    lemma_total_words_le(texts);
}

proof fn lemma_total_words_le(texts: Seq<String>)
    ensures
        total_words(texts) <= total_keystrokes(texts),
    decreases texts.len(),
{
    if texts.len() > 0 {
        lemma_total_words_le(texts.drop_last());
        lemma_words_le_keystrokes(texts.last()@);
    }
}

/// The word and keystroke totals of a set of transcriptions.
pub fn text_totals(texts: &Vec<String>) -> (r: (i64, i64))
    requires
        total_keystrokes(texts@) <= i64::MAX,
    ensures
        r.0 == total_words(texts@),
        r.1 == total_keystrokes(texts@),
{
    let mut words: i64 = 0;
    let mut strokes: i64 = 0;
    let mut i: usize = 0;
    while i < texts.len()
        invariant
            i <= texts.len(),
            total_keystrokes(texts@) <= i64::MAX,
            words == total_words(texts@.take(i as int)),
            strokes == total_keystrokes(texts@.take(i as int)),
        decreases texts.len() - i,
    {
        proof {
            assert(texts@.take(i + 1).drop_last() == texts@.take(i as int));
            lemma_totals_monotone(texts@, i + 1);
            lemma_total_words_le(texts@.take(i + 1));
        }
        let t = texts[i].as_str();
        words = words + count_words(t);
        strokes = strokes + calc_keystrokes(t);
        i += 1;
    }
    assert(texts@.take(texts.len() as int) == texts@);
    (words, strokes)
}

// ---------------------------------------------------------------------------
// Legacy import bookkeeping
// ---------------------------------------------------------------------------

/// A legacy transcription is imported only when it has non-empty text.
pub fn legacy_text_usable(text: &Option<String>) -> (r: bool)
    ensures
        r == (text matches Some(t) && t@.len() > 0),
{
    match text {
        Some(t) => t.unicode_len() > 0,
        None => false,
    }
}

/// The model name recorded for a legacy transcription: `unknown` when it
/// has none.
pub fn legacy_model_name(name: Option<String>) -> (r: String)
    ensures
        r@ == (match name {
            Some(n) => n@,
            None => "unknown"@,
        }),
{
    match name {
        Some(n) => n,
        None => crate::unicode::owned("unknown"),
    }
}

/// The word count recorded for a legacy transcription: 0 when it has none.
pub fn legacy_word_count(count: Option<i32>) -> (r: i32)
    ensures
        r == (match count {
            Some(c) => c,
            None => 0i32,
        }),
{
    match count {
        Some(c) => c,
        None => 0,
    }
}

impl ImportResult {
    /// Nothing imported yet.
    pub fn new() -> (r: Self)
        ensures
            r == (ImportResult {
                transcriptions_imported: 0,
                transcriptions_skipped: 0,
                vocabulary_imported: 0,
                replacements_imported: 0,
                recordings_copied: 0,
            }),
    {
        ImportResult {
            transcriptions_imported: 0,
            transcriptions_skipped: 0,
            vocabulary_imported: 0,
            replacements_imported: 0,
            recordings_copied: 0,
        }
    }

    /// Counts one imported transcription.
    pub fn count_imported(&mut self)
        requires
            old(self).transcriptions_imported < usize::MAX,
        ensures
            *final(self) == (ImportResult {
                transcriptions_imported: (old(self).transcriptions_imported + 1) as usize,
                ..*old(self)
            }),
    {
        self.transcriptions_imported = self.transcriptions_imported + 1;
    }

    /// Counts one skipped transcription (no text, or already present).
    pub fn count_skipped(&mut self)
        requires
            old(self).transcriptions_skipped < usize::MAX,
        ensures
            *final(self) == (ImportResult {
                transcriptions_skipped: (old(self).transcriptions_skipped + 1) as usize,
                ..*old(self)
            }),
    {
        self.transcriptions_skipped = self.transcriptions_skipped + 1;
    }

    /// Counts one copied recording file.
    pub fn count_recording(&mut self)
        requires
            old(self).recordings_copied < usize::MAX,
        ensures
            *final(self) == (ImportResult {
                recordings_copied: (old(self).recordings_copied + 1) as usize,
                ..*old(self)
            }),
    {
        self.recordings_copied = self.recordings_copied + 1;
    }

    /// Counts one imported vocabulary word.
    pub fn count_vocabulary(&mut self)
        requires
            old(self).vocabulary_imported < usize::MAX,
        ensures
            *final(self) == (ImportResult {
                vocabulary_imported: (old(self).vocabulary_imported + 1) as usize,
                ..*old(self)
            }),
    {
        self.vocabulary_imported = self.vocabulary_imported + 1;
    }

    /// Counts one imported replacement rule.
    pub fn count_replacement(&mut self)
        requires
            old(self).replacements_imported < usize::MAX,
        ensures
            *final(self) == (ImportResult {
                replacements_imported: (old(self).replacements_imported + 1) as usize,
                ..*old(self)
            }),
    {
        self.replacements_imported = self.replacements_imported + 1;
    }
}

// ---------------------------------------------------------------------------
// Per-day totals
// ---------------------------------------------------------------------------

/// Text order as `String`'s `Ord` gives it: character by character, a
/// proper prefix first.
pub open spec fn text_less(a: Seq<char>, b: Seq<char>) -> bool
    decreases a.len(),
{
    if a.len() == 0 {
        b.len() > 0
    } else if b.len() == 0 {
        false
    } else if a[0] != b[0] {
        a[0] < b[0]
    } else {
        text_less(a.skip(1), b.skip(1))
    }
}

proof fn lemma_text_less_irreflexive(a: Seq<char>)
    ensures
        !text_less(a, a),
    decreases a.len(),
{
    if a.len() > 0 {
        lemma_text_less_irreflexive(a.skip(1));
    }
}

proof fn lemma_text_less_total(a: Seq<char>, b: Seq<char>)
    ensures
        a != b ==> text_less(a, b) || text_less(b, a),
    decreases a.len(),
{
    if a.len() > 0 && b.len() > 0 && a[0] == b[0] {
        lemma_text_less_total(a.skip(1), b.skip(1));
        if a.skip(1) == b.skip(1) {
            assert(a =~= seq![a[0]] + a.skip(1));
            assert(b =~= seq![b[0]] + b.skip(1));
        }
    } else if a.len() == 0 && b.len() == 0 {
        assert(a =~= b);
    }
}

proof fn lemma_text_less_transitive(a: Seq<char>, b: Seq<char>, c: Seq<char>)
    requires
        text_less(a, b),
        text_less(b, c),
    ensures
        text_less(a, c),
    decreases a.len(),
{
    if a.len() > 0 && b.len() > 0 && c.len() > 0 && a[0] == b[0] && b[0] == c[0] {
        lemma_text_less_transitive(a.skip(1), b.skip(1), c.skip(1));
    }
}

/// Whether `a` comes before `b` in text order.
pub fn text_before(a: &str, b: &str) -> (r: bool)
    ensures
        r == text_less(a@, b@),
{
    let x = to_chars(a);
    let y = to_chars(b);
    let mut i: usize = 0;
    assert(x@.skip(0) == x@ && y@.skip(0) == y@);
    while i < x.len() && i < y.len() && x[i] == y[i]
        invariant
            i <= x.len(),
            i <= y.len(),
            text_less(x@, y@) == text_less(x@.skip(i as int), y@.skip(i as int)),
        decreases x.len() - i,
    {
        assert(x@.skip(i as int).skip(1) == x@.skip(i + 1));
        assert(y@.skip(i as int).skip(1) == y@.skip(i + 1));
        i += 1;
    }
    if i == x.len() {
        i < y.len()
    } else if i == y.len() {
        false
    } else {
        x[i] < y[i]
    }
}

/// One day of the statistics: its date, the words spoken and the sessions.
#[derive(Debug, Clone)]
pub struct DayTotal {
    pub date: String,
    pub words: i64,
    pub sessions: i32,
}

/// The words of the sessions dated `date`.
pub open spec fn day_words(rows: Seq<(String, String)>, date: Seq<char>) -> nat
    decreases rows.len(),
{
    if rows.len() == 0 {
        0
    } else {
        day_words(rows.drop_last(), date) + if rows.last().0@ == date { word_count(rows.last().1@) } else { 0 }
    }
}

/// The number of sessions dated `date`.
pub open spec fn day_sessions(rows: Seq<(String, String)>, date: Seq<char>) -> nat
    decreases rows.len(),
{
    if rows.len() == 0 {
        0
    } else {
        day_sessions(rows.drop_last(), date) + if rows.last().0@ == date { 1nat } else { 0 }
    }
}

/// The words of all the sessions.
pub open spec fn rows_words(rows: Seq<(String, String)>) -> nat
    decreases rows.len(),
{
    if rows.len() == 0 {
        0
    } else {
        rows_words(rows.drop_last()) + word_count(rows.last().1@)
    }
}

proof fn lemma_day_bounds(rows: Seq<(String, String)>, date: Seq<char>)
    ensures
        day_words(rows, date) <= rows_words(rows),
        day_sessions(rows, date) <= rows.len(),
        day_sessions(rows, date) == 0 ==> day_words(rows, date) == 0,
    decreases rows.len(),
{
    if rows.len() > 0 {
        lemma_day_bounds(rows.drop_last(), date);
    }
}

proof fn lemma_rows_words_prefix(rows: Seq<(String, String)>, i: int)
    requires
        0 <= i <= rows.len(),
    ensures
        rows_words(rows.take(i)) <= rows_words(rows),
    decreases rows.len() - i,
{
    if i < rows.len() {
        lemma_rows_words_prefix(rows, i + 1);
        assert(rows.take(i + 1).drop_last() =~= rows.take(i));
    } else {
        assert(rows.take(i) =~= rows);
    }
}

/// Groups the sessions (date, text) by day: one entry per date, in text
/// order of the dates, with the words of its sessions and their number.
pub fn day_totals(rows: &Vec<(String, String)>) -> (out: Vec<DayTotal>)
    requires
        rows_words(rows@) <= i64::MAX,
        rows.len() <= i32::MAX,
    ensures
        forall|i: int, j: int| 0 <= i < j < out.len() ==> text_less(#[trigger] out[i].date@, #[trigger] out[j].date@),
        forall|i: int| 0 <= i < out.len() ==> (#[trigger] out[i]).words == day_words(rows@, out[i].date@)
            && out[i].sessions == day_sessions(rows@, out[i].date@) && day_sessions(rows@, out[i].date@) > 0,
        forall|k: int| 0 <= k < rows.len() ==> exists|i: int| 0 <= i < out.len() && (#[trigger] out[i]).date@ == (#[trigger] rows@[k]).0@,
{
    let mut out: Vec<DayTotal> = Vec::new();
    let mut n: usize = 0;
    while n < rows.len()
        invariant
            n <= rows.len(),
            rows_words(rows@) <= i64::MAX,
            rows.len() <= i32::MAX,
            forall|i: int, j: int| 0 <= i < j < out.len() ==> text_less(#[trigger] out[i].date@, #[trigger] out[j].date@),
            forall|i: int| 0 <= i < out.len() ==> (#[trigger] out[i]).words == day_words(rows@.take(n as int), out[i].date@)
                && out[i].sessions == day_sessions(rows@.take(n as int), out[i].date@)
                && day_sessions(rows@.take(n as int), out[i].date@) > 0,
            forall|d: Seq<char>| (forall|i: int| 0 <= i < out.len() ==> (#[trigger] out[i]).date@ != d)
                ==> #[trigger] day_sessions(rows@.take(n as int), d) == 0,
        decreases rows.len() - n,
    {
        let ghost before = rows@.take(n as int);
        let ghost after = rows@.take(n + 1);
        let ghost old_out = out@;
        let date = &rows[n].0;
        let text = &rows[n].1;
        proof {
            assert(after.drop_last() =~= before);
            assert(after.last() == rows@[n as int]);
            lemma_rows_words_prefix(rows@, n + 1);
            assert(rows_words(after) == rows_words(before) + word_count(text@));
        }
        let wc = count_words(text.as_str());
        let mut p: usize = 0;
        while p < out.len() && text_before(out[p].date.as_str(), date.as_str())
            invariant
                p <= out.len(),
                forall|i: int| 0 <= i < p ==> text_less(#[trigger] out[i].date@, date@),
            decreases out.len() - p,
        {
            p += 1;
        }
        if p < out.len() && crate::unicode::same_text(out[p].date.as_str(), date.as_str()) {
            proof {
                lemma_day_bounds(after, date@);
            }
            let updated = DayTotal {
                date: crate::unicode::owned(out[p].date.as_str()),
                words: out[p].words + wc,
                sessions: out[p].sessions + 1,
            };
            out.set(p, updated);
            proof {
                assert forall|i: int| 0 <= i < out.len() implies (#[trigger] out[i]).words == day_words(after, out[i].date@)
                    && out[i].sessions == day_sessions(after, out[i].date@)
                    && day_sessions(after, out[i].date@) > 0 by {
                    if i != p {
                        assert(out[i] == old_out[i]);
                        if old_out[i].date@ == date@ {
                            lemma_text_less_irreflexive(date@);
                            if i < p {
                                assert(text_less(old_out[i].date@, old_out[p as int].date@));
                            } else {
                                assert(text_less(old_out[p as int].date@, old_out[i].date@));
                            }
                        }
                    }
                }
                assert forall|i: int, j: int| 0 <= i < j < out.len() implies text_less(#[trigger] out[i].date@, #[trigger] out[j].date@) by {
                    assert(out[i].date@ == old_out[i].date@);
                    assert(out[j].date@ == old_out[j].date@);
                }
                assert forall|d: Seq<char>| (forall|i: int| 0 <= i < out.len() ==> (#[trigger] out[i]).date@ != d)
                    implies #[trigger] day_sessions(after, d) == 0 by {
                    assert(out[p as int].date@ == date@);
                    assert forall|i: int| 0 <= i < old_out.len() implies (#[trigger] old_out[i]).date@ != d by {
                        assert(out[i].date@ == old_out[i].date@);
                    }
                    assert(d != date@);
                    assert(day_sessions(before, d) == 0);
                }
            }
        } else {
            proof {
                if p < out.len() {
                    lemma_text_less_total(out[p as int].date@, date@);
                }
                assert forall|i: int| 0 <= i < old_out.len() implies (#[trigger] old_out[i]).date@ != date@ by {
                    if i < p {
                        lemma_text_less_irreflexive(date@);
                    } else {
                        if i > p {
                            lemma_text_less_transitive(date@, old_out[p as int].date@, old_out[i].date@);
                        }
                        lemma_text_less_irreflexive(date@);
                    }
                }
                assert(day_sessions(before, date@) == 0);
                lemma_day_bounds(before, date@);
            }
            out.insert(p, DayTotal { date: crate::unicode::owned(date.as_str()), words: wc, sessions: 1 });
            proof {
                assert forall|i: int, j: int| 0 <= i < j < out.len() implies text_less(#[trigger] out[i].date@, #[trigger] out[j].date@) by {
                    if j < p {
                        assert(out[i] == old_out[i] && out[j] == old_out[j]);
                    } else if j == p {
                        assert(out[i] == old_out[i]);
                    } else if i < p {
                        assert(out[i] == old_out[i] && out[j] == old_out[j - 1]);
                        assert(text_less(old_out[i].date@, old_out[j - 1].date@));
                    } else if i == p {
                        assert(out[j] == old_out[j - 1]);
                        if j - 1 > p {
                            lemma_text_less_transitive(date@, old_out[p as int].date@, old_out[j - 1].date@);
                        }
                    } else {
                        assert(out[i] == old_out[i - 1] && out[j] == old_out[j - 1]);
                        assert(text_less(old_out[i - 1].date@, old_out[j - 1].date@));
                    }
                }
                assert forall|i: int| 0 <= i < out.len() implies (#[trigger] out[i]).words == day_words(after, out[i].date@)
                    && out[i].sessions == day_sessions(after, out[i].date@)
                    && day_sessions(after, out[i].date@) > 0 by {
                    if i < p {
                        assert(out[i] == old_out[i]);
                    } else if i > p {
                        assert(out[i] == old_out[i - 1]);
                    }
                }
                assert forall|d: Seq<char>| (forall|i: int| 0 <= i < out.len() ==> (#[trigger] out[i]).date@ != d)
                    implies #[trigger] day_sessions(after, d) == 0 by {
                    assert(out[p as int].date@ == date@);
                    assert forall|i: int| 0 <= i < old_out.len() implies (#[trigger] old_out[i]).date@ != d by {
                        if i < p {
                            assert(out[i] == old_out[i]);
                        } else {
                            assert(out[i + 1] == old_out[i]);
                        }
                    }
                    assert(d != date@);
                    assert(day_sessions(before, d) == 0);
                }
            }
        }
        n += 1;
    }
    proof {
        assert(rows@.take(rows.len() as int) =~= rows@);
        assert forall|k: int| 0 <= k < rows.len() implies exists|i: int| 0 <= i < out.len() && (#[trigger] out[i]).date@ == (#[trigger] rows@[k]).0@ by {
            if forall|i: int| 0 <= i < out.len() ==> (#[trigger] out[i]).date@ != rows@[k].0@ {
                lemma_day_sessions_positive(rows@, k);
            }
        }
    }
    out
}

proof fn lemma_day_sessions_positive(rows: Seq<(String, String)>, k: int)
    requires
        0 <= k < rows.len(),
    ensures
        day_sessions(rows, rows[k].0@) > 0,
    decreases rows.len(),
{
    if k < rows.len() - 1 {
        lemma_day_sessions_positive(rows.drop_last(), k);
    }
}

} // verus!
