//! The Python transcription daemon's protocol decisions. The process
//! itself (spawning, pipes, timeouts, JSON parsing) is run by the
//! application layer; this module decides what each line and reply means,
//! when the daemon is too large, and which interpreter output counts as
//! ready.

use vstd::prelude::*;
use crate::error::AppError;
use crate::text_processor::trimmed;
use crate::audio_cue::trim;
use crate::unicode::{concat, owned, same_text, to_chars, push_str_chars_string};

verus! {

/// Resident memory above which the daemon is restarted: 8 GiB.
pub const DAEMON_RSS_LIMIT: u64 = 8589934592;

/// The marker of a bare progress line that some libraries print.
pub const PROGRESS_PREFIX: &'static str = "PROGRESS:";

/// What to do with one line read from the daemon's standard output.
#[derive(Debug, Clone, PartialEq, Eq)]
pub enum LineAction {
    /// Blank, or a bare progress line: read on.
    Skip,
    /// Parse the trimmed line as a JSON reply.
    Parse(String),
}

/// `s` starts with `p`.
pub open spec fn starts_with(s: Seq<char>, p: Seq<char>) -> bool {
    s.len() >= p.len() && s.take(p.len() as int) == p
}

/// The action for a line: trimmed, a blank line or one starting with
/// `PROGRESS:` is skipped; anything else is parsed.
pub open spec fn line_action(line: Seq<char>) -> Option<Seq<char>> {
    let t = trimmed(line);
    if t.len() == 0 || starts_with(t, "PROGRESS:"@) {
        None
    } else {
        Some(t)
    }
}

/// Whether `s` starts with `p`.
pub fn text_starts_with(s: &str, p: &str) -> (r: bool)
    ensures
        r == starts_with(s@, p@),
{
    let n = p.unicode_len();
    if s.unicode_len() < n {
        return false;
    }
    let head = s.substring_char(0, n);
    same_text(head, p)
}

/// Classifies one line of daemon output.
pub fn classify_line(line: &str) -> (r: LineAction)
    ensures
        r matches LineAction::Parse(t) ==> line_action(line@) == Some(t@),
        r is Skip ==> line_action(line@) is None,
{
    let t = trim(line);
    if t.unicode_len() == 0 || text_starts_with(t.as_str(), PROGRESS_PREFIX) {
        proof { reveal_strlit("PROGRESS:"); }
        LineAction::Skip
    } else {
        proof { reveal_strlit("PROGRESS:"); }
        LineAction::Parse(t)
    }
}

/// A reply that `send_command` passes over: intermediate download status.
pub fn is_intermediate_status(status: &str) -> (r: bool)
    ensures
        r == (status@ == "downloading"@),
{
    same_text(status, "downloading")
}

/// A reply that ends a streamed command: anything but the two download
/// states.
pub fn is_streaming_terminal(status: &str) -> (r: bool)
    ensures
        r == (status@ != "downloading"@ && status@ != "download_complete"@),
{
    !same_text(status, "downloading") && !same_text(status, "download_complete")
}

/// A load command succeeded: `success`, `loaded` or `download_complete`.
pub fn load_succeeded(status: &str) -> (r: bool)
    ensures
        r == (status@ == "success"@ || status@ == "loaded"@ || status@ == "download_complete"@),
{
    same_text(status, "success") || same_text(status, "loaded") || same_text(status, "download_complete")
}

/// The handshake the daemon sends once it is up: `{"status":"ready"}`.
pub fn is_ready(status: Option<&str>) -> (r: bool)
    ensures
        r == (status matches Some(s) && s@ == "ready"@),
{
    match status {
        Some(s) => same_text(s, "ready"),
        None => false,
    }
}

/// The value of a decimal digit.
pub open spec fn digit_of(c: char) -> int {
    c as int - '0' as int
}

/// The number that `digits` (all ASCII digits) spell.
pub open spec fn digits_value(digits: Seq<char>) -> nat
    decreases digits.len(),
{
    if digits.len() == 0 {
        0
    } else {
        (10 * digits_value(digits.drop_last()) + digit_of(digits.last())) as nat
    }
}

pub open spec fn all_digits(s: Seq<char>) -> bool {
    forall|i: int| 0 <= i < s.len() ==> '0' <= #[trigger] s[i] && s[i] <= '9'
}

/// `str::parse::<u64>`: an optional `+`, then one or more ASCII digits
/// whose value fits in 64 bits.
pub open spec fn parsed_u64(s: Seq<char>) -> Option<nat> {
    let d = if s.len() > 0 && s[0] == '+' { s.skip(1) } else { s };
    if d.len() > 0 && all_digits(d) && digits_value(d) <= u64::MAX {
        Some(digits_value(d))
    } else {
        None
    }
}

proof fn lemma_digits_value_monotone(d: Seq<char>, k: int)
    requires
        0 <= k <= d.len(),
        all_digits(d),
    ensures
        digits_value(d.take(k)) <= digits_value(d),
    decreases d.len() - k,
{
    if k < d.len() {
        lemma_digits_value_monotone(d, k + 1);
        assert(d.take(k + 1).drop_last() == d.take(k));
    } else {
        assert(d.take(k) == d);
    }
}

/// Parses an unsigned 64-bit decimal number.
pub fn parse_u64(s: &str) -> (r: Option<u64>)
    ensures
        r matches Some(v) ==> parsed_u64(s@) == Some(v as nat),
        r is None ==> parsed_u64(s@) is None,
{
    let chars = to_chars(s);
    let start: usize = if chars.len() > 0 && chars[0] == '+' { 1 } else { 0 };
    let ghost d = if s@.len() > 0 && s@[0] == '+' { s@.skip(1) } else { s@ };
    assert(d == chars@.skip(start as int));
    if start >= chars.len() {
        return None;
    }
    let mut value: u64 = 0;
    let mut i: usize = start;
    while i < chars.len()
        invariant
            start <= i <= chars.len(),
            chars@ == s@,
            d == (if s@.len() > 0 && s@[0] == '+' { s@.skip(1) } else { s@ }),
            d.len() > 0,
            d == chars@.skip(start as int),
            all_digits(d.take(i - start)),
            value == digits_value(d.take(i - start)),
        decreases chars.len() - i,
    {
        let c = chars[i];
        proof {
            assert(d.take(i - start + 1).drop_last() == d.take(i - start));
            assert(d[i - start] == c);
        }
        if !('0' <= c && c <= '9') {
            proof {
                assert(!all_digits(d));
            }
            return None;
        }
        let digit = (c as u32 - '0' as u32) as u64;
        if value > (u64::MAX - digit) / 10 {
            proof {
                assert(all_digits(d.take(i - start + 1)));
                assert(digits_value(d.take(i - start + 1)) > u64::MAX);
                if all_digits(d) {
                    lemma_digits_value_monotone(d, i - start + 1);
                }
            }
            return None;
        }
        value = value * 10 + digit;
        i += 1;
    }
    assert(d.take(i - start) == d);
    Some(value)
}

/// The daemon's resident memory in bytes from `ps -o rss=` output
/// (kilobytes); `None` when the output is not a number or the byte count
/// does not fit in 64 bits.
pub open spec fn rss_bytes(ps_output: Seq<char>) -> Option<nat> {
    match parsed_u64(trimmed(ps_output)) {
        Some(kb) if kb * 1024 <= u64::MAX => Some(kb * 1024),
        _ => None,
    }
}

/// Reads the resident memory reported by `ps`.
pub fn rss_from_ps(ps_output: &str) -> (r: Option<u64>)
    ensures
        r matches Some(v) ==> rss_bytes(ps_output@) == Some(v as nat),
        r is None ==> rss_bytes(ps_output@) is None,
{
    let t = trim(ps_output);
    match parse_u64(t.as_str()) {
        Some(kb) => {
            if kb <= u64::MAX / 1024 {
                Some(kb * 1024)
            } else {
                None
            }
        },
        None => None,
    }
}

/// Whether the daemon should be restarted for its memory use.
pub fn exceeds_rss_limit(rss: Option<u64>) -> (r: bool)
    ensures
        r == (rss matches Some(b) && b > DAEMON_RSS_LIMIT),
{
    match rss {
        Some(b) => b > DAEMON_RSS_LIMIT,
        None => false,
    }
}

/// The `transformers` probe printed `ok`.
pub fn transformers_ok(stdout: &str) -> (r: bool)
    ensures
        r == (trimmed(stdout@) == "ok"@),
{
    let t = trim(stdout);
    same_text(t.as_str(), "ok")
}

/// `s` ends with `p`.
pub open spec fn ends_with(s: Seq<char>, p: Seq<char>) -> bool {
    s.len() >= p.len() && s.skip(s.len() - p.len()) == p
}

/// The `mlx-audio` version probe ended in `ok` (version recent enough).
pub fn mlx_version_ok(stdout: &str) -> (r: bool)
    ensures
        r == ends_with(trimmed(stdout@), "ok"@),
{
    let t = trim(stdout);
    let n = t.unicode_len();
    proof { reveal_strlit("ok"); }
    if n < 2 {
        return false;
    }
    let tail = t.as_str().substring_char(n - 2, n);
    same_text(tail, "ok")
}

/// The interpreter path saved by the user: the file's content, trimmed;
/// `None` when that is blank.
pub fn custom_python_path(content: &str) -> (r: Option<String>)
    ensures
        r matches Some(p) ==> p@ == trimmed(content@) && p@.len() > 0,
        r is None ==> trimmed(content@).len() == 0,
{
    let t = trim(content);
    if t.unicode_len() == 0 {
        None
    } else {
        Some(t)
    }
}

/// The error when no interpreter was found.
pub fn no_python_error() -> (e: AppError)
    ensures
        e matches AppError::Transcription(m)
            && m@ == "No Python 3 found. Please set the Python 3 path in Settings → System."@,
{
    AppError::Transcription(owned("No Python 3 found. Please set the Python 3 path in Settings → System."))
}

/// The error when the interpreter lacks the daemon's packages.
pub fn missing_packages_error(python: &str) -> (e: AppError)
    ensures
        e matches AppError::Transcription(m) && m@ == "Python '"@ + python@
            + "' is missing required packages (mlx-audio). Install them or change the path in Settings → System."@,
{
    let mut m = concat("Python '", python);
    push_str_chars_string(&mut m, "' is missing required packages (mlx-audio). Install them or change the path in Settings → System.");
    AppError::Transcription(m)
}

} // verus!
