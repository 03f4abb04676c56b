//! One-shot custom-model worker: the reply decisions. The worker process is
//! spawned, fed one JSON command line and awaited (with a timeout) by the
//! application layer; it answers with one JSON object on its last
//! non-empty stdout line: `{"ok": true, ...}` or `{"ok": false, "error": ...}`.

use vstd::prelude::*;
use crate::error::AppError;
use crate::text_processor::trimmed;
use crate::audio_cue::trim;
use crate::unicode::{concat, owned, push_str_chars_string, to_chars, from_chars};
use crate::text_processor::slice_chars;

verus! {

/// Position of the last line break in `s`, or -1.
pub open spec fn last_newline(s: Seq<char>) -> int
    decreases s.len(),
{
    if s.len() == 0 {
        -1
    } else if s.last() == '\n' {
        s.len() - 1
    } else {
        last_newline(s.drop_last())
    }
}

pub proof fn lemma_last_newline(s: Seq<char>)
    ensures
        -1 <= last_newline(s) < s.len(),
        last_newline(s) >= 0 ==> s[last_newline(s)] == '\n',
        forall|i: int| last_newline(s) < i < s.len() ==> s[i] != '\n',
    decreases s.len(),
{
    if s.len() > 0 && s.last() != '\n' {
        lemma_last_newline(s.drop_last());
        assert forall|i: int| last_newline(s) < i < s.len() implies s[i] != '\n' by {
            if i < s.len() - 1 {
                assert(s[i] == s.drop_last()[i]);
            }
        }
    }
}

/// The last line of `s` that is not blank, trimmed.
pub open spec fn last_nonblank_line(s: Seq<char>) -> Option<Seq<char>>
    decreases s.len(),
{
    let k = last_newline(s);
    let line = s.skip(k + 1);
    if trimmed(line).len() > 0 {
        Some(trimmed(line))
    } else if k < 0 {
        None
    } else {
        proof { lemma_last_newline(s); }
        last_nonblank_line(s.take(k))
    }
}

/// The worker's reply line: the last non-blank line of its output, trimmed.
pub fn last_nonblank_output_line(stdout: &str) -> (r: Option<String>)
    ensures
        r matches Some(l) ==> last_nonblank_line(stdout@) == Some(l@),
        r is None ==> last_nonblank_line(stdout@) is None,
{
    let chars = to_chars(stdout);
    let ghost s = chars@;
    let mut end: usize = chars.len();
    assert(s.take(end as int) == s);
    loop
        invariant
            end <= chars.len(),
            s == chars@,
            s == stdout@,
            last_nonblank_line(s) == last_nonblank_line(s.take(end as int)),
        decreases end,
    {
        let ghost t = s.take(end as int);
        let mut k: usize = end;
        assert(t.take(k as int) == t);
        while k > 0 && chars[k - 1] != '\n'
            invariant
                k <= end <= chars.len(),
                s == chars@,
                t == s.take(end as int),
                last_newline(t) == last_newline(t.take(k as int)),
            decreases k,
        {
            assert(t.take(k as int).drop_last() == t.take(k - 1));
            k -= 1;
        }
        proof {
            if k > 0 {
                assert(t.take(k as int).last() == '\n');
                assert(last_newline(t.take(k as int)) == k - 1);
            } else {
                assert(t.take(0) == Seq::<char>::empty());
            }
        }
        let line = slice_chars(&chars, k, end);
        assert(line@ == t.skip(k as int));
        let lt = trim(from_chars(&line).as_str());
        if lt.unicode_len() > 0 {
            return Some(lt);
        }
        if k == 0 {
            return None;
        }
        assert(t.take(k - 1) == s.take(k - 1));
        end = k - 1;
    }
}

/// The worker's reply, as parsed.
pub enum WorkerReply {
    /// A JSON object, with its `ok` flag and `error` message when present
    /// as a boolean and a string.
    Object { ok: Option<bool>, error: Option<String> },
    /// Any other JSON value, as it prints.
    NotObject(String),
}

/// The worker's action name: the command's `action` string, or `unknown`.
pub fn action_name(action: Option<&str>) -> (r: String)
    ensures
        r@ == (match action {
            Some(a) => a@,
            None => "unknown"@,
        }),
{
    match action {
        Some(a) => owned(a),
        None => owned("unknown"),
    }
}

/// The outcome of a reply: an object with `ok: true` succeeds; any other
/// object fails with its `error` (or a stock message) and the action; a
/// non-object reply fails as such.
pub open spec fn reply_failure(reply: WorkerReply, action: Seq<char>) -> Option<Seq<char>> {
    match reply {
        WorkerReply::NotObject(v) => Some("worker output not a JSON object: "@ + v@),
        WorkerReply::Object { ok, error } => {
            if ok == Some(true) {
                None
            } else {
                let msg = match error {
                    Some(e) => e@,
                    None => "worker reported failure (no error message)"@,
                };
                Some(msg + " (action="@ + action + ")"@)
            }
        },
    }
}

/// Decides whether the worker's reply reports success.
pub fn reply_outcome(reply: WorkerReply, action: &str) -> (r: Result<(), AppError>)
    ensures
        r is Ok <==> reply_failure(reply, action@) is None,
        r matches Err(e) ==> (e matches AppError::Transcription(m) && reply_failure(reply, action@) == Some(m@)),
{
    match reply {
        WorkerReply::NotObject(v) => {
            Err(AppError::Transcription(concat("worker output not a JSON object: ", v.as_str())))
        },
        WorkerReply::Object { ok, error } => {
            let succeeded = match ok {
                Some(b) => b,
                None => false,
            };
            if succeeded {
                Ok(())
            } else {
                let mut m = match error {
                    Some(e) => e,
                    None => owned("worker reported failure (no error message)"),
                };
                push_str_chars_string(&mut m, " (action=");
                push_str_chars_string(&mut m, action);
                push_str_chars_string(&mut m, ")");
                Err(AppError::Transcription(m))
            }
        },
    }
}

} // verus!
