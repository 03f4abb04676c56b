//! Best-effort mute control through PulseAudio / PipeWire's `pactl`. The
//! command itself is run by the application; this module decides what its
//! outcome means. When `pactl` cannot be run the output is assumed unmuted
//! rather than surfacing an error.

use vstd::prelude::*;
use crate::error::{AppError, AppResult};
use crate::unicode::to_chars;

verus! {

pub struct LinuxAudioCtrl;

/// `pat` occurs in `s` at position `i`.
pub open spec fn occurs_at(s: Seq<char>, pat: Seq<char>, i: int) -> bool {
    0 <= i && i + pat.len() <= s.len() && s.subrange(i, i + pat.len()) == pat
}

/// `pat` occurs somewhere in `s` (`str::contains`).
pub open spec fn contains_text(s: Seq<char>, pat: Seq<char>) -> bool {
    exists|i: int| occurs_at(s, pat, i)
}

/// Whether `s` contains `pat`.
pub fn text_contains(s: &str, pat: &str) -> (r: bool)
    ensures
        r == contains_text(s@, pat@),
{
    let x = to_chars(s);
    let p = to_chars(pat);
    if p.len() > x.len() {
        proof {
            assert forall|i: int| !occurs_at(s@, pat@, i) by {}
        }
        return false;
    }
    let mut i: usize = 0;
    while i <= x.len() - p.len()
        invariant
            p.len() <= x.len(),
            x@ == s@,
            p@ == pat@,
            i <= x.len() - p.len() + 1,
            forall|j: int| 0 <= j < i ==> !occurs_at(s@, pat@, j),
        decreases x.len() - p.len() + 1 - i,
    {
        let mut k: usize = 0;
        let mut same = true;
        while k < p.len()
            invariant
                k <= p.len(),
                i + p.len() <= x.len(),
                same <==> forall|m: int| 0 <= m < k ==> x@[i + m] == p@[m],
            decreases p.len() - k,
        {
            if x[i + k] != p[k] {
                same = false;
            }
            k += 1;
        }
        if same {
            assert(x@.subrange(i as int, i + p.len()) =~= p@);
            assert(occurs_at(s@, pat@, i as int));
            return true;
        }
        proof {
            assert(!(x@.subrange(i as int, i + p.len()) =~= p@)) by {
                let m = choose|m: int| 0 <= m < p.len() && x@[i + m] != p@[m];
                assert(x@.subrange(i as int, i + p.len())[m] != p@[m]);
            }
        }
        i += 1;
    }
    proof {
        assert forall|j: int| !occurs_at(s@, pat@, j) by {
            if occurs_at(s@, pat@, j) {
                assert(j < i);
            }
        }
    }
    false
}

/// What the mute query reports: `pactl get-sink-mute` prints `Mute: yes`
/// for a muted sink; without `pactl` (its output is `None`) the sink counts
/// as unmuted.
pub open spec fn mute_query_result(output: Option<Seq<char>>) -> bool {
    match output {
        Some(text) => contains_text(text, "yes"@),
        None => false,
    }
}

/// Reads the outcome of `pactl get-sink-mute @DEFAULT_SINK@`: its standard
/// output as text, or `None` when the command could not be run.
pub fn mute_query_outcome(output: Option<&str>) -> (r: AppResult<bool>)
    ensures
        r matches Ok(m) && m == mute_query_result(match output {
            Some(t) => Some(t@),
            None => None,
        }),
{
    match output {
        Some(text) => Ok(text_contains(text, "yes")),
        None => Ok(false),
    }
}

/// The value passed to `pactl set-sink-mute`: `1` to mute, `0` to unmute.
pub fn mute_flag(mute: bool) -> (r: &'static str)
    ensures
        r@ == (if mute { "1"@ } else { "0"@ }),
{
    if mute { "1" } else { "0" }
}

/// The command line that mutes or unmutes the default sink:
/// `pactl set-sink-mute @DEFAULT_SINK@ 1` (or `0`).
pub open spec fn set_mute_command_line(mute: bool) -> Seq<Seq<char>> {
    seq!["pactl"@, "set-sink-mute"@, "@DEFAULT_SINK@"@, if mute { "1"@ } else { "0"@ }]
}

/// The program and arguments that set the default sink's mute.
pub fn set_mute_command(mute: bool) -> (r: Vec<&'static str>)
    ensures
        r@.map_values(|a: &'static str| a@) == set_mute_command_line(mute),
{
    let r = vec!["pactl", "set-sink-mute", "@DEFAULT_SINK@", mute_flag(mute)];
    assert(r@.map_values(|a: &'static str| a@) =~= set_mute_command_line(mute));
    r
}

/// The command line that asks whether the default sink is muted:
/// `pactl get-sink-mute @DEFAULT_SINK@`.
pub open spec fn mute_query_command_line() -> Seq<Seq<char>> {
    seq!["pactl"@, "get-sink-mute"@, "@DEFAULT_SINK@"@]
}

/// The program and arguments of the mute query.
pub fn mute_query_command() -> (r: Vec<&'static str>)
    ensures
        r@.map_values(|a: &'static str| a@) == mute_query_command_line(),
{
    let r = vec!["pactl", "get-sink-mute", "@DEFAULT_SINK@"];
    assert(r@.map_values(|a: &'static str| a@) =~= mute_query_command_line());
    r
}

/// Reads the outcome of `pactl set-sink-mute`: `None` when it ran, or the
/// reason it could not be run.
pub fn set_mute_outcome(failure: Option<String>) -> (r: AppResult<()>)
    ensures
        r == (match failure {
            Some(m) => Err::<(), AppError>(AppError::Io(m)),
            None => Ok(()),
        }),
{
    match failure {
        Some(m) => Err(AppError::Io(m)),
        None => Ok(()),
    }
}

} // verus!
