//! Recording files: names, the base64 data URI the front end plays, and the
//! not-found error. Writing and reading WAV files (with floating-point
//! samples) is done by the application layer.

use vstd::prelude::*;
use crate::error::AppError;
use crate::unicode::{concat, from_chars};

verus! {

/// The base64 alphabet: `A`–`Z`, `a`–`z`, `0`–`9`, `+`, `/`.
pub open spec fn b64_symbol(v: int) -> char {
    if v < 26 {
        (65 + v) as u8 as char
    } else if v < 52 {
        (97 + v - 26) as u8 as char
    } else if v < 62 {
        (48 + v - 52) as u8 as char
    } else if v == 62 {
        '+'
    } else {
        '/'
    }
}

/// Standard base64 with `=` padding: every group of three bytes, the last
/// one padded with zero bytes, becomes four symbols of six bits each; a
/// symbol that only padding bytes contributed to is written `=`.
pub open spec fn base64_of(data: Seq<u8>) -> Seq<char>
    decreases data.len(),
{
    if data.len() == 0 {
        Seq::empty()
    } else {
        let b0 = data[0] as int;
        let b1 = if data.len() > 1 { data[1] as int } else { 0 };
        let b2 = if data.len() > 2 { data[2] as int } else { 0 };
        let n = b0 * 65536 + b1 * 256 + b2;
        let c2 = if data.len() > 1 { b64_symbol((n / 64) % 64) } else { '=' };
        let c3 = if data.len() > 2 { b64_symbol(n % 64) } else { '=' };
        seq![b64_symbol(n / 262144), b64_symbol((n / 4096) % 64), c2, c3]
            + base64_of(data.skip(if data.len() >= 3 { 3 } else { data.len() as int }))
    }
}

fn symbol(v: u32) -> (c: char)
    requires
        v < 64,
    ensures
        c == b64_symbol(v as int),
{
    if v < 26 {
        ((65 + v) as u8) as char
    } else if v < 52 {
        ((97 + v - 26) as u8) as char
    } else if v < 62 {
        ((48 + v - 52) as u8) as char
    } else if v == 62 {
        '+'
    } else {
        '/'
    }
}

/// Minimal base64 encoder (standard alphabet, `=` padding).
pub fn base64_encode(data: &[u8]) -> (r: String)
    ensures
        r@ == base64_of(data@),
{
    let ghost d = data@;
    let mut out: Vec<char> = Vec::new();
    let mut i: usize = 0;
    assert(d.skip(0) == d);
    while i < data.len()
        invariant
            i <= data.len(),
            d == data@,
            out@ + base64_of(d.skip(i as int)) == base64_of(d),
        decreases data.len() - i,
    {
        let ghost rest = d.skip(i as int);
        let ghost before = out@;
        let left = data.len() - i;
        let b0 = data[i] as u32;
        let b1: u32 = if left > 1 { data[i + 1] as u32 } else { 0 };
        let b2: u32 = if left > 2 { data[i + 2] as u32 } else { 0 };
        let n: u32 = b0 * 65536 + b1 * 256 + b2;
        assert(n / 262144 < 64) by (nonlinear_arith)
            requires n == b0 * 65536 + b1 * 256 + b2, b0 < 256, b1 < 256, b2 < 256;
        out.push(symbol(n / 262144));
        out.push(symbol((n / 4096) % 64));
        if left > 1 {
            out.push(symbol((n / 64) % 64));
        } else {
            out.push('=');
        }
        if left > 2 {
            out.push(symbol(n % 64));
        } else {
            out.push('=');
        }
        let step: usize = if left >= 3 { 3 } else { left };
        proof {
            assert(rest[0] == d[i as int]);
            assert(rest.skip(step as int) == d.skip(i + step));
            assert(out@ + base64_of(d.skip(i + step)) == before + base64_of(rest));
        }
        i += step;
    }
    assert(out@ + Seq::<char>::empty() == out@);
    from_chars(&out)
}

/// Base64 output is four symbols for every started group of three bytes.
pub proof fn law_base64_length(data: Seq<u8>)
    ensures
        base64_of(data).len() == 4 * ((data.len() + 2) / 3),
    decreases data.len(),
{
    if data.len() > 0 {
        let n: int = if data.len() >= 3 { 3 } else { data.len() as int };
        law_base64_length(data.skip(n));
    }
}

/// The `data:` URI under which a WAV recording is handed to the front end.
pub open spec fn wav_data_uri(data: Seq<u8>) -> Seq<char> {
    "data:audio/wav;base64,"@ + base64_of(data)
}

/// The recording's bytes as a `data:audio/wav;base64,` URI.
pub fn recording_data_uri(data: &[u8]) -> (r: String)
    ensures
        r@ == wav_data_uri(data@),
{
    let b64 = base64_encode(data);
    concat("data:audio/wav;base64,", b64.as_str())
}

/// The error for a recording file that does not exist.
pub fn recording_not_found(path: &str) -> (e: AppError)
    ensures
        e matches AppError::NotFound(m) && m@ == "Recording not found: "@ + path@,
{
    AppError::NotFound(concat("Recording not found: ", path))
}

/// The file name of a recording saved at `timestamp`
/// (`%Y%m%d_%H%M%S_%3f`).
pub fn recording_file_name(timestamp: &str) -> (r: String)
    ensures
        r@ == "recording_"@ + timestamp@ + ".wav"@,
{
    let mut r = concat("recording_", timestamp);
    crate::unicode::push_str_chars_string(&mut r, ".wav");
    r
}

/// The base64 alphabet as characters.
pub open spec fn is_b64_alphabet(c: char) -> bool {
    ('A' <= c && c <= 'Z') || ('a' <= c && c <= 'z') || ('0' <= c && c <= '9') || c == '+' || c == '/'
}

proof fn lemma_b64_symbol(v: int)
    requires
        0 <= v < 64,
    ensures
        is_b64_alphabet(b64_symbol(v)),
{
    if v < 26 {
        assert((65 + v) as u8 == 65 + v);
    } else if v < 52 {
        assert((97 + v - 26) as u8 == 97 + v - 26);
    } else if v < 62 {
        assert((48 + v - 52) as u8 == 48 + v - 52);
    }
}

/// Base64 output uses only the alphabet and `=`; `=` pads only the end:
/// two for a last group of one byte, one for a last group of two, none when
/// the length is a multiple of three.
pub proof fn law_base64_alphabet_and_padding(data: Seq<u8>)
    ensures
        ({
            let r = base64_of(data);
            let n = r.len() as int;
            &&& forall|i: int| 0 <= i < n ==> is_b64_alphabet(#[trigger] r[i]) || r[i] == '='
            &&& forall|i: int| 0 <= i < n && #[trigger] r[i] == '=' ==> i >= n - 2
            &&& data.len() % 3 == 0 ==> forall|i: int| 0 <= i < n ==> #[trigger] r[i] != '='
            &&& data.len() % 3 == 1 ==> r[n - 1] == '=' && r[n - 2] == '=' && r[n - 3] != '='
            &&& data.len() % 3 == 2 ==> r[n - 1] == '=' && r[n - 2] != '='
        }),
    decreases data.len(),
{
    let r = base64_of(data);
    law_base64_length(data);
    if data.len() > 0 {
        let m: int = if data.len() >= 3 { 3 } else { data.len() as int };
        let rest = data.skip(m);
        law_base64_alphabet_and_padding(rest);
        law_base64_length(rest);
        let b0 = data[0] as int;
        let b1 = if data.len() > 1 { data[1] as int } else { 0 };
        let b2 = if data.len() > 2 { data[2] as int } else { 0 };
        let v = b0 * 65536 + b1 * 256 + b2;
        assert(0 <= v < 16777216) by (nonlinear_arith)
            requires
                0 <= b0 < 256,
                0 <= b1 < 256,
                0 <= b2 < 256,
                v == b0 * 65536 + b1 * 256 + b2;
        lemma_b64_symbol(v / 262144);
        lemma_b64_symbol((v / 4096) % 64);
        lemma_b64_symbol((v / 64) % 64);
        lemma_b64_symbol(v % 64);
        let c2 = if data.len() > 1 { b64_symbol((v / 64) % 64) } else { '=' };
        let c3 = if data.len() > 2 { b64_symbol(v % 64) } else { '=' };
        let h = seq![b64_symbol(v / 262144), b64_symbol((v / 4096) % 64), c2, c3];
        let rr = base64_of(rest);
        assert(r == h + rr);
        assert(rest.len() % 3 == data.len() % 3 || data.len() < 3);
        assert forall|i: int| 0 <= i < r.len() implies is_b64_alphabet(#[trigger] r[i]) || r[i] == '=' by {
            if i >= 4 {
                assert(r[i] == rr[i - 4]);
            }
        }
        assert forall|i: int| 0 <= i < r.len() && #[trigger] r[i] == '=' implies i >= r.len() - 2 by {
            if i >= 4 {
                assert(r[i] == rr[i - 4]);
            } else if data.len() >= 3 {
                assert(!is_b64_alphabet('='));
            }
        }
        if data.len() % 3 == 0 {
            assert forall|i: int| 0 <= i < r.len() implies #[trigger] r[i] != '=' by {
                if i >= 4 {
                    assert(r[i] == rr[i - 4]);
                }
            }
        }
        if data.len() > 3 {
            assert(r[r.len() - 1] == rr[rr.len() - 1]);
            assert(r[r.len() - 2] == rr[rr.len() - 2]);
            assert(r[r.len() - 3] == rr[rr.len() - 3]);
        }
    }
}

/// The value of a base64 symbol (0 for anything outside the alphabet).
pub open spec fn b64_value(c: char) -> int {
    if 'A' <= c && c <= 'Z' {
        c as int - 65
    } else if 'a' <= c && c <= 'z' {
        c as int - 97 + 26
    } else if '0' <= c && c <= '9' {
        c as int - 48 + 52
    } else if c == '+' {
        62
    } else if c == '/' {
        63
    } else {
        0
    }
}

/// Standard base64 decoding: each group of four symbols gives three bytes,
/// two when its last symbol is `=`, one when its last two are.
pub open spec fn base64_decoded(r: Seq<char>) -> Seq<u8>
    decreases r.len(),
{
    if r.len() < 4 {
        Seq::empty()
    } else {
        let v2 = if r[2] == '=' { 0 } else { b64_value(r[2]) };
        let v3 = if r[3] == '=' { 0 } else { b64_value(r[3]) };
        let n = b64_value(r[0]) * 262144 + b64_value(r[1]) * 4096 + v2 * 64 + v3;
        let bytes = if r[2] == '=' {
            seq![(n / 65536) as u8]
        } else if r[3] == '=' {
            seq![(n / 65536) as u8, ((n / 256) % 256) as u8]
        } else {
            seq![(n / 65536) as u8, ((n / 256) % 256) as u8, (n % 256) as u8]
        };
        bytes + base64_decoded(r.skip(4))
    }
}

proof fn lemma_b64_value(v: int)
    requires
        0 <= v < 64,
    ensures
        b64_value(b64_symbol(v)) == v,
        b64_symbol(v) != '=',
{
    if v < 26 {
        assert((65 + v) as u8 == 65 + v);
    } else if v < 52 {
        assert((97 + v - 26) as u8 == 97 + v - 26);
    } else if v < 62 {
        assert((48 + v - 52) as u8 == 48 + v - 52);
    }
}

proof fn lemma_group(b0: int, b1: int, b2: int)
    requires
        0 <= b0 < 256,
        0 <= b1 < 256,
        0 <= b2 < 256,
    ensures
        ((b0 * 65536 + b1 * 256 + b2) / 262144) * 262144
            + (((b0 * 65536 + b1 * 256 + b2) / 4096) % 64) * 4096
            + (((b0 * 65536 + b1 * 256 + b2) / 64) % 64) * 64
            + (b0 * 65536 + b1 * 256 + b2) % 64 == b0 * 65536 + b1 * 256 + b2,
        (b0 * 65536 + b1 * 256 + b2) / 65536 == b0,
        ((b0 * 65536 + b1 * 256 + b2) / 256) % 256 == b1,
        (b0 * 65536 + b1 * 256 + b2) % 256 == b2,
{
    let n = b0 * 65536 + b1 * 256 + b2;
    assert(0 <= n < 16777216) by (nonlinear_arith)
        requires 0 <= b0 < 256, 0 <= b1 < 256, 0 <= b2 < 256, n == b0 * 65536 + b1 * 256 + b2;
    assert((n / 262144) * 262144 + ((n / 4096) % 64) * 4096 + ((n / 64) % 64) * 64 + n % 64 == n) by (nonlinear_arith)
        requires 0 <= n < 16777216;
    assert(n / 65536 == b0 && (n / 256) % 256 == b1 && n % 256 == b2) by (nonlinear_arith)
        requires 0 <= b0 < 256, 0 <= b1 < 256, 0 <= b2 < 256, n == b0 * 65536 + b1 * 256 + b2;
}

proof fn lemma_group_short(b0: int, b1: int)
    requires
        0 <= b0 < 256,
        0 <= b1 < 256,
    ensures
        (((b0 * 65536 + b1 * 256) / 262144) * 262144 + (((b0 * 65536 + b1 * 256) / 4096) % 64) * 4096
            + (((b0 * 65536 + b1 * 256) / 64) % 64) * 64) / 65536 == b0,
        ((((b0 * 65536 + b1 * 256) / 262144) * 262144 + (((b0 * 65536 + b1 * 256) / 4096) % 64) * 4096
            + (((b0 * 65536 + b1 * 256) / 64) % 64) * 64) / 256) % 256 == b1,
        (((b0 * 65536) / 262144) * 262144 + (((b0 * 65536) / 4096) % 64) * 4096) / 65536 == b0,
{
    lemma_group(b0, b1, 0);
    lemma_group(b0, 0, 0);
    let n = b0 * 65536 + b1 * 256;
    assert(n % 64 == 0) by (nonlinear_arith)
        requires n == b0 * 65536 + b1 * 256;
    let k = b0 * 65536;
    assert(k % 4096 == 0 && (k / 64) % 64 == 0) by (nonlinear_arith)
        requires k == b0 * 65536, 0 <= b0;
}

/// Decoding the base64 of any bytes gives them back.
pub proof fn law_base64_round_trip(data: Seq<u8>)
    ensures
        base64_decoded(base64_of(data)) == data,
    decreases data.len(),
{
    if data.len() > 0 {
        let m: int = if data.len() >= 3 { 3 } else { data.len() as int };
        let rest = data.skip(m);
        law_base64_round_trip(rest);
        let r = base64_of(data);
        let b0 = data[0] as int;
        let b1: int = if data.len() > 1 { data[1] as int } else { 0 };
        let b2: int = if data.len() > 2 { data[2] as int } else { 0 };
        let n = b0 * 65536 + b1 * 256 + b2;
        lemma_group(b0, b1, b2);
        assert(0 <= n < 16777216) by (nonlinear_arith)
            requires 0 <= b0 < 256, 0 <= b1 < 256, 0 <= b2 < 256, n == b0 * 65536 + b1 * 256 + b2;
        lemma_b64_value(n / 262144);
        lemma_b64_value((n / 4096) % 64);
        lemma_b64_value((n / 64) % 64);
        lemma_b64_value(n % 64);
        lemma_group(b0, b1, b2);
        lemma_group_short(b0, b1);
        let c2 = if data.len() > 1 { b64_symbol((n / 64) % 64) } else { '=' };
        let c3 = if data.len() > 2 { b64_symbol(n % 64) } else { '=' };
        let h = seq![b64_symbol(n / 262144), b64_symbol((n / 4096) % 64), c2, c3];
        assert(r == h + base64_of(rest));
        assert(r.skip(4) =~= base64_of(rest));
        if data.len() >= 3 {
            assert(data =~= seq![data[0], data[1], data[2]] + rest);
        } else if data.len() == 2 {
            assert(data =~= seq![data[0], data[1]]);
            assert(rest.len() == 0);
        } else {
            assert(data =~= seq![data[0]]);
            assert(rest.len() == 0);
        }
    }
}

} // verus!
