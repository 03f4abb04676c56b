//! Chinese numerals to Arabic digits: scene templates (version numbers,
//! decimals, negatives, ordinals) followed by a quantifier-anchored scan.
//! A run of Chinese numeral characters is converted only where a template or
//! a quantifier gives evidence that it denotes a number.

use vstd::prelude::*;

verus! {

// ---------------------------------------------------------------------------
// Characters and their values
// ---------------------------------------------------------------------------

pub open spec fn digit_value(c: char) -> Option<int> {
    if c == '〇' || c == '零' { Some(0) }
    else if c == '一' { Some(1) }
    else if c == '二' || c == '两' { Some(2) }
    else if c == '三' { Some(3) }
    else if c == '四' { Some(4) }
    else if c == '五' { Some(5) }
    else if c == '六' { Some(6) }
    else if c == '七' { Some(7) }
    else if c == '八' { Some(8) }
    else if c == '九' { Some(9) }
    else { None }
}

pub open spec fn unit_value(c: char) -> Option<int> {
    if c == '十' { Some(10) }
    else if c == '百' { Some(100) }
    else if c == '千' { Some(1000) }
    else if c == '万' { Some(10_000) }
    else if c == '亿' { Some(100_000_000) }
    else { None }
}

/// A Chinese numeral character: a digit or a unit.
pub open spec fn is_cn_digit(c: char) -> bool {
    digit_value(c) is Some || unit_value(c) is Some
}

pub fn cn_digit_value(c: char) -> (r: Option<i64>)
    ensures
        match digit_value(c) {
            Some(d) => r == Some(d as i64),
            None => r is None,
        },
{
    if c == '〇' || c == '零' { Some(0) }
    else if c == '一' { Some(1) }
    else if c == '二' || c == '两' { Some(2) }
    else if c == '三' { Some(3) }
    else if c == '四' { Some(4) }
    else if c == '五' { Some(5) }
    else if c == '六' { Some(6) }
    else if c == '七' { Some(7) }
    else if c == '八' { Some(8) }
    else if c == '九' { Some(9) }
    else { None }
}

pub fn cn_unit_value(c: char) -> (r: Option<i64>)
    ensures
        match unit_value(c) {
            Some(u) => r == Some(u as i64),
            None => r is None,
        },
{
    if c == '十' { Some(10) }
    else if c == '百' { Some(100) }
    else if c == '千' { Some(1000) }
    else if c == '万' { Some(10_000) }
    else if c == '亿' { Some(100_000_000) }
    else { None }
}

/// Every character that may appear in a Chinese numeral.
pub const CN_DIGIT_CHARS: &'static str = "〇零一二三四五六七八九两十百千万亿";

/// The same set as a regular-expression class, one or more of them.
pub const CN_DIGIT_CLASS: &'static str = "[〇零一二三四五六七八九两十百千万亿]+";

pub fn is_cn_digit_char(c: char) -> (r: bool)
    ensures
        r == is_cn_digit(c),
{
    cn_digit_value(c).is_some() || cn_unit_value(c).is_some()
}

// ---------------------------------------------------------------------------
// Parsing a numeral
// ---------------------------------------------------------------------------

pub open spec fn has_unit(s: Seq<char>) -> bool {
    exists|k: int| 0 <= k < s.len() && (#[trigger] unit_value(s[k])) is Some
}

pub open spec fn all_digits(s: Seq<char>) -> bool {
    forall|k: int| 0 <= k < s.len() ==> (#[trigger] digit_value(s[k])) is Some
}

/// Positional reading (二〇二六 = 2026): each digit shifts the value one place.
pub open spec fn positional_value(s: Seq<char>) -> int
    decreases s.len(),
{
    if s.len() == 0 {
        0
    } else {
        positional_value(s.drop_last()) * 10 + digit_value(s.last()).unwrap_or(0)
    }
}

/// Reading with units, left to right, as (total, section, current):
/// a digit sets `current`; 十/百/千 multiply `current` (1 when absent) into
/// `section`; 万/亿 multiply `section + current` (1 when both are zero) into
/// `total`. `None` when a character is neither digit nor unit.
pub open spec fn unit_fold(s: Seq<char>) -> Option<(int, int, int)>
    decreases s.len(),
{
    if s.len() == 0 {
        Some((0, 0, 0))
    } else {
        match unit_fold(s.drop_last()) {
            None => None,
            Some((total, section, current)) => {
                let c = s.last();
                match digit_value(c) {
                    Some(d) => Some((total, section, d)),
                    None => match unit_value(c) {
                        Some(u) => if u >= 10_000 {
                            let v = if section + current == 0 { 1 } else { section + current };
                            Some((total + v * u, 0, 0))
                        } else {
                            let v = if current == 0 { 1 } else { current };
                            Some((total, section + v * u, 0))
                        },
                        None => None,
                    },
                }
            },
        }
    }
}

/// The value of a numeral string: positional when it has no unit and only
/// digits, the unit reading when it has a unit, otherwise none.
pub open spec fn numeral_value(s: Seq<char>) -> Option<int> {
    if s.len() == 0 {
        None
    } else if !has_unit(s) {
        if all_digits(s) { Some(positional_value(s)) } else { None }
    } else {
        match unit_fold(s) {
            Some((total, section, current)) => Some(total + section + current),
            None => None,
        }
    }
}

/// The value as an `i64`: none when there is no value or it exceeds `i64::MAX`.
pub open spec fn parsed_numeral(s: Seq<char>) -> Option<int> {
    match numeral_value(s) {
        Some(v) => if v <= i64::MAX { Some(v) } else { None },
        None => None,
    }
}

proof fn lemma_positional_monotone(s: Seq<char>, k: int)
    requires
        0 <= k <= s.len(),
        all_digits(s),
    ensures
        0 <= positional_value(s.take(k)) <= positional_value(s),
    decreases s.len(),
{
    if s.len() == 0 {
        assert(s.take(k) =~= s);
    } else if k == s.len() {
        assert(s.take(k) =~= s);
        lemma_positional_monotone(s.drop_last(), k - 1);
        assert(s.drop_last().take(k - 1) =~= s.drop_last());
    } else {
        assert(all_digits(s.drop_last())) by {
            assert forall|j: int| 0 <= j < s.drop_last().len() implies
                (#[trigger] digit_value(s.drop_last()[j])) is Some by {
                assert(digit_value(s[j]) is Some);
            }
        }
        lemma_positional_monotone(s.drop_last(), k);
        lemma_positional_monotone(s.drop_last(), s.len() - 1);
        assert(s.drop_last().take(k) =~= s.take(k));
        assert(s.drop_last().take(s.len() - 1) =~= s.drop_last());
        assert(digit_value(s[s.len() - 1]) is Some);
    }
}

proof fn lemma_unit_fold_bounds(s: Seq<char>)
    requires
        unit_fold(s) is Some,
    ensures
        ({
            let (t, sec, cur) = unit_fold(s)->0;
            0 <= t && 0 <= sec && 0 <= cur <= 9
        }),
    decreases s.len(),
{
    if s.len() > 0 {
        lemma_unit_fold_bounds(s.drop_last());
        let (t, sec, cur) = unit_fold(s.drop_last())->0;
        let c = s.last();
        if digit_value(c) is None {
            let u = unit_value(c)->0;
            if u >= 10_000 {
                let v = if sec + cur == 0 { 1 } else { sec + cur };
                assert(v * u >= 0) by (nonlinear_arith) requires v >= 1, u >= 1;
            } else {
                let v = if cur == 0 { 1 } else { cur };
                assert(v * u >= 0) by (nonlinear_arith) requires v >= 1, u >= 1;
            }
        }
    }
}

/// `total + section` of the reading of `s`.
spec fn carried(s: Seq<char>) -> int {
    match unit_fold(s) {
        Some((t, sec, _)) => t + sec,
        None => 0,
    }
}

/// `total + section` never decreases along the reading.
proof fn lemma_unit_fold_monotone(s: Seq<char>, k: int)
    requires
        0 <= k <= s.len(),
        unit_fold(s) is Some,
    ensures
        unit_fold(s.take(k)) is Some,
        carried(s.take(k)) <= carried(s),
    decreases s.len(),
{
    if k == s.len() {
        assert(s.take(k) =~= s);
    } else {
        lemma_unit_fold_monotone(s.drop_last(), k);
        assert(s.drop_last().take(k) =~= s.take(k));
        lemma_unit_fold_bounds(s.drop_last());
        let (t, sec, cur) = unit_fold(s.drop_last())->0;
        let c = s.last();
        if digit_value(c) is None {
            let u = unit_value(c)->0;
            if u >= 10_000 {
                let v = if sec + cur == 0 { 1 } else { sec + cur };
                assert(v * u >= v) by (nonlinear_arith) requires v >= 1, u >= 1;
            } else {
                let v = if cur == 0 { 1 } else { cur };
                assert(v * u >= 0) by (nonlinear_arith) requires v >= 1, u >= 1;
            }
        }
    }
}

/// Parses `chars[from..to]` as a Chinese numeral (see `numeral_value`).
/// `None` when it is empty, mixes in other characters, has several digits
/// but no unit out of positional form, or its value exceeds `i64::MAX`.
pub fn parse_cn_numeral(chars: &Vec<char>, from: usize, to: usize) -> (r: Option<i64>)
    requires
        from <= to <= chars.len(),
    ensures
        match parsed_numeral(chars@.subrange(from as int, to as int)) {
            Some(v) => r == Some(v as i64),
            None => r is None,
        },
        r matches Some(x) ==> x >= 0,
        parsed_numeral(chars@.subrange(from as int, to as int)) matches Some(v) ==> v >= 0,
{
    proof { lemma_numeral_nonneg(chars@.subrange(from as int, to as int)); }
    let ghost s = chars@.subrange(from as int, to as int);
    if from == to {
        return None;
    }
    let mut unit_seen = false;
    let mut only_digits = true;
    let mut k = from;
    while k < to
        invariant
            from <= k <= to <= chars.len(),
            s == chars@.subrange(from as int, to as int),
            unit_seen <==> exists|j: int| 0 <= j < k - from && (#[trigger] unit_value(s[j])) is Some,
            only_digits <==> forall|j: int| 0 <= j < k - from ==> (#[trigger] digit_value(s[j])) is Some,
        decreases to - k,
    {
        let c = chars[k];
        assert(c == s[k - from]);
        if cn_unit_value(c).is_some() {
            unit_seen = true;
        }
        if cn_digit_value(c).is_none() {
            only_digits = false;
        }
        k += 1;
    }
    assert(s.len() == to - from);
    if !unit_seen {
        assert(!has_unit(s));
        if !only_digits {
            assert(!all_digits(s));
            return None;
        }
        assert(all_digits(s));
        let mut n: i64 = 0;
        let mut k = from;
        assert(s.take(0) =~= Seq::<char>::empty());
        while k < to
            invariant
                from <= k <= to <= chars.len(),
                s == chars@.subrange(from as int, to as int),
                s.len() == to - from,
                all_digits(s),
                !has_unit(s),
                n == positional_value(s.take(k - from)),
            decreases to - k,
        {
            let d = cn_digit_value(chars[k]).unwrap();
            proof {
                assert(s.take(k - from + 1).drop_last() =~= s.take(k - from));
                assert(s.take(k - from + 1).last() == s[k - from]);
                assert(digit_value(s[k - from]) is Some);
                lemma_positional_monotone(s, k - from + 1);
                lemma_positional_monotone(s, k - from);
            }
            match n.checked_mul(10) {
                Some(m) => match m.checked_add(d) {
                    Some(next) => { n = next; },
                    None => { return None; },
                },
                None => { return None; },
            }
            k += 1;
        }
        assert(s.take(s.len() as int) =~= s);
        proof { lemma_positional_monotone(s, 0); }
        return Some(n);
    }
    assert(has_unit(s));
    let mut total: i64 = 0;
    let mut section: i64 = 0;
    let mut current: i64 = 0;
    let mut k = from;
    assert(s.take(0) =~= Seq::<char>::empty());
    while k < to
        invariant
            from <= k <= to <= chars.len(),
            s == chars@.subrange(from as int, to as int),
            s.len() == to - from,
            has_unit(s),
            unit_fold(s.take(k - from)) == Some((total as int, section as int, current as int)),
        decreases to - k,
    {
        let c = chars[k];
        let ghost next = s.take(k - from + 1);
        proof {
            assert(next.drop_last() =~= s.take(k - from));
            assert(next.last() == c);
            lemma_unit_fold_bounds(s.take(k - from));
        }
        match cn_digit_value(c) {
            Some(d) => {
                current = d;
            },
            None => match cn_unit_value(c) {
                Some(u) => {
                    if u >= 10_000 {
                        let sum = match section.checked_add(current) {
                            Some(x) => x,
                            None => {
                                proof {
                                    let v = section + current;
                                    assert(v * u >= v) by (nonlinear_arith) requires v >= 1, u >= 1;
                                    assert(carried(next) > i64::MAX);
                                    lemma_overflow_means_too_big(s, k - from + 1);
                                }
                                return None;
                            },
                        };
                        let v = if sum == 0 { 1 } else { sum };
                        proof {
                            assert(v * u >= v) by (nonlinear_arith) requires v >= 1, u >= 1;
                        }
                        let p = match v.checked_mul(u) {
                            Some(x) => x,
                            None => {
                                proof {
                                    assert(carried(next) > i64::MAX);
                                    lemma_overflow_means_too_big(s, k - from + 1);
                                }
                                return None;
                            },
                        };
                        total = match total.checked_add(p) {
                            Some(x) => x,
                            None => {
                                proof {
                                    assert(carried(next) > i64::MAX);
                                    lemma_overflow_means_too_big(s, k - from + 1);
                                }
                                return None;
                            },
                        };
                        section = 0;
                        current = 0;
                    } else {
                        let v = if current == 0 { 1 } else { current };
                        proof {
                            assert(v * u >= 0) by (nonlinear_arith) requires v >= 1, u >= 1;
                        }
                        let p = match v.checked_mul(u) {
                            Some(x) => x,
                            None => {
                                proof {
                                    assert(carried(next) > i64::MAX);
                                    lemma_overflow_means_too_big(s, k - from + 1);
                                }
                                return None;
                            },
                        };
                        section = match section.checked_add(p) {
                            Some(x) => x,
                            None => {
                                proof {
                                    assert(carried(next) > i64::MAX);
                                    lemma_overflow_means_too_big(s, k - from + 1);
                                }
                                return None;
                            },
                        };
                        current = 0;
                    }
                },
                None => {
                    proof { lemma_fold_none_extends(s, k - from + 1); }
                    return None;
                },
            },
        }
        k += 1;
    }
    assert(s.take(s.len() as int) =~= s);
    proof { lemma_unit_fold_bounds(s); }
    let a = match total.checked_add(section) {
        Some(x) => x,
        None => { return None; },
    };
    match a.checked_add(current) {
        Some(x) => Some(x),
        None => None,
    }
}

proof fn lemma_numeral_nonneg(s: Seq<char>)
    ensures
        numeral_value(s) matches Some(v) ==> v >= 0,
{
    if s.len() > 0 {
        if !has_unit(s) {
            if all_digits(s) {
                lemma_positional_monotone(s, 0);
            }
        } else if unit_fold(s) is Some {
            lemma_unit_fold_bounds(s);
        }
    }
}

/// A section: numeral characters other than 万 and 亿.
pub open spec fn is_section(x: Seq<char>) -> bool {
    forall|k: int| 0 <= k < x.len() ==> is_cn_digit(#[trigger] x[k]) && x[k] != '万' && x[k] != '亿'
}

proof fn lemma_section_fold(x: Seq<char>)
    requires
        is_section(x),
    ensures
        unit_fold(x) matches Some((t, sec, cur)) && t == 0 && sec >= 0 && 0 <= cur <= 9
            && (has_unit(x) ==> sec >= 10),
    decreases x.len(),
{
    if x.len() > 0 {
        let y = x.drop_last();
        let c = x.last();
        assert(is_section(y)) by {
            assert forall|k: int| 0 <= k < y.len() implies is_cn_digit(#[trigger] y[k]) && y[k] != '万' && y[k] != '亿' by {
                assert(y[k] == x[k]);
            }
        }
        lemma_section_fold(y);
        assert(is_cn_digit(x[x.len() - 1]) && x[x.len() - 1] != '万' && x[x.len() - 1] != '亿');
        if has_unit(x) && digit_value(c) is Some {
            let k = choose|k: int| 0 <= k < x.len() && (#[trigger] unit_value(x[k])) is Some;
            if k == x.len() - 1 {
                assert(unit_value(c) is None);
            }
            assert(y[k] == x[k]);
            assert(has_unit(y));
        }
        if let Some((t, sec, cur)) = unit_fold(y) {
            if digit_value(c) is None {
                let u = unit_value(c)->0;
                let v = if cur == 0 { 1 } else { cur };
                assert(v * u >= 10) by (nonlinear_arith) requires v >= 1, u >= 10;
            }
        }
    }
}

/// 万 and 亿 multiply the section read before them: for a section `x` with
/// a unit of its own (十/百/千, as in 二十 or 三百五十) or a single digit
/// from 一 to 九, `x` followed by 万 reads as the value of `x` times ten
/// thousand, and followed by 亿 as that value times a hundred million
/// (二十万 = 200000).
pub proof fn law_big_unit_multiplies_section(x: Seq<char>, big: char)
    requires
        big == '万' || big == '亿',
        is_section(x),
        has_unit(x) || (x.len() == 1 && (digit_value(x[0]) matches Some(d) && d > 0)),
    ensures
        numeral_value(x) is Some,
        numeral_value(x.push(big))
            == Some(numeral_value(x)->0 * (if big == '万' { 10_000int } else { 100_000_000int })),
{
    lemma_section_fold(x);
    let y = x.push(big);
    assert(y.drop_last() =~= x);
    assert(y.last() == big);
    assert(unit_value(y[y.len() - 1]) is Some);
    assert(has_unit(y));
    let (t, sec, cur) = unit_fold(x)->0;
    let bigu: int = if big == '万' { 10_000int } else { 100_000_000int };
    assert(digit_value(big) is None);
    assert(unit_value(big) == Some(bigu));
    if !has_unit(x) {
        assert(all_digits(x));
        assert(x.drop_last().len() == 0);
        assert(positional_value(x) == positional_value(x.drop_last()) * 10 + digit_value(x[0]).unwrap_or(0));
        assert(x.drop_last() =~= Seq::<char>::empty());
        assert(unit_fold(Seq::<char>::empty()) == Some((0int, 0int, 0int)));
        assert(unit_fold(x.drop_last()) == Some((0int, 0int, 0int)));
        assert(x.last() == x[0]);
        assert(unit_fold(x) == Some((0int, 0int, digit_value(x[0])->0)));
        assert(cur == digit_value(x[0])->0);
        assert(sec == 0);
        assert(numeral_value(x) == Some(cur));
    } else {
        assert(numeral_value(x) == Some(sec + cur));
    }
    assert(sec + cur > 0);
    assert(unit_fold(y) == Some((t + (sec + cur) * bigu, 0int, 0int)));
}

/// Once the reading of a prefix fails, the whole reading fails.
proof fn lemma_fold_none_extends(s: Seq<char>, k: int)
    requires
        0 <= k <= s.len(),
        unit_fold(s.take(k)) is None,
    ensures
        unit_fold(s) is None,
    decreases s.len(),
{
    if k == s.len() {
        assert(s.take(k) =~= s);
    } else {
        assert(s.drop_last().take(k) =~= s.take(k));
        lemma_fold_none_extends(s.drop_last(), k);
    }
}

/// A prefix whose `total + section` exceeds `i64::MAX` forces the value of
/// the whole string past `i64::MAX` (or the reading fails).
proof fn lemma_overflow_means_too_big(s: Seq<char>, k: int)
    requires
        0 <= k <= s.len(),
        has_unit(s),
        unit_fold(s.take(k)) is Some ==> carried(s.take(k)) > i64::MAX,
    ensures
        parsed_numeral(s) is None,
{
    if unit_fold(s) is Some {
        lemma_unit_fold_monotone(s, k);
        lemma_unit_fold_bounds(s);
    }
}


// ---------------------------------------------------------------------------
// Decimal rendering
// ---------------------------------------------------------------------------

pub open spec fn digit_char(d: int) -> char {
    if d == 0 { '0' }
    else if d == 1 { '1' }
    else if d == 2 { '2' }
    else if d == 3 { '3' }
    else if d == 4 { '4' }
    else if d == 5 { '5' }
    else if d == 6 { '6' }
    else if d == 7 { '7' }
    else if d == 8 { '8' }
    else { '9' }
}

/// Decimal notation of `n`, without leading zeros.
pub open spec fn decimal(n: nat) -> Seq<char>
    decreases n,
{
    if n < 10 {
        seq![digit_char(n as int)]
    } else {
        decimal(n / 10).push(digit_char((n % 10) as int))
    }
}

fn digit_to_char(d: u64) -> (c: char)
    requires
        d < 10,
    ensures
        c == digit_char(d as int),
{
    if d == 0 { '0' }
    else if d == 1 { '1' }
    else if d == 2 { '2' }
    else if d == 3 { '3' }
    else if d == 4 { '4' }
    else if d == 5 { '5' }
    else if d == 6 { '6' }
    else if d == 7 { '7' }
    else if d == 8 { '8' }
    else { '9' }
}

/// Appends the decimal notation of `n`.
pub fn push_decimal(out: &mut Vec<char>, n: u64)
    ensures
        final(out)@ == old(out)@ + decimal(n as nat),
    decreases n,
{
    if n >= 10 {
        push_decimal(out, n / 10);
    }
    let c = digit_to_char(n % 10);
    out.push(c);
    proof {
        if n < 10 {
            assert(decimal(n as nat) == seq![digit_char(n as int)]);
        }
    }
    assert(final(out)@ =~= old(out)@ + decimal(n as nat)) by {
        if n >= 10 {
            assert(decimal(n as nat) == decimal((n / 10) as nat).push(digit_char((n % 10) as int)));
        }
    }
}

// ---------------------------------------------------------------------------
// Runs of numeral characters
// ---------------------------------------------------------------------------

/// End of the run of numeral characters that starts at `i` (`i` itself when
/// `s[i]` is not one).
pub open spec fn run_end(s: Seq<char>, i: int) -> int
    decreases s.len() - i,
{
    if 0 <= i < s.len() && is_cn_digit(s[i]) {
        run_end(s, i + 1)
    } else {
        i
    }
}

proof fn lemma_run_end(s: Seq<char>, i: int)
    requires
        0 <= i <= s.len(),
    ensures
        i <= run_end(s, i) <= s.len(),
        forall|k: int| i <= k < run_end(s, i) ==> is_cn_digit(#[trigger] s[k]),
        run_end(s, i) < s.len() ==> !is_cn_digit(s[run_end(s, i)]),
    decreases s.len() - i,
{
    if i < s.len() && is_cn_digit(s[i]) {
        lemma_run_end(s, i + 1);
    }
}

fn scan_run_end(chars: &Vec<char>, i: usize) -> (r: usize)
    requires
        i <= chars.len(),
    ensures
        r == run_end(chars@, i as int),
{
    let mut k = i;
    while k < chars.len() && is_cn_digit_char(chars[k])
        invariant
            i <= k <= chars.len(),
            run_end(chars@, i as int) == run_end(chars@, k as int),
        decreases chars.len() - k,
    {
        k += 1;
    }
    k
}

// ---------------------------------------------------------------------------
// Scene templates
// ---------------------------------------------------------------------------

/// The scene templates, in the order the conversion applies them.
#[derive(Clone, Copy, PartialEq, Eq, Structural)]
pub enum Template {
    /// `X点Y点Z…`, three or more segments: 零点六点零 → 0.6.0.
    Version,
    /// `百分之X`: 百分之一点五 → 1.5%.
    Percent,
    /// `千分之X`: 千分之五 → 5‰.
    Permille,
    /// `X分之Y`: 三分之一 → 1/3.
    Fraction,
    /// `负X`, X possibly a decimal: 负三百 → -300, 负二点五 → -2.5.
    Negative,
    /// `X点Y`, Y read digit by digit: 二点五 → 2.5, 零点零五 → 0.05.
    Decimal,
    /// `第X`: 第二十五 → 第25.
    Ordinal,
}

/// The fractional digits read one by one (零五 → 05); none when a
/// character is not a digit.
pub open spec fn digits_read(t: Seq<char>) -> Option<Seq<char>>
    decreases t.len(),
{
    if t.len() == 0 {
        Some(Seq::empty())
    } else {
        match (digits_read(t.drop_last()), digit_value(t.last())) {
            (Some(r), Some(d)) => Some(r.push(digit_char(d))),
            _ => None,
        }
    }
}

/// End of the number that starts at `i`: a run of numeral characters,
/// extended by `点` and a second run when one follows.
pub open spec fn number_end(s: Seq<char>, i: int) -> int {
    let e = run_end(s, i);
    if e + 1 < s.len() && s[e] == '点' && is_cn_digit(s[e + 1]) {
        run_end(s, e + 1)
    } else {
        e
    }
}

/// The number `s[i..end]` in digits: the integer part as a decimal, the
/// part after `点` digit by digit; none when a part does not parse.
pub open spec fn number_render(s: Seq<char>, i: int, end: int) -> Option<Seq<char>> {
    let e = run_end(s, i);
    match parsed_numeral(s.subrange(i, e)) {
        None => None,
        Some(v) => if e >= end {
            Some(decimal(v as nat))
        } else {
            match digits_read(s.subrange(e + 1, end)) {
                Some(f) => Some(decimal(v as nat) + seq!['.'] + f),
                None => None,
            }
        },
    }
}

/// `s[i..i+3]` is the word `w0 w1 之` followed by a numeral character.
pub open spec fn ratio_prefix_at(s: Seq<char>, i: int, w0: char) -> bool {
    i + 3 < s.len() && s[i] == w0 && s[i + 1] == '分' && s[i + 2] == '之' && is_cn_digit(s[i + 3])
}

/// After the run ending at `j`: the end of the last `点`-separated run that
/// follows, and how many such runs follow.
pub open spec fn point_groups(s: Seq<char>, j: int) -> (int, nat)
    decreases s.len() - j,
{
    if 0 <= j && j + 1 < s.len() && s[j] == '点' && is_cn_digit(s[j + 1]) {
        let e = run_end(s, j + 1);
        if j < e <= s.len() {
            let (end, count) = point_groups(s, e);
            (end, count + 1)
        } else {
            (j, 0)
        }
    } else {
        (j, 0)
    }
}

/// The end of the token that the template matches at `i`, if it matches
/// there (regular-expression semantics, leftmost and greedy).
pub open spec fn template_match(t: Template, s: Seq<char>, i: int) -> Option<int> {
    if !(0 <= i < s.len()) {
        None
    } else {
        match t {
            Template::Version => if is_cn_digit(s[i]) {
                let (end, count) = point_groups(s, run_end(s, i));
                if count >= 2 { Some(end) } else { None }
            } else {
                None
            },
            Template::Percent => if ratio_prefix_at(s, i, '百') {
                Some(number_end(s, i + 3))
            } else {
                None
            },
            Template::Permille => if ratio_prefix_at(s, i, '千') {
                Some(number_end(s, i + 3))
            } else {
                None
            },
            Template::Fraction => if is_cn_digit(s[i]) {
                let e = run_end(s, i);
                if e + 2 < s.len() && s[e] == '分' && s[e + 1] == '之' && is_cn_digit(s[e + 2]) {
                    Some(run_end(s, e + 2))
                } else {
                    None
                }
            } else {
                None
            },
            Template::Decimal => if is_cn_digit(s[i]) {
                let e = run_end(s, i);
                if e + 1 < s.len() && s[e] == '点' && is_cn_digit(s[e + 1]) {
                    Some(run_end(s, e + 1))
                } else {
                    None
                }
            } else {
                None
            },
            Template::Negative => if s[i] == '负' && i + 1 < s.len() && is_cn_digit(s[i + 1]) {
                Some(number_end(s, i + 1))
            } else {
                None
            },
            Template::Ordinal => if s[i] == '第' && i + 1 < s.len() && is_cn_digit(s[i + 1]) {
                Some(run_end(s, i + 1))
            } else {
                None
            },
        }
    }
}

/// The `点`-separated segments of `s[i..end]` rendered as decimals joined
/// by `.`; none when a segment does not parse.
pub open spec fn version_render(s: Seq<char>, i: int, end: int) -> Option<Seq<char>>
    decreases end - i,
{
    let e = run_end(s, i);
    match parsed_numeral(s.subrange(i, e)) {
        None => None,
        Some(v) => if e >= end || e < i {
            Some(decimal(v as nat))
        } else {
            match version_render(s, e + 1, end) {
                Some(rest) => Some(decimal(v as nat) + seq!['.'] + rest),
                None => None,
            }
        },
    }
}

/// What replaces the token `s[i..end]`: its rendering, or the token itself
/// when a part of it does not parse.
pub open spec fn template_render(t: Template, s: Seq<char>, i: int, end: int) -> Seq<char> {
    let token = s.subrange(i, end);
    match t {
        Template::Version => match version_render(s, i, end) {
            Some(r) => r,
            None => token,
        },
        Template::Percent => match number_render(s, i + 3, end) {
            Some(r) => r + seq!['%'],
            None => token,
        },
        Template::Permille => match number_render(s, i + 3, end) {
            Some(r) => r + seq!['‰'],
            None => token,
        },
        Template::Fraction => {
            let e = run_end(s, i);
            match (parsed_numeral(s.subrange(i, e)), parsed_numeral(s.subrange(e + 2, end))) {
                (Some(den), Some(num)) => decimal(num as nat) + seq!['/'] + decimal(den as nat),
                _ => token,
            }
        },
        Template::Decimal => match number_render(s, i, end) {
            Some(r) => r,
            None => token,
        },
        Template::Negative => match number_render(s, i + 1, end) {
            Some(r) => seq!['-'] + r,
            None => token,
        },
        Template::Ordinal => match parsed_numeral(s.subrange(i + 1, end)) {
            Some(v) => seq!['第'] + decimal(v as nat),
            None => token,
        },
    }
}

/// The template applied to `s[i..]`: each match, scanning left to right and
/// resuming after it, is replaced by its rendering.
pub open spec fn template_from(t: Template, s: Seq<char>, i: int) -> Seq<char>
    decreases s.len() - i,
{
    if !(0 <= i < s.len()) {
        Seq::empty()
    } else {
        match template_match(t, s, i) {
            Some(end) => if i < end <= s.len() {
                template_render(t, s, i, end) + template_from(t, s, end)
            } else {
                Seq::empty()
            },
            None => seq![s[i]] + template_from(t, s, i + 1),
        }
    }
}

pub open spec fn apply_template_spec(t: Template, s: Seq<char>) -> Seq<char> {
    template_from(t, s, 0)
}

proof fn lemma_point_groups(s: Seq<char>, j: int)
    requires
        0 <= j <= s.len(),
    ensures
        j <= point_groups(s, j).0 <= s.len(),
    decreases s.len() - j,
{
    if j + 1 < s.len() && s[j] == '点' && is_cn_digit(s[j + 1]) {
        lemma_run_end(s, j + 1);
        let e = run_end(s, j + 1);
        lemma_point_groups(s, e);
    }
}

proof fn lemma_number_end(s: Seq<char>, i: int)
    requires
        0 <= i < s.len(),
        is_cn_digit(s[i]),
    ensures
        run_end(s, i) <= number_end(s, i) <= s.len(),
        i < run_end(s, i),
{
    lemma_run_end(s, i);
    lemma_run_end(s, i + 1);
    let e = run_end(s, i);
    if e + 1 < s.len() && s[e] == '点' && is_cn_digit(s[e + 1]) {
        lemma_run_end(s, e + 1);
    }
}

proof fn lemma_template_match(t: Template, s: Seq<char>, i: int)
    requires
        0 <= i < s.len(),
        template_match(t, s, i) is Some,
    ensures
        i < template_match(t, s, i)->0 <= s.len(),
{
    match t {
        Template::Version => {
            lemma_run_end(s, i);
            lemma_point_groups(s, run_end(s, i));
        },
        Template::Percent => {
            lemma_number_end(s, i + 3);
        },
        Template::Permille => {
            lemma_number_end(s, i + 3);
        },
        Template::Fraction => {
            lemma_run_end(s, i);
            lemma_run_end(s, run_end(s, i) + 2);
        },
        Template::Decimal => {
            lemma_run_end(s, i);
            lemma_run_end(s, run_end(s, i) + 1);
        },
        Template::Negative => {
            lemma_number_end(s, i + 1);
        },
        Template::Ordinal => {
            lemma_run_end(s, i + 1);
        },
    }
}

fn scan_point_groups(chars: &Vec<char>, j: usize) -> (r: (usize, usize))
    requires
        j <= chars.len(),
    ensures
        r.0 == point_groups(chars@, j as int).0,
        r.1 == point_groups(chars@, j as int).1,
{
    let ghost s = chars@;
    let mut k = j;
    let mut count: usize = 0;
    while k < chars.len() && chars.len() - k > 1 && chars[k] == '点' && is_cn_digit_char(chars[k + 1])
        invariant
            j <= k <= chars.len(),
            s == chars@,
            count <= k,
            point_groups(s, j as int).0 == point_groups(s, k as int).0,
            point_groups(s, j as int).1 == point_groups(s, k as int).1 + count,
        decreases chars.len() - k,
    {
        proof { lemma_run_end(s, k as int + 1); }
        let e = scan_run_end(chars, k + 1);
        k = e;
        count += 1;
    }
    (k, count)
}

fn find_template_match(t: Template, chars: &Vec<char>, i: usize) -> (r: Option<usize>)
    requires
        i < chars.len(),
    ensures
        match template_match(t, chars@, i as int) {
            Some(end) => r == Some(end as usize),
            None => r is None,
        },
{
    proof { lemma_run_end(chars@, i as int); }
    match t {
        Template::Version => {
            if !is_cn_digit_char(chars[i]) {
                return None;
            }
            let e = scan_run_end(chars, i);
            let (end, count) = scan_point_groups(chars, e);
            if count >= 2 { Some(end) } else { None }
        },
        Template::Percent => {
            if ratio_prefix(chars, i, '百') {
                Some(scan_number_end(chars, i + 3))
            } else {
                None
            }
        },
        Template::Permille => {
            if ratio_prefix(chars, i, '千') {
                Some(scan_number_end(chars, i + 3))
            } else {
                None
            }
        },
        Template::Fraction => {
            if !is_cn_digit_char(chars[i]) {
                return None;
            }
            let e = scan_run_end(chars, i);
            if e < chars.len() && chars.len() - e > 2 && chars[e] == '分' && chars[e + 1] == '之'
                && is_cn_digit_char(chars[e + 2]) {
                Some(scan_run_end(chars, e + 2))
            } else {
                None
            }
        },
        Template::Decimal => {
            if !is_cn_digit_char(chars[i]) {
                return None;
            }
            let e = scan_run_end(chars, i);
            if e < chars.len() && e + 1 < chars.len() && chars[e] == '点' && is_cn_digit_char(chars[e + 1]) {
                Some(scan_run_end(chars, e + 1))
            } else {
                None
            }
        },
        Template::Negative => {
            if chars[i] == '负' && i + 1 < chars.len() && is_cn_digit_char(chars[i + 1]) {
                Some(scan_number_end(chars, i + 1))
            } else {
                None
            }
        },
        Template::Ordinal => {
            if chars[i] == '第' && i + 1 < chars.len() && is_cn_digit_char(chars[i + 1]) {
                Some(scan_run_end(chars, i + 1))
            } else {
                None
            }
        },
    }
}

fn ratio_prefix(chars: &Vec<char>, i: usize, w0: char) -> (r: bool)
    requires
        i < chars.len(),
    ensures
        r == ratio_prefix_at(chars@, i as int, w0),
{
    chars.len() - i > 3 && chars[i] == w0 && chars[i + 1] == '分' && chars[i + 2] == '之'
        && is_cn_digit_char(chars[i + 3])
}

fn scan_number_end(chars: &Vec<char>, i: usize) -> (r: usize)
    requires
        i < chars.len(),
    ensures
        r == number_end(chars@, i as int),
{
    proof { lemma_run_end(chars@, i as int); }
    let e = scan_run_end(chars, i);
    if e < chars.len() && chars.len() - e > 1 && chars[e] == '点' && is_cn_digit_char(chars[e + 1]) {
        scan_run_end(chars, e + 1)
    } else {
        e
    }
}

/// Appends the digits of `chars[from..to]` one by one; false when one of
/// them is not a digit.
fn render_digits(chars: &Vec<char>, from: usize, to: usize, out: &mut Vec<char>) -> (ok: bool)
    requires
        from <= to <= chars.len(),
    ensures
        ok <==> digits_read(chars@.subrange(from as int, to as int)) is Some,
        ok ==> final(out)@ == old(out)@ + digits_read(chars@.subrange(from as int, to as int))->0,
{
    let ghost start = out@;
    let mut k = from;
    while k < to
        invariant
            from <= k <= to <= chars.len(),
            digits_read(chars@.subrange(from as int, k as int)) is Some,
            out@ == start + digits_read(chars@.subrange(from as int, k as int))->0,
        decreases to - k,
    {
        proof {
            assert(chars@.subrange(from as int, k + 1).drop_last() == chars@.subrange(from as int, k as int));
        }
        match cn_digit_value(chars[k]) {
            Some(d) => {
                let c = digit_to_char(d as u64);
                out.push(c);
                k += 1;
            },
            None => {
                proof {
                    let whole = chars@.subrange(from as int, to as int);
                    assert(whole.take(k - from + 1) == chars@.subrange(from as int, k + 1));
                    if digits_read(whole) is Some {
                        lemma_digits_read_prefix(whole, k - from + 1);
                    }
                }
                return false;
            },
        }
    }
    true
}

proof fn lemma_digits_read_prefix(t: Seq<char>, n: int)
    requires
        0 <= n <= t.len(),
        digits_read(t) is Some,
    ensures
        digits_read(t.take(n)) is Some,
    decreases t.len() - n,
{
    if n < t.len() {
        lemma_digits_read_prefix(t, n + 1);
        assert(t.take(n + 1).drop_last() == t.take(n));
    } else {
        assert(t.take(n) == t);
    }
}

/// Appends the number `chars[i..end]` in digits (see `number_render`);
/// false when a part does not parse.
fn render_number(chars: &Vec<char>, i: usize, end: usize, out: &mut Vec<char>) -> (ok: bool)
    requires
        i < end <= chars.len(),
        is_cn_digit(chars@[i as int]),
        end == number_end(chars@, i as int) || (end == run_end(chars@, run_end(chars@, i as int) + 1)
            && run_end(chars@, i as int) + 1 < chars.len() && chars@[run_end(chars@, i as int)] == '点'),
    ensures
        ok <==> number_render(chars@, i as int, end as int) is Some,
        ok ==> final(out)@ == old(out)@ + number_render(chars@, i as int, end as int)->0,
{
    let ghost s = chars@;
    proof { lemma_number_end(s, i as int); }
    let e = scan_run_end(chars, i);
    proof {
        if e + 1 < s.len() {
            lemma_run_end(s, e + 1);
        }
    }
    match parse_cn_numeral(chars, i, e) {
        None => false,
        Some(v) => {
            let ghost before = out@;
            push_decimal(out, v as u64);
            if e >= end {
                return true;
            }
            out.push('.');
            let ghost mid = out@;
            let ok = render_digits(chars, e + 1, end, out);
            proof {
                if ok {
                    assert(out@ =~= before + (decimal(v as nat) + seq!['.']
                        + digits_read(s.subrange(e + 1, end as int))->0));
                }
            }
            ok
        },
    }
}

/// Renders the segments of a version token into `out`; false (with `out`
/// in an unspecified state) when a segment does not parse.
fn render_version(chars: &Vec<char>, i: usize, end: usize, out: &mut Vec<char>) -> (ok: bool)
    requires
        i <= end <= chars.len(),
    ensures
        ok <==> version_render(chars@, i as int, end as int) is Some,
        ok ==> final(out)@ == old(out)@ + version_render(chars@, i as int, end as int)->0,
    decreases end - i,
{
    proof { lemma_run_end(chars@, i as int); }
    let e = scan_run_end(chars, i);
    match parse_cn_numeral(chars, i, e) {
        None => false,
        Some(v) => {
            let ghost pv = parsed_numeral(chars@.subrange(i as int, e as int))->0;
            assert((v as u64) as nat == pv as nat);
            push_decimal(out, v as u64);
            if e >= end {
                assert(version_render(chars@, i as int, end as int) == Some(decimal(pv as nat)));
                return true;
            }
            out.push('.');
            let ghost mid = out@;
            let ok = render_version(chars, e + 1, end, out);
            proof {
                if ok {
                    assert(out@ =~= old(out)@ + (decimal(v as nat) + seq!['.']
                        + version_render(chars@, e as int + 1, end as int)->0));
                }
            }
            ok
        },
    }
}

/// Appends `chars[from..to]`.
pub fn push_range(out: &mut Vec<char>, chars: &Vec<char>, from: usize, to: usize)
    requires
        from <= to <= chars.len(),
    ensures
        final(out)@ == old(out)@ + chars@.subrange(from as int, to as int),
{
    let mut k = from;
    while k < to
        invariant
            from <= k <= to <= chars.len(),
            out@ == old(out)@ + chars@.subrange(from as int, k as int),
        decreases to - k,
    {
        out.push(chars[k]);
        k += 1;
        assert(out@ =~= old(out)@ + chars@.subrange(from as int, k as int));
    }
}

fn render_token(t: Template, chars: &Vec<char>, i: usize, end: usize, out: &mut Vec<char>)
    requires
        i < chars.len(),
        template_match(t, chars@, i as int) == Some(end as int),
    ensures
        final(out)@ == old(out)@ + template_render(t, chars@, i as int, end as int),
{
    let ghost s = chars@;
    proof { lemma_template_match(t, s, i as int); }
    match t {
        Template::Version => {
            let mut buf: Vec<char> = Vec::new();
            if render_version(chars, i, end, &mut buf) {
                push_range(out, &buf, 0, buf.len());
                assert(buf@.subrange(0, buf@.len() as int) =~= buf@);
            } else {
                push_range(out, chars, i, end);
            }
        },
        Template::Percent => {
            let mut buf: Vec<char> = Vec::new();
            proof { lemma_number_end(s, i as int + 3); }
            if render_number(chars, i + 3, end, &mut buf) {
                push_range(out, &buf, 0, buf.len());
                assert(buf@.subrange(0, buf@.len() as int) =~= buf@);
                out.push('%');
            } else {
                push_range(out, chars, i, end);
            }
        },
        Template::Permille => {
            let mut buf: Vec<char> = Vec::new();
            proof { lemma_number_end(s, i as int + 3); }
            if render_number(chars, i + 3, end, &mut buf) {
                push_range(out, &buf, 0, buf.len());
                assert(buf@.subrange(0, buf@.len() as int) =~= buf@);
                out.push('‰');
            } else {
                push_range(out, chars, i, end);
            }
        },
        Template::Fraction => {
            let e = scan_run_end(chars, i);
            proof {
                lemma_run_end(s, i as int);
                lemma_run_end(s, e as int + 2);
            }
            match (parse_cn_numeral(chars, i, e), parse_cn_numeral(chars, e + 2, end)) {
                (Some(den), Some(num)) => {
                    let ghost before = out@;
                    push_decimal(out, num as u64);
                    out.push('/');
                    push_decimal(out, den as u64);
                    assert(out@ =~= before + (decimal(num as nat) + seq!['/'] + decimal(den as nat)));
                },
                _ => {
                    push_range(out, chars, i, end);
                },
            }
        },
        Template::Decimal => {
            let mut buf: Vec<char> = Vec::new();
            proof {
                lemma_run_end(s, i as int);
            }
            if render_number(chars, i, end, &mut buf) {
                push_range(out, &buf, 0, buf.len());
                assert(buf@.subrange(0, buf@.len() as int) =~= buf@);
            } else {
                push_range(out, chars, i, end);
            }
        },
        Template::Negative => {
            let mut buf: Vec<char> = Vec::new();
            proof { lemma_number_end(s, i as int + 1); }
            if render_number(chars, i + 1, end, &mut buf) {
                let ghost before = out@;
                out.push('-');
                push_range(out, &buf, 0, buf.len());
                assert(buf@.subrange(0, buf@.len() as int) =~= buf@);
                assert(out@ =~= before + (seq!['-'] + buf@));
            } else {
                push_range(out, chars, i, end);
            }
        },
        Template::Ordinal => {
            proof { lemma_run_end(s, i as int + 1); }
            match parse_cn_numeral(chars, i + 1, end) {
                Some(v) => {
                    let ghost before = out@;
                    out.push('第');
                    push_decimal(out, v as u64);
                    assert(out@ =~= before + (seq!['第'] + decimal(v as nat)));
                },
                None => {
                    push_range(out, chars, i, end);
                },
            }
        },
    }
}

/// Applies one template to the whole text (see `template_from`).
pub fn apply_template(t: Template, chars: &Vec<char>) -> (out: Vec<char>)
    ensures
        out@ == apply_template_spec(t, chars@),
{
    let ghost s = chars@;
    let mut out: Vec<char> = Vec::new();
    let mut i: usize = 0;
    while i < chars.len()
        invariant
            i <= chars.len(),
            s == chars@,
            out@ + template_from(t, s, i as int) == template_from(t, s, 0),
        decreases chars.len() - i,
    {
        match find_template_match(t, chars, i) {
            Some(end) => {
                proof { lemma_template_match(t, s, i as int); }
                let ghost before = out@;
                let ghost i0 = i as int;
                render_token(t, chars, i, end, &mut out);
                i = end;
                assert(template_from(t, s, i0) == template_render(t, s, i0, end as int) + template_from(t, s, end as int));
                assert(out@ + template_from(t, s, i as int) =~= before + template_from(t, s, i0));
            },
            None => {
                let ghost before = out@;
                out.push(chars[i]);
                i += 1;
                assert(out@ + template_from(t, s, i as int) =~= before + (seq![s[i - 1]] + template_from(t, s, i as int)));
            },
        }
    }
    assert(template_from(t, s, chars.len() as int) =~= Seq::<char>::empty());
    assert(out@ + Seq::<char>::empty() =~= out@);
    out
}


// ---------------------------------------------------------------------------
// Quantifier-anchored scan
// ---------------------------------------------------------------------------

/// Single-character quantifiers. '两' is a numeral, not a quantifier, and
/// must stay out of this list.
pub const QUANTIFIERS_SINGLE: [char; 65] = ['年', '月', '日', '号', '点', '分', '秒', '天', '周', '块', '元', '角', '毛', '个', '只', '条', '根', '颗', '粒', '张', '把', '支', '双', '对', '副', '件', '部', '辆', '座', '层', '楼', '页', '段', '篇', '米', '斤', '克', '吨', '磅', '升', '度', '伏', '瓦', '次', '遍', '趟', '回', '场', '盘', '局', '名', '位', '排', '等', '级', '杯', '瓶', '罐', '盒', '包', '袋', '箱', '岁', '下', '举'];

/// Two-character quantifiers; they take precedence over single ones.
pub const QUANTIFIERS_MULTI: [&'static str; 19] = ["厘米", "毫米", "公里", "千米", "英里", "英尺", "英寸", "公斤", "千克", "毫克", "毫升", "加仑", "瓦特", "赫兹", "小时", "分钟", "钟头", "星期", "季度"];

pub open spec fn is_single_quantifier(c: char) -> bool {
    match c {
        '年' | '月' | '日' | '号' | '点' | '分' | '秒' | '天' | '周' | '块' | '元' | '角' | '毛' | '个' | '只' | '条' | '根' | '颗' | '粒' | '张' | '把' | '支' | '双' | '对' | '副' | '件' | '部' | '辆' | '座' | '层' | '楼' | '页' | '段' | '篇' | '米' | '斤' | '克' | '吨' | '磅' | '升' | '度' | '伏' | '瓦' | '次' | '遍' | '趟' | '回' | '场' | '盘' | '局' | '名' | '位' | '排' | '等' | '级' | '杯' | '瓶' | '罐' | '盒' | '包' | '袋' | '箱' | '岁' | '下' | '举' => true,
        _ => false,
    }
}

pub open spec fn is_multi_quantifier(a: char, b: char) -> bool {
    (a == '厘' && b == '米')
        || (a == '毫' && b == '米')
        || (a == '公' && b == '里')
        || (a == '千' && b == '米')
        || (a == '英' && b == '里')
        || (a == '英' && b == '尺')
        || (a == '英' && b == '寸')
        || (a == '公' && b == '斤')
        || (a == '千' && b == '克')
        || (a == '毫' && b == '克')
        || (a == '毫' && b == '升')
        || (a == '加' && b == '仑')
        || (a == '瓦' && b == '特')
        || (a == '赫' && b == '兹')
        || (a == '小' && b == '时')
        || (a == '分' && b == '钟')
        || (a == '钟' && b == '头')
        || (a == '星' && b == '期')
        || (a == '季' && b == '度')
}

/// Pseudo-quantifier pairs (numeral's last character, quantifier's first):
/// "一下", "一直", "一定" … are adverbs or set phrases, not counts.
pub open spec fn is_blacklisted(span_last: char, q_first: char) -> bool {
    span_last == '一' && match q_first {
        '下' | '直' | '定' | '律' | '边' | '概' | '向' | '旦' | '举' | '度' => true,
        _ => false,
    }
}

fn single_quantifier(c: char) -> (r: bool)
    ensures
        r == is_single_quantifier(c),
{
    match c {
        '年' | '月' | '日' | '号' | '点' | '分' | '秒' | '天' | '周' | '块' | '元' | '角' | '毛' | '个' | '只' | '条' | '根' | '颗' | '粒' | '张' | '把' | '支' | '双' | '对' | '副' | '件' | '部' | '辆' | '座' | '层' | '楼' | '页' | '段' | '篇' | '米' | '斤' | '克' | '吨' | '磅' | '升' | '度' | '伏' | '瓦' | '次' | '遍' | '趟' | '回' | '场' | '盘' | '局' | '名' | '位' | '排' | '等' | '级' | '杯' | '瓶' | '罐' | '盒' | '包' | '袋' | '箱' | '岁' | '下' | '举' => true,
        _ => false,
    }
}

fn multi_quantifier(a: char, b: char) -> (r: bool)
    ensures
        r == is_multi_quantifier(a, b),
{
    (a == '厘' && b == '米')
        || (a == '毫' && b == '米')
        || (a == '公' && b == '里')
        || (a == '千' && b == '米')
        || (a == '英' && b == '里')
        || (a == '英' && b == '尺')
        || (a == '英' && b == '寸')
        || (a == '公' && b == '斤')
        || (a == '千' && b == '克')
        || (a == '毫' && b == '克')
        || (a == '毫' && b == '升')
        || (a == '加' && b == '仑')
        || (a == '瓦' && b == '特')
        || (a == '赫' && b == '兹')
        || (a == '小' && b == '时')
        || (a == '分' && b == '钟')
        || (a == '钟' && b == '头')
        || (a == '星' && b == '期')
        || (a == '季' && b == '度')
}

fn blacklisted(span_last: char, q_first: char) -> (r: bool)
    ensures
        r == is_blacklisted(span_last, q_first),
{
    span_last == '一' && match q_first {
        '下' | '直' | '定' | '律' | '边' | '概' | '向' | '旦' | '举' | '度' => true,
        _ => false,
    }
}

/// Length of the quantifier that starts at `i`: two-character ones first.
pub open spec fn quantifier_len_at(s: Seq<char>, i: int) -> Option<int> {
    if 0 <= i && i + 1 < s.len() && is_multi_quantifier(s[i], s[i + 1]) {
        Some(2)
    } else if 0 <= i < s.len() && is_single_quantifier(s[i]) {
        Some(1)
    } else {
        None
    }
}

fn match_quantifier_at(chars: &Vec<char>, i: usize) -> (r: Option<usize>)
    requires
        i < chars.len(),
    ensures
        match quantifier_len_at(chars@, i as int) {
            Some(q) => r == Some(q as usize),
            None => r is None,
        },
{
    if i + 1 < chars.len() && multi_quantifier(chars[i], chars[i + 1]) {
        Some(2)
    } else if single_quantifier(chars[i]) {
        Some(1)
    } else {
        None
    }
}

/// Start of the run of numeral characters that ends at `i`.
pub open spec fn run_start(s: Seq<char>, i: int) -> int
    decreases i,
{
    if 0 < i <= s.len() && is_cn_digit(s[i - 1]) {
        run_start(s, i - 1)
    } else {
        i
    }
}

proof fn lemma_run_start(s: Seq<char>, i: int, bound: int)
    requires
        0 <= bound <= i <= s.len(),
        bound == 0 || !is_cn_digit(s[bound - 1]),
    ensures
        bound <= run_start(s, i) <= i,
        forall|k: int| run_start(s, i) <= k < i ==> is_cn_digit(#[trigger] s[k]),
    decreases i,
{
    if 0 < i && is_cn_digit(s[i - 1]) {
        lemma_run_start(s, i - 1, bound);
    }
}

fn find_run_start(chars: &Vec<char>, i: usize) -> (r: usize)
    requires
        i <= chars.len(),
    ensures
        r == run_start(chars@, i as int),
{
    let mut j = i;
    while j > 0 && is_cn_digit_char(chars[j - 1])
        invariant
            j <= i <= chars.len(),
            run_start(chars@, i as int) == run_start(chars@, j as int),
        decreases j,
    {
        j -= 1;
    }
    j
}

/// The scan, with the output `out` produced so far: at a quantifier
/// preceded by a run of numeral characters that is not a blacklisted pair
/// and parses, the run already copied out is replaced by its decimal value
/// and the quantifier is copied; every other character is copied as is.
pub open spec fn scan_from(s: Seq<char>, i: int, out: Seq<char>) -> Seq<char>
    decreases s.len() - i,
{
    if !(0 <= i < s.len()) {
        out
    } else {
        let j = run_start(s, i);
        match quantifier_len_at(s, i) {
            Some(q) => if 1 <= q && i + q <= s.len() && j < i && !is_blacklisted(s[i - 1], s[i])
                && parsed_numeral(s.subrange(j, i)) is Some {
                scan_from(
                    s,
                    i + q,
                    out.take(out.len() - (i - j)) + decimal(parsed_numeral(s.subrange(j, i))->0 as nat)
                        + s.subrange(i, i + q),
                )
            } else {
                scan_from(s, i + 1, out.push(s[i]))
            },
            None => scan_from(s, i + 1, out.push(s[i])),
        }
    }
}

pub open spec fn quantifier_scan_spec(s: Seq<char>) -> Seq<char> {
    scan_from(s, 0, Seq::empty())
}

/// No quantifier ends with a numeral character, so a numeral run never
/// reaches back into the text that a previous conversion produced.
proof fn lemma_quantifier_tail(s: Seq<char>, i: int)
    requires
        quantifier_len_at(s, i) is Some,
    ensures
        !is_cn_digit(s[i + quantifier_len_at(s, i)->0 - 1]),
{
}

pub fn quantifier_scan(chars: &Vec<char>) -> (out: Vec<char>)
    ensures
        out@ == quantifier_scan_spec(chars@),
{
    let ghost s = chars@;
    let mut out: Vec<char> = Vec::new();
    let mut i: usize = 0;
    let ghost mut last: int = 0;
    while i < chars.len()
        invariant
            i <= chars.len(),
            s == chars@,
            0 <= last <= i,
            last == 0 || !is_cn_digit(s[last - 1]),
            out@.len() >= i - last,
            out@.subrange(out@.len() - (i - last), out@.len() as int) == s.subrange(last, i as int),
            scan_from(s, i as int, out@) == scan_from(s, 0, Seq::empty()),
        decreases chars.len() - i,
    {
        if let Some(q) = match_quantifier_at(chars, i) {
            let j = find_run_start(chars, i);
            proof { lemma_run_start(s, i as int, last); }
            if j < i && !blacklisted(chars[i - 1], chars[i]) {
                if let Some(v) = parse_cn_numeral(chars, j, i) {
                    let ghost before = out@;
                    proof { lemma_quantifier_tail(s, i as int); }
                    out.truncate(out.len() - (i - j));
                    push_decimal(&mut out, v as u64);
                    push_range(&mut out, chars, i, i + q);
                    assert(out@ =~= before.take(before.len() - (i - j)) + decimal(v as nat) + s.subrange(i as int, i + q));
                    i = i + q;
                    proof {
                        last = i as int;
                        assert(out@.subrange(out@.len() - (i - last), out@.len() as int) =~= s.subrange(last, i as int));
                    }
                    continue;
                }
            }
        }
        let ghost before = out@;
        out.push(chars[i]);
        i += 1;
        proof {
            assert(out@.subrange(out@.len() - (i - last), out@.len() as int)
                =~= before.subrange(before.len() - (i - 1 - last), before.len() as int).push(s[i - 1]));
            assert(s.subrange(last, i as int) =~= s.subrange(last, i - 1).push(s[i - 1]));
        }
    }
    out
}

// ---------------------------------------------------------------------------
// The whole conversion
// ---------------------------------------------------------------------------

/// Version numbers, percentages, per-mille, fractions, negatives,
/// decimals, ordinals, then the quantifier scan.
pub open spec fn cn_numerals_converted(s: Seq<char>) -> Seq<char> {
    let v = apply_template_spec(Template::Version, s);
    let p = apply_template_spec(Template::Percent, v);
    let m = apply_template_spec(Template::Permille, p);
    let f = apply_template_spec(Template::Fraction, m);
    let n = apply_template_spec(Template::Negative, f);
    let d = apply_template_spec(Template::Decimal, n);
    quantifier_scan_spec(apply_template_spec(Template::Ordinal, d))
}

pub fn convert_cn_numerals_chars(chars: &Vec<char>) -> (r: Vec<char>)
    ensures
        r@ == cn_numerals_converted(chars@),
{
    let s = apply_template(Template::Version, chars);
    let s = apply_template(Template::Percent, &s);
    let s = apply_template(Template::Permille, &s);
    let s = apply_template(Template::Fraction, &s);
    let s = apply_template(Template::Negative, &s);
    let s = apply_template(Template::Decimal, &s);
    let s = apply_template(Template::Ordinal, &s);
    quantifier_scan(&s)
}

/// Converts Chinese numerals to Arabic digits where a template or a
/// quantifier anchors them: 三个 → 3个, 二点五 → 2.5, 零点零五 → 0.05,
/// 第三 → 第3, 负二十度 → -20度, 零点六点零 → 0.6.0, 百分之三十 → 30%,
/// 千分之五 → 5‰, 三分之一 → 1/3; bare numerals such as 二十 stay.
pub fn convert_cn_numerals(text: &str) -> (r: String)
    ensures
        r@ == cn_numerals_converted(text@),
{
    let chars = crate::unicode::to_chars(text);
    let out = convert_cn_numerals_chars(&chars);
    crate::unicode::from_chars(&out)
}

pub open spec fn has_no_cn_digit(s: Seq<char>) -> bool {
    forall|k: int| 0 <= k < s.len() ==> !is_cn_digit(#[trigger] s[k])
}

proof fn lemma_template_identity(t: Template, s: Seq<char>, i: int)
    requires
        0 <= i <= s.len(),
        has_no_cn_digit(s),
    ensures
        template_from(t, s, i) == s.subrange(i, s.len() as int),
    decreases s.len() - i,
{
    if i < s.len() {
        lemma_template_identity(t, s, i + 1);
        assert(template_match(t, s, i) is None) by {
            if i + 1 < s.len() {
                assert(!is_cn_digit(s[i + 1]));
            }
            if i + 3 < s.len() {
                assert(!is_cn_digit(s[i + 3]));
            }
        }
        assert(s.subrange(i, s.len() as int) =~= seq![s[i]] + s.subrange(i + 1, s.len() as int));
    } else {
        assert(s.subrange(i, s.len() as int) =~= Seq::<char>::empty());
    }
}

proof fn lemma_scan_identity(s: Seq<char>, i: int, out: Seq<char>)
    requires
        0 <= i <= s.len(),
        has_no_cn_digit(s),
    ensures
        scan_from(s, i, out) == out + s.subrange(i, s.len() as int),
    decreases s.len() - i,
{
    if i < s.len() {
        lemma_scan_identity(s, i + 1, out.push(s[i]));
        assert(run_start(s, i) == i) by {
            if i > 0 {
                assert(!is_cn_digit(s[i - 1]));
            }
        }
        assert(out.push(s[i]) + s.subrange(i + 1, s.len() as int) =~= out + s.subrange(i, s.len() as int));
    } else {
        assert(out + s.subrange(i, s.len() as int) =~= out);
    }
}

/// Text without any Chinese numeral character passes through unchanged.
pub proof fn law_convert_passthrough(s: Seq<char>)
    requires
        has_no_cn_digit(s),
    ensures
        cn_numerals_converted(s) == s,
{
    lemma_template_identity(Template::Version, s, 0);
    assert(s.subrange(0, s.len() as int) =~= s);
    lemma_template_identity(Template::Percent, s, 0);
    lemma_template_identity(Template::Permille, s, 0);
    lemma_template_identity(Template::Fraction, s, 0);
    lemma_template_identity(Template::Negative, s, 0);
    lemma_template_identity(Template::Decimal, s, 0);
    lemma_template_identity(Template::Ordinal, s, 0);
    lemma_scan_identity(s, 0, Seq::empty());
    assert(Seq::<char>::empty() + s =~= s);
}

/// No single-character quantifier is a numeral character, and no quantifier
/// ends in one.
pub proof fn law_quantifiers_are_not_numerals(a: char, b: char)
    ensures
        is_single_quantifier(a) ==> !is_cn_digit(a),
        is_multi_quantifier(a, b) ==> !is_cn_digit(b),
{
}

/// The character set `CN_DIGIT_CHARS` is exactly the numeral characters.
pub proof fn law_digit_chars_table(c: char)
    ensures
        CN_DIGIT_CHARS@.contains(c) <==> is_cn_digit(c),
{
    reveal_strlit("〇零一二三四五六七八九两十百千万亿");
    if is_cn_digit(c) {
        let k: int = if c == '〇' { 0 } else if c == '零' { 1 } else if c == '一' { 2 }
            else if c == '二' { 3 } else if c == '三' { 4 } else if c == '四' { 5 }
            else if c == '五' { 6 } else if c == '六' { 7 } else if c == '七' { 8 }
            else if c == '八' { 9 } else if c == '九' { 10 } else if c == '两' { 11 }
            else if c == '十' { 12 } else if c == '百' { 13 } else if c == '千' { 14 }
            else if c == '万' { 15 } else { 16 };
        assert(CN_DIGIT_CHARS@[k] == c);
    }
}

/// The regular-expression class `CN_DIGIT_CLASS` lists exactly the
/// characters of `CN_DIGIT_CHARS`: `[`, those characters, `]+`.
pub proof fn law_digit_class_wraps_digit_chars()
    ensures
        CN_DIGIT_CLASS@ == seq!['['] + CN_DIGIT_CHARS@ + seq![']', '+'],
{
    reveal_strlit("〇零一二三四五六七八九两十百千万亿");
    reveal_strlit("[〇零一二三四五六七八九两十百千万亿]+");
    assert(CN_DIGIT_CLASS@ =~= seq!['['] + CN_DIGIT_CHARS@ + seq![']', '+']);
}

/// Every entry of `QUANTIFIERS_SINGLE` is a single-character quantifier.
pub proof fn law_single_quantifier_table(k: int)
    requires
        0 <= k < 65,
    ensures
        is_single_quantifier(QUANTIFIERS_SINGLE@[k]),
        !is_cn_digit(QUANTIFIERS_SINGLE@[k]),
{
}

} // verus!
