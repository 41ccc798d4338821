//! Reading a percentage from a subprocess's output line and mapping it into
//! the transcription stage's share of a job's progress.

use vstd::prelude::*;
use crate::job::{JobUpdate, PROGRESS_FULL};
use crate::text::{char_is_white, chars_of, is_white, lead_from};

verus! {

/// Percentages are kept in hundredths: `PERCENT_FULL` stands for 100%.
pub const PERCENT_FULL: u32 = 10000;

/// The index of the first white-space character at or after `i`.
pub open spec fn word_end(s: Seq<char>, i: int) -> int
    decreases s.len() - i,
{
    if 0 <= i < s.len() && !is_white(s[i]) {
        word_end(s, i + 1)
    } else {
        i
    }
}

/// The white-space separated words of `s[i..]`, in order.
pub open spec fn words_from(s: Seq<char>, i: int) -> Seq<Seq<char>>
    decreases s.len() - i,
{
    let a = lead_from(s, i);
    let b = word_end(s, a);
    if 0 <= i <= a && a < b <= s.len() {
        seq![s.subrange(a, b)] + words_from(s, b)
    } else {
        Seq::empty()
    }
}

/// The numeric value of a digit character.
pub open spec fn digit_of(c: char) -> nat {
    (c as u32 - '0' as u32) as nat
}

/// Whether `c` is an ASCII digit.
pub open spec fn is_digit(c: char) -> bool {
    '0' <= c <= '9'
}

/// Every character of `s` is a digit.
pub open spec fn all_digits(s: Seq<char>) -> bool {
    forall|i: int| 0 <= i < s.len() ==> is_digit(#[trigger] s[i])
}

/// The value of a string of decimal digits.
pub open spec fn digits_value(s: Seq<char>) -> nat
    decreases s.len(),
{
    if s.len() == 0 {
        0
    } else {
        digits_value(s.drop_last()) * 10 + digit_of(s.last())
    }
}

/// The first two fraction digits, as hundredths.
pub open spec fn hundredths_of_fraction(f: Seq<char>) -> nat {
    if f.len() == 0 {
        0
    } else if f.len() == 1 {
        digit_of(f[0]) * 10
    } else {
        digit_of(f[0]) * 10 + digit_of(f[1])
    }
}

/// The position of the first '.' in `s` at or after `i`, or its length.
pub open spec fn dot_from(s: Seq<char>, i: int) -> int
    decreases s.len() - i,
{
    if 0 <= i < s.len() && s[i] != '.' {
        dot_from(s, i + 1)
    } else {
        i
    }
}

/// A decimal number without sign: digits, optionally a '.' and more digits,
/// with at least one digit in all.
pub open spec fn is_plain_decimal(s: Seq<char>) -> bool {
    let d = dot_from(s, 0);
    let int_part = s.subrange(0, d);
    let frac_part = if d < s.len() {
        s.subrange(d + 1, s.len() as int)
    } else {
        Seq::empty()
    };
    all_digits(int_part) && all_digits(frac_part) && int_part.len() + frac_part.len() > 0
}

/// The value of a plain decimal in hundredths, clamped to `0 ..= 100%`.
pub open spec fn plain_decimal_percent(s: Seq<char>) -> nat {
    let d = dot_from(s, 0);
    let frac_part = if d < s.len() {
        s.subrange(d + 1, s.len() as int)
    } else {
        Seq::empty()
    };
    let v = digits_value(s.subrange(0, d)) * 100 + hundredths_of_fraction(frac_part);
    if v > PERCENT_FULL {
        PERCENT_FULL as nat
    } else {
        v
    }
}

/// The percentage, in hundredths and clamped to `0 ..= 100%`, that a word
/// such as `42%` or `12.5%` states; `None` for any other word. A negative
/// number clamps to zero.
pub open spec fn word_percent(w: Seq<char>) -> Option<nat> {
    if w.len() >= 2 && w.last() == '%' {
        let n = w.drop_last();
        if (n[0] == '+' || n[0] == '-') && is_plain_decimal(n.drop_first()) {
            if n[0] == '-' {
                Some(0)
            } else {
                Some(plain_decimal_percent(n.drop_first()))
            }
        } else if is_plain_decimal(n) {
            Some(plain_decimal_percent(n))
        } else {
            None
        }
    } else {
        None
    }
}

/// The percentage stated by the first word of `ws` that states one.
pub open spec fn first_percent(ws: Seq<Seq<char>>) -> Option<nat>
    decreases ws.len(),
{
    if ws.len() == 0 {
        None
    } else {
        match word_percent(ws[0]) {
            Some(p) => Some(p),
            None => first_percent(ws.drop_first()),
        }
    }
}

/// The characters `v[a..b]`.
pub fn slice_chars(v: &Vec<char>, a: usize, b: usize) -> (r: Vec<char>)
    requires
        a <= b <= v@.len(),
    ensures
        r@ == v@.subrange(a as int, b as int),
{
    let mut out: Vec<char> = Vec::new();
    let mut k = a;
    while k < b
        invariant
            a <= k <= b <= v@.len(),
            out@ == v@.subrange(a as int, k as int),
        decreases b - k,
    {
        out.push(v[k]);
        k = k + 1;
        assert(out@ =~= v@.subrange(a as int, k as int));
    }
    out
}

proof fn lemma_digits_step(p: Seq<char>, c: char)
    requires
        is_digit(c),
    ensures
        digits_value(p.push(c)) == digits_value(p) * 10 + digit_of(c),
        min_nat(digits_value(p.push(c)), 101) == min_nat(min_nat(digits_value(p), 101) * 10 + digit_of(c), 101),
{
    assert(p.push(c).drop_last() =~= p);
    let v = digits_value(p);
    if v >= 101 {
        assert(v * 10 >= 1010) by (nonlinear_arith)
            requires
                v >= 101,
        ;
    }
}

/// The smaller of two naturals.
pub open spec fn min_nat(a: nat, b: nat) -> nat {
    if a <= b {
        a
    } else {
        b
    }
}

/// A plain decimal's percentage (see `plain_decimal_percent`), or `None`
/// when `n` is not a plain decimal.
fn plain_percent(n: &Vec<char>) -> (r: Option<u32>)
    ensures
        match r {
            Some(v) => is_plain_decimal(n@) && v == plain_decimal_percent(n@) && v <= PERCENT_FULL,
            None => !is_plain_decimal(n@),
        },
{
    let mut d: usize = 0;
    while d < n.len() && n[d] != '.'
        invariant
            d <= n@.len(),
            dot_from(n@, d as int) == dot_from(n@, 0),
        decreases n@.len() - d,
    {
        d = d + 1;
    }
    let ghost int_part = n@.subrange(0, d as int);
    let mut acc: u32 = 0;
    let mut i: usize = 0;
    while i < d
        invariant
            i <= d <= n@.len(),
            d == dot_from(n@, 0),
            int_part == n@.subrange(0, d as int),
            all_digits(n@.subrange(0, i as int)),
            acc == min_nat(digits_value(n@.subrange(0, i as int)), 101),
        decreases d - i,
    {
        let c = n[i];
        if !('0' <= c && c <= '9') {
            assert(int_part[i as int] == c);
            return None;
        }
        proof {
            lemma_digits_step(n@.subrange(0, i as int), c);
            assert(n@.subrange(0, i as int).push(c) =~= n@.subrange(0, i + 1));
        }
        let dv = (c as u32) - ('0' as u32);
        if acc >= 101 {
            acc = 101;
        } else {
            acc = acc * 10 + dv;
            if acc > 101 {
                acc = 101;
            }
        }
        i = i + 1;
    }
    let mut frac: u32 = 0;
    let mut count: usize = 0;
    if d < n.len() {
        let ghost frac_part = n@.subrange(d + 1, n@.len() as int);
        let mut j: usize = d + 1;
        while j < n.len()
            invariant
                d < j <= n@.len(),
                d == dot_from(n@, 0),
                frac_part == n@.subrange(d + 1, n@.len() as int),
                all_digits(n@.subrange(d + 1, j as int)),
            decreases n@.len() - j,
        {
            let c = n[j];
            if !('0' <= c && c <= '9') {
                assert(frac_part[j - d - 1] == c);
                assert(!all_digits(frac_part));
                assert(!is_plain_decimal(n@));
                return None;
            }
            assert(n@.subrange(d + 1, j + 1)[j - d - 1] == c);
            j = j + 1;
        }
        assert(all_digits(frac_part));
        count = n.len() - d - 1;
        if count >= 1 {
            assert(is_digit(frac_part[0]));
            frac = ((n[d + 1] as u32) - ('0' as u32)) * 10;
        }
        if count >= 2 {
            assert(is_digit(frac_part[1]));
            frac = frac + ((n[d + 2] as u32) - ('0' as u32));
        }
    }
    let ghost frac_seq = if d < n@.len() {
        n@.subrange(d + 1, n@.len() as int)
    } else {
        Seq::<char>::empty()
    };
    assert(all_digits(int_part)) by {
        assert(n@.subrange(0, i as int) =~= int_part);
    }
    if d == 0 && count == 0 {
        assert(frac_seq.len() == 0);
        return None;
    }
    assert(frac == hundredths_of_fraction(frac_seq));
    assert(acc == min_nat(digits_value(int_part), 101)) by {
        assert(n@.subrange(0, i as int) =~= int_part);
    }
    let v: u32 = acc * 100 + frac;
    if v > PERCENT_FULL {
        Some(PERCENT_FULL)
    } else {
        Some(v)
    }
}

/// The percentage a word such as `42%` states, as in `word_percent`.
pub fn percent_of_word(w: &Vec<char>) -> (r: Option<u32>)
    ensures
        match r {
            Some(v) => word_percent(w@) == Some(v as nat) && v <= PERCENT_FULL,
            None => word_percent(w@) is None,
        },
{
    if w.len() < 2 || w[w.len() - 1] != '%' {
        return None;
    }
    let n = slice_chars(w, 0, w.len() - 1);
    assert(n@ =~= w@.drop_last());
    if n[0] == '+' || n[0] == '-' {
        let body = slice_chars(&n, 1, n.len());
        assert(body@ =~= n@.drop_first());
        match plain_percent(&body) {
            Some(v) => {
                if n[0] == '-' {
                    return Some(0);
                } else {
                    return Some(v);
                }
            },
            None => {
                return plain_percent(&n);
            },
        }
    }
    plain_percent(&n)
}

/// The progress, in millionths, that a transcription percentage maps to:
/// 0% is 0.30 and 100% is 0.90.
pub open spec fn transcribe_progress(hundredths: nat) -> nat {
    300000 + 60 * hundredths
}

/// The percentage, in hundredths, stated by the first word of `line` of the
/// form `NN%` (see `word_percent`), if any.
pub fn parse_progress_from_line(line: &str) -> (r: Option<u32>)
    ensures
        match r {
            Some(v) => first_percent(words_from(line@, 0)) == Some(v as nat) && v <= PERCENT_FULL,
            None => first_percent(words_from(line@, 0)) is None,
        },
{
    let s = chars_of(line);
    let mut i: usize = 0;
    while i < s.len()
        invariant
            i <= s@.len(),
            s@ == line@,
            first_percent(words_from(s@, i as int)) == first_percent(words_from(s@, 0)),
        decreases s@.len() - i,
    {
        let mut a = i;
        while a < s.len() && char_is_white(s[a])
            invariant
                i <= a <= s@.len(),
                lead_from(s@, a as int) == lead_from(s@, i as int),
            decreases s@.len() - a,
        {
            a = a + 1;
        }
        if a == s.len() {
            return None;
        }
        let mut b = a;
        while b < s.len() && !char_is_white(s[b])
            invariant
                a <= b <= s@.len(),
                word_end(s@, b as int) == word_end(s@, a as int),
            decreases s@.len() - b,
        {
            b = b + 1;
        }
        let w = slice_chars(&s, a, b);
        proof {
            let rest = words_from(s@, b as int);
            assert(words_from(s@, i as int) == seq![w@] + rest);
            assert((seq![w@] + rest).drop_first() =~= rest);
        }
        match percent_of_word(&w) {
            Some(v) => {
                return Some(v);
            },
            None => {},
        }
        i = b;
    }
    None
}

/// The progress, in millionths, for a transcription percentage in hundredths.
pub fn transcribe_progress_of(hundredths: u32) -> (r: u32)
    requires
        hundredths <= PERCENT_FULL,
    ensures
        r == transcribe_progress(hundredths as nat),
        r <= PROGRESS_FULL,
{
    300000 + 60 * hundredths
}

/// The job updates for one line the speech engine printed on its standard
/// output: a progress update when the line states a percentage, then the
/// line itself for the log.
pub fn updates_for_stdout_line(line: &str) -> (r: Vec<JobUpdate>)
    ensures
        match first_percent(words_from(line@, 0)) {
            Some(h) => r@.len() == 2 && r@[0] == (JobUpdate::Transcribing {
                progress: transcribe_progress(h) as u32,
            }),
            None => r@.len() == 1,
        },
        r@.last() matches JobUpdate::Log { line: l } && l@ == line@,
        forall|k: int| 0 <= k < r@.len() ==> (#[trigger] r@[k]).wf(),
{
    let mut out: Vec<JobUpdate> = Vec::new();
    match parse_progress_from_line(line) {
        Some(h) => {
            out.push(JobUpdate::Transcribing { progress: transcribe_progress_of(h) });
        },
        None => {},
    }
    out.push(JobUpdate::Log { line: line.to_owned() });
    out
}

} // verus!
