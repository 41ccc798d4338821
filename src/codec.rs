//! The job index document `{ "jobs": [Job, ...] }`: encoding a store into
//! the JSON model and decoding it back.

use vstd::prelude::*;
use crate::job::{
    lines_view, opt_view, most_recent, Job, JobStatus, JobView, Stage,
    SummaryStatus, LOG_CAPACITY, PROGRESS_FULL,
};
use crate::json::{json_of_text, json_text, json_text_of, parse_json, Json};
use crate::store::{ids_unique, views_of, JobIndex};
use crate::progress::{all_digits, digit_of, digits_value, dot_from, is_digit};
use crate::release::{decimal_of, decimal_string, digit_char};
use crate::segments::{decimal_of_text, parse_decimal, pow10, Seconds};
use crate::text::str_eq;

verus! {

/// `digits_value` of a concatenation.
pub proof fn lemma_digits_concat(s: Seq<char>, t: Seq<char>)
    ensures
        digits_value(s + t) == digits_value(s) * pow10(t.len()) + digits_value(t),
    decreases t.len(),
{
    if t.len() == 0 {
        assert(s + t =~= s);
        assert(pow10(0) == 1);
        assert(digits_value(s) * 1 == digits_value(s));
    } else {
        lemma_digits_concat(s, t.drop_last());
        assert((s + t).drop_last() =~= s + t.drop_last());
        assert((s + t).last() == t.last());
        let a = digits_value(s);
        let b = pow10((t.len() - 1) as nat);
        let c = digits_value(t.drop_last());
        let d = digit_of(t.last());
        assert(digits_value(s + t.drop_last()) == a * b + c);
        assert(digits_value(s + t) == digits_value(s + t.drop_last()) * 10 + d);
        assert(digits_value(t) == c * 10 + d);
        assert((a * b + c) * 10 == a * (b * 10) + c * 10) by (nonlinear_arith);
        assert(pow10(t.len()) == 10 * b);
        assert(a * (b * 10) == a * (10 * b));
    }
}

proof fn lemma_digit_char(d: nat)
    requires
        d < 10,
    ensures
        is_digit(digit_char(d)),
        digit_of(digit_char(d)) == d,
{
}

/// The decimal text of `n` reads back as `n`.
pub proof fn lemma_decimal_reads_back(n: nat)
    ensures
        all_digits(decimal_of(n)),
        digits_value(decimal_of(n)) == n,
        decimal_of(n).len() >= 1,
    decreases n,
{
    lemma_digit_char(n % 10);
    if n < 10 {
        assert(decimal_of(n).drop_last() =~= Seq::<char>::empty());
        assert(digits_value(Seq::<char>::empty()) == 0);
        assert(n % 10 == n);
    } else {
        lemma_decimal_reads_back(n / 10);
        let s = decimal_of(n / 10);
        assert(decimal_of(n).drop_last() =~= s);
        assert forall|i: int| 0 <= i < decimal_of(n).len() implies is_digit(
            #[trigger] decimal_of(n)[i],
        ) by {
            if i < s.len() {
                assert(decimal_of(n)[i] == s[i]);
            }
        }
    }
}

/// Six digits: `r` zero-padded, for `r < 10^6`.
pub open spec fn six_digits(r: nat) -> Seq<char> {
    decimal_of(r + 1000000).drop_first()
}

proof fn lemma_six_digits(r: nat)
    requires
        r < 1000000,
    ensures
        six_digits(r).len() == 6,
        all_digits(six_digits(r)),
        digits_value(six_digits(r)) == r,
{
    let m = r + 1000000;
    reveal_with_fuel(decimal_of, 8);
    lemma_decimal_reads_back(m);
    let s = decimal_of(m);
    assert(m / 1000000 == 1);
    assert(s.len() == 7);
    assert(s[0] == '1');
    assert(s =~= seq!['1'] + s.drop_first());
    lemma_digits_concat(seq!['1'], s.drop_first());
    assert(seq!['1'].drop_last() =~= Seq::<char>::empty());
    assert(digits_value(seq!['1']) == 1) by {
        assert(digits_value(Seq::<char>::empty()) == 0);
    }
    assert(pow10(6) == 1000000) by {
        reveal_with_fuel(pow10, 7);
    }
    assert(s.drop_first().len() == 6);
    assert(digits_value(seq!['1'] + s.drop_first()) == digits_value(seq!['1']) * pow10(6)
        + digits_value(s.drop_first()));
    assert(digits_value(s) == digits_value(seq!['1'] + s.drop_first()));
    assert(digits_value(s) == 1000000 + digits_value(s.drop_first()));
    assert forall|i: int| 0 <= i < 6 implies is_digit(#[trigger] six_digits(r)[i]) by {
        assert(six_digits(r)[i] == s[i + 1]);
    }
}

/// The text progress is stored as: its fraction of 1 with six decimals.
pub open spec fn progress_text(p: nat) -> Seq<char> {
    decimal_of(p / 1000000) + seq!['.'] + six_digits(p % 1000000)
}

proof fn lemma_no_dot(s: Seq<char>, i: int)
    requires
        all_digits(s),
        0 <= i <= s.len(),
    ensures
        dot_from(s + seq!['.'], i) == s.len(),
    decreases s.len() - i,
{
    if i < s.len() {
        assert((s + seq!['.'])[i] == s[i]);
        lemma_no_dot(s, i + 1);
    }
}

/// Stored progress text reads back exactly, with six decimals.
pub proof fn lemma_progress_text(p: nat)
    requires
        p <= PROGRESS_FULL,
    ensures
        decimal_of_text(progress_text(p)) == Some(Seconds { units: p as i64, scale: 6 }),
{
    let q = p / 1000000;
    let r = p % 1000000;
    lemma_decimal_reads_back(q);
    lemma_six_digits(r);
    let a = decimal_of(q);
    let f = six_digits(r);
    let t = progress_text(p);
    assert(t =~= (a + seq!['.']) + f);
    lemma_no_dot(a, 0);
    assert(dot_from(a + seq!['.'], 0) == a.len());
    lemma_dot_prefix(a + seq!['.'], f, 0);
    assert(t.subrange(0, a.len() as int) =~= a);
    assert(t.subrange(a.len() as int + 1, t.len() as int) =~= f);
    lemma_digits_concat(a, f);
    assert(pow10(6) == 1000000) by {
        reveal_with_fuel(pow10, 7);
    }
    assert(t.len() > 0 && t[0] != '-') by {
        assert(t[0] == a[0]);
    }
    assert forall|k: int| 0 <= k < t.len() implies t[k] != 'e' && t[k] != 'E' by {
        if k < a.len() {
            assert(t[k] == a[k]);
            assert(is_digit(a[k]));
        } else if k > a.len() {
            assert(t[k] == f[k - a.len() - 1]);
            assert(is_digit(f[k - a.len() - 1]));
        }
    }
    lemma_no_exp(t, 0);
    assert(t.subrange(0, t.len() as int) =~= t);
    assert(crate::segments::mantissa_of(t) == Some((p, 6nat)));
}

proof fn lemma_no_exp(t: Seq<char>, i: int)
    requires
        0 <= i <= t.len(),
        forall|k: int| 0 <= k < t.len() ==> t[k] != 'e' && t[k] != 'E',
    ensures
        crate::segments::exp_from(t, i) == t.len(),
    decreases t.len() - i,
{
    if i < t.len() {
        lemma_no_exp(t, i + 1);
    }
}

proof fn lemma_dot_prefix(s: Seq<char>, f: Seq<char>, i: int)
    requires
        0 <= i <= s.len(),
        dot_from(s, i) < s.len(),
    ensures
        dot_from(s + f, i) == dot_from(s, i),
    decreases s.len() - i,
{
    if i < s.len() {
        assert((s + f)[i] == s[i]);
        if s[i] != '.' {
            lemma_dot_prefix(s, f, i + 1);
        }
    }
}

/// Progress, in millionths, from a stored fraction: truncated to six
/// decimals and clamped to `0 ..= 1`.
pub open spec fn progress_of(s: Seconds) -> u32 {
    let v: int = if s.units <= 0 {
        0
    } else if s.scale <= 6 {
        (s.units as int) * pow10((6 - s.scale) as nat)
    } else {
        (s.units as int) / (pow10((s.scale - 6) as nat) as int)
    };
    if v > PROGRESS_FULL {
        PROGRESS_FULL
    } else if v < 0 {
        0
    } else {
        v as u32
    }
}

/// The name a status is stored under.
pub open spec fn status_name(s: JobStatus) -> Seq<char> {
    match s {
        JobStatus::Queued => "queued"@,
        JobStatus::Running => "running"@,
        JobStatus::Done => "done"@,
        JobStatus::Error => "error"@,
        JobStatus::Cancelled => "cancelled"@,
    }
}

/// The status a stored name stands for; an unknown name reads as an error.
pub open spec fn status_of_name(n: Seq<char>) -> JobStatus {
    if n == "queued"@ {
        JobStatus::Queued
    } else if n == "running"@ {
        JobStatus::Running
    } else if n == "done"@ {
        JobStatus::Done
    } else if n == "cancelled"@ {
        JobStatus::Cancelled
    } else {
        JobStatus::Error
    }
}

/// The name a stage is stored under.
pub open spec fn stage_name(s: Stage) -> Seq<char> {
    match s {
        Stage::Import => "import"@,
        Stage::Convert => "convert"@,
        Stage::Transcribe => "transcribe"@,
        Stage::Done => "done"@,
        Stage::Error => "error"@,
        Stage::Cancelled => "cancelled"@,
    }
}

/// The stage a stored name stands for; an unknown name reads as an error.
pub open spec fn stage_of_name(n: Seq<char>) -> Stage {
    if n == "import"@ {
        Stage::Import
    } else if n == "convert"@ {
        Stage::Convert
    } else if n == "transcribe"@ {
        Stage::Transcribe
    } else if n == "done"@ {
        Stage::Done
    } else if n == "cancelled"@ {
        Stage::Cancelled
    } else {
        Stage::Error
    }
}

/// The name a summary state is stored under.
pub open spec fn summary_name(s: SummaryStatus) -> Seq<char> {
    match s {
        SummaryStatus::NotStarted => "not_started"@,
        SummaryStatus::Running => "running"@,
        SummaryStatus::Done => "done"@,
        SummaryStatus::Error => "error"@,
        SummaryStatus::Skipped => "skipped"@,
    }
}

/// The summary state a stored name stands for; none for an unknown name.
pub open spec fn summary_of_name(n: Seq<char>) -> Option<SummaryStatus> {
    if n == "not_started"@ {
        Some(SummaryStatus::NotStarted)
    } else if n == "running"@ {
        Some(SummaryStatus::Running)
    } else if n == "done"@ {
        Some(SummaryStatus::Done)
    } else if n == "error"@ {
        Some(SummaryStatus::Error)
    } else if n == "skipped"@ {
        Some(SummaryStatus::Skipped)
    } else {
        None
    }
}

proof fn lemma_names_read_back(a: JobStatus, b: Stage, c: SummaryStatus)
    ensures
        status_of_name(status_name(a)) == a,
        stage_of_name(stage_name(b)) == b,
        summary_of_name(summary_name(c)) == Some(c),
{
    reveal_strlit("queued");
    reveal_strlit("running");
    reveal_strlit("done");
    reveal_strlit("error");
    reveal_strlit("cancelled");
    reveal_strlit("import");
    reveal_strlit("convert");
    reveal_strlit("transcribe");
    reveal_strlit("not_started");
    reveal_strlit("skipped");
    match a {
        JobStatus::Queued => {

        },
        JobStatus::Running => {
            assert("running"@.len() != "queued"@.len());
        },
        JobStatus::Done => {
            assert("done"@.len() != "queued"@.len());
            assert("done"@.len() != "running"@.len());
        },
        JobStatus::Error => {
            assert("error"@.len() != "queued"@.len());
            assert("error"@.len() != "running"@.len());
            assert("error"@.len() != "done"@.len());
            assert("error"@.len() != "cancelled"@.len());
        },
        JobStatus::Cancelled => {
            assert("cancelled"@.len() != "queued"@.len());
            assert("cancelled"@.len() != "running"@.len());
            assert("cancelled"@.len() != "done"@.len());
        },
    }
    match b {
        Stage::Import => {

        },
        Stage::Convert => {
            assert("convert"@.len() != "import"@.len());
        },
        Stage::Transcribe => {
            assert("transcribe"@.len() != "import"@.len());
            assert("transcribe"@.len() != "convert"@.len());
        },
        Stage::Done => {
            assert("done"@.len() != "import"@.len());
            assert("done"@.len() != "convert"@.len());
            assert("done"@.len() != "transcribe"@.len());
        },
        Stage::Error => {
            assert("error"@.len() != "import"@.len());
            assert("error"@.len() != "convert"@.len());
            assert("error"@.len() != "transcribe"@.len());
            assert("error"@.len() != "done"@.len());
            assert("error"@.len() != "cancelled"@.len());
        },
        Stage::Cancelled => {
            assert("cancelled"@.len() != "import"@.len());
            assert("cancelled"@.len() != "convert"@.len());
            assert("cancelled"@.len() != "transcribe"@.len());
            assert("cancelled"@.len() != "done"@.len());
        },
    }
    match c {
        SummaryStatus::NotStarted => {

        },
        SummaryStatus::Running => {
            assert("running"@.len() != "not_started"@.len());
        },
        SummaryStatus::Done => {
            assert("done"@.len() != "not_started"@.len());
            assert("done"@.len() != "running"@.len());
        },
        SummaryStatus::Error => {
            assert("error"@.len() != "not_started"@.len());
            assert("error"@.len() != "running"@.len());
            assert("error"@.len() != "done"@.len());
        },
        SummaryStatus::Skipped => {
            assert("skipped"@.len() != "not_started"@.len());
            assert("skipped"@[0] != "running"@[0]);
            assert("skipped"@.len() != "done"@.len());
            assert("skipped"@.len() != "error"@.len());
        },
    }
}

fn status_text(s: JobStatus) -> (r: &'static str)
    ensures
        r@ == status_name(s),
{
    match s {
        JobStatus::Queued => "queued",
        JobStatus::Running => "running",
        JobStatus::Done => "done",
        JobStatus::Error => "error",
        JobStatus::Cancelled => "cancelled",
    }
}

fn status_from(n: &str) -> (r: JobStatus)
    ensures
        r == status_of_name(n@),
{
    if str_eq(n, "queued") {
        JobStatus::Queued
    } else if str_eq(n, "running") {
        JobStatus::Running
    } else if str_eq(n, "done") {
        JobStatus::Done
    } else if str_eq(n, "cancelled") {
        JobStatus::Cancelled
    } else {
        JobStatus::Error
    }
}

fn stage_text(s: Stage) -> (r: &'static str)
    ensures
        r@ == stage_name(s),
{
    match s {
        Stage::Import => "import",
        Stage::Convert => "convert",
        Stage::Transcribe => "transcribe",
        Stage::Done => "done",
        Stage::Error => "error",
        Stage::Cancelled => "cancelled",
    }
}

fn stage_from(n: &str) -> (r: Stage)
    ensures
        r == stage_of_name(n@),
{
    if str_eq(n, "import") {
        Stage::Import
    } else if str_eq(n, "convert") {
        Stage::Convert
    } else if str_eq(n, "transcribe") {
        Stage::Transcribe
    } else if str_eq(n, "done") {
        Stage::Done
    } else if str_eq(n, "cancelled") {
        Stage::Cancelled
    } else {
        Stage::Error
    }
}

fn summary_text(s: SummaryStatus) -> (r: &'static str)
    ensures
        r@ == summary_name(s),
{
    match s {
        SummaryStatus::NotStarted => "not_started",
        SummaryStatus::Running => "running",
        SummaryStatus::Done => "done",
        SummaryStatus::Error => "error",
        SummaryStatus::Skipped => "skipped",
    }
}

fn summary_from(n: &str) -> (r: Option<SummaryStatus>)
    ensures
        r == summary_of_name(n@),
{
    if str_eq(n, "not_started") {
        Some(SummaryStatus::NotStarted)
    } else if str_eq(n, "running") {
        Some(SummaryStatus::Running)
    } else if str_eq(n, "done") {
        Some(SummaryStatus::Done)
    } else if str_eq(n, "error") {
        Some(SummaryStatus::Error)
    } else if str_eq(n, "skipped") {
        Some(SummaryStatus::Skipped)
    } else {
        None
    }
}

/// A borrowed optional document as a value.
pub open spec fn opt_json(o: Option<&Json>) -> Option<Json> {
    match o {
        Some(j) => Some(*j),
        None => None,
    }
}

/// Member `key` of an object, looked for first at position `k`.
pub open spec fn field(doc: Json, k: int, key: Seq<char>) -> Option<Json> {
    match doc {
        Json::Obj(e) => if 0 <= k < e@.len() && e@[k].0@ == key {
            Some(e@[k].1)
        } else {
            doc.member(key)
        },
        _ => None,
    }
}

fn field_at<'a>(doc: &'a Json, k: usize, key: &str) -> (r: Option<&'a Json>)
    ensures
        opt_json(r) == field(*doc, k as int, key@),
{
    match doc {
        Json::Obj(e) => {
            if k < e.len() && str_eq(e[k].0.as_str(), key) {
                Some(&e[k].1)
            } else {
                doc.get(key)
            }
        },
        _ => None,
    }
}

/// A required string.
pub open spec fn as_text(o: Option<Json>) -> Option<Seq<char>> {
    match o {
        Some(Json::Str(s)) => Some(s@),
        _ => None,
    }
}

fn text_of(o: Option<&Json>) -> (r: Option<String>)
    ensures
        opt_view(r) == as_text(opt_json(o)),
{
    match o {
        Some(Json::Str(s)) => Some(s.clone()),
        _ => None,
    }
}

/// An optional string: a string, or null or absent for none.
pub open spec fn as_opt_text(o: Option<Json>) -> Option<Option<Seq<char>>> {
    match o {
        Some(Json::Str(s)) => Some(Some(s@)),
        Some(Json::Null) => Some(None),
        None => Some(None),
        _ => None,
    }
}

fn opt_text_of(o: Option<&Json>) -> (r: Option<Option<String>>)
    ensures
        match as_opt_text(opt_json(o)) {
            Some(v) => r matches Some(x) && opt_view(x) == v,
            None => r is None,
        },
{
    match o {
        Some(Json::Str(s)) => Some(Some(s.clone())),
        Some(Json::Null) => Some(None),
        None => Some(None),
        _ => None,
    }
}

/// A flag.
pub open spec fn as_flag(o: Option<Json>) -> Option<bool> {
    match o {
        Some(Json::Bool(b)) => Some(b),
        _ => None,
    }
}

/// Progress stored as a number; a number in another notation reads as zero.
pub open spec fn as_progress(o: Option<Json>) -> Option<u32> {
    match o {
        Some(Json::Num(t)) => Some(
            match decimal_of_text(t@) {
                Some(x) => progress_of(x),
                None => 0,
            },
        ),
        _ => None,
    }
}

proof fn lemma_pow10_positive(n: nat)
    ensures
        pow10(n) >= 1,
    decreases n,
{
    if n > 0 {
        lemma_pow10_positive((n - 1) as nat);
    }
}

proof fn lemma_pow10_le(a: nat, b: nat)
    requires
        a <= b,
    ensures
        pow10(a) <= pow10(b),
    decreases b - a,
{
    if a < b {
        lemma_pow10_le(a, (b - 1) as nat);
        lemma_pow10_positive((b - 1) as nat);
    }
}

fn progress_from(s: Seconds) -> (r: u32)
    ensures
        r == progress_of(s),
{
    if s.units <= 0 {
        return 0;
    }
    let ghost base = s.units as int;
    let mut v: i128 = s.units as i128;
    if s.scale <= 6 {
        let mut k: u32 = s.scale;
        proof {
            assert(pow10(0) == 1);
            assert(base * 1 == base);
            lemma_pow10_le(0, (6 - s.scale) as nat);
        }
        while k < 6
            invariant
                s.scale <= k <= 6,
                0 < base < 0x8000000000000000,
                base == s.units,
                v == base * pow10((k - s.scale) as nat),
                pow10((k - s.scale) as nat) <= pow10((6 - s.scale) as nat),
            decreases 6 - k,
        {
            proof {
                let e = (k - s.scale) as nat;
                assert(pow10(e + 1) == 10 * pow10(e));
                assert(base * (10 * pow10(e)) == (base * pow10(e)) * 10) by (nonlinear_arith);
                lemma_pow10_positive(e);
                lemma_pow10_le((6 - s.scale) as nat, 6);
                assert(pow10(6) == 1000000) by {
                    reveal_with_fuel(pow10, 7);
                }
                assert(base * pow10(e) <= 0x8000000000000000 * 1000000) by (nonlinear_arith)
                    requires
                        0 < base < 0x8000000000000000,
                        1 <= pow10(e) <= 1000000,
                ;
                lemma_pow10_le(e + 1, (6 - s.scale) as nat);
            }
            v = v * 10;
            k = k + 1;
        }
    } else {
        let mut k: u32 = 6;
        assert(base / (pow10(0) as int) == base);
        while k < s.scale
            invariant
                6 <= k <= s.scale,
                0 < base < 0x8000000000000000,
                base == s.units,
                0 <= v <= base,
                v == base / (pow10((k - 6) as nat) as int),
            decreases s.scale - k,
        {
            proof {
                let e = (k - 6) as nat;
                lemma_pow10_positive(e);
                vstd::arithmetic::div_mod::lemma_div_denominator(base, pow10(e) as int, 10);
                assert(pow10(e + 1) == pow10(e) * 10);
            }
            v = v / 10;
            k = k + 1;
        }
    }
    if v > PROGRESS_FULL as i128 {
        PROGRESS_FULL
    } else if v < 0 {
        0
    } else {
        v as u32
    }
}

/// A stored summary state: a name, or null or absent for none.
pub open spec fn as_summary(o: Option<Json>) -> Option<Option<SummaryStatus>> {
    match o {
        Some(Json::Str(n)) => Some(summary_of_name(n@)),
        Some(Json::Null) => Some(None),
        None => Some(None),
        _ => None,
    }
}

/// The strings of a list that holds strings only.
pub open spec fn strs(items: Seq<Json>) -> Option<Seq<Seq<char>>>
    decreases items.len(),
{
    if items.len() == 0 {
        Some(Seq::empty())
    } else {
        match (strs(items.drop_last()), items.last()) {
            (Some(p), Json::Str(t)) => Some(p.push(t@)),
            _ => None,
        }
    }
}

/// Log lines: a list of strings, of which the most recent are kept.
pub open spec fn as_lines(o: Option<Json>) -> Option<Seq<Seq<char>>> {
    match o {
        Some(Json::Arr(items)) => match strs(items@) {
            Some(v) => Some(most_recent(v)),
            None => None,
        },
        _ => None,
    }
}

proof fn lemma_strs_none_extends(items: Seq<Json>, k: int)
    requires
        0 <= k <= items.len(),
        strs(items.subrange(0, k)) is None,
    ensures
        strs(items) is None,
    decreases items.len() - k,
{
    if k < items.len() {
        assert(items.subrange(0, k + 1).drop_last() =~= items.subrange(0, k));
        lemma_strs_none_extends(items, k + 1);
    } else {
        assert(items.subrange(0, k) =~= items);
    }
}

fn lines_of(o: Option<&Json>) -> (r: Option<Vec<String>>)
    ensures
        match as_lines(opt_json(o)) {
            Some(v) => r matches Some(out) && lines_view(out@) == v,
            None => r is None,
        },
{
    let items = match o {
        Some(Json::Arr(items)) => items,
        _ => {
            return None;
        },
    };
    let mut out: Vec<String> = Vec::new();
    let mut k: usize = 0;
    while k < items.len()
        invariant
            k <= items@.len(),
            opt_json(o) == Some(Json::Arr(*items)),
            strs(items@.subrange(0, k as int)) == Some(lines_view(out@)),
        decreases items@.len() - k,
    {
        let ghost prefix = items@.subrange(0, k + 1);
        assert(prefix.drop_last() =~= items@.subrange(0, k as int));
        match &items[k] {
            Json::Str(t) => {
                let ghost before = out@;
                out.push(t.clone());
                assert(lines_view(out@) =~= lines_view(before).push(t@));
            },
            _ => {
                proof {
                    lemma_strs_none_extends(items@, k + 1);
                }
                return None;
            },
        }
        k = k + 1;
    }
    assert(items@.subrange(0, k as int) =~= items@);
    if out.len() > LOG_CAPACITY {
        let ghost all = lines_view(out@);
        let excess = out.len() - LOG_CAPACITY;
        let tail = out.split_off(excess);
        assert(lines_view(tail@) =~= all.subrange(excess as int, all.len() as int));
        return Some(tail);
    }
    Some(out)
}

/// The job a stored document describes, when it is well formed.
pub open spec fn decoded_job(doc: Json) -> Option<JobView> {
    let id = as_text(field(doc, 0, "id"@));
    let filename = as_text(field(doc, 1, "filename"@));
    let status = as_text(field(doc, 2, "status"@));
    let progress = as_progress(field(doc, 3, "progress"@));
    let stage = as_text(field(doc, 4, "stage"@));
    let logs = as_lines(field(doc, 5, "logs"@));
    let created_at = as_text(field(doc, 6, "created_at"@));
    let audio_path = as_text(field(doc, 7, "audio_path"@));
    let txt = as_text(field(doc, 8, "transcript_txt_path"@));
    let json = as_text(field(doc, 9, "transcript_json_path"@));
    let srt = as_text(field(doc, 10, "transcript_srt_path"@));
    let preview = as_opt_text(field(doc, 11, "md_preview"@));
    let summary_status = as_summary(field(doc, 12, "summary_status"@));
    let summary_model = as_opt_text(field(doc, 13, "summary_model"@));
    let summary_error = as_opt_text(field(doc, 14, "summary_error"@));
    let summary_md = as_opt_text(field(doc, 15, "summary_md"@));
    let exported = as_flag(field(doc, 16, "exported_to_obsidian"@));
    if id is Some && filename is Some && status is Some && progress is Some && stage is Some
        && logs is Some && created_at is Some && audio_path is Some && txt is Some && json is Some
        && srt is Some && preview is Some && summary_status is Some && summary_model is Some
        && summary_error is Some && summary_md is Some && exported is Some {
        Some(
            JobView {
                id: id.unwrap(),
                filename: filename.unwrap(),
                status: status_of_name(status.unwrap()),
                progress: progress.unwrap(),
                stage: stage_of_name(stage.unwrap()),
                logs: logs.unwrap(),
                created_at: created_at.unwrap(),
                audio_path: audio_path.unwrap(),
                transcript_txt_path: txt.unwrap(),
                transcript_json_path: json.unwrap(),
                transcript_srt_path: srt.unwrap(),
                md_preview: preview.unwrap(),
                summary_status: summary_status.unwrap(),
                summary_model: summary_model.unwrap(),
                summary_error: summary_error.unwrap(),
                summary_md: summary_md.unwrap(),
                exported_to_obsidian: exported.unwrap(),
            },
        )
    } else {
        None
    }
}

/// Reads a job from its stored document.
pub fn decode_job(doc: &Json) -> (r: Option<Job>)
    ensures
        match decoded_job(*doc) {
            Some(v) => r matches Some(j) && j@ == v && v.wf(),
            None => r is None,
        },
{
    let id = text_of(field_at(doc, 0, "id"))?;
    let filename = text_of(field_at(doc, 1, "filename"))?;
    let status = text_of(field_at(doc, 2, "status"))?;
    let progress = match field_at(doc, 3, "progress") {
        Some(Json::Num(t)) => match parse_decimal(t.as_str()) {
            Some(x) => progress_from(x),
            None => 0,
        },
        _ => {
            return None;
        },
    };
    let stage = text_of(field_at(doc, 4, "stage"))?;
    let logs = lines_of(field_at(doc, 5, "logs"))?;
    let created_at = text_of(field_at(doc, 6, "created_at"))?;
    let audio_path = text_of(field_at(doc, 7, "audio_path"))?;
    let txt = text_of(field_at(doc, 8, "transcript_txt_path"))?;
    let json = text_of(field_at(doc, 9, "transcript_json_path"))?;
    let srt = text_of(field_at(doc, 10, "transcript_srt_path"))?;
    let preview = opt_text_of(field_at(doc, 11, "md_preview"))?;
    let summary_status = match field_at(doc, 12, "summary_status") {
        Some(Json::Str(n)) => summary_from(n.as_str()),
        Some(Json::Null) => None,
        None => None,
        _ => {
            return None;
        },
    };
    let summary_model = opt_text_of(field_at(doc, 13, "summary_model"))?;
    let summary_error = opt_text_of(field_at(doc, 14, "summary_error"))?;
    let summary_md = opt_text_of(field_at(doc, 15, "summary_md"))?;
    let exported = match field_at(doc, 16, "exported_to_obsidian") {
        Some(Json::Bool(b)) => *b,
        _ => {
            return None;
        },
    };
    proof {
        lemma_most_recent_len(lines_view(logs@));
    }
    Some(
        Job {
            id,
            filename,
            status: status_from(status.as_str()),
            progress,
            stage: stage_from(stage.as_str()),
            logs,
            created_at,
            audio_path,
            transcript_txt_path: txt,
            transcript_json_path: json,
            transcript_srt_path: srt,
            md_preview: preview,
            summary_status,
            summary_model,
            summary_error,
            summary_md,
            exported_to_obsidian: exported,
        },
    )
}

proof fn lemma_most_recent_len(s: Seq<Seq<char>>)
    ensures
        most_recent(s).len() <= LOG_CAPACITY,
        s.len() <= LOG_CAPACITY ==> most_recent(s) == s,
{
}

/// The stored text of a progress value.
pub fn progress_string(p: u32) -> (r: String)
    requires
        p <= PROGRESS_FULL,
    ensures
        r@ == progress_text(p as nat),
{
    let whole = decimal_string((p / 1000000) as u64);
    let padded = crate::text::chars_of(decimal_string((p % 1000000 + 1000000) as u64).as_str());
    proof {
        lemma_six_digits((p % 1000000) as nat);
    }
    let six = crate::text::string_of(
        crate::progress::slice_chars(&padded, 1, padded.len()).as_slice(),
    );
    assert(six@ =~= six_digits((p % 1000000) as nat));
    let r = whole.concat(".").concat(six.as_str());
    proof {
        reveal_strlit(".");
        assert(r@ =~= progress_text(p as nat));
    }
    r
}

fn text_json(s: &String) -> (r: Json)
    ensures
        r matches Json::Str(t) && t@ == s@,
{
    Json::Str(s.clone())
}

fn opt_text_json(o: &Option<String>) -> (r: Json)
    ensures
        as_opt_text(Some(r)) == Some(opt_view(*o)),
{
    match o {
        Some(s) => Json::Str(s.clone()),
        None => Json::Null,
    }
}

fn lines_json(logs: &Vec<String>) -> (r: Json)
    ensures
        r matches Json::Arr(items) && strs(items@) == Some(lines_view(logs@)),
{
    let mut items: Vec<Json> = Vec::new();
    let mut k: usize = 0;
    while k < logs.len()
        invariant
            k <= logs@.len(),
            items@.len() == k,
            strs(items@) == Some(lines_view(logs@.subrange(0, k as int))),
        decreases logs@.len() - k,
    {
        let ghost before = items@;
        items.push(Json::Str(logs[k].clone()));
        assert(items@.drop_last() =~= before);
        assert(lines_view(logs@.subrange(0, k + 1)) =~= lines_view(logs@.subrange(0, k as int)).push(
            logs@[k as int]@,
        ));
        k = k + 1;
    }
    assert(logs@.subrange(0, k as int) =~= logs@);
    Json::Arr(items)
}

fn entry(key: &str, value: Json) -> (r: (String, Json))
    ensures
        r.0@ == key@,
        r.1 == value,
{
    (key.to_owned(), value)
}

/// The stored document of a job. Reading it back gives the same job.
pub fn encode_job(j: &Job) -> (r: Json)
    requires
        j@.wf(),
    ensures
        decoded_job(r) == Some(j@),
{
    let mut e: Vec<(String, Json)> = Vec::new();
    e.push(entry("id", text_json(&j.id)));
    e.push(entry("filename", text_json(&j.filename)));
    e.push(entry("status", Json::Str(status_text(j.status).to_owned())));
    e.push(entry("progress", Json::Num(progress_string(j.progress))));
    e.push(entry("stage", Json::Str(stage_text(j.stage).to_owned())));
    e.push(entry("logs", lines_json(&j.logs)));
    e.push(entry("created_at", text_json(&j.created_at)));
    e.push(entry("audio_path", text_json(&j.audio_path)));
    e.push(entry("transcript_txt_path", text_json(&j.transcript_txt_path)));
    e.push(entry("transcript_json_path", text_json(&j.transcript_json_path)));
    e.push(entry("transcript_srt_path", text_json(&j.transcript_srt_path)));
    e.push(entry("md_preview", opt_text_json(&j.md_preview)));
    let summary = match j.summary_status {
        Some(x) => Json::Str(summary_text(x).to_owned()),
        None => Json::Null,
    };
    e.push(entry("summary_status", summary));
    e.push(entry("summary_model", opt_text_json(&j.summary_model)));
    e.push(entry("summary_error", opt_text_json(&j.summary_error)));
    e.push(entry("summary_md", opt_text_json(&j.summary_md)));
    e.push(entry("exported_to_obsidian", Json::Bool(j.exported_to_obsidian)));
    let doc = Json::Obj(e);
    proof {
        lemma_names_read_back(j.status, j.stage, SummaryStatus::Done);
        match j.summary_status {
            Some(x) => lemma_names_read_back(j.status, j.stage, x),
            None => {},
        }
        lemma_progress_text(j.progress as nat);
        assert(pow10(0) == 1);
        assert((j.progress as i64 as int) * pow10(0) == j.progress as int);
        assert(progress_of(Seconds { units: j.progress as i64, scale: 6 }) == j.progress);
        lemma_most_recent_len(j@.logs);
    }
    doc
}

/// The jobs of a list whose every item is a stored job.
pub open spec fn decoded_jobs(items: Seq<Json>) -> Option<Seq<JobView>>
    decreases items.len(),
{
    if items.len() == 0 {
        Some(Seq::empty())
    } else {
        match (decoded_jobs(items.drop_last()), decoded_job(items.last())) {
            (Some(p), Some(j)) => Some(p.push(j)),
            _ => None,
        }
    }
}

/// The jobs an index document holds, in order, when it is well formed and
/// no two share an id.
pub open spec fn index_of_doc(doc: Json) -> Option<Seq<JobView>> {
    match doc.member("jobs"@) {
        Some(Json::Arr(items)) => match decoded_jobs(items@) {
            Some(v) => if ids_unique(v) {
                Some(v)
            } else {
                None
            },
            None => None,
        },
        _ => None,
    }
}

proof fn lemma_jobs_none_extends(items: Seq<Json>, k: int)
    requires
        0 <= k <= items.len(),
        decoded_jobs(items.subrange(0, k)) is None,
    ensures
        decoded_jobs(items) is None,
    decreases items.len() - k,
{
    if k < items.len() {
        assert(items.subrange(0, k + 1).drop_last() =~= items.subrange(0, k));
        lemma_jobs_none_extends(items, k + 1);
    } else {
        assert(items.subrange(0, k) =~= items);
    }
}

/// The index document of a store. Reading it back gives the same jobs,
/// in the same order.
pub fn encode_index(ix: &JobIndex) -> (r: Json)
    requires
        ix.wf(),
    ensures
        index_of_doc(r) == Some(ix@),
{
    let mut items: Vec<Json> = Vec::new();
    let mut k: usize = 0;
    while k < ix.jobs.len()
        invariant
            k <= ix@.len(),
            ix.wf(),
            items@.len() == k,
            decoded_jobs(items@) == Some(ix@.subrange(0, k as int)),
        decreases ix@.len() - k,
    {
        let ghost before = items@;
        assert(ix@[k as int].wf());
        items.push(encode_job(&ix.jobs[k]));
        assert(items@.drop_last() =~= before);
        assert(ix@.subrange(0, k + 1) =~= ix@.subrange(0, k as int).push(ix@[k as int]));
        k = k + 1;
    }
    assert(ix@.subrange(0, k as int) =~= ix@);
    let mut e: Vec<(String, Json)> = Vec::new();
    e.push(entry("jobs", Json::Arr(items)));
    let doc = Json::Obj(e);
    assert(crate::json::entry_from(e@, "jobs"@, 0) == Some(0int));
    doc
}

fn ids_distinct(jobs: &Vec<Job>) -> (r: bool)
    ensures
        r == ids_unique(views_of(jobs@)),
{
    let ghost v = views_of(jobs@);
    let mut i: usize = 0;
    while i < jobs.len()
        invariant
            i <= jobs@.len(),
            v == views_of(jobs@),
            forall|a: int, b: int| 0 <= a < i && 0 <= b < i && a != b ==> (#[trigger] v[a]).id != (#[trigger] v[b]).id,
        decreases jobs@.len() - i,
    {
        let mut k: usize = 0;
        while k < i
            invariant
                k <= i < jobs@.len(),
                v == views_of(jobs@),
                forall|b: int| 0 <= b < k ==> (#[trigger] v[b]).id != v[i as int].id,
            decreases i - k,
        {
            if str_eq(jobs[i].id.as_str(), jobs[k].id.as_str()) {
                assert(v[i as int].id == v[k as int].id);
                return false;
            }
            k = k + 1;
        }
        i = i + 1;
    }
    true
}

/// Reads a store from its index document.
pub fn decode_index(doc: &Json) -> (r: Result<JobIndex, String>)
    ensures
        match index_of_doc(*doc) {
            Some(v) => r matches Ok(ix) && ix@ == v && ix.wf(),
            None => r is Err,
        },
{
    let items = match doc.get("jobs") {
        Some(Json::Arr(items)) => items,
        _ => {
            return Err("index document has no job list".to_owned());
        },
    };
    let mut jobs: Vec<Job> = Vec::new();
    let mut k: usize = 0;
    while k < items.len()
        invariant
            k <= items@.len(),
            doc.member("jobs"@) == Some(Json::Arr(*items)),
            decoded_jobs(items@.subrange(0, k as int)) == Some(views_of(jobs@)),
            forall|m: int| 0 <= m < jobs@.len() ==> (#[trigger] jobs@[m])@.wf(),
        decreases items@.len() - k,
    {
        let ghost prefix = items@.subrange(0, k + 1);
        assert(prefix.drop_last() =~= items@.subrange(0, k as int));
        match decode_job(&items[k]) {
            Some(j) => {
                let ghost before = jobs@;
                let ghost jv = j@;
                jobs.push(j);
                assert(jobs@ =~= before.push(jobs@[jobs@.len() - 1]));
                assert(views_of(jobs@) =~= views_of(before).push(jv));
            },
            None => {
                proof {
                    lemma_jobs_none_extends(items@, k + 1);
                }
                return Err("invalid job record in index document".to_owned());
            },
        }
        k = k + 1;
    }
    assert(items@.subrange(0, k as int) =~= items@);
    if !ids_distinct(&jobs) {
        return Err("duplicate job id in index document".to_owned());
    }
    let ix = JobIndex { jobs };
    assert forall|m: int| 0 <= m < ix@.len() implies (#[trigger] ix@[m]).wf() by {
        assert(ix@[m] == ix.jobs@[m]@);
    }
    Ok(ix)
}

/// The index file's text for a store.
pub fn index_to_text(ix: &JobIndex) -> (r: String)
    requires
        ix.wf(),
    ensures
        exists|doc: Json| index_of_doc(doc) == Some(ix@) && r@ == json_text_of(doc),
{
    let doc = encode_index(ix);
    json_text(&doc)
}

/// Reads a store from the index file's text.
pub fn index_from_text(text: &str) -> (r: Result<JobIndex, String>)
    ensures
        match json_of_text(text@) {
            Err(e) => r matches Err(m) && m@ == "invalid index.json: "@ + e,
            Ok(doc) => match index_of_doc(doc) {
                Some(v) => r matches Ok(ix) && ix@ == v && ix.wf(),
                None => r matches Err(m) && crate::text::has_prefix(m@, "invalid index.json: "@),
            },
        },
{
    match parse_json(text) {
        Err(e) => Err("invalid index.json: ".to_owned().concat(e.as_str())),
        Ok(doc) => match decode_index(&doc) {
            Ok(ix) => Ok(ix),
            Err(e) => {
                let m = "invalid index.json: ".to_owned().concat(e.as_str());
                assert(m@.subrange(0, "invalid index.json: "@.len() as int) =~= "invalid index.json: "@);
                Err(m)
            },
        },
    }
}

} // verus!
