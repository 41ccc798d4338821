//! Transcript segments from the speech engine's JSON output, whatever its
//! shape, normalized to `{start, end, text}` with times in seconds.

use vstd::prelude::*;
use crate::json::{json_of_text, parse_json, Json};
use crate::progress::{all_digits, digit_of, digits_value, dot_from, is_digit, min_nat, slice_chars};
use crate::text::{chars_of, is_blank, trim, trimmed};

verus! {

/// An exact decimal number of seconds: `units / 10^scale`.
#[derive(Clone, Copy, Debug, PartialEq, Eq, Structural)]
pub struct Seconds {
    pub units: i64,
    pub scale: u32,
}

/// One timed piece of a transcript.
#[derive(Debug)]
pub struct Segment {
    pub start: Seconds,
    pub end: Seconds,
    pub text: String,
}

/// `10^n`.
pub open spec fn pow10(n: nat) -> nat
    decreases n,
{
    if n == 0 {
        1
    } else {
        10 * pow10((n - 1) as nat)
    }
}

/// Two decimals stand for the same number.
pub open spec fn same_value(a: Seconds, b: Seconds) -> bool {
    a.units * pow10(b.scale as nat) == b.units * pow10(a.scale as nat)
}

/// The bound past which a magnitude no longer fits the units.
pub open spec fn units_cap() -> nat {
    0x8000000000000000
}

/// A plain decimal mantissa (`12`, `1.50`): the value of its digits and
/// the number of fraction digits; `None` for any other text.
pub open spec fn mantissa_of(m: Seq<char>) -> Option<(nat, nat)> {
    let d = dot_from(m, 0);
    let ip = m.subrange(0, d);
    let fp = if d < m.len() {
        m.subrange(d + 1, m.len() as int)
    } else {
        Seq::empty()
    };
    if ip.len() >= 1 && all_digits(ip) && all_digits(fp) && (d < m.len() ==> fp.len() >= 1)
        && fp.len() <= 0xffff {
        Some((digits_value(ip + fp), fp.len()))
    } else {
        None
    }
}

/// The index of the first exponent marker (`e` or `E`) at or after `i`,
/// or the length.
pub open spec fn exp_from(s: Seq<char>, i: int) -> int
    decreases s.len() - i,
{
    if 0 <= i < s.len() && s[i] != 'e' && s[i] != 'E' {
        exp_from(s, i + 1)
    } else {
        i
    }
}

/// The value of an exponent's text (after the marker): an optional sign
/// and digits, of magnitude below `0x10000`.
pub open spec fn exponent_of(e: Seq<char>) -> Option<int> {
    let signed = e.len() > 0 && (e[0] == '-' || e[0] == '+');
    let ds = if signed {
        e.drop_first()
    } else {
        e
    };
    if ds.len() >= 1 && all_digits(ds) && digits_value(ds) < 0x10000 {
        Some(
            if e[0] == '-' {
                -(digits_value(ds) as int)
            } else {
                digits_value(ds) as int
            },
        )
    } else {
        None
    }
}

/// `v`, negated when `neg`.
pub open spec fn signed(neg: bool, v: nat) -> int {
    if neg {
        -(v as int)
    } else {
        v as int
    }
}

/// The number a JSON number's text states (`-12`, `1.50`, `2.5e-7`, `1E+3`)
/// as an exact decimal, when its digits fit the units; `None` otherwise.
pub open spec fn decimal_of_text(t: Seq<char>) -> Option<Seconds> {
    let neg = t.len() > 0 && t[0] == '-';
    let body = if neg {
        t.drop_first()
    } else {
        t
    };
    let x = exp_from(body, 0);
    let ex = if x < body.len() {
        exponent_of(body.subrange(x + 1, body.len() as int))
    } else {
        Some(0int)
    };
    match (mantissa_of(body.subrange(0, x)), ex) {
        (Some((v, f)), Some(e)) => {
            let sc = f - e;
            if sc >= 0 {
                if v < units_cap() && sc <= 0xffff {
                    Some(Seconds { units: signed(neg, v) as i64, scale: sc as u32 })
                } else {
                    None
                }
            } else {
                let w = v * pow10((-sc) as nat);
                if w < units_cap() {
                    Some(Seconds { units: signed(neg, w) as i64, scale: 0 })
                } else {
                    None
                }
            }
        },
        _ => None,
    }
}

proof fn lemma_digits_push(p: Seq<char>, c: char)
    requires
        is_digit(c),
    ensures
        digits_value(p.push(c)) == digits_value(p) * 10 + digit_of(c),
        min_nat(digits_value(p.push(c)), units_cap()) == min_nat(
            min_nat(digits_value(p), units_cap()) * 10 + digit_of(c),
            units_cap(),
        ),
{
    assert(p.push(c).drop_last() =~= p);
    let v = digits_value(p);
    if v >= units_cap() {
        assert(v * 10 >= units_cap() * 10) by (nonlinear_arith)
            requires
                v >= units_cap(),
        ;
    }
}

/// Reads a mantissa (see `mantissa_of`): its digits' value, saturated at
/// the units' bound, and its number of fraction digits.
fn parse_mantissa(body: &Vec<char>) -> (r: Option<(u128, usize)>)
    ensures
        match mantissa_of(body@) {
            Some((v, f)) => r == Some((min_nat(v, units_cap()) as u128, f as usize)),
            None => r is None,
        },
{
    let mut d: usize = 0;
    while d < body.len() && body[d] != '.'
        invariant
            d <= body@.len(),
            dot_from(body@, d as int) == dot_from(body@, 0),
        decreases body@.len() - d,
    {
        d = d + 1;
    }
    let ghost ip = body@.subrange(0, d as int);
    let ghost fp = if d < body@.len() {
        body@.subrange(d + 1, body@.len() as int)
    } else {
        Seq::<char>::empty()
    };
    let frac_start: usize = if d < body.len() {
        d + 1
    } else {
        body.len()
    };
    let ghost digits = ip + fp;
    assert(fp =~= body@.subrange(frac_start as int, body@.len() as int));
    // The digits, integer part then fraction, are body[0..d] then body[frac_start..].
    let total: usize = d + (body.len() - frac_start);
    let mut acc: u128 = 0;
    let mut k: usize = 0;
    while k < total
        invariant
            k <= total == d + (body@.len() - frac_start),
            d <= frac_start <= body@.len(),
            d < body@.len() ==> frac_start == d + 1,
            d == body@.len() ==> frac_start == d,
            ip == body@.subrange(0, d as int),
            fp == body@.subrange(frac_start as int, body@.len() as int),
            d == dot_from(body@, 0),
            digits == ip + fp,
            all_digits(digits.subrange(0, k as int)),
            acc == min_nat(digits_value(digits.subrange(0, k as int)), units_cap()),
        decreases total - k,
    {
        let c = if k < d {
            body[k]
        } else {
            body[frac_start + (k - d)]
        };
        assert(digits[k as int] == c);
        if !('0' <= c && c <= '9') {
            assert(!all_digits(digits));
            assert(!all_digits(ip) || !all_digits(fp)) by {
                if k < d {
                    assert(ip[k as int] == c);
                } else {
                    assert(fp[k - d] == c);
                }
            }
            return None;
        }
        proof {
            lemma_digits_push(digits.subrange(0, k as int), c);
            assert(digits.subrange(0, k as int).push(c) =~= digits.subrange(0, k + 1));
        }
        let dv = ((c as u32) - ('0' as u32)) as u128;
        let next = acc * 10 + dv;
        acc = if next >= 0x8000000000000000 {
            0x8000000000000000
        } else {
            next
        };
        k = k + 1;
    }
    assert(digits.subrange(0, k as int) =~= digits);
    assert(all_digits(ip) && all_digits(fp)) by {
        assert forall|i: int| 0 <= i < ip.len() implies is_digit(#[trigger] ip[i]) by {
            assert(ip[i] == digits[i]);
        }
        assert forall|i: int| 0 <= i < fp.len() implies is_digit(#[trigger] fp[i]) by {
            assert(fp[i] == digits[ip.len() + i]);
        }
    }
    let scale_len = body.len() - frac_start;
    if d == 0 || (d < body.len() && scale_len == 0) || scale_len > 0xffff {
        return None;
    }
    Some((acc, scale_len))
}

/// Reads an exponent's text (see `exponent_of`).
fn parse_exponent(e: &Vec<char>) -> (r: Option<i64>)
    ensures
        match exponent_of(e@) {
            Some(x) => r == Some(x as i64),
            None => r is None,
        },
{
    let signed_text = e.len() > 0 && (e[0] == '-' || e[0] == '+');
    let ds = if signed_text {
        slice_chars(e, 1, e.len())
    } else {
        slice_chars(e, 0, e.len())
    };
    proof {
        if signed_text {
            assert(ds@ =~= e@.drop_first());
        } else {
            assert(ds@ =~= e@);
        }
    }
    if ds.len() == 0 {
        return None;
    }
    let mut acc: u128 = 0;
    let mut k: usize = 0;
    while k < ds.len()
        invariant
            k <= ds@.len(),
            signed_text == (e@.len() > 0 && (e@[0] == '-' || e@[0] == '+')),
            ds@ == (if signed_text {
                e@.drop_first()
            } else {
                e@
            }),
            all_digits(ds@.subrange(0, k as int)),
            acc == min_nat(digits_value(ds@.subrange(0, k as int)), units_cap()),
        decreases ds@.len() - k,
    {
        let c = ds[k];
        if !('0' <= c && c <= '9') {
            assert(ds@[k as int] == c);
            assert(!all_digits(ds@));
            return None;
        }
        proof {
            lemma_digits_push(ds@.subrange(0, k as int), c);
            assert(ds@.subrange(0, k as int).push(c) =~= ds@.subrange(0, k + 1));
        }
        let next = acc * 10 + ((c as u32) - ('0' as u32)) as u128;
        acc = if next >= 0x8000000000000000 {
            0x8000000000000000
        } else {
            next
        };
        k = k + 1;
    }
    assert(ds@.subrange(0, k as int) =~= ds@);
    if acc >= 0x10000 {
        return None;
    }
    let v = acc as i64;
    if e[0] == '-' {
        Some(-v)
    } else {
        Some(v)
    }
}

proof fn lemma_scale_step(v: nat, j: nat)
    ensures
        min_nat(v * pow10(j + 1), units_cap()) == min_nat(
            min_nat(v * pow10(j), units_cap()) * 10,
            units_cap(),
        ),
{
    let y = v * pow10(j);
    assert(pow10(j + 1) == 10 * pow10(j));
    assert(v * pow10(j + 1) == y * 10) by (nonlinear_arith)
        requires
            pow10(j + 1) == 10 * pow10(j),
            y == v * pow10(j),
    ;
}

/// Reads the decimal a JSON number's text states (see `decimal_of_text`).
pub fn parse_decimal(t: &str) -> (r: Option<Seconds>)
    ensures
        r == decimal_of_text(t@),
{
    let cs = chars_of(t);
    let neg = cs.len() > 0 && cs[0] == '-';
    let body = if neg {
        slice_chars(&cs, 1, cs.len())
    } else {
        slice_chars(&cs, 0, cs.len())
    };
    proof {
        if neg {
            assert(body@ =~= t@.drop_first());
        } else {
            assert(body@ =~= t@);
        }
    }
    let mut x: usize = 0;
    while x < body.len() && body[x] != 'e' && body[x] != 'E'
        invariant
            x <= body@.len(),
            exp_from(body@, x as int) == exp_from(body@, 0),
        decreases body@.len() - x,
    {
        x = x + 1;
    }
    let mant = slice_chars(&body, 0, x);
    let ex: i64 = if x < body.len() {
        match parse_exponent(&slice_chars(&body, x + 1, body.len())) {
            Some(e) => e,
            None => {
                return None;
            },
        }
    } else {
        0
    };
    let (acc, f) = match parse_mantissa(&mant) {
        Some(p) => p,
        None => {
            return None;
        },
    };
    let ghost v = match mantissa_of(mant@) {
        Some((v, _)) => v,
        None => 0,
    };
    let sc: i64 = f as i64 - ex;
    if sc >= 0 {
        if acc >= 0x8000000000000000 || sc > 0xffff {
            return None;
        }
        let magnitude = acc as i64;
        let units = if neg {
            -magnitude
        } else {
            magnitude
        };
        return Some(Seconds { units, scale: sc as u32 });
    }
    let k: i64 = -sc;
    let mut w: u128 = acc;
    let mut j: i64 = 0;
    assert(pow10(0) == 1);
    assert(v * 1 == v);
    while j < k
        invariant
            0 <= j <= k,
            k <= 0x20000,
            w == min_nat(v * pow10(j as nat), units_cap()),
        decreases k - j,
    {
        proof {
            lemma_scale_step(v, j as nat);
        }
        let next = w * 10;
        w = if next >= 0x8000000000000000 {
            0x8000000000000000
        } else {
            next
        };
        j = j + 1;
    }
    if w >= 0x8000000000000000 {
        return None;
    }
    let magnitude = w as i64;
    let units = if neg {
        -magnitude
    } else {
        magnitude
    };
    Some(Seconds { units, scale: 0 })
}



/// A segment with its text as characters.
pub struct SegmentView {
    pub start: Seconds,
    pub end: Seconds,
    pub text: Seq<char>,
}

impl View for Segment {
    type V = SegmentView;

    open spec fn view(&self) -> SegmentView {
        SegmentView { start: self.start, end: self.end, text: self.text@ }
    }
}

/// The models of a sequence of segments.
pub open spec fn segment_views(v: Seq<Segment>) -> Seq<SegmentView> {
    v.map_values(|s: Segment| s@)
}

/// Zero seconds.
pub open spec fn zero() -> Seconds {
    Seconds { units: 0, scale: 0 }
}

/// The number member `key` of an object, as an exact decimal.
pub open spec fn num_member(j: Json, key: Seq<char>) -> Option<Seconds> {
    match j.member(key) {
        Some(Json::Num(t)) => decimal_of_text(t@),
        _ => None,
    }
}

/// `s` divided by `10^k`.
pub open spec fn shifted(s: Seconds, k: u32) -> Seconds {
    Seconds { units: s.units, scale: (s.scale + k) as u32 }
}

/// An item of a flat segment list: `start` and `end` numbers and `text`.
pub open spec fn flat_item(j: Json) -> Option<SegmentView> {
    match (num_member(j, "start"@), num_member(j, "end"@), j.member("text"@)) {
        (Some(st), Some(en), Some(Json::Str(t))) => Some(SegmentView { start: st, end: en, text: t@ }),
        _ => None,
    }
}

/// A flat list of segments, when every item is one.
pub open spec fn flat_segments(items: Seq<Json>) -> Option<Seq<SegmentView>>
    decreases items.len(),
{
    if items.len() == 0 {
        Some(Seq::empty())
    } else {
        match (flat_segments(items.drop_last()), flat_item(items.last())) {
            (Some(prev), Some(sg)) => Some(prev.push(sg)),
            _ => None,
        }
    }
}

/// Start of an engine segment: `start` in seconds, else `t0` in centiseconds.
pub open spec fn engine_start(seg: Json) -> Seconds {
    match num_member(seg, "start"@) {
        Some(st) => st,
        None => match num_member(seg, "t0"@) {
            Some(c) => shifted(c, 2),
            None => zero(),
        },
    }
}

/// End of an engine segment: `end` in seconds, else `t1` in centiseconds,
/// else its start.
pub open spec fn engine_end(seg: Json) -> Seconds {
    match num_member(seg, "end"@) {
        Some(en) => en,
        None => match num_member(seg, "t1"@) {
            Some(c) => shifted(c, 2),
            None => engine_start(seg),
        },
    }
}

/// The engine's `segments` list: items with text, trimmed.
pub open spec fn engine_segments(items: Seq<Json>) -> Seq<SegmentView>
    decreases items.len(),
{
    if items.len() == 0 {
        Seq::empty()
    } else {
        let seg = items.last();
        let text = trimmed(seg.str_member("text"@));
        engine_segments(items.drop_last()) + if text.len() > 0 {
            seq![SegmentView { start: engine_start(seg), end: engine_end(seg), text }]
        } else {
            Seq::empty()
        }
    }
}

/// Start of a transcription entry, from `offsets.from` in milliseconds.
pub open spec fn offsets_from(seg: Json) -> Seconds {
    match seg.member("offsets"@) {
        Some(o) => match num_member(o, "from"@) {
            Some(m) => m,
            None => zero(),
        },
        None => zero(),
    }
}

/// End of a transcription entry, from `offsets.to` in milliseconds, else
/// its start.
pub open spec fn offsets_to(seg: Json) -> Seconds {
    match seg.member("offsets"@) {
        Some(o) => match num_member(o, "to"@) {
            Some(m) => m,
            None => offsets_from(seg),
        },
        None => offsets_from(seg),
    }
}

/// The engine's `transcription` list: entries with text, trimmed.
pub open spec fn transcription_segments(items: Seq<Json>) -> Seq<SegmentView>
    decreases items.len(),
{
    if items.len() == 0 {
        Seq::empty()
    } else {
        let seg = items.last();
        let text = trimmed(seg.str_member("text"@));
        transcription_segments(items.drop_last()) + if text.len() > 0 {
            seq![
                SegmentView {
                    start: shifted(offsets_from(seg), 3),
                    end: shifted(offsets_to(seg), 3),
                    text,
                },
            ]
        } else {
            Seq::empty()
        }
    }
}

/// The segments a transcript document holds, by its shape: a flat list,
/// a `segments` list, or a `transcription` list.
pub open spec fn segments_of_doc(doc: Json) -> Result<Seq<SegmentView>, Seq<char>> {
    match (doc, doc) {
        (Json::Arr(items), _) if flat_segments(items@) is Some => Ok(flat_segments(items@).unwrap()),
        _ => match doc.array_member("segments"@) {
            Some(items) => Ok(engine_segments(items@)),
            None => match doc.array_member("transcription"@) {
                Some(items) => Ok(transcription_segments(items@)),
                None => Err("segments not found in transcript json"@),
            },
        },
    }
}

/// The segments of a transcript's text, or why there are none.
pub open spec fn segments_of_text(text: Seq<char>) -> Result<Seq<SegmentView>, Seq<char>> {
    match json_of_text(text) {
        Err(e) => Err("invalid transcript json: "@ + e),
        Ok(doc) => segments_of_doc(doc),
    }
}

fn num_of(j: &Json, key: &str) -> (r: Option<Seconds>)
    ensures
        r == num_member(*j, key@),
{
    match j.get(key) {
        Some(Json::Num(t)) => parse_decimal(t.as_str()),
        _ => None,
    }
}

fn shift(s: Seconds, k: u32) -> (r: Seconds)
    requires
        s.scale <= 0xffff,
        k <= 3,
    ensures
        r == shifted(s, k),
{
    Seconds { units: s.units, scale: s.scale + k }
}

proof fn lemma_decimal_scale(t: Seq<char>)
    ensures
        decimal_of_text(t) matches Some(s) ==> s.scale <= 0xffff,
{
}

fn flat_list(items: &Vec<Json>) -> (r: Option<Vec<Segment>>)
    ensures
        match flat_segments(items@) {
            Some(v) => r matches Some(out) && segment_views(out@) == v,
            None => r is None,
        },
{
    let mut out: Vec<Segment> = Vec::new();
    let mut k: usize = 0;
    while k < items.len()
        invariant
            k <= items@.len(),
            flat_segments(items@.subrange(0, k as int)) == Some(segment_views(out@)),
        decreases items@.len() - k,
    {
        let item = &items[k];
        let ghost prefix = items@.subrange(0, k + 1);
        assert(prefix.drop_last() =~= items@.subrange(0, k as int));
        let st = num_of(item, "start");
        let en = num_of(item, "end");
        match (st, en, item.get("text")) {
            (Some(s), Some(e), Some(Json::Str(t))) => {
                let ghost before = out@;
                out.push(Segment { start: s, end: e, text: t.clone() });
                assert(segment_views(out@) =~= segment_views(before).push(
                    SegmentView { start: s, end: e, text: t@ },
                ));
            },
            _ => {
                assert(flat_segments(prefix) is None);
                proof {
                    lemma_flat_none_extends(items@, k as int + 1);
                }
                return None;
            },
        }
        k = k + 1;
    }
    assert(items@.subrange(0, k as int) =~= items@);
    Some(out)
}

proof fn lemma_flat_none_extends(items: Seq<Json>, k: int)
    requires
        0 <= k <= items.len(),
        flat_segments(items.subrange(0, k)) is None,
    ensures
        flat_segments(items) is None,
    decreases items.len() - k,
{
    if k < items.len() {
        assert(items.subrange(0, k + 1).drop_last() =~= items.subrange(0, k));
        lemma_flat_none_extends(items, k + 1);
    } else {
        assert(items.subrange(0, k) =~= items);
    }
}

fn engine_list(items: &Vec<Json>) -> (r: Vec<Segment>)
    ensures
        segment_views(r@) == engine_segments(items@),
{
    let mut out: Vec<Segment> = Vec::new();
    let mut k: usize = 0;
    while k < items.len()
        invariant
            k <= items@.len(),
            segment_views(out@) == engine_segments(items@.subrange(0, k as int)),
        decreases items@.len() - k,
    {
        let seg = &items[k];
        let ghost prefix = items@.subrange(0, k + 1);
        assert(prefix.drop_last() =~= items@.subrange(0, k as int));
        let raw = seg.get_str("text");
        let text = trim(raw.as_str());
        let ghost before = out@;
        if !is_blank(raw.as_str()) {
            proof {
                lemma_decimal_scale_all();
            }
            let start = match num_of(seg, "start") {
                Some(s) => s,
                None => match num_of(seg, "t0") {
                    Some(c) => shift(c, 2),
                    None => Seconds { units: 0, scale: 0 },
                },
            };
            let end = match num_of(seg, "end") {
                Some(e) => e,
                None => match num_of(seg, "t1") {
                    Some(c) => shift(c, 2),
                    None => start,
                },
            };
            out.push(Segment { start, end, text });
            assert(segment_views(out@) =~= segment_views(before) + seq![
                SegmentView { start: engine_start(*seg), end: engine_end(*seg), text: trimmed(seg.str_member("text"@)) },
            ]);
        } else {
            assert(segment_views(before) + Seq::<SegmentView>::empty() =~= segment_views(before));
        }
        k = k + 1;
    }
    assert(items@.subrange(0, k as int) =~= items@);
    out
}

proof fn lemma_decimal_scale_all()
    ensures
        forall|t: Seq<char>| #[trigger] decimal_of_text(t) matches Some(s) ==> s.scale <= 0xffff,
{
}

fn transcription_list(items: &Vec<Json>) -> (r: Vec<Segment>)
    ensures
        segment_views(r@) == transcription_segments(items@),
{
    let mut out: Vec<Segment> = Vec::new();
    let mut k: usize = 0;
    while k < items.len()
        invariant
            k <= items@.len(),
            segment_views(out@) == transcription_segments(items@.subrange(0, k as int)),
        decreases items@.len() - k,
    {
        let seg = &items[k];
        let ghost prefix = items@.subrange(0, k + 1);
        assert(prefix.drop_last() =~= items@.subrange(0, k as int));
        let raw = seg.get_str("text");
        let text = trim(raw.as_str());
        let ghost before = out@;
        if !is_blank(raw.as_str()) {
            proof {
                lemma_decimal_scale_all();
            }
            let (from, to) = match seg.get("offsets") {
                Some(o) => {
                    let f = match num_of(o, "from") {
                        Some(m) => m,
                        None => Seconds { units: 0, scale: 0 },
                    };
                    let t = match num_of(o, "to") {
                        Some(m) => m,
                        None => f,
                    };
                    (f, t)
                },
                None => (Seconds { units: 0, scale: 0 }, Seconds { units: 0, scale: 0 }),
            };
            out.push(Segment { start: shift(from, 3), end: shift(to, 3), text });
            assert(segment_views(out@) =~= segment_views(before) + seq![
                SegmentView {
                    start: shifted(offsets_from(*seg), 3),
                    end: shifted(offsets_to(*seg), 3),
                    text: trimmed(seg.str_member("text"@)),
                },
            ]);
        } else {
            assert(segment_views(before) + Seq::<SegmentView>::empty() =~= segment_views(before));
        }
        k = k + 1;
    }
    assert(items@.subrange(0, k as int) =~= items@);
    out
}

/// The segments of a transcript document's text, by its shape; an error
/// when the text is not JSON or holds none of the known shapes.
pub fn segments_from_text(text: &str) -> (r: Result<Vec<Segment>, String>)
    ensures
        match segments_of_text(text@) {
            Ok(v) => r matches Ok(out) && segment_views(out@) == v,
            Err(m) => r matches Err(e) && e@ == m,
        },
{
    let doc = match parse_json(text) {
        Err(e) => {
            return Err("invalid transcript json: ".to_owned().concat(e.as_str()));
        },
        Ok(d) => d,
    };
    segments_of_json(&doc)
}

/// The segments a transcript document holds, by its shape (see
/// `segments_of_doc`).
pub fn segments_of_json(doc: &Json) -> (r: Result<Vec<Segment>, String>)
    ensures
        match segments_of_doc(*doc) {
            Ok(v) => r matches Ok(out) && segment_views(out@) == v,
            Err(m) => r matches Err(e) && e@ == m,
        },
{
    if let Json::Arr(items) = doc {
        if let Some(out) = flat_list(items) {
            return Ok(out);
        }
    }
    match doc.get_array("segments") {
        Some(items) => Ok(engine_list(items)),
        None => match doc.get_array("transcription") {
            Some(items) => Ok(transcription_list(items)),
            None => Err("segments not found in transcript json".to_owned()),
        },
    }
}

/// The three transcript shapes agree on a time: a value `c` in
/// centiseconds (the engine's `t0`/`t1`) and a value `m` in milliseconds
/// (`offsets.from`/`to`) that state the same instant as `x` in seconds
/// normalize, as `engine_segments` and `transcription_segments` do, to a
/// decimal equal in value to `x`.
pub proof fn lemma_time_units_agree(x: Seconds, c: Seconds, m: Seconds)
    requires
        c.units * pow10(x.scale as nat) == 100 * x.units * pow10(c.scale as nat),
        m.units * pow10(x.scale as nat) == 1000 * x.units * pow10(m.scale as nat),
        c.scale + 2 <= u32::MAX,
        m.scale + 3 <= u32::MAX,
    ensures
        same_value(shifted(c, 2), x),
        same_value(shifted(m, 3), x),
{
    reveal_with_fuel(pow10, 4);
    lemma_pow10_shift(c.scale as nat, 2);
    lemma_pow10_shift(m.scale as nat, 3);
    assert(x.units * pow10((c.scale + 2) as nat) == 100 * x.units * pow10(c.scale as nat)) by (nonlinear_arith)
        requires
            pow10((c.scale + 2) as nat) == 100 * pow10(c.scale as nat),
    ;
    assert(x.units * pow10((m.scale + 3) as nat) == 1000 * x.units * pow10(m.scale as nat)) by (nonlinear_arith)
        requires
            pow10((m.scale + 3) as nat) == 1000 * pow10(m.scale as nat),
    ;
}

proof fn lemma_pow10_shift(n: nat, k: nat)
    requires
        k <= 3,
    ensures
        k == 2 ==> pow10(n + 2) == 100 * pow10(n),
        k == 3 ==> pow10(n + 3) == 1000 * pow10(n),
{
    assert(pow10(n + 1) == 10 * pow10(n));
    assert(pow10(n + 2) == 10 * pow10(n + 1));
    assert(pow10(n + 3) == 10 * pow10(n + 2));
}

/// `x` states the time `s` (in seconds) in units of `1/k` seconds.
pub open spec fn time_in_units(x: Seconds, s: Seconds, k: int) -> bool {
    &&& x.units * pow10(s.scale as nat) == k * s.units * pow10(x.scale as nat)
    &&& x.scale + 3 <= u32::MAX
}

/// One entry written in each of the three shapes with the same text and
/// times: a flat item `a` (seconds), an engine segment `b` (`t0`/`t1` in
/// centiseconds) and a transcription entry `c` (`offsets` in milliseconds).
pub open spec fn entries_agree(a: Json, b: Json, c: Json) -> bool {
    match (flat_item(a), num_member(b, "t0"@), num_member(b, "t1"@)) {
        (Some(sa), Some(x0), Some(x1)) => {
            &&& sa.text.len() > 0
            &&& trimmed(b.str_member("text"@)) == sa.text
            &&& trimmed(c.str_member("text"@)) == sa.text
            &&& num_member(b, "start"@) is None
            &&& num_member(b, "end"@) is None
            &&& time_in_units(x0, sa.start, 100)
            &&& time_in_units(x1, sa.end, 100)
            &&& time_in_units(offsets_from(c), sa.start, 1000)
            &&& time_in_units(offsets_to(c), sa.end, 1000)
        },
        _ => false,
    }
}

/// Three segment lists hold the same texts in the same order, with starts
/// and ends equal in value.
pub open spec fn segment_lists_agree(
    fa: Seq<SegmentView>,
    eb: Seq<SegmentView>,
    tc: Seq<SegmentView>,
) -> bool {
    &&& eb.len() == fa.len()
    &&& tc.len() == fa.len()
    &&& forall|i: int|
        0 <= i < fa.len() ==> {
            &&& eb[i].text == (#[trigger] fa[i]).text
            &&& tc[i].text == fa[i].text
            &&& same_value(eb[i].start, fa[i].start)
            &&& same_value(eb[i].end, fa[i].end)
            &&& same_value(tc[i].start, fa[i].start)
            &&& same_value(tc[i].end, fa[i].end)
        }
}

/// Extraction from the three transcript shapes agrees: documents that
/// write the same entries as a flat list, as engine segments in
/// centiseconds and as transcription entries in milliseconds yield the
/// same texts, in order, with equal start and end times in seconds.
pub proof fn lemma_shapes_agree(a: Seq<Json>, b: Seq<Json>, c: Seq<Json>)
    requires
        a.len() == b.len(),
        a.len() == c.len(),
        forall|i: int| 0 <= i < a.len() ==> entries_agree(#[trigger] a[i], b[i], c[i]),
    ensures
        flat_segments(a) is Some,
        flat_segments(a).unwrap().len() == a.len(),
        segment_lists_agree(
            flat_segments(a).unwrap(),
            engine_segments(b),
            transcription_segments(c),
        ),
    decreases a.len(),
{
    if a.len() > 0 {
        let n = a.len() - 1;
        assert forall|i: int| 0 <= i < a.drop_last().len() implies entries_agree(
            #[trigger] a.drop_last()[i],
            b.drop_last()[i],
            c.drop_last()[i],
        ) by {
            assert(entries_agree(a[i], b[i], c[i]));
        }
        lemma_shapes_agree(a.drop_last(), b.drop_last(), c.drop_last());
        assert(entries_agree(a[n], b[n], c[n]));
        let sa = flat_item(a.last()).unwrap();
        let x0 = num_member(b.last(), "t0"@).unwrap();
        let x1 = num_member(b.last(), "t1"@).unwrap();
        lemma_time_units_agree(sa.start, x0, offsets_from(c.last()));
        lemma_time_units_agree(sa.end, x1, offsets_to(c.last()));
        let pa = flat_segments(a.drop_last()).unwrap();
        let pb = engine_segments(b.drop_last());
        let pc = transcription_segments(c.drop_last());
        let xb = SegmentView {
            start: engine_start(b.last()),
            end: engine_end(b.last()),
            text: sa.text,
        };
        let xc = SegmentView {
            start: shifted(offsets_from(c.last()), 3),
            end: shifted(offsets_to(c.last()), 3),
            text: sa.text,
        };
        assert(flat_segments(a).unwrap() == pa.push(sa));
        assert(engine_segments(b) == pb + seq![xb]);
        assert(transcription_segments(c) == pc + seq![xc]);
        lemma_lists_agree_step(pa, pb, pc, sa, xb, xc);
    }
}

proof fn lemma_lists_agree_step(
    pa: Seq<SegmentView>,
    pb: Seq<SegmentView>,
    pc: Seq<SegmentView>,
    sa: SegmentView,
    xb: SegmentView,
    xc: SegmentView,
)
    requires
        segment_lists_agree(pa, pb, pc),
        xb.text == sa.text,
        xc.text == sa.text,
        same_value(xb.start, sa.start),
        same_value(xb.end, sa.end),
        same_value(xc.start, sa.start),
        same_value(xc.end, sa.end),
    ensures
        segment_lists_agree(pa.push(sa), pb + seq![xb], pc + seq![xc]),
{
    let fa = pa.push(sa);
    let eb = pb + seq![xb];
    let tc = pc + seq![xc];
    assert(eb.len() == fa.len() && tc.len() == fa.len());
    assert forall|i: int| 0 <= i < fa.len() implies {
        &&& eb[i].text == (#[trigger] fa[i]).text
        &&& tc[i].text == fa[i].text
        &&& same_value(eb[i].start, fa[i].start)
        &&& same_value(eb[i].end, fa[i].end)
        &&& same_value(tc[i].start, fa[i].start)
        &&& same_value(tc[i].end, fa[i].end)
    } by {
        if i < pa.len() {
            assert(eb[i] == pb[i]);
            assert(tc[i] == pc[i]);
            assert(fa[i] == pa[i]);
            assert(pb[i].text == pa[i].text);
        } else {
            assert(fa[i] == sa);
            assert(eb[i] == xb);
            assert(tc[i] == xc);
        }
    }
    assert(segment_lists_agree(fa, eb, tc));
}

} // verus!
