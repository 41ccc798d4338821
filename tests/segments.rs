use voicenote::segments::{parse_decimal, segments_from_text, Seconds, Segment};

fn seconds_value(s: Seconds) -> f64 {
    s.units as f64 / 10f64.powi(s.scale as i32)
}

fn same(a: Seconds, b: Seconds) -> bool {
    (a.units as i128) * 10i128.pow(b.scale) == (b.units as i128) * 10i128.pow(a.scale)
}

fn triples(v: &[Segment]) -> Vec<(Seconds, Seconds, String)> {
    v.iter().map(|s| (s.start, s.end, s.text.clone())).collect()
}

#[test]
fn segments_load_roundtrip() {
    let raw = r#"[{"start":0.0,"end":1.5,"text":"One"},{"start":1.6,"end":3.2,"text":"Two"}]"#;
    let segments = segments_from_text(raw).expect("parse segments.json");
    assert_eq!(segments.len(), 2);
    assert_eq!(segments[0].text, "One");
    assert_eq!(segments[1].text, "Two");
}

#[test]
fn three_transcript_shapes_agree() {
    let flat = r#"[{"start":0.5,"end":1.25,"text":"Hello"},{"start":2,"end":3.5,"text":"World"}]"#;
    let centis = r#"{"segments":[{"t0":50,"t1":125,"text":" Hello "},{"t0":200,"t1":350,"text":"World"}]}"#;
    let millis = r#"{"transcription":[{"offsets":{"from":500,"to":1250},"text":"Hello"},{"offsets":{"from":2000,"to":3500},"text":" World"}]}"#;
    let a = triples(&segments_from_text(flat).unwrap());
    let b = triples(&segments_from_text(centis).unwrap());
    let c = triples(&segments_from_text(millis).unwrap());
    assert_eq!(a.len(), 2);
    assert_eq!(b.len(), 2);
    assert_eq!(c.len(), 2);
    for i in 0..2 {
        assert!(same(a[i].0, b[i].0) && same(b[i].0, c[i].0));
        assert!(same(a[i].1, b[i].1) && same(b[i].1, c[i].1));
        assert_eq!(a[i].2, b[i].2);
        assert_eq!(b[i].2, c[i].2);
    }
    assert!((seconds_value(a[0].1) - 1.25).abs() < 1e-9);
    assert!((seconds_value(c[1].0) - 2.0).abs() < 1e-9);
}

#[test]
fn engine_segments_fall_back_and_skip_blank_text() {
    let doc = r#"{"segments":[{"start":1.0,"text":"a"},{"text":"   "},{"t0":10,"text":"b"},{"text":"c"}]}"#;
    let s = segments_from_text(doc).unwrap();
    assert_eq!(s.len(), 3);
    assert!(same(s[0].end, s[0].start));
    assert!(same(s[1].start, Seconds { units: 1, scale: 1 }));
    assert!(same(s[2].start, Seconds { units: 0, scale: 0 }));
    assert_eq!(s[2].text, "c");
}

#[test]
fn transcription_entry_without_end_ends_at_start() {
    let doc = r#"{"transcription":[{"offsets":{"from":1500},"text":"x"}]}"#;
    let s = segments_from_text(doc).unwrap();
    assert_eq!(s.len(), 1);
    assert!(same(s[0].start, Seconds { units: 15, scale: 1 }));
    assert!(same(s[0].end, s[0].start));
}

#[test]
fn segment_errors() {
    let e = segments_from_text("not json").unwrap_err();
    assert!(e.starts_with("invalid transcript json: "));
    assert_eq!(segments_from_text(r#"{"other":1}"#).unwrap_err(), "segments not found in transcript json");
    assert_eq!(segments_from_text(r#"[{"text":"no times"}]"#).unwrap_err(), "segments not found in transcript json");
}

#[test]
fn decimal_text_parsing() {
    assert_eq!(parse_decimal("1.50"), Some(Seconds { units: 150, scale: 2 }));
    assert_eq!(parse_decimal("-3"), Some(Seconds { units: -3, scale: 0 }));
    assert_eq!(parse_decimal("0.0"), Some(Seconds { units: 0, scale: 1 }));
    assert_eq!(parse_decimal("1."), None);
    assert_eq!(parse_decimal(".5"), None);
    assert_eq!(parse_decimal("1e5"), Some(Seconds { units: 100000, scale: 0 }));
    assert_eq!(parse_decimal("2.5e-7"), Some(Seconds { units: 25, scale: 8 }));
    assert_eq!(parse_decimal("-1.5E+2"), Some(Seconds { units: -150, scale: 0 }));
    assert_eq!(parse_decimal("1e"), None);
    assert_eq!(parse_decimal("1e99999"), None);
    assert_eq!(parse_decimal("9e18"), Some(Seconds { units: 9_000_000_000_000_000_000, scale: 0 }));
    assert_eq!(parse_decimal("1e19"), None);
    assert_eq!(parse_decimal("99999999999999999999"), None);
}

#[test]
fn tiny_times_in_exponent_notation_are_read() {
    let raw = r#"[{"start":1e-7,"end":2.5e-6,"text":"a"}]"#;
    let s = segments_from_text(raw).unwrap();
    assert_eq!(s.len(), 1);
    assert!(same(s[0].start, Seconds { units: 1, scale: 7 }));
    assert!(same(s[0].end, Seconds { units: 25, scale: 7 }));
}

#[test]
fn segments_from_parsed_document() {
    let doc = voicenote::json::Json::Arr(vec![]);
    assert_eq!(voicenote::segments::segments_of_json(&doc).unwrap().len(), 0);
    let obj = voicenote::json::Json::Obj(vec![]);
    assert_eq!(voicenote::segments::segments_of_json(&obj).unwrap_err(), "segments not found in transcript json");
}
