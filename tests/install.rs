use voicenote::install::{
    content_length, ffmpeg_entries, ffmpeg_install_candidates, model_install_candidates,
    whisper_entry, whisper_install_candidates,
};

fn names(v: &[&str]) -> Vec<String> {
    v.iter().map(|s| s.to_string()).collect()
}

#[test]
fn engine_entry_by_suffix() {
    assert_eq!(whisper_entry(&names(&["README.md", "build/bin/whisper-cli", "main"])).unwrap(), 1);
    assert_eq!(whisper_entry(&names(&["main"])).unwrap(), 0);
    assert_eq!(whisper_entry(&names(&["x/domain"])).unwrap_err(), "Whisper binary not found in zip.");
}

#[test]
fn bundle_needs_both_tools() {
    let plan = ffmpeg_entries(&names(&["ffmpeg-7/ffmpeg", "doc.txt", "ffmpeg-7/ffprobe"])).unwrap();
    assert_eq!(plan, vec![(0, "bin/ffmpeg".to_string()), (2, "bin/ffprobe".to_string())]);
    let first = ffmpeg_entries(&names(&["a/ffprobe", "a/ffmpeg", "b/ffmpeg", "b/ffprobe"])).unwrap();
    assert_eq!(first, vec![(1, "bin/ffmpeg".to_string()), (0, "bin/ffprobe".to_string())]);
    assert_eq!(ffmpeg_entries(&names(&["ffprobe"])).unwrap_err(), "ffmpeg binary not found in zip.");
    assert_eq!(ffmpeg_entries(&names(&["ffmpeg"])).unwrap_err(), "ffprobe binary not found in zip.");
}

#[test]
fn content_length_values() {
    assert_eq!(content_length("1234"), Some(1234));
    assert_eq!(content_length("+7"), Some(7));
    assert_eq!(content_length("18446744073709551615"), Some(u64::MAX));
    assert_eq!(content_length("18446744073709551616"), None);
    assert_eq!(content_length(""), None);
    assert_eq!(content_length("12a"), None);
    assert_eq!(content_length("+"), None);
}

#[test]
fn installed_model_candidates() {
    let c = model_install_candidates("/Users/u/data/voicenote/models", &Some("/work".to_string()), "ggml-small.bin");
    assert_eq!(c[0], "/Users/u/data/voicenote/models/ggml-small.bin");
    assert_eq!(c[1], "third_party/whisper/models/ggml-small.bin");
    assert_eq!(c[2], "/work/third_party/whisper/models/ggml-small.bin");
    assert_eq!(c[3], "/Users/u/data/Resources/whisper/models/ggml-small.bin");
}

#[test]
fn installed_binary_candidates() {
    let w = whisper_install_candidates("/d/whisper", &None);
    assert_eq!(w, vec!["/d/whisper/bin/whisper", "/d/whisper/bin/main", "third_party/whisper/bin/whisper", "third_party/whisper/bin/main"]);
    let (bundle, single) = ffmpeg_install_candidates("/d/ffmpeg", &Some("/w".to_string()));
    assert_eq!(bundle, vec!["/d/ffmpeg/bin/ffmpeg", "/d/ffmpeg/bin/ffprobe"]);
    assert_eq!(single, vec!["third_party/ffmpeg/bin/ffmpeg", "/w/third_party/ffmpeg/bin/ffmpeg"]);
}
