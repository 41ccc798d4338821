use voicenote::config::AppConfig;
use voicenote::progress::{parse_progress_from_line, transcribe_progress_of};
use voicenote::text::{
    char_is_white, contains, ends_with, is_blank, replace_all, starts_with, str_eq, trim,
};

#[test]
fn trimming_and_blank_text() {
    assert_eq!(trim("  hi there \n"), "hi there");
    assert_eq!(trim(""), "");
    assert!(is_blank(" \t\n"));
    assert!(!is_blank(" x "));
}

#[test]
fn searching_text() {
    assert!(contains("abcabd", "abd"));
    assert!(!contains("abc", "abcd"));
    assert!(contains("abc", ""));
    assert!(ends_with("file.zip", ".zip"));
    assert!(starts_with("https://x", "https://"));
    assert!(str_eq("é", "é"));
    assert!(!str_eq("a", "b"));
    assert_eq!(replace_all("aaa", "aa", "b"), "ba");
}

#[test]
fn progress_from_output_lines() {
    assert_eq!(parse_progress_from_line("whisper_full: progress =  45%"), Some(4500));
    assert_eq!(parse_progress_from_line("done 12.5% of 100%"), Some(1250));
    assert_eq!(parse_progress_from_line("over 150%"), Some(10000));
    assert_eq!(parse_progress_from_line("neg -3%"), Some(0));
    assert_eq!(parse_progress_from_line("bad x% 7%"), Some(700));
    assert_eq!(parse_progress_from_line("no percentage"), None);
    assert_eq!(parse_progress_from_line("%"), None);
    assert_eq!(transcribe_progress_of(0), 300000);
    assert_eq!(transcribe_progress_of(5000), 600000);
    assert_eq!(transcribe_progress_of(10000), 900000);
}

#[test]
fn default_settings() {
    let c = AppConfig::default();
    assert!(!c.initialized);
    assert_eq!(c.model_size, "small");
    assert_eq!(c.language.as_deref(), Some("en"));
    assert!(c.enable_summarization && c.auto_summarize_after_transcription);
    assert_eq!(c.ollama_base_url, "http://127.0.0.1:11434");
    assert_eq!(c.inbox_poll_seconds, 10);
    let s = c.pipeline_settings();
    assert_eq!(s.model_size, "small");
    assert!(s.summarize);
}

#[test]
fn config_state_updates() {
    let mut st = voicenote::config::ConfigState { path: "/c.json".to_string(), config: AppConfig::default() };
    assert!(!st.is_initialized());
    let mut c = AppConfig::default();
    c.model_size = "tiny".to_string();
    let r = st.initialize(c);
    assert!(r.initialized);
    assert!(st.is_initialized());
    assert_eq!(st.config.model_size, "tiny");
    let r = st.update(AppConfig::default());
    assert!(!r.initialized);
}

#[test]
fn white_space_matches_std() {
    for u in 0u32..0x3100 {
        if let Some(c) = char::from_u32(u) {
            assert_eq!(char_is_white(c), c.is_whitespace(), "U+{u:04X}");
        }
    }
}
