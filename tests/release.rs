use voicenote::release::{
    decimal_string, extract_latest_tag, find_release_link, generate_job_id, github_repo_from_api,
    is_macos_arm_asset, is_zip_url, model_filename, model_url, now_ts, unix_timestamp_string,
};
use voicenote::release_url::{Fetched, LatestRelease, LatestStep, ResolveRequest, UrlResolution};

fn ok(body: &str) -> Fetched {
    Fetched::Response { success: true, status: "200 OK".to_string(), body: body.to_string() }
}

fn not_found() -> Fetched {
    Fetched::Response { success: false, status: "404 Not Found".to_string(), body: "nope".to_string() }
}

#[test]
fn transcoder_url_checks() {
    assert_eq!(
        voicenote::release::ffmpeg_download_url("  ").unwrap_err(),
        "FFmpeg download URL is empty."
    );
    assert_eq!(
        voicenote::release::ffmpeg_download_url("http://x/ffmpeg.zip").unwrap(),
        "https://x/ffmpeg.zip"
    );
}

#[test]
fn model_names_and_urls() {
    assert_eq!(model_filename("tiny").unwrap(), "ggml-tiny.bin");
    assert_eq!(model_filename("large-v3").unwrap(), "ggml-large-v3.bin");
    assert_eq!(
        model_filename("huge").unwrap_err(),
        "Unknown model size: huge. Expected tiny/base/small/medium/large-v3."
    );
    assert_eq!(
        model_url("small").unwrap(),
        "https://huggingface.co/ggerganov/whisper.cpp/resolve/main/ggml-small.bin?download=true"
    );
    assert!(model_url("x").is_err());
}

#[test]
fn repo_page_from_api_url() {
    assert_eq!(
        github_repo_from_api("https://api.github.com/repos/ggml-org/whisper.cpp/releases/latest").as_deref(),
        Some("https://github.com/ggml-org/whisper.cpp")
    );
    assert_eq!(github_repo_from_api("https://api.github.com/repos/owner").as_deref(), None);
    assert_eq!(github_repo_from_api("https://api.github.com/repos/o/").as_deref(), Some("https://github.com/o/"));
    assert_eq!(github_repo_from_api("https://example.com/x"), None);
}

#[test]
fn asset_name_heuristic() {
    assert!(is_macos_arm_asset("whisper-cpp-1.7.1-macOS-ARM64.zip"));
    assert!(is_macos_arm_asset("tool-aarch64-apple-darwin.zip"));
    assert!(!is_macos_arm_asset("whisper-cpp-1.7.1-macos-x64.zip"));
    assert!(!is_macos_arm_asset("whisper-arm64-linux.zip"));
    assert!(!is_macos_arm_asset("whisper-arm64-macos.tar.gz"));
    assert!(is_zip_url("https://x/FFMPEG.ZIP"));
    assert!(!is_zip_url("https://x/ffmpeg"));
}

#[test]
fn latest_tag_from_page() {
    let html = r#"<a href="/o/r/releases/tag/"></a><a href="/o/r/releases/tag/v1.7.4">v1.7.4</a>"#;
    assert_eq!(extract_latest_tag(html).as_deref(), Some("v1.7.4"));
    assert_eq!(extract_latest_tag("no tags here"), None);
    assert_eq!(extract_latest_tag("x/releases/tag/abc?x=1").as_deref(), Some("abc"));
}

#[test]
fn release_links_prefer_matching_asset() {
    let html = r#"<a href="/o/r/releases/download/v1/linux.zip">l</a><a href="/o/r/releases/download/v1/macos-arm64.zip">m</a>"#;
    assert_eq!(
        find_release_link(html).as_deref(),
        Some("https://github.com/releases/download/v1/macos-arm64.zip")
    );
    let only = r#"<a href="/o/r/releases/download/v1/linux.zip">l</a>"#;
    assert_eq!(find_release_link(only).as_deref(), Some("https://github.com/releases/download/v1/linux.zip"));
    assert_eq!(find_release_link("nothing"), None);
}

#[test]
fn decimal_text_and_ids() {
    assert_eq!(decimal_string(0), "0");
    assert_eq!(decimal_string(1234567890), "1234567890");
    assert_eq!(decimal_string(u64::MAX), "18446744073709551615");
    let id = generate_job_id(42);
    assert!(id.starts_with("job_"));
    assert!(id.ends_with("_42"));
    let ts = unix_timestamp_string();
    assert!(ts.chars().all(|c| c.is_ascii_digit()));
    assert!(now_ts() > 1_600_000_000);
}

#[test]
fn direct_asset_url_is_used_as_is() {
    let (_, req) = UrlResolution::start("  http://example.com/whisper.zip ");
    match req {
        ResolveRequest::Finished { result: Ok(u) } => assert_eq!(u, "https://example.com/whisper.zip"),
        _ => panic!("expected a direct URL"),
    }
    let (_, req) = UrlResolution::start("   ");
    match req {
        ResolveRequest::Finished { result: Err(m) } => assert_eq!(m, "Whisper download URL is empty."),
        _ => panic!("expected an error"),
    }
}

#[test]
fn release_page_resolves_through_api_asset() {
    let (mut r, req) = UrlResolution::start("https://github.com/o/r/releases/latest");
    match req {
        ResolveRequest::FetchApi { url } => assert_eq!(url, "https://api.github.com/repos/o/r/releases/latest"),
        _ => panic!("expected an API query"),
    }
    let body = r#"{"assets":[{"name":"r-linux.zip","browser_download_url":"https://d/l.zip"},{"name":"r-macos-arm64.zip","browser_download_url":"https://d/m.zip"}]}"#;
    match r.on_api(ok(body)) {
        ResolveRequest::Finished { result: Ok(u) } => assert_eq!(u, "https://d/m.zip"),
        _ => panic!("expected the matching asset"),
    }
}

#[test]
fn api_failure_falls_back_to_page_then_probes() {
    let (mut r, _) = UrlResolution::start("https://github.com/o/r/releases/latest");
    match r.on_api(Fetched::Unreachable { error: "offline".to_string() }) {
        ResolveRequest::FetchPage { url } => assert_eq!(url, "https://github.com/o/r/releases/latest"),
        _ => panic!("expected the page"),
    }
    let page = r#"<a href="/o/r/releases/tag/v1.2.3">v1.2.3</a>"#;
    match r.on_page(ok(page)) {
        ResolveRequest::Probe { url } => assert_eq!(
            url,
            "https://github.com/o/r/releases/download/v1.2.3/whisper-cpp-1.2.3-macos-arm64-metal.zip"
        ),
        _ => panic!("expected a probe"),
    }
    match r.on_probe(false) {
        ResolveRequest::Probe { url } => assert_eq!(
            url,
            "https://github.com/o/r/releases/download/v1.2.3/whisper-cpp-v1.2.3-macos-arm64-metal.zip"
        ),
        _ => panic!("expected the next probe"),
    }
    match r.on_probe(true) {
        ResolveRequest::Finished { result: Ok(u) } => assert!(u.ends_with("whisper-cpp-v1.2.3-macos-arm64-metal.zip")),
        _ => panic!("expected success"),
    }
}

#[test]
fn all_probes_missing_fails_with_hint() {
    let (mut r, _) = UrlResolution::start("https://github.com/o/r/releases/latest");
    r.on_api(not_found());
    r.on_page(ok("see /o/r/releases/tag/v2 here"));
    let mut last = None;
    for _ in 0..8 {
        last = Some(r.on_probe(false));
        if matches!(last, Some(ResolveRequest::Finished { .. })) {
            break;
        }
    }
    match last {
        Some(ResolveRequest::Finished { result: Err(m) }) => assert!(m.contains("Paste a direct .zip asset URL")),
        _ => panic!("expected failure after the last probe"),
    }
}

#[test]
fn api_failures_fall_back_to_the_page() {
    let (mut r, req) = UrlResolution::start("https://github.com/o/r/releases/tag/v1");
    assert!(matches!(req, ResolveRequest::FetchApi { .. }));
    match r.on_api(not_found()) {
        ResolveRequest::FetchPage { url } => assert_eq!(url, "https://github.com/o/r/releases/latest"),
        _ => panic!("expected the page after an API error"),
    }
    let (mut r2, _) = UrlResolution::start("https://github.com/o/r/releases/latest");
    assert!(matches!(r2.on_api(ok("{not json")), ResolveRequest::FetchPage { .. }));
    let (mut r3, req3) = UrlResolution::start("https://github.com/o/r/releases");
    match req3 {
        ResolveRequest::FetchApi { url } => assert_eq!(url, "https://api.github.com/repos/o/r/releases"),
        _ => panic!(),
    }
    assert!(matches!(r3.on_api(ok("[]")), ResolveRequest::FetchPage { .. }));
    match r3.on_page(Fetched::Unreachable { error: "offline".to_string() }) {
        ResolveRequest::Finished { result: Err(m) } => assert!(m.contains("Paste a direct .zip asset URL")),
        _ => panic!(),
    }
}

#[test]
fn latest_release_lookup_moves_through_sources() {
    let (mut l, step) = LatestRelease::start();
    match step {
        LatestStep::Fetch { url } => assert!(url.contains("bizenlabs")),
        _ => panic!(),
    }
    match l.on_fetched(not_found()) {
        LatestStep::Fetch { url } => assert_eq!(url, "https://api.github.com/repos/ggml-org/whisper.cpp/releases/latest"),
        _ => panic!(),
    }
    match l.on_fetched(ok(r#"{"assets":[]}"#)) {
        LatestStep::Fetch { url } => assert_eq!(url, "https://api.github.com/repos/ggml-org/whisper.cpp/releases"),
        _ => panic!(),
    }
    let list = r#"[{"assets":[{"name":"whisper-bin-arm64.zip","browser_download_url":"https://d/w.zip"}]}]"#;
    match l.on_fetched(ok(list)) {
        LatestStep::Finished { result: Ok(u) } => assert_eq!(u, "https://d/w.zip"),
        _ => panic!(),
    }
}

#[test]
fn latest_release_errors() {
    let (mut l, _) = LatestRelease::start();
    match l.on_fetched(ok("<html>")) {
        LatestStep::Finished { result: Err(m) } => assert!(m.starts_with("Invalid GitHub response: ")),
        _ => panic!(),
    }
    let (mut l2, _) = LatestRelease::start();
    match l2.on_fetched(ok(r#"{"assets":[{"name":"x-linux.zip","browser_download_url":"u"}]}"#)) {
        LatestStep::Finished { result: Err(m) } => assert_eq!(m, "No macOS arm64 zip asset found in latest release."),
        _ => panic!(),
    }
}

#[test]
fn direct_release_asset_is_not_rewritten() {
    let (_, req) = UrlResolution::start("http://github.com/o/r/releases/download/v1/whisper-macos-arm64.ZIP");
    match req {
        ResolveRequest::Finished { result: Ok(u) } => {
            assert_eq!(u, "https://github.com/o/r/releases/download/v1/whisper-macos-arm64.ZIP")
        }
        _ => panic!("a direct asset needs no request"),
    }
}

#[test]
fn clip_names() {
    assert_eq!(voicenote::paths::clip_file_name(1500, 3200), "clip_1500_3200.wav");
}
