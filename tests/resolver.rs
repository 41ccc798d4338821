use voicenote::resolver::{
    engine_binaries, engine_models, ensure_lgpl_ffmpeg, is_macho_binary, select_engine,
    select_transcoder, transcoder_paths, Probe, SearchDirs,
};

fn missing(n: usize) -> Vec<Probe> {
    (0..n).map(|_| Probe { exists: false, head: Vec::new() }).collect()
}

fn dirs() -> SearchDirs {
    SearchDirs {
        cwd: Some("/work".to_string()),
        resource_dir: Some("/app/res".to_string()),
        app_data_dir: Some("/home/u/data".to_string()),
        exe_dir: Some("/app/bin".to_string()),
    }
}

#[test]
fn empty_search_lists_every_probed_path() {
    let d = dirs();
    let bins = engine_binaries(&d);
    let models = engine_models(&d, "small");
    assert_eq!(bins.len(), 10);
    assert_eq!(models.len(), 5);
    let err = select_engine(None, &bins, &missing(bins.len()), &models, &missing(models.len())).unwrap_err();
    for p in bins.iter().chain(models.iter()) {
        assert!(err.contains(p.as_str()), "{p} missing from {err}");
    }
    assert!(err.starts_with("Whisper binary/model not found."));
    let t = transcoder_paths(&d);
    let err = select_transcoder(None, &t, &missing(t.len())).unwrap_err();
    for p in &t {
        assert!(err.contains(p.as_str()));
    }
    assert!(err.starts_with("FFmpeg not found."));
}

#[test]
fn candidate_paths_in_priority_order() {
    let d = dirs();
    let bins = engine_binaries(&d);
    assert_eq!(bins[0], "third_party/whisper/bin/whisper");
    assert_eq!(bins[2], "/work/third_party/whisper/bin/whisper");
    assert_eq!(bins[9], "/app/bin/main");
    let models = engine_models(&d, "small");
    assert_eq!(models[0], "third_party/whisper/models/ggml-small.bin");
    assert_eq!(models[3], "/home/u/data/voicenote/models/ggml-small.bin");
    let t = transcoder_paths(&d);
    assert_eq!(t[0], "/work/third_party/ffmpeg/bin/ffmpeg");
    assert_eq!(t[1], "/work/third_party/ffmpeg/bin/ffmpeg");
    assert_eq!(t[2], "/third_party/ffmpeg/bin/ffmpeg");
    assert_eq!(t.len(), 10);
    let none = SearchDirs { cwd: None, resource_dir: None, app_data_dir: None, exe_dir: None };
    assert_eq!(engine_binaries(&none).len(), 2);
    assert_eq!(transcoder_paths(&none).len(), 0);
}

#[test]
fn first_valid_binary_and_existing_model_win() {
    let bins = vec!["a".to_string(), "b".to_string(), "c".to_string()];
    let models = vec!["m1".to_string(), "m2".to_string()];
    let bp = vec![
        Probe { exists: true, head: b"stub".to_vec() },
        Probe { exists: true, head: vec![0xCF, 0xFA, 0xED, 0xFE] },
        Probe { exists: true, head: vec![0xFE, 0xED, 0xFA, 0xCF] },
    ];
    let mp = vec![Probe { exists: false, head: Vec::new() }, Probe { exists: true, head: Vec::new() }];
    let (b, m) = select_engine(None, &bins, &bp, &models, &mp).unwrap();
    assert_eq!(b, "b");
    assert_eq!(m, "m2");
    let o = select_engine(Some(("x".to_string(), "y".to_string())), &bins, &bp, &models, &mp).unwrap();
    assert_eq!(o, ("x".to_string(), "y".to_string()));
}

#[test]
fn executable_magic_numbers() {
    assert!(is_macho_binary(&[0xFE, 0xED, 0xFA, 0xCF]));
    assert!(is_macho_binary(&[0xCF, 0xFA, 0xED, 0xFE]));
    assert!(is_macho_binary(&[0xCA, 0xFE, 0xBA, 0xBE, 0x00]));
    assert!(!is_macho_binary(&[0x7F, b'E', b'L', b'F']));
    assert!(!is_macho_binary(b"#!/b"));
    assert!(!is_macho_binary(&[0xFE, 0xED, 0xFA]));
}

#[test]
fn license_flags_are_refused() {
    let ok = ensure_lgpl_ffmpeg("/x/ffmpeg".to_string(), "ffmpeg version 6 configuration: --enable-shared");
    assert_eq!(ok.unwrap(), "/x/ffmpeg");
    let bad = ensure_lgpl_ffmpeg("/x/ffmpeg".to_string(), "configuration: --enable-gpl --enable-libx264");
    assert_eq!(bad.unwrap_err(), "FFmpeg build contains GPL/nonfree flags; please use LGPL build.");
    assert!(ensure_lgpl_ffmpeg("p".to_string(), "--enable-nonfree").is_err());
}

#[test]
fn transcoder_override_and_first_existing() {
    let t = vec!["a".to_string(), "b".to_string(), "c".to_string()];
    let p = vec![
        Probe { exists: false, head: Vec::new() },
        Probe { exists: true, head: b"#!/b".to_vec() },
        Probe { exists: true, head: vec![0xCF, 0xFA, 0xED, 0xFE] },
    ];
    assert_eq!(select_transcoder(None, &t, &p).unwrap(), "c");
    assert_eq!(select_transcoder(Some("/env/ffmpeg".to_string()), &t, &p).unwrap(), "/env/ffmpeg");
}
