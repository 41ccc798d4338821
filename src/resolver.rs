//! Locating the transcoder, the speech engine and its model. The caller
//! supplies the directories and probes each candidate path; the resolver
//! lists the candidates in priority order and picks from the probes.

use vstd::prelude::*;
use crate::paths::{join_path, joined, parent_of, path_parent};
use crate::job::opt_view;
use crate::text::{contains, has_sub, occurs_at};

verus! {

/// What probing one candidate path found.
#[derive(Debug)]
pub struct Probe {
    /// The path exists.
    pub exists: bool,
    /// Up to its first four bytes, for a file that could be read.
    pub head: Vec<u8>,
}

/// A 32-bit word from four bytes, most significant first.
pub open spec fn word_be(b: Seq<u8>) -> int {
    b[0] * 0x1000000 + b[1] * 0x10000 + b[2] * 0x100 + b[3]
}

/// A 32-bit word from four bytes, least significant first.
pub open spec fn word_le(b: Seq<u8>) -> int {
    b[3] * 0x1000000 + b[2] * 0x10000 + b[1] * 0x100 + b[0]
}

/// A native-executable magic number (Mach-O thin and fat, either byte order).
pub open spec fn is_magic(w: int) -> bool {
    w == 0xFEEDFACE || w == 0xFEEDFACF || w == 0xCAFEBABE || w == 0xBEBAFECA || w == 0xCEFAEDFE
        || w == 0xCFFAEDFE
}

/// Leading bytes that mark a native executable.
pub open spec fn is_executable_head(b: Seq<u8>) -> bool {
    b.len() >= 4 && (is_magic(word_be(b)) || is_magic(word_le(b)))
}

fn magic(w: u64) -> (r: bool)
    ensures
        r == is_magic(w as int),
{
    w == 0xFEEDFACE || w == 0xFEEDFACF || w == 0xCAFEBABE || w == 0xBEBAFECA || w == 0xCEFAEDFE
        || w == 0xCFFAEDFE
}

/// Whether the leading bytes of a file mark it as a native executable;
/// placeholder files fail this.
pub fn is_macho_binary(head: &[u8]) -> (r: bool)
    ensures
        r == is_executable_head(head@),
{
    if head.len() < 4 {
        return false;
    }
    let b0 = head[0] as u64;
    let b1 = head[1] as u64;
    let b2 = head[2] as u64;
    let b3 = head[3] as u64;
    let be = b0 * 0x1000000 + b1 * 0x10000 + b2 * 0x100 + b3;
    let le = b3 * 0x1000000 + b2 * 0x10000 + b1 * 0x100 + b0;
    magic(be) || magic(le)
}

/// A usable binary: it exists and its leading bytes mark an executable.
pub open spec fn usable_binary(p: Probe) -> bool {
    p.exists && is_executable_head(p.head@)
}

/// The index of the first probe from `i` on that `ok` accepts.
pub open spec fn first_ok(probes: Seq<Probe>, binary: bool, i: int) -> Option<int>
    decreases probes.len() - i,
{
    if 0 <= i < probes.len() {
        if (binary && usable_binary(probes[i])) || (!binary && probes[i].exists) {
            Some(i)
        } else {
            first_ok(probes, binary, i + 1)
        }
    } else {
        None
    }
}

fn pick(probes: &Vec<Probe>, binary: bool) -> (r: Option<usize>)
    ensures
        match r {
            Some(i) => first_ok(probes@, binary, 0) == Some(i as int) && i < probes@.len(),
            None => first_ok(probes@, binary, 0) is None,
        },
{
    let mut i: usize = 0;
    while i < probes.len()
        invariant
            i <= probes@.len(),
            first_ok(probes@, binary, i as int) == first_ok(probes@, binary, 0),
        decreases probes@.len() - i,
    {
        let p = &probes[i];
        let ok = if binary {
            p.exists && is_macho_binary(p.head.as_slice())
        } else {
            p.exists
        };
        if ok {
            return Some(i);
        }
        i = i + 1;
    }
    None
}

/// The paths, one per line, each indented.
pub open spec fn listed(paths: Seq<Seq<char>>) -> Seq<char>
    decreases paths.len(),
{
    if paths.len() == 0 {
        Seq::empty()
    } else {
        listed(paths.drop_last()) + "\n  "@ + paths.last()
    }
}

fn list_paths(paths: &Vec<String>) -> (r: String)
    ensures
        r@ == listed(paths@.map_values(|s: String| s@)),
{
    let mut out = String::new();
    let mut k: usize = 0;
    while k < paths.len()
        invariant
            k <= paths@.len(),
            out@ == listed(paths@.subrange(0, k as int).map_values(|s: String| s@)),
        decreases paths@.len() - k,
    {
        let ghost before = paths@.subrange(0, k as int).map_values(|s: String| s@);
        out = out.concat("\n  ").concat(paths[k].as_str());
        k = k + 1;
        let ghost now = paths@.subrange(0, k as int).map_values(|s: String| s@);
        assert(now.drop_last() =~= before);
    }
    assert(paths@.subrange(0, k as int) =~= paths@);
    out
}

/// Every listed path occurs in the listing.
pub proof fn lemma_listed_contains(paths: Seq<Seq<char>>, k: int)
    requires
        0 <= k < paths.len(),
    ensures
        has_sub(listed(paths), paths[k]),
    decreases paths.len(),
{
    reveal_strlit("\n  ");
    let prev = listed(paths.drop_last());
    let whole = listed(paths);
    if k == paths.len() - 1 {
        let at = prev.len() as int + 3;
        assert(whole.subrange(at, at + paths[k].len()) =~= paths[k]);
        assert(occurs_at(whole, paths[k], at));
    } else {
        lemma_listed_contains(paths.drop_last(), k);
        let i = choose|i: int| occurs_at(prev, paths[k], i);
        assert(whole.subrange(i, i + paths[k].len()) =~= prev.subrange(i, i + paths[k].len()));
        assert(occurs_at(whole, paths[k], i));
    }
}

/// The engine's binary candidates, in priority order, for the given
/// directories (each absent when it cannot be determined).
pub open spec fn engine_binary_candidates(
    cwd: Option<Seq<char>>,
    resource_dir: Option<Seq<char>>,
    app_data_dir: Option<Seq<char>>,
    exe_dir: Option<Seq<char>>,
) -> Seq<Seq<char>> {
    seq!["third_party/whisper/bin/whisper"@, "third_party/whisper/bin/main"@]
        + match cwd {
        Some(d) => seq![
            joined(d, "third_party/whisper/bin/whisper"@),
            joined(d, "third_party/whisper/bin/main"@),
        ],
        None => Seq::empty(),
    } + match resource_dir {
        Some(d) => seq![joined(d, "whisper/bin/whisper"@), joined(d, "whisper/bin/main"@)],
        None => Seq::empty(),
    } + match app_data_dir {
        Some(d) => seq![
            joined(d, "voicenote/whisper/bin/whisper"@),
            joined(d, "voicenote/whisper/bin/main"@),
        ],
        None => Seq::empty(),
    } + match exe_dir {
        Some(d) => seq![joined(d, "whisper"@), joined(d, "main"@)],
        None => Seq::empty(),
    }
}

/// The directories the resolver searches, each absent when unknown.
#[derive(Debug)]
pub struct SearchDirs {
    pub cwd: Option<String>,
    pub resource_dir: Option<String>,
    pub app_data_dir: Option<String>,
    pub exe_dir: Option<String>,
}

impl SearchDirs {
    pub open spec fn engine_binaries(self) -> Seq<Seq<char>> {
        engine_binary_candidates(
            crate::job::opt_view(self.cwd),
            crate::job::opt_view(self.resource_dir),
            crate::job::opt_view(self.app_data_dir),
            crate::job::opt_view(self.exe_dir),
        )
    }
}

/// The characters of each string.
pub open spec fn texts(v: Seq<String>) -> Seq<Seq<char>> {
    v.map_values(|s: String| s@)
}

fn push_joined(out: &mut Vec<String>, dir: &Option<String>, a: &str, b: &str)
    ensures
        texts(final(out)@) == texts(old(out)@) + match dir {
            Some(d) => seq![joined(d@, a@), joined(d@, b@)],
            None => Seq::empty(),
        },
{
    let ghost before = texts(out@);
    match dir {
        Some(d) => {
            out.push(join_path(d.as_str(), a));
            out.push(join_path(d.as_str(), b));
            assert(texts(out@) =~= before + seq![joined(d@, a@), joined(d@, b@)]);
        },
        None => {
            assert(texts(out@) =~= before + Seq::<Seq<char>>::empty());
        },
    }
}

/// The speech engine's binary candidates, in priority order.
pub fn engine_binaries(dirs: &SearchDirs) -> (r: Vec<String>)
    ensures
        texts(r@) == dirs.engine_binaries(),
{
    let mut out: Vec<String> = Vec::new();
    out.push("third_party/whisper/bin/whisper".to_owned());
    out.push("third_party/whisper/bin/main".to_owned());
    push_joined(&mut out, &dirs.cwd, "third_party/whisper/bin/whisper", "third_party/whisper/bin/main");
    push_joined(&mut out, &dirs.resource_dir, "whisper/bin/whisper", "whisper/bin/main");
    push_joined(
        &mut out,
        &dirs.app_data_dir,
        "voicenote/whisper/bin/whisper",
        "voicenote/whisper/bin/main",
    );
    push_joined(&mut out, &dirs.exe_dir, "whisper", "main");
    assert(texts(out@) =~= dirs.engine_binaries());
    out
}

/// The engine's model candidates for model file `name`, in priority order.
pub open spec fn engine_model_candidates(dirs: SearchDirs, name: Seq<char>) -> Seq<Seq<char>> {
    seq!["third_party/whisper/models/"@ + name]
        + match opt_view(dirs.cwd) {
        Some(d) => seq![joined(d, "third_party/whisper/models/"@ + name)],
        None => Seq::empty(),
    } + match opt_view(dirs.resource_dir) {
        Some(d) => seq![joined(d, "whisper/models/"@ + name)],
        None => Seq::empty(),
    } + match opt_view(dirs.app_data_dir) {
        Some(d) => seq![joined(d, "voicenote/models/"@ + name)],
        None => Seq::empty(),
    } + match opt_view(dirs.exe_dir) {
        Some(d) => seq![joined(d, "../Resources/whisper/models/"@ + name)],
        None => Seq::empty(),
    }
}

fn push_one(out: &mut Vec<String>, dir: &Option<String>, a: &str)
    ensures
        texts(final(out)@) == texts(old(out)@) + match dir {
            Some(d) => seq![joined(d@, a@)],
            None => Seq::empty(),
        },
{
    let ghost before = texts(out@);
    match dir {
        Some(d) => {
            out.push(join_path(d.as_str(), a));
            assert(texts(out@) =~= before + seq![joined(d@, a@)]);
        },
        None => {
            assert(texts(out@) =~= before + Seq::<Seq<char>>::empty());
        },
    }
}

/// The model file name for a model size: `ggml-<size>.bin`.
pub open spec fn model_name_for(size: Seq<char>) -> Seq<char> {
    "ggml-"@ + size + ".bin"@
}

/// The speech engine's model candidates for `model_size`, in priority order.
pub fn engine_models(dirs: &SearchDirs, model_size: &str) -> (r: Vec<String>)
    ensures
        texts(r@) == engine_model_candidates(*dirs, model_name_for(model_size@)),
{
    let name = "ggml-".to_owned().concat(model_size).concat(".bin");
    let n = name.as_str();
    let mut out: Vec<String> = Vec::new();
    out.push("third_party/whisper/models/".to_owned().concat(n));
    push_one(&mut out, &dirs.cwd, "third_party/whisper/models/".to_owned().concat(n).as_str());
    push_one(&mut out, &dirs.resource_dir, "whisper/models/".to_owned().concat(n).as_str());
    push_one(&mut out, &dirs.app_data_dir, "voicenote/models/".to_owned().concat(n).as_str());
    push_one(&mut out, &dirs.exe_dir, "../Resources/whisper/models/".to_owned().concat(n).as_str());
    assert(texts(out@) =~= engine_model_candidates(*dirs, model_name_for(model_size@)));
    out
}

/// The failure message of the engine search: every probed path, then how
/// to provide the files.
pub open spec fn engine_missing_message(probed: Seq<Seq<char>>) -> Seq<char> {
    "Whisper binary/model not found. Probed:"@ + listed(probed)
        + "\nProvide whisper.cpp and a ggml-<size>.bin model there, or set VOICENOTE_WHISPER_PATH and VOICENOTE_WHISPER_MODEL."@
}

/// The failure message of the transcoder search: every probed path, then
/// how to provide the binary.
pub open spec fn transcoder_missing_message(probed: Seq<Seq<char>>) -> Seq<char> {
    "FFmpeg not found. Probed:"@ + listed(probed)
        + "\nProvide an LGPL build at ./third_party/ffmpeg/bin/ffmpeg or set VOICENOTE_FFMPEG_PATH."@
}

/// A failure message enumerates every path that was probed.
pub proof fn lemma_missing_lists_every_path(probed: Seq<Seq<char>>, k: int)
    requires
        0 <= k < probed.len(),
    ensures
        has_sub(engine_missing_message(probed), probed[k]),
        has_sub(transcoder_missing_message(probed), probed[k]),
{
    lemma_listed_contains(probed, k);
    let l = listed(probed);
    let i = choose|i: int| occurs_at(l, probed[k], i);
    let a = "Whisper binary/model not found. Probed:"@;
    let m1 = engine_missing_message(probed);
    assert(m1.subrange(a.len() + i, a.len() + i + probed[k].len()) =~= l.subrange(
        i,
        i + probed[k].len(),
    ));
    assert(occurs_at(m1, probed[k], a.len() + i));
    let b = "FFmpeg not found. Probed:"@;
    let m2 = transcoder_missing_message(probed);
    assert(m2.subrange(b.len() + i, b.len() + i + probed[k].len()) =~= l.subrange(
        i,
        i + probed[k].len(),
    ));
    assert(occurs_at(m2, probed[k], b.len() + i));
}

/// Picks the speech engine and model. An override (given only when both
/// of its paths exist) wins; otherwise the first usable binary and the
/// first existing model; failing either, an error listing every probed path.
pub fn select_engine(
    env_override: Option<(String, String)>,
    binaries: &Vec<String>,
    binary_probes: &Vec<Probe>,
    models: &Vec<String>,
    model_probes: &Vec<Probe>,
) -> (r: Result<(String, String), String>)
    requires
        binary_probes@.len() == binaries@.len(),
        model_probes@.len() == models@.len(),
    ensures
        match env_override {
            Some(o) => r == Ok::<(String, String), String>(o),
            None => match (first_ok(binary_probes@, true, 0), first_ok(model_probes@, false, 0)) {
                (Some(b), Some(m)) => r matches Ok((bin, model)) && bin@ == binaries@[b]@ && model@
                    == models@[m]@,
                _ => r matches Err(msg) && msg@ == engine_missing_message(
                    texts(binaries@) + texts(models@),
                ),
            },
        },
{
    if let Some(o) = env_override {
        return Ok(o);
    }
    match (pick(binary_probes, true), pick(model_probes, false)) {
        (Some(b), Some(m)) => Ok((binaries[b].clone(), models[m].clone())),
        _ => {
            let mut all: Vec<String> = Vec::new();
            let mut k: usize = 0;
            while k < binaries.len()
                invariant
                    k <= binaries@.len(),
                    texts(all@) == texts(binaries@.subrange(0, k as int)),
                decreases binaries@.len() - k,
            {
                let ghost prev = all@;
                all.push(binaries[k].clone());
                assert(all@ =~= prev.push(binaries@[k as int]));
                assert(binaries@.subrange(0, k + 1) =~= binaries@.subrange(0, k as int).push(
                    binaries@[k as int],
                ));
                assert(texts(all@) =~= texts(prev).push(binaries@[k as int]@));
                assert(texts(binaries@.subrange(0, k + 1)) =~= texts(
                    binaries@.subrange(0, k as int),
                ).push(binaries@[k as int]@));
                k = k + 1;
            }
            assert(binaries@.subrange(0, k as int) =~= binaries@);
            let mut j: usize = 0;
            while j < models.len()
                invariant
                    j <= models@.len(),
                    texts(all@) == texts(binaries@) + texts(models@.subrange(0, j as int)),
                decreases models@.len() - j,
            {
                let ghost prev = all@;
                all.push(models[j].clone());
                assert(all@ =~= prev.push(models@[j as int]));
                assert(models@.subrange(0, j + 1) =~= models@.subrange(0, j as int).push(
                    models@[j as int],
                ));
                assert(texts(all@) =~= texts(prev).push(models@[j as int]@));
                assert(texts(models@.subrange(0, j + 1)) =~= texts(
                    models@.subrange(0, j as int),
                ).push(models@[j as int]@));
                j = j + 1;
                assert(texts(all@) =~= texts(binaries@) + texts(models@.subrange(0, j as int)));
            }
            assert(models@.subrange(0, j as int) =~= models@);
            let msg = "Whisper binary/model not found. Probed:".to_owned().concat(
                list_paths(&all).as_str(),
            ).concat(
                "\nProvide whisper.cpp and a ggml-<size>.bin model there, or set VOICENOTE_WHISPER_PATH and VOICENOTE_WHISPER_MODEL.",
            );
            Err(msg)
        },
    }
}

/// `dir` and its ancestors, at most `n` of them, nearest first.
pub open spec fn ancestors(dir: Seq<char>, n: nat) -> Seq<Seq<char>>
    decreases n,
{
    if n == 0 {
        Seq::empty()
    } else {
        seq![dir] + match parent_of(dir) {
            Some(p) => ancestors(p, (n - 1) as nat),
            None => Seq::empty(),
        }
    }
}

/// The transcoder's location under a directory.
pub open spec fn bundled_transcoder(dir: Seq<char>) -> Seq<char> {
    joined(dir, "third_party/ffmpeg/bin/ffmpeg"@)
}

/// The transcoder candidates, in priority order.
pub open spec fn transcoder_candidates(dirs: SearchDirs) -> Seq<Seq<char>> {
    (match opt_view(dirs.cwd) {
        Some(d) => seq![bundled_transcoder(d)] + ancestors(d, 4).map_values(
            |a: Seq<char>| bundled_transcoder(a),
        ),
        None => Seq::empty(),
    }) + match opt_view(dirs.resource_dir) {
        Some(d) => seq![
            joined(d, "ffmpeg/bin/ffmpeg"@),
            joined(d, "resources/ffmpeg/bin/ffmpeg"@),
            joined(d, "third_party/ffmpeg/bin/ffmpeg"@),
        ],
        None => Seq::empty(),
    } + match opt_view(dirs.app_data_dir) {
        Some(d) => seq![joined(d, "voicenote/ffmpeg/bin/ffmpeg"@)],
        None => Seq::empty(),
    } + match opt_view(dirs.exe_dir) {
        Some(d) => seq![
            joined(d, "../Resources/ffmpeg/bin/ffmpeg"@),
            joined(d, "../Resources/resources/ffmpeg/bin/ffmpeg"@),
            joined(d, "../Resources/third_party/ffmpeg/bin/ffmpeg"@),
        ],
        None => Seq::empty(),
    }
}

/// The transcoder candidates, in priority order.
pub fn transcoder_paths(dirs: &SearchDirs) -> (r: Vec<String>)
    ensures
        texts(r@) == transcoder_candidates(*dirs),
{
    let mut out: Vec<String> = Vec::new();
    match &dirs.cwd {
        Some(d) => {
            out.push(join_path(d.as_str(), "third_party/ffmpeg/bin/ffmpeg"));
            let mut cursor: Option<String> = Some(d.clone());
            let mut i: usize = 0;
            assert(texts(out@) =~= seq![bundled_transcoder(d@)]);
            while i < 4
                invariant
                    i <= 4,
                    texts(out@) + match opt_view(cursor) {
                        Some(c) => ancestors(c, (4 - i) as nat).map_values(
                            |a: Seq<char>| bundled_transcoder(a),
                        ),
                        None => Seq::empty(),
                    } == seq![bundled_transcoder(d@)] + ancestors(d@, 4).map_values(
                        |a: Seq<char>| bundled_transcoder(a),
                    ),
                decreases 4 - i,
            {
                let ghost before = texts(out@);
                match cursor {
                    Some(dir) => {
                        let next = path_parent(dir.as_str());
                        out.push(join_path(dir.as_str(), "third_party/ffmpeg/bin/ffmpeg"));
                        let ghost rest = match opt_view(next) {
                            Some(c) => ancestors(c, (4 - i - 1) as nat),
                            None => Seq::empty(),
                        };
                        assert(ancestors(dir@, (4 - i) as nat) == seq![dir@] + rest);
                        assert((seq![dir@] + rest).map_values(|a: Seq<char>| bundled_transcoder(a))
                            =~= seq![bundled_transcoder(dir@)] + rest.map_values(
                            |a: Seq<char>| bundled_transcoder(a),
                        ));
                        assert(texts(out@) =~= before.push(bundled_transcoder(dir@)));
                        cursor = next;
                    },
                    None => {},
                }
                i = i + 1;
            }
            assert(texts(out@) =~= seq![bundled_transcoder(d@)] + ancestors(d@, 4).map_values(
                |a: Seq<char>| bundled_transcoder(a),
            )) by {
                if cursor is Some {
                    assert(ancestors(opt_view(cursor).unwrap(), 0) =~= Seq::<Seq<char>>::empty());
                }
            }
        },
        None => {
            assert(texts(out@) =~= Seq::<Seq<char>>::empty());
        },
    }
    let ghost after_cwd = texts(out@);
    let ghost res_part: Seq<Seq<char>> = match opt_view(dirs.resource_dir) {
        Some(d) => seq![
            joined(d, "ffmpeg/bin/ffmpeg"@),
            joined(d, "resources/ffmpeg/bin/ffmpeg"@),
            joined(d, "third_party/ffmpeg/bin/ffmpeg"@),
        ],
        None => Seq::empty(),
    };
    match &dirs.resource_dir {
        Some(d) => {
            out.push(join_path(d.as_str(), "ffmpeg/bin/ffmpeg"));
            out.push(join_path(d.as_str(), "resources/ffmpeg/bin/ffmpeg"));
            out.push(join_path(d.as_str(), "third_party/ffmpeg/bin/ffmpeg"));
        },
        None => {},
    }
    assert(texts(out@) =~= after_cwd + res_part);
    let ghost after_res = texts(out@);
    push_one(&mut out, &dirs.app_data_dir, "voicenote/ffmpeg/bin/ffmpeg");
    let ghost before_exe = texts(out@);
    let ghost exe_part: Seq<Seq<char>> = match opt_view(dirs.exe_dir) {
        Some(d) => seq![
            joined(d, "../Resources/ffmpeg/bin/ffmpeg"@),
            joined(d, "../Resources/resources/ffmpeg/bin/ffmpeg"@),
            joined(d, "../Resources/third_party/ffmpeg/bin/ffmpeg"@),
        ],
        None => Seq::empty(),
    };
    match &dirs.exe_dir {
        Some(d) => {
            out.push(join_path(d.as_str(), "../Resources/ffmpeg/bin/ffmpeg"));
            out.push(join_path(d.as_str(), "../Resources/resources/ffmpeg/bin/ffmpeg"));
            out.push(join_path(d.as_str(), "../Resources/third_party/ffmpeg/bin/ffmpeg"));
        },
        None => {},
    }
    assert(texts(out@) =~= before_exe + exe_part);
    assert(texts(out@) =~= transcoder_candidates(*dirs));
    out
}

/// Picks the transcoder: an override that exists wins, else the first
/// candidate that exists and whose leading bytes mark an executable; failing that, an error listing every probed path.
pub fn select_transcoder(env_override: Option<String>, candidates: &Vec<String>, probes: &Vec<
    Probe,
>) -> (r: Result<String, String>)
    requires
        probes@.len() == candidates@.len(),
    ensures
        match env_override {
            Some(o) => r == Ok::<String, String>(o),
            None => match first_ok(probes@, true, 0) {
                Some(i) => r matches Ok(p) && p@ == candidates@[i]@,
                None => r matches Err(msg) && msg@ == transcoder_missing_message(
                    texts(candidates@),
                ),
            },
        },
{
    if let Some(o) = env_override {
        return Ok(o);
    }
    match pick(probes, true) {
        Some(i) => Ok(candidates[i].clone()),
        None => Err(
            "FFmpeg not found. Probed:".to_owned().concat(list_paths(candidates).as_str()).concat(
                "\nProvide an LGPL build at ./third_party/ffmpeg/bin/ffmpeg or set VOICENOTE_FFMPEG_PATH.",
            ),
        ),
    }
}

/// A version banner that shows a build configured with GPL or non-free parts.
pub open spec fn license_violation(banner: Seq<char>) -> bool {
    has_sub(banner, "--enable-gpl"@) || has_sub(banner, "--enable-nonfree"@)
}

/// Accepts the transcoder at `path` unless its version banner shows a
/// GPL or non-free build, which may not be redistributed.
pub fn ensure_lgpl_ffmpeg(path: String, banner: &str) -> (r: Result<String, String>)
    ensures
        license_violation(banner@) ==> (r matches Err(m)
            && m@ == "FFmpeg build contains GPL/nonfree flags; please use LGPL build."@),
        !license_violation(banner@) ==> r == Ok::<String, String>(path),
{
    if contains(banner, "--enable-gpl") || contains(banner, "--enable-nonfree") {
        return Err("FFmpeg build contains GPL/nonfree flags; please use LGPL build.".to_owned());
    }
    Ok(path)
}

} // verus!
