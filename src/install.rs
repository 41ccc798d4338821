//! Installing downloaded artifacts: which archive entries hold the
//! binaries, the size a response announces, and where an installed
//! artifact may already be found.

use vstd::prelude::*;
use crate::paths::{join_path, joined, parent_of, path_parent};
use crate::progress::{all_digits, digit_of, digits_value, is_digit, min_nat};
use crate::text::{chars_of, ends_with, has_suffix, str_eq};

verus! {

/// An archive entry that holds the speech engine's binary, under any of
/// the names upstream releases have used.
pub open spec fn is_engine_entry(name: Seq<char>) -> bool {
    has_suffix(name, "/whisper"@) || has_suffix(name, "/main"@) || has_suffix(
        name,
        "/whisper-cli"@,
    ) || name == "whisper"@ || name == "main"@ || name == "whisper-cli"@
}

/// The index of the first entry from `i` on that `is_engine_entry` accepts.
pub open spec fn first_engine_entry(names: Seq<Seq<char>>, i: int) -> Option<int>
    decreases names.len() - i,
{
    if 0 <= i < names.len() {
        if is_engine_entry(names[i]) {
            Some(i)
        } else {
            first_engine_entry(names, i + 1)
        }
    } else {
        None
    }
}

/// The characters of each string.
pub open spec fn texts(v: Seq<String>) -> Seq<Seq<char>> {
    v.map_values(|s: String| s@)
}

/// The entry to extract as the speech engine; an error when the archive
/// holds none.
pub fn whisper_entry(names: &Vec<String>) -> (r: Result<usize, String>)
    ensures
        match first_engine_entry(texts(names@), 0) {
            Some(i) => r == Ok::<usize, String>(i as usize),
            None => r matches Err(m) && m@ == "Whisper binary not found in zip."@,
        },
{
    let mut i: usize = 0;
    while i < names.len()
        invariant
            i <= names@.len(),
            first_engine_entry(texts(names@), i as int) == first_engine_entry(texts(names@), 0),
        decreases names@.len() - i,
    {
        let n = names[i].as_str();
        assert(texts(names@)[i as int] == n@);
        if ends_with(n, "/whisper") || ends_with(n, "/main") || ends_with(n, "/whisper-cli")
            || str_eq(n, "whisper") || str_eq(n, "main") || str_eq(n, "whisper-cli") {
            return Ok(i);
        }
        i = i + 1;
    }
    Err("Whisper binary not found in zip.".to_owned())
}

/// An archive entry that holds the bundle's tool `tool`.
pub open spec fn is_tool_entry(name: Seq<char>, tool: Seq<char>) -> bool {
    has_suffix(name, "/"@ + tool) || name == tool
}

/// The index of the first entry from `i` on that holds `tool`.
pub open spec fn first_tool_entry(names: Seq<Seq<char>>, tool: Seq<char>, i: int) -> Option<int>
    decreases names.len() - i,
{
    if 0 <= i < names.len() {
        if is_tool_entry(names[i], tool) {
            Some(i)
        } else {
            first_tool_entry(names, tool, i + 1)
        }
    } else {
        None
    }
}

fn first_tool(names: &Vec<String>, tool: &str) -> (r: Option<usize>)
    ensures
        match r {
            Some(x) => first_tool_entry(texts(names@), tool@, 0) == Some(x as int),
            None => first_tool_entry(texts(names@), tool@, 0) is None,
        },
{
    let suffix = "/".to_owned().concat(tool);
    let mut i: usize = 0;
    while i < names.len()
        invariant
            i <= names@.len(),
            suffix@ == "/"@ + tool@,
            first_tool_entry(texts(names@), tool@, i as int) == first_tool_entry(
                texts(names@),
                tool@,
                0,
            ),
        decreases names@.len() - i,
    {
        let n = names[i].as_str();
        assert(texts(names@)[i as int] == n@);
        if ends_with(n, suffix.as_str()) || str_eq(n, tool) {
            return Some(i);
        }
        i = i + 1;
    }
    None
}

/// A plan with its paths as characters.
pub open spec fn plan_view(v: Seq<(usize, String)>) -> Seq<(int, Seq<char>)> {
    v.map_values(|e: (usize, String)| (e.0 as int, e.1@))
}

/// The entries to extract from a transcoder bundle: the first entry holding
/// the transcoder and the first holding its probe tool, with the paths they
/// go to under the install directory. Both must be present, or the install
/// fails as a whole.
pub fn ffmpeg_entries(names: &Vec<String>) -> (r: Result<Vec<(usize, String)>, String>)
    ensures
        match (
            first_tool_entry(texts(names@), "ffmpeg"@, 0),
            first_tool_entry(texts(names@), "ffprobe"@, 0),
        ) {
            (None, _) => r matches Err(m) && m@ == "ffmpeg binary not found in zip."@,
            (Some(_), None) => r matches Err(m) && m@ == "ffprobe binary not found in zip."@,
            (Some(a), Some(b)) => r matches Ok(v) && plan_view(v@) == seq![
                (a, "bin/ffmpeg"@),
                (b, "bin/ffprobe"@),
            ],
        },
{
    let a = match first_tool(names, "ffmpeg") {
        Some(a) => a,
        None => {
            return Err("ffmpeg binary not found in zip.".to_owned());
        },
    };
    let b = match first_tool(names, "ffprobe") {
        Some(b) => b,
        None => {
            return Err("ffprobe binary not found in zip.".to_owned());
        },
    };
    let mut out: Vec<(usize, String)> = Vec::new();
    out.push((a, "bin/ffmpeg".to_owned()));
    out.push((b, "bin/ffprobe".to_owned()));
    assert(plan_view(out@) =~= seq![(a as int, "bin/ffmpeg"@), (b as int, "bin/ffprobe"@)]);
    Ok(out)
}

/// The byte count a `Content-Length` header states: decimal digits,
/// optionally after a '+', that fit in `u64`.
pub open spec fn length_of(h: Seq<char>) -> Option<u64> {
    let d = if h.len() > 0 && h[0] == '+' {
        h.drop_first()
    } else {
        h
    };
    if d.len() > 0 && all_digits(d) && digits_value(d) <= u64::MAX {
        Some(digits_value(d) as u64)
    } else {
        None
    }
}

proof fn lemma_digits_saturate(p: Seq<char>, c: char, cap: nat)
    requires
        is_digit(c),
        cap >= 1,
    ensures
        digits_value(p.push(c)) == digits_value(p) * 10 + digit_of(c),
        min_nat(digits_value(p.push(c)), cap) == min_nat(
            min_nat(digits_value(p), cap) * 10 + digit_of(c),
            cap,
        ),
{
    assert(p.push(c).drop_last() =~= p);
    let v = digits_value(p);
    if v >= cap {
        assert(v * 10 >= cap * 10) by (nonlinear_arith)
            requires
                v >= cap,
        ;
    }
}

/// Reads a `Content-Length` header's value.
pub fn content_length(h: &str) -> (r: Option<u64>)
    ensures
        r == length_of(h@),
{
    let cs = chars_of(h);
    let start: usize = if cs.len() > 0 && cs[0] == '+' {
        1
    } else {
        0
    };
    let ghost d = if h@.len() > 0 && h@[0] == '+' {
        h@.drop_first()
    } else {
        h@
    };
    assert(d =~= cs@.subrange(start as int, cs@.len() as int));
    if start >= cs.len() {
        return None;
    }
    let cap: u128 = 0x10000000000000000;
    let mut acc: u128 = 0;
    let mut i = start;
    while i < cs.len()
        invariant
            start <= i <= cs@.len(),
            d == cs@.subrange(start as int, cs@.len() as int),
            d == (if h@.len() > 0 && h@[0] == '+' {
                h@.drop_first()
            } else {
                h@
            }),
            all_digits(cs@.subrange(start as int, i as int)),
            acc == min_nat(digits_value(cs@.subrange(start as int, i as int)), cap as nat),
            cap == 0x10000000000000000,
        decreases cs@.len() - i,
    {
        let c = cs[i];
        if !('0' <= c && c <= '9') {
            assert(d[i - start] == c);
            assert(!all_digits(d));
            return None;
        }
        proof {
            lemma_digits_saturate(cs@.subrange(start as int, i as int), c, cap as nat);
            assert(cs@.subrange(start as int, i as int).push(c) =~= cs@.subrange(
                start as int,
                i + 1,
            ));
        }
        let next = acc * 10 + ((c as u32) - ('0' as u32)) as u128;
        acc = if next >= cap {
            cap
        } else {
            next
        };
        i = i + 1;
    }
    if acc >= cap {
        return None;
    }
    Some(acc as u64)
}

/// Where an installed model file may be found, in order: the models
/// directory, the bundled third-party tree (relative and under `cwd`), and
/// the application bundle's resources.
pub fn model_install_candidates(models_dir: &str, cwd: &Option<String>, file: &str) -> (r: Vec<
    String,
>)
    ensures
        texts(r@) == seq![
            joined(models_dir@, file@),
            joined("third_party/whisper/models"@, file@),
        ] + match cwd {
            Some(c) => seq![joined(joined(c@, "third_party/whisper/models"@), file@)],
            None => Seq::empty(),
        } + match parent_of(models_dir@) {
            Some(p) => match parent_of(p) {
                Some(q) => seq![joined(joined(q, "Resources/whisper/models"@), file@)],
                None => Seq::empty(),
            },
            None => Seq::empty(),
        },
{
    let mut out: Vec<String> = Vec::new();
    out.push(join_path(models_dir, file));
    out.push(join_path("third_party/whisper/models", file));
    let ghost base = texts(out@);
    if let Some(c) = cwd {
        out.push(join_path(join_path(c.as_str(), "third_party/whisper/models").as_str(), file));
    }
    let ghost mid = texts(out@);
    if let Some(p) = path_parent(models_dir) {
        if let Some(q) = path_parent(p.as_str()) {
            out.push(join_path(join_path(q.as_str(), "Resources/whisper/models").as_str(), file));
        }
    }
    assert(texts(out@) =~= seq![
        joined(models_dir@, file@),
        joined("third_party/whisper/models"@, file@),
    ] + match cwd {
        Some(c) => seq![joined(joined(c@, "third_party/whisper/models"@), file@)],
        None => Seq::empty(),
    } + match parent_of(models_dir@) {
        Some(p) => match parent_of(p) {
            Some(q) => seq![joined(joined(q, "Resources/whisper/models"@), file@)],
            None => Seq::empty(),
        },
        None => Seq::empty(),
    });
    out
}

/// Where an installed speech-engine binary may be found; any one suffices.
pub fn whisper_install_candidates(whisper_dir: &str, cwd: &Option<String>) -> (r: Vec<String>)
    ensures
        texts(r@) == seq![
            joined(whisper_dir@, "bin/whisper"@),
            joined(whisper_dir@, "bin/main"@),
            "third_party/whisper/bin/whisper"@,
            "third_party/whisper/bin/main"@,
        ] + match cwd {
            Some(c) => seq![
                joined(c@, "third_party/whisper/bin/whisper"@),
                joined(c@, "third_party/whisper/bin/main"@),
            ],
            None => Seq::empty(),
        },
{
    let mut out: Vec<String> = Vec::new();
    out.push(join_path(whisper_dir, "bin/whisper"));
    out.push(join_path(whisper_dir, "bin/main"));
    out.push("third_party/whisper/bin/whisper".to_owned());
    out.push("third_party/whisper/bin/main".to_owned());
    if let Some(c) = cwd {
        out.push(join_path(c.as_str(), "third_party/whisper/bin/whisper"));
        out.push(join_path(c.as_str(), "third_party/whisper/bin/main"));
    }
    assert(texts(out@) =~= seq![
        joined(whisper_dir@, "bin/whisper"@),
        joined(whisper_dir@, "bin/main"@),
        "third_party/whisper/bin/whisper"@,
        "third_party/whisper/bin/main"@,
    ] + match cwd {
        Some(c) => seq![
            joined(c@, "third_party/whisper/bin/whisper"@),
            joined(c@, "third_party/whisper/bin/main"@),
        ],
        None => Seq::empty(),
    });
    out
}

/// Where an installed transcoder may be found: the installed bundle, whose
/// two tools must both be present, then single binaries, any one of which
/// suffices.
pub fn ffmpeg_install_candidates(ffmpeg_dir: &str, cwd: &Option<String>) -> (r: (
    Vec<String>,
    Vec<String>,
))
    ensures
        texts(r.0@) == seq![
            joined(ffmpeg_dir@, "bin/ffmpeg"@),
            joined(ffmpeg_dir@, "bin/ffprobe"@),
        ],
        texts(r.1@) == seq!["third_party/ffmpeg/bin/ffmpeg"@] + match cwd {
            Some(c) => seq![joined(c@, "third_party/ffmpeg/bin/ffmpeg"@)],
            None => Seq::empty(),
        },
{
    let mut bundle: Vec<String> = Vec::new();
    bundle.push(join_path(ffmpeg_dir, "bin/ffmpeg"));
    bundle.push(join_path(ffmpeg_dir, "bin/ffprobe"));
    let mut single: Vec<String> = Vec::new();
    single.push("third_party/ffmpeg/bin/ffmpeg".to_owned());
    if let Some(c) = cwd {
        single.push(join_path(c.as_str(), "third_party/ffmpeg/bin/ffmpeg"));
    }
    assert(texts(bundle@) =~= seq![
        joined(ffmpeg_dir@, "bin/ffmpeg"@),
        joined(ffmpeg_dir@, "bin/ffprobe"@),
    ]);
    assert(texts(single@) =~= seq!["third_party/ffmpeg/bin/ffmpeg"@] + match cwd {
        Some(c) => seq![joined(c@, "third_party/ffmpeg/bin/ffmpeg"@)],
        None => Seq::empty(),
    });
    (bundle, single)
}

} // verus!
