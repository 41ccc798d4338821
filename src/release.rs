//! Artifact names and locations: model files, status keys, release pages
//! and the assets they link to.

use vstd::prelude::*;
use crate::text::{
    chars_of, find_from, find_spec, has_sub, has_suffix, lowercase, lower_of, occurs_at,
    str_eq, string_of, contains, ends_with,
};
use crate::progress::slice_chars;

verus! {

/// The model file for a known model size.
pub open spec fn model_file_of(size: Seq<char>) -> Option<Seq<char>> {
    if size == "tiny"@ {
        Some("ggml-tiny.bin"@)
    } else if size == "base"@ {
        Some("ggml-base.bin"@)
    } else if size == "small"@ {
        Some("ggml-small.bin"@)
    } else if size == "medium"@ {
        Some("ggml-medium.bin"@)
    } else if size == "large-v3"@ {
        Some("ggml-large-v3.bin"@)
    } else {
        None
    }
}

/// The message for an unknown model size.
pub open spec fn unknown_size_message(size: Seq<char>) -> Seq<char> {
    "Unknown model size: "@ + size + ". Expected tiny/base/small/medium/large-v3."@
}

/// The model file name for `model_size`; an error for an unknown size.
pub fn model_filename(model_size: &str) -> (r: Result<String, String>)
    ensures
        match model_file_of(model_size@) {
            Some(f) => r matches Ok(name) && name@ == f,
            None => r matches Err(m) && m@ == unknown_size_message(model_size@),
        },
{
    if str_eq(model_size, "tiny") {
        Ok("ggml-tiny.bin".to_owned())
    } else if str_eq(model_size, "base") {
        Ok("ggml-base.bin".to_owned())
    } else if str_eq(model_size, "small") {
        Ok("ggml-small.bin".to_owned())
    } else if str_eq(model_size, "medium") {
        Ok("ggml-medium.bin".to_owned())
    } else if str_eq(model_size, "large-v3") {
        Ok("ggml-large-v3.bin".to_owned())
    } else {
        Err(
            "Unknown model size: ".to_owned().concat(model_size).concat(
                ". Expected tiny/base/small/medium/large-v3.",
            ),
        )
    }
}

/// The download location of a model file.
pub open spec fn model_url_of(file: Seq<char>) -> Seq<char> {
    "https://huggingface.co/ggerganov/whisper.cpp/resolve/main/"@ + file + "?download=true"@
}

/// The download URL for `model_size`; an error for an unknown size.
pub fn model_url(model_size: &str) -> (r: Result<String, String>)
    ensures
        match model_file_of(model_size@) {
            Some(f) => r matches Ok(u) && u@ == model_url_of(f),
            None => r matches Err(m) && m@ == unknown_size_message(model_size@),
        },
{
    let filename = model_filename(model_size)?;
    Ok(
        "https://huggingface.co/ggerganov/whisper.cpp/resolve/main/".to_owned().concat(
            filename.as_str(),
        ).concat("?download=true"),
    )
}

/// The status key of the speech-engine binary.
pub fn whisper_binary_status_key() -> (r: String)
    ensures
        r@ == "whisper-binary"@,
{
    "whisper-binary".to_owned()
}

/// The status key of the transcoder bundle.
pub fn ffmpeg_status_key() -> (r: String)
    ensures
        r@ == "ffmpeg"@,
{
    "ffmpeg".to_owned()
}

/// The decimal digit character for `d < 10`.
pub open spec fn digit_char(d: nat) -> char {
    if d == 0 {
        '0'
    } else if d == 1 {
        '1'
    } else if d == 2 {
        '2'
    } else if d == 3 {
        '3'
    } else if d == 4 {
        '4'
    } else if d == 5 {
        '5'
    } else if d == 6 {
        '6'
    } else if d == 7 {
        '7'
    } else if d == 8 {
        '8'
    } else {
        '9'
    }
}

/// The decimal text of `n`, without leading zeros.
pub open spec fn decimal_of(n: nat) -> Seq<char>
    decreases n,
{
    if n < 10 {
        seq![digit_char(n)]
    } else {
        decimal_of(n / 10) + seq![digit_char(n % 10)]
    }
}

fn digit_char_of(d: u64) -> (r: char)
    requires
        d < 10,
    ensures
        r == digit_char(d as nat),
{
    if d == 0 {
        '0'
    } else if d == 1 {
        '1'
    } else if d == 2 {
        '2'
    } else if d == 3 {
        '3'
    } else if d == 4 {
        '4'
    } else if d == 5 {
        '5'
    } else if d == 6 {
        '6'
    } else if d == 7 {
        '7'
    } else if d == 8 {
        '8'
    } else {
        '9'
    }
}

/// The decimal text of `n`.
pub fn decimal_string(n: u64) -> (r: String)
    ensures
        r@ == decimal_of(n as nat),
{
    let mut q = n;
    let mut out: Vec<char> = Vec::new();
    assert(decimal_of(n as nat) + out@ =~= decimal_of(n as nat));
    loop
        invariant_except_break
            decimal_of(n as nat) == decimal_of(q as nat) + out@,
        ensures
            decimal_of(n as nat) == out@,
        decreases q,
    {
        let d = q % 10;
        let c = digit_char_of(d);
        let ghost before = out@;
        out.insert(0, c);
        assert(out@ =~= seq![c] + before);
        if q < 10 {
            assert(decimal_of(q as nat) == seq![c]);
            break;
        }
        let ghost q0 = q;
        q = q / 10;
        assert(decimal_of(q0 as nat) == decimal_of(q as nat) + seq![c]);
        assert(decimal_of(n as nat) =~= decimal_of(q as nat) + out@);
    }
    string_of(out.as_slice())
}

/// Relies on `SystemTime::now` and `UNIX_EPOCH`: the clock in whole
/// seconds, zero if it reads before the epoch.
#[verifier::external_body]
fn unix_seconds() -> u64 {
    std::time::SystemTime::now().duration_since(std::time::UNIX_EPOCH).map(|d| d.as_secs()).unwrap_or(0)
}

/// Relies on `SystemTime::now` and `UNIX_EPOCH`: the clock in whole
/// microseconds, zero if it reads before the epoch or past `u64`.
#[verifier::external_body]
fn unix_micros() -> u64 {
    std::time::SystemTime::now().duration_since(std::time::UNIX_EPOCH).map(
        |d| u64::try_from(d.as_micros()).unwrap_or(0),
    ).unwrap_or(0)
}

/// The current time in seconds since the Unix epoch.
pub fn now_ts() -> u64 {
    unix_seconds()
}

/// The current time in seconds since the Unix epoch, as decimal text.
pub fn unix_timestamp_string() -> (r: String)
    ensures
        exists|t: u64| r@ == decimal_of(t as nat),
{
    decimal_string(unix_seconds())
}

/// The id of a job created at `micros` microseconds by process `pid`.
pub open spec fn job_id_of(micros: nat, pid: nat) -> Seq<char> {
    "job_"@ + decimal_of(micros) + "_"@ + decimal_of(pid)
}

/// The id for a job created now by process `pid`.
pub fn generate_job_id(pid: u32) -> (r: String)
    ensures
        exists|t: u64| r@ == job_id_of(t as nat, pid as nat),
{
    let micros = unix_micros();
    let r = "job_".to_owned().concat(decimal_string(micros).as_str()).concat("_").concat(
        decimal_string(pid as u64).as_str(),
    );
    assert(r@ == job_id_of(micros as nat, pid as nat));
    r
}

/// Where `find_spec` finds a match, the match is there.
pub proof fn lemma_find_spec_bounds_pub(s: Seq<char>, p: Seq<char>, i: int)
    ensures
        find_spec(s, p, i) matches Some(k) ==> i <= k && occurs_at(s, p, k),
{
    lemma_find_spec_bounds(s, p, i);
}

/// The page of the repository an `api.github.com/repos/<owner>/<repo>...`
/// URL names: `https://github.com/<owner>/<repo>`.
pub open spec fn repo_page_of(url: Seq<char>) -> Option<Seq<char>> {
    match find_spec(url, "api.github.com/repos/"@, 0) {
        None => None,
        Some(i) => {
            let j = i + "api.github.com/repos/"@.len();
            match find_spec(url, "/"@, j) {
                None => None,
                Some(k) => {
                    let e = match find_spec(url, "/"@, k + 1) {
                        Some(e) => e,
                        None => url.len() as int,
                    };
                    Some(
                        "https://github.com/"@ + url.subrange(j, k) + "/"@ + url.subrange(
                            k + 1,
                            e,
                        ),
                    )
                },
            }
        },
    }
}

proof fn lemma_find_spec_bounds(s: Seq<char>, p: Seq<char>, i: int)
    ensures
        find_spec(s, p, i) matches Some(k) ==> i <= k && occurs_at(s, p, k),
    decreases s.len() + 1 - i,
{
    if 0 <= i <= s.len() && !occurs_at(s, p, i) {
        lemma_find_spec_bounds(s, p, i + 1);
    }
}

/// The repository page for a release API URL.
pub fn github_repo_from_api(url: &str) -> (r: Option<String>)
    ensures
        match repo_page_of(url@) {
            Some(p) => r matches Some(s) && s@ == p,
            None => r is None,
        },
{
    let s = chars_of(url);
    let marker = chars_of("api.github.com/repos/");
    let slash = chars_of("/");
    proof {
        reveal_strlit("/");
        lemma_find_spec_bounds(s@, marker@, 0);
    }
    let i = match find_from(&s, &marker, 0) {
        Some(i) => i,
        None => {
            return None;
        },
    };
    let n = s.len();
    assert(occurs_at(s@, marker@, i as int));
    let j = i + marker.len();
    let k = match find_from(&s, &slash, j) {
        Some(k) => k,
        None => {
            return None;
        },
    };
    proof {
        lemma_find_spec_bounds(s@, slash@, j as int);
        lemma_find_spec_bounds(s@, slash@, k + 1);
    }
    let e = match find_from(&s, &slash, k + 1) {
        Some(e) => e,
        None => s.len(),
    };
    let owner = string_of(slice_chars(&s, j, k).as_slice());
    let repo = string_of(slice_chars(&s, k + 1, e).as_slice());
    Some(
        "https://github.com/".to_owned().concat(owner.as_str()).concat("/").concat(
            repo.as_str(),
        ),
    )
}

/// An asset name (already lower-case) built for macOS on arm64, zipped.
pub open spec fn asset_matches(lower: Seq<char>) -> bool {
    &&& has_sub(lower, "arm64"@) || has_sub(lower, "aarch64"@)
    &&& has_sub(lower, "macos"@) || has_sub(lower, "osx"@) || has_sub(lower, "darwin"@)
        || has_sub(lower, "apple"@)
    &&& has_suffix(lower, ".zip"@)
}

/// Whether a lower-case asset name names a macOS arm64 zip.
pub fn asset_name_matches(lower: &str) -> (r: bool)
    ensures
        r == asset_matches(lower@),
{
    let is_arm = contains(lower, "arm64") || contains(lower, "aarch64");
    let is_macos = contains(lower, "macos") || contains(lower, "osx") || contains(lower, "darwin")
        || contains(lower, "apple");
    let is_zip = ends_with(lower, ".zip");
    is_arm && is_macos && is_zip
}

/// Whether an asset name, in any case, names a macOS arm64 zip.
pub fn is_macos_arm_asset(name: &str) -> (r: bool)
    ensures
        r == asset_matches(lower_of(name@)),
{
    let lower = lowercase(name);
    asset_name_matches(lower.as_str())
}

/// Whether a URL, in any case, ends in `.zip`.
pub fn is_zip_url(url: &str) -> (r: bool)
    ensures
        r == has_suffix(lower_of(url@), ".zip"@),
{
    let lower = lowercase(url);
    ends_with(lower.as_str(), ".zip")
}

/// A character that ends a tag in a page's markup.
pub open spec fn is_tag_stop(c: char) -> bool {
    c == '"' || c == '\'' || c == '?' || c == '#' || c == '<' || c == ' '
}

/// The index of the first tag-ending character at or after `i`, or the length.
pub open spec fn stop_from(s: Seq<char>, i: int) -> int
    decreases s.len() - i,
{
    if 0 <= i < s.len() && !is_tag_stop(s[i]) {
        stop_from(s, i + 1)
    } else {
        i
    }
}

/// The first non-empty tag that follows `/releases/tag/` in `html`,
/// searching from `idx`.
pub open spec fn tag_from(html: Seq<char>, idx: int) -> Option<Seq<char>>
    decreases html.len() + 1 - idx,
{
    match find_spec(html, "/releases/tag/"@, idx) {
        None => None,
        Some(pos) => {
            let start = pos + "/releases/tag/"@.len();
            let end = stop_from(html, start);
            if start < end {
                Some(html.subrange(start, end))
            } else if idx < start <= html.len() {
                tag_from(html, start)
            } else {
                None
            }
        },
    }
}

/// The release tag a releases page points at, if any.
pub fn extract_latest_tag(html: &str) -> (r: Option<String>)
    ensures
        match tag_from(html@, 0) {
            Some(t) => r matches Some(s) && s@ == t,
            None => r is None,
        },
{
    let s = chars_of(html);
    let needle = chars_of("/releases/tag/");
    proof {
        reveal_strlit("/releases/tag/");
    }
    let mut idx: usize = 0;
    loop
        invariant
            idx <= s@.len(),
            s@ == html@,
            needle@ == "/releases/tag/"@,
            tag_from(s@, idx as int) == tag_from(s@, 0),
        decreases s@.len() - idx,
    {
        proof {
            reveal_strlit("/releases/tag/");
            lemma_find_spec_bounds(s@, needle@, idx as int);
        }
        let n = s.len();
        let pos = match find_from(&s, &needle, idx) {
            Some(p) => p,
            None => {
                return None;
            },
        };
        let start = pos + needle.len();
        let mut end = start;
        while end < s.len() && !(s[end] == '"' || s[end] == '\'' || s[end] == '?' || s[end] == '#'
            || s[end] == '<' || s[end] == ' ')
            invariant
                start <= end <= s@.len(),
                stop_from(s@, end as int) == stop_from(s@, start as int),
            decreases s@.len() - end,
        {
            end = end + 1;
        }
        if start < end {
            return Some(string_of(slice_chars(&s, start, end).as_slice()));
        }
        idx = start;
    }
}

/// Scans `html` from `idx` for `/releases/download/...zip` links: the
/// first one naming a macOS arm64 asset, else the first one found (`best`).
pub open spec fn scan_links(html: Seq<char>, idx: int, best: Option<Seq<char>>) -> Option<
    Seq<char>,
>
    decreases html.len() + 1 - idx,
{
    match find_spec(html, "/releases/download/"@, idx) {
        None => best,
        Some(start) => match find_spec(html, ".zip"@, start) {
            None => best,
            Some(z) => {
                let end_pos = z + 4;
                let url = "https://github.com"@ + html.subrange(start, end_pos);
                if asset_matches(lower_of(url)) {
                    Some(url)
                } else {
                    let next_best = if best is None {
                        Some(url)
                    } else {
                        best
                    };
                    if idx < end_pos <= html.len() {
                        scan_links(html, end_pos, next_best)
                    } else {
                        next_best
                    }
                }
            },
        },
    }
}

/// The asset link a releases page offers, as `scan_links` picks it.
pub fn find_release_link(html: &str) -> (r: Option<String>)
    ensures
        opt_chars(r) == scan_links(html@, 0, None),
{
    let s = chars_of(html);
    let needle = chars_of("/releases/download/");
    let zip = chars_of(".zip");
    proof {
        reveal_strlit("/releases/download/");
        reveal_strlit(".zip");
    }
    let mut best: Option<String> = None;
    let mut idx: usize = 0;
    loop
        invariant
            idx <= s@.len(),
            s@ == html@,
            needle@ == "/releases/download/"@,
            zip@ == ".zip"@,
            scan_links(s@, idx as int, opt_chars(best)) == scan_links(s@, 0, None),
        decreases s@.len() - idx,
    {
        proof {
            reveal_strlit("/releases/download/");
            reveal_strlit(".zip");
            lemma_find_spec_bounds(s@, needle@, idx as int);
        }
        let n = s.len();
        let start = match find_from(&s, &needle, idx) {
            Some(p) => p,
            None => {
                return best;
            },
        };
        proof {
            lemma_find_spec_bounds(s@, zip@, start as int);
        }
        let z = match find_from(&s, &zip, start) {
            Some(z) => z,
            None => {
                return best;
            },
        };
        let end_pos = z + 4;
        let url = "https://github.com".to_owned().concat(
            string_of(slice_chars(&s, start, end_pos).as_slice()).as_str(),
        );
        if is_macos_arm_asset(url.as_str()) {
            return Some(url);
        }
        if best.is_none() {
            best = Some(url);
        }
        idx = end_pos;
    }
}

/// The characters of an optional string.
pub open spec fn opt_chars(o: Option<String>) -> Option<Seq<char>> {
    crate::job::opt_view(o)
}

/// The transcoder download URL to use: refused when blank, and moved from
/// http to https.
pub fn ffmpeg_download_url(url: &str) -> (r: Result<String, String>)
    ensures
        crate::text::trimmed(url@).len() == 0 ==> (r matches Err(m) && m@
            == "FFmpeg download URL is empty."@),
        crate::text::trimmed(url@).len() > 0 ==> (r matches Ok(u) && u@
            == crate::text::replaced(url@, "http://"@, "https://"@)),
{
    if crate::text::is_blank(url) {
        return Err("FFmpeg download URL is empty.".to_owned());
    }
    proof {
        reveal_strlit("http://");
    }
    Ok(crate::text::replace_all(url, "http://", "https://"))
}

} // verus!
