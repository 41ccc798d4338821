//! Resolving the speech-engine download URL. A direct asset URL is used as
//! it is; a release page is resolved through the hosting platform's release
//! API, then the rendered page, then probes of conventionally named assets.
//! The caller performs each request and reports what came back.

use vstd::prelude::*;
use crate::json::{json_of_text, parse_json, Json};
use crate::release::{
    asset_matches, extract_latest_tag, find_release_link, github_repo_from_api,
    is_macos_arm_asset, opt_chars, repo_page_of, scan_links, tag_from,
};
use crate::text::{
    chars_of, contains, ends_with, find_from, find_spec, has_sub, has_suffix, is_blank, lower_of,
    replace_all, replaced, string_of, trim, trimmed,
};
use crate::progress::slice_chars;

verus! {

/// The message when every way of finding an asset failed.
pub open spec fn no_asset_message() -> Seq<char> {
    "No macOS arm64 zip asset found in GitHub release. Paste a direct .zip asset URL from the release."@
}

/// What came back from one HTTP request.
#[derive(Debug)]
pub enum Fetched {
    /// The request did not complete; the error's text.
    Unreachable { error: String },
    /// A response: whether its status is a success, the status as text,
    /// and the body (empty if it could not be read).
    Response { success: bool, status: String, body: String },
}

/// What the resolution needs next.
#[derive(Debug)]
pub enum ResolveRequest {
    /// Resolution is over.
    Finished { result: Result<String, String> },
    /// Query the release API at `url` and report with `on_api`.
    FetchApi { url: String },
    /// Fetch the rendered releases page at `url` and report with `on_page`.
    FetchPage { url: String },
    /// Check with a one-byte range request that `url` exists and report
    /// with `on_probe`.
    Probe { url: String },
}

/// The input URL trimmed and moved from http to https.
pub open spec fn cleaned_url(url: Seq<char>) -> Seq<char> {
    replaced(trimmed(url), "http://"@, "https://"@)
}

/// A URL that already names a downloadable release asset: a
/// `/releases/download/` path ending in `.zip` (in any case).
pub open spec fn is_direct_asset(u: Seq<char>) -> bool {
    has_sub(u, "/releases/download/"@) && has_suffix(lower_of(u), ".zip"@)
}

/// The input URL made canonical: trimmed, on https, and a release page of
/// the hosting site turned into its API address.
pub open spec fn normalized_url(url: Seq<char>) -> Seq<char> {
    let u = cleaned_url(url);
    let g = "github.com/"@;
    if has_sub(u, g) && has_sub(u, "/releases"@) {
        match find_spec(u, g, 0) {
            Some(i) => if find_spec(u, g, i + g.len()) is None {
                "https://api.github.com/repos/"@ + u.subrange(i + g.len(), u.len() as int)
            } else {
                u
            },
            None => u,
        }
    } else {
        u
    }
}

/// Resolution ended with URL `u`.
pub open spec fn finished_ok(r: ResolveRequest, u: Seq<char>) -> bool {
    r matches ResolveRequest::Finished { result: Ok(v) } && v@ == u
}

/// Resolution ended with error message `m`.
pub open spec fn finished_err(r: ResolveRequest, m: Seq<char>) -> bool {
    r matches ResolveRequest::Finished { result: Err(e) } && e@ == m
}

/// The URL names a release through the API.
pub open spec fn is_api_url(n: Seq<char>) -> bool {
    has_sub(n, "api.github.com/repos/"@) && has_sub(n, "/releases"@)
}

/// The download URL of the first asset whose name matches.
pub open spec fn first_matching_asset(assets: Seq<Json>) -> Option<Seq<char>>
    decreases assets.len(),
{
    if assets.len() == 0 {
        None
    } else if asset_matches(lower_of(assets[0].str_member("name"@))) {
        Some(assets[0].str_member("browser_download_url"@))
    } else {
        first_matching_asset(assets.drop_first())
    }
}

/// The version a tag names: the tag without its leading `v`s.
pub open spec fn version_from(tag: Seq<char>, i: int) -> Seq<char>
    decreases tag.len() - i,
{
    if 0 <= i < tag.len() && tag[i] == 'v' {
        version_from(tag, i + 1)
    } else if 0 <= i <= tag.len() {
        tag.subrange(i, tag.len() as int)
    } else {
        Seq::empty()
    }
}

/// The conventional asset names for version `v`, most specific first.
pub open spec fn candidate_names(v: Seq<char>) -> Seq<Seq<char>> {
    seq![
        "whisper-cpp-"@ + v + "-macos-arm64-metal.zip"@,
        "whisper-cpp-v"@ + v + "-macos-arm64-metal.zip"@,
        "whisper-cpp-"@ + v + "-macos-arm64-accelerate.zip"@,
        "whisper-cpp-v"@ + v + "-macos-arm64-accelerate.zip"@,
        "whisper-cpp-"@ + v + "-macos-arm64.zip"@,
        "whisper-cpp-v"@ + v + "-macos-arm64.zip"@,
        "whisper-cpp-macos-arm64-metal.zip"@,
        "whisper-cpp-macos-arm64.zip"@,
    ]
}

/// The download URL of asset `name` of release `tag` of `repo`.
pub open spec fn asset_url(repo: Seq<char>, tag: Seq<char>, name: Seq<char>) -> Seq<char> {
    repo + "/releases/download/"@ + tag + "/"@ + name
}

/// Where resolution stands.
#[derive(Clone, Copy, Debug, PartialEq, Eq, Structural)]
pub enum ResolvePhase {
    AwaitApi,
    AwaitPage,
    Probing,
    Over,
}

/// One resolution of a speech-engine download URL.
#[derive(Debug)]
pub struct UrlResolution {
    pub phase: ResolvePhase,
    pub normalized: String,
    pub repo_url: String,
    pub candidates: Vec<String>,
    pub next: usize,
}

/// The characters of each string.
pub open spec fn texts(v: Seq<String>) -> Seq<Seq<char>> {
    v.map_values(|s: String| s@)
}

/// The asset a successful, readable release API answer names, if any.
pub open spec fn api_asset(f: Fetched) -> Option<Seq<char>> {
    match f {
        Fetched::Response { success: true, body, .. } => match json_of_text(body@) {
            Ok(doc) => match doc.array_member("assets"@) {
                Some(assets) => first_matching_asset(assets@),
                None => None,
            },
            Err(_) => None,
        },
        _ => None,
    }
}

/// The request that follows the API step: the releases page of the
/// repository, or failure when the URL names none.
pub open spec fn page_request(pre: UrlResolution, post: UrlResolution, r: ResolveRequest) -> bool {
    match repo_page_of(pre.normalized@) {
        None => post.phase == ResolvePhase::Over && finished_err(r, no_asset_message()),
        Some(p) => {
            &&& post.phase == ResolvePhase::AwaitPage
            &&& post.normalized == pre.normalized
            &&& post.repo_url@ == p
            &&& r matches ResolveRequest::FetchPage { url } && url@ == p + "/releases/latest"@
        },
    }
}

fn candidate_urls(repo: &str, tag: &str) -> (r: Vec<String>)
    ensures
        r@.len() == 8,
        texts(r@) == candidate_names(version_from(tag@, 0)).map_values(
            |n: Seq<char>| asset_url(repo@, tag@, n),
        ),
{
    let tc = chars_of(tag);
    let mut i: usize = 0;
    while i < tc.len() && tc[i] == 'v'
        invariant
            i <= tc@.len(),
            tc@ == tag@,
            version_from(tag@, i as int) == version_from(tag@, 0),
        decreases tc@.len() - i,
    {
        i = i + 1;
    }
    let version = string_of(slice_chars(&tc, i, tc.len()).as_slice());
    let v = version.as_str();
    let prefix = repo.to_owned().concat("/releases/download/").concat(tag).concat("/");
    let mut out: Vec<String> = Vec::new();
    out.push(prefix.clone().concat("whisper-cpp-").concat(v).concat("-macos-arm64-metal.zip"));
    out.push(prefix.clone().concat("whisper-cpp-v").concat(v).concat("-macos-arm64-metal.zip"));
    out.push(
        prefix.clone().concat("whisper-cpp-").concat(v).concat("-macos-arm64-accelerate.zip"),
    );
    out.push(
        prefix.clone().concat("whisper-cpp-v").concat(v).concat("-macos-arm64-accelerate.zip"),
    );
    out.push(prefix.clone().concat("whisper-cpp-").concat(v).concat("-macos-arm64.zip"));
    out.push(prefix.clone().concat("whisper-cpp-v").concat(v).concat("-macos-arm64.zip"));
    out.push(prefix.clone().concat("whisper-cpp-macos-arm64-metal.zip"));
    out.push(prefix.concat("whisper-cpp-macos-arm64.zip"));
    let ghost want = candidate_names(version_from(tag@, 0)).map_values(
        |n: Seq<char>| asset_url(repo@, tag@, n),
    );
    let ghost names = candidate_names(version_from(tag@, 0));
    assert(version@ == version_from(tag@, 0));
    assert(out@[0]@ =~= asset_url(repo@, tag@, names[0]));
    assert(out@[1]@ =~= asset_url(repo@, tag@, names[1]));
    assert(out@[2]@ =~= asset_url(repo@, tag@, names[2]));
    assert(out@[3]@ =~= asset_url(repo@, tag@, names[3]));
    assert(out@[4]@ =~= asset_url(repo@, tag@, names[4]));
    assert(out@[5]@ =~= asset_url(repo@, tag@, names[5]));
    assert(out@[6]@ =~= asset_url(repo@, tag@, names[6]));
    assert(out@[7]@ =~= asset_url(repo@, tag@, names[7]));
    assert(texts(out@) =~= want);
    out
}

impl UrlResolution {
    /// Starts resolving `url`: blank input fails, a URL that is not a
    /// release API address is used as it is, and a release is queried
    /// through the API. A direct asset URL is used unchanged, with no request.
    pub fn start(url: &str) -> (r: (UrlResolution, ResolveRequest))
        ensures
            trimmed(url@).len() == 0 ==> finished_err(r.1, "Whisper download URL is empty."@),
            trimmed(url@).len() > 0 && is_direct_asset(cleaned_url(url@)) ==> finished_ok(
                r.1,
                cleaned_url(url@),
            ),
            trimmed(url@).len() > 0 && !is_direct_asset(cleaned_url(url@)) && !is_api_url(
                normalized_url(url@),
            ) ==> finished_ok(r.1, normalized_url(url@)),
            trimmed(url@).len() > 0 && !is_direct_asset(cleaned_url(url@)) && is_api_url(
                normalized_url(url@),
            ) ==> {
                &&& r.1 matches ResolveRequest::FetchApi { url: u } && u@ == normalized_url(url@)
                &&& r.0.phase == ResolvePhase::AwaitApi
                &&& r.0.normalized@ == normalized_url(url@)
            },
    {
        let empty = UrlResolution {
            phase: ResolvePhase::Over,
            normalized: String::new(),
            repo_url: String::new(),
            candidates: Vec::new(),
            next: 0,
        };
        let t = trim(url);
        if is_blank(url) {
            return (
                empty,
                ResolveRequest::Finished { result: Err("Whisper download URL is empty.".to_owned()) },
            );
        }
        proof {
            reveal_strlit("http://");
        }
        let u = replace_all(t.as_str(), "http://", "https://");
        if contains(u.as_str(), "/releases/download/") && crate::release::is_zip_url(u.as_str()) {
            return (empty, ResolveRequest::Finished { result: Ok(u) });
        }
        let uc = chars_of(u.as_str());
        let g = chars_of("github.com/");
        proof {
            reveal_strlit("github.com/");
        }
        let mut normalized = u.clone();
        if contains(u.as_str(), "github.com/") && contains(u.as_str(), "/releases") {
            match find_from(&uc, &g, 0) {
                Some(i) => {
                    proof {
                        crate::release::lemma_find_spec_bounds_pub(uc@, g@, 0);
                    }
                    let n = uc.len();
                    if find_from(&uc, &g, i + g.len()).is_none() {
                        let rest = string_of(slice_chars(&uc, i + g.len(), uc.len()).as_slice());
                        normalized = "https://api.github.com/repos/".to_owned().concat(
                            rest.as_str(),
                        );
                    }
                },
                None => {},
            }
        }
        if !(contains(normalized.as_str(), "api.github.com/repos/") && contains(
            normalized.as_str(),
            "/releases",
        )) {
            return (empty, ResolveRequest::Finished { result: Ok(normalized) });
        }
        let req = ResolveRequest::FetchApi { url: normalized.clone() };
        (
            UrlResolution {
                phase: ResolvePhase::AwaitApi,
                normalized,
                repo_url: String::new(),
                candidates: Vec::new(),
                next: 0,
            },
            req,
        )
    }

    fn to_page(&mut self) -> (r: ResolveRequest)
        ensures
            page_request(*old(self), *final(self), r),
    {
        match github_repo_from_api(self.normalized.as_str()) {
            None => {
                self.phase = ResolvePhase::Over;
                ResolveRequest::Finished { result: Err(no_asset_text()) }
            },
            Some(repo) => {
                self.phase = ResolvePhase::AwaitPage;
                let url = repo.clone().concat("/releases/latest");
                self.repo_url = repo;
                ResolveRequest::FetchPage { url }
            },
        }
    }

    /// Takes the release API's answer. A readable release with a matching
    /// asset resolves to it; in every other case (a failed request, an error
    /// status, an unreadable or asset-less answer, no matching asset) the
    /// releases page is fetched next.
    pub fn on_api(&mut self, f: Fetched) -> (r: ResolveRequest)
        requires
            old(self).phase == ResolvePhase::AwaitApi,
        ensures
            match api_asset(f) {
                Some(u) => finished_ok(r, u),
                None => page_request(*old(self), *final(self), r),
            },
    {
        match f {
            Fetched::Response { success: true, body, .. } => {
                match parse_json(body.as_str()) {
                    Ok(doc) => match doc.get_array("assets") {
                        Some(assets) => match matching_asset(assets) {
                            Some(u) => {
                                self.phase = ResolvePhase::Over;
                                ResolveRequest::Finished { result: Ok(u) }
                            },
                            None => self.to_page(),
                        },
                        None => self.to_page(),
                    },
                    Err(_) => self.to_page(),
                }
            },
            _ => self.to_page(),
        }
    }

    /// Takes the releases page: its first suitable asset link resolves;
    /// failing that, the assets conventionally named after its tag are
    /// probed in order; failing that, resolution fails.
    pub fn on_page(&mut self, f: Fetched) -> (r: ResolveRequest)
        requires
            old(self).phase == ResolvePhase::AwaitPage,
        ensures
            match f {
                Fetched::Unreachable { .. } => finished_err(r, no_asset_message()),
                Fetched::Response { success: false, .. } => finished_err(r, no_asset_message()),
                Fetched::Response { success: true, body, .. } => match scan_links(
                    body@,
                    0,
                    None,
                ) {
                    Some(u) => finished_ok(r, u),
                    None => match tag_from(body@, 0) {
                        None => finished_err(r, no_asset_message()),
                        Some(t) => {
                            &&& final(self).phase == ResolvePhase::Probing
                            &&& final(self).next == 0
                            &&& texts(final(self).candidates@) == candidate_names(
                                version_from(t, 0),
                            ).map_values(|n: Seq<char>| asset_url(old(self).repo_url@, t, n))
                            &&& r matches ResolveRequest::Probe { url } && url@ == texts(
                                final(self).candidates@,
                            )[0]
                        },
                    },
                },
            },
    {
        match f {
            Fetched::Unreachable { .. } => {
                self.phase = ResolvePhase::Over;
                ResolveRequest::Finished { result: Err(no_asset_text()) }
            },
            Fetched::Response { success: false, .. } => {
                self.phase = ResolvePhase::Over;
                ResolveRequest::Finished { result: Err(no_asset_text()) }
            },
            Fetched::Response { success: true, body, .. } => {
                let tag = extract_latest_tag(body.as_str());
                match find_release_link(body.as_str()) {
                    Some(u) => {
                        self.phase = ResolvePhase::Over;
                        ResolveRequest::Finished { result: Ok(u) }
                    },
                    None => match tag {
                        None => {
                            self.phase = ResolvePhase::Over;
                            ResolveRequest::Finished { result: Err(no_asset_text()) }
                        },
                        Some(t) => {
                            let candidates = candidate_urls(self.repo_url.as_str(), t.as_str());
                            let first = candidates[0].clone();
                            self.phase = ResolvePhase::Probing;
                            self.candidates = candidates;
                            self.next = 0;
                            ResolveRequest::Probe { url: first }
                        },
                    },
                }
            },
        }
    }

    /// Takes a probe's answer: an existing candidate resolves; otherwise the
    /// next candidate is probed, and after the last one resolution fails.
    pub fn on_probe(&mut self, exists: bool) -> (r: ResolveRequest)
        requires
            old(self).phase == ResolvePhase::Probing,
            old(self).next < old(self).candidates@.len(),
        ensures
            exists ==> finished_ok(r, texts(old(self).candidates@)[old(self).next as int]),
            !exists && old(self).next + 1 < old(self).candidates@.len() ==> {
                &&& final(self).phase == ResolvePhase::Probing
                &&& final(self).next == old(self).next + 1
                &&& final(self).candidates == old(self).candidates
                &&& r matches ResolveRequest::Probe { url } && url@ == texts(
                    old(self).candidates@,
                )[old(self).next + 1]
            },
            !exists && old(self).next + 1 >= old(self).candidates@.len() ==> finished_err(
                r,
                no_asset_message(),
            ),
    {
        if exists {
            self.phase = ResolvePhase::Over;
            return ResolveRequest::Finished { result: Ok(self.candidates[self.next].clone()) };
        }
        let n = self.candidates.len();
        if self.next + 1 < n {
            self.next = self.next + 1;
            ResolveRequest::Probe { url: self.candidates[self.next].clone() }
        } else {
            self.phase = ResolvePhase::Over;
            ResolveRequest::Finished { result: Err(no_asset_text()) }
        }
    }
}

/// The download URL of the first asset whose name matches.
fn matching_asset(assets: &Vec<Json>) -> (r: Option<String>)
    ensures
        opt_chars(r) == first_matching_asset(assets@),
{
    let mut k: usize = 0;
    assert(assets@.subrange(0, assets@.len() as int) =~= assets@);
    while k < assets.len()
        invariant
            k <= assets@.len(),
            first_matching_asset(assets@.subrange(k as int, assets@.len() as int))
                == first_matching_asset(assets@),
        decreases assets@.len() - k,
    {
        let ghost rest = assets@.subrange(k as int, assets@.len() as int);
        assert(rest[0] == assets@[k as int]);
        assert(rest.drop_first() =~= assets@.subrange(k + 1, assets@.len() as int));
        let name = assets[k].get_str("name");
        if is_macos_arm_asset(name.as_str()) {
            return Some(assets[k].get_str("browser_download_url"));
        }
        k = k + 1;
    }
    assert(assets@.subrange(k as int, assets@.len() as int).len() == 0);
    None
}

/// A lower-case asset name of a release that carries the engine for macOS
/// on arm64, zipped.
pub open spec fn latest_asset_matches(lower: Seq<char>) -> bool {
    &&& has_sub(lower, "arm64"@) || has_sub(lower, "aarch64"@)
    &&& has_suffix(lower, ".zip"@)
    &&& has_sub(lower, "macos"@) || has_sub(lower, "osx"@) || has_sub(lower, "darwin"@)
        || has_sub(lower, "apple"@) || has_sub(lower, "whisper"@)
}

/// The download URL of the first asset `latest_asset_matches` accepts.
pub open spec fn first_latest_asset(assets: Seq<Json>) -> Option<Seq<char>>
    decreases assets.len(),
{
    if assets.len() == 0 {
        None
    } else if latest_asset_matches(lower_of(assets[0].str_member("name"@))) {
        Some(assets[0].str_member("browser_download_url"@))
    } else {
        first_latest_asset(assets.drop_first())
    }
}

fn latest_asset(assets: &Vec<Json>) -> (r: Result<String, String>)
    ensures
        match first_latest_asset(assets@) {
            Some(u) => finished_ok_result(r, u),
            None => r matches Err(m) && m@ == "No macOS arm64 zip asset found in latest release."@,
        },
{
    let mut k: usize = 0;
    assert(assets@.subrange(0, assets@.len() as int) =~= assets@);
    while k < assets.len()
        invariant
            k <= assets@.len(),
            first_latest_asset(assets@.subrange(k as int, assets@.len() as int))
                == first_latest_asset(assets@),
        decreases assets@.len() - k,
    {
        let ghost rest = assets@.subrange(k as int, assets@.len() as int);
        assert(rest[0] == assets@[k as int]);
        assert(rest.drop_first() =~= assets@.subrange(k + 1, assets@.len() as int));
        let name = assets[k].get_str("name");
        let lower = crate::text::lowercase(name.as_str());
        let l = lower.as_str();
        let is_arm = contains(l, "arm64") || contains(l, "aarch64");
        let is_macos = contains(l, "macos") || contains(l, "osx") || contains(l, "darwin")
            || contains(l, "apple");
        let is_zip = ends_with(l, ".zip");
        if is_arm && is_zip && (is_macos || contains(l, "whisper")) {
            return Ok(assets[k].get_str("browser_download_url"));
        }
        k = k + 1;
    }
    assert(assets@.subrange(k as int, assets@.len() as int).len() == 0);
    Err("No macOS arm64 zip asset found in latest release.".to_owned())
}

/// A result holding URL `u`.
pub open spec fn finished_ok_result(r: Result<String, String>, u: Seq<char>) -> bool {
    r matches Ok(v) && v@ == u
}

/// The release sources tried in turn for the latest engine build.
pub open spec fn latest_source(i: int) -> Seq<char> {
    if i == 0 {
        "https://github.com/bizenlabs/whisper-cpp-macos-bin/releases/latest"@
    } else if i == 1 {
        "https://api.github.com/repos/ggml-org/whisper.cpp/releases/latest"@
    } else {
        "https://api.github.com/repos/ggml-org/whisper.cpp/releases"@
    }
}

/// The asset list a source's document holds: its `assets`, or for the
/// release list (the last source) the first release's `assets`.
pub open spec fn source_assets(doc: Json, last: bool) -> Option<Vec<Json>> {
    if !last {
        doc.array_member("assets"@)
    } else {
        match doc {
            Json::Arr(items) => if items@.len() > 0 {
                items@[0].array_member("assets"@)
            } else {
                None
            },
            _ => None,
        }
    }
}

/// What the lookup of the latest engine build needs next.
#[derive(Debug)]
pub enum LatestStep {
    /// Fetch `url` and report with `on_fetched`.
    Fetch { url: String },
    /// The lookup is over.
    Finished { result: Result<String, String> },
}

/// The lookup of the latest engine build: three sources in turn, moving on
/// while a source yields no assets.
#[derive(Debug)]
pub struct LatestRelease {
    pub source: usize,
}

/// The lookup asks for source `i`.
pub open spec fn fetches_source(r: LatestStep, i: int) -> bool {
    r matches LatestStep::Fetch { url } && url@ == latest_source(i)
}

/// The lookup ended with `result`.
pub open spec fn latest_finished(r: LatestStep, result: Result<Seq<char>, Seq<char>>) -> bool {
    match r {
        LatestStep::Finished { result: Ok(u) } => result == Ok::<Seq<char>, Seq<char>>(u@),
        LatestStep::Finished { result: Err(e) } => result == Err::<Seq<char>, Seq<char>>(e@),
        _ => false,
    }
}

fn source_url(i: usize) -> (r: String)
    requires
        i <= 2,
    ensures
        r@ == latest_source(i as int),
{
    if i == 0 {
        "https://github.com/bizenlabs/whisper-cpp-macos-bin/releases/latest".to_owned()
    } else if i == 1 {
        "https://api.github.com/repos/ggml-org/whisper.cpp/releases/latest".to_owned()
    } else {
        "https://api.github.com/repos/ggml-org/whisper.cpp/releases".to_owned()
    }
}

impl LatestRelease {
    /// Starts with the first source.
    pub fn start() -> (r: (LatestRelease, LatestStep))
        ensures
            r.0.source == 0,
            fetches_source(r.1, 0),
    {
        (LatestRelease { source: 0 }, LatestStep::Fetch { url: source_url(0) })
    }

    /// Takes the answer of the current source. A readable asset list that
    /// is not empty decides; a failed or empty source moves on to the next;
    /// the last source's failures are errors.
    pub fn on_fetched(&mut self, f: Fetched) -> (r: LatestStep)
        requires
            old(self).source <= 2,
        ensures
            final(self).source <= 2,
            ({
                let i = old(self).source as int;
                let last = i == 2;
                let move_on = !last && final(self).source == i + 1 && fetches_source(r, i + 1);
                match f {
                    Fetched::Unreachable { error } => if last {
                        latest_finished(r, Err("Failed to fetch releases: "@ + error@))
                    } else {
                        move_on
                    },
                    Fetched::Response { success: false, status, body } => if last {
                        latest_finished(r, Err("GitHub API error: "@ + status@ + " "@ + body@))
                    } else {
                        move_on
                    },
                    Fetched::Response { success: true, body, .. } => match json_of_text(body@) {
                        Err(e) => latest_finished(r, Err("Invalid GitHub response: "@ + e)),
                        Ok(doc) => match source_assets(doc, last) {
                            None => latest_finished(
                                r,
                                Err(
                                    if last {
                                        "No assets in release list."@
                                    } else {
                                        "No assets in release."@
                                    },
                                ),
                            ),
                            Some(assets) => if assets@.len() == 0 && !last {
                                move_on
                            } else {
                                match first_latest_asset(assets@) {
                                    Some(u) => latest_finished(r, Ok(u)),
                                    None => latest_finished(
                                        r,
                                        Err("No macOS arm64 zip asset found in latest release."@),
                                    ),
                                }
                            },
                        },
                    },
                }
            }),
    {
        let last = self.source == 2;
        match f {
            Fetched::Unreachable { error } => {
                if last {
                    return LatestStep::Finished {
                        result: Err("Failed to fetch releases: ".to_owned().concat(error.as_str())),
                    };
                }
                self.source = self.source + 1;
                LatestStep::Fetch { url: source_url(self.source) }
            },
            Fetched::Response { success: false, status, body } => {
                if last {
                    return LatestStep::Finished {
                        result: Err(
                            "GitHub API error: ".to_owned().concat(status.as_str()).concat(
                                " ",
                            ).concat(body.as_str()),
                        ),
                    };
                }
                self.source = self.source + 1;
                LatestStep::Fetch { url: source_url(self.source) }
            },
            Fetched::Response { success: true, body, .. } => {
                let doc = match parse_json(body.as_str()) {
                    Err(e) => {
                        return LatestStep::Finished {
                            result: Err("Invalid GitHub response: ".to_owned().concat(e.as_str())),
                        };
                    },
                    Ok(d) => d,
                };
                let assets: Option<&Vec<Json>> = if !last {
                    doc.get_array("assets")
                } else {
                    match &doc {
                        Json::Arr(items) => if items.len() > 0 {
                            items[0].get_array("assets")
                        } else {
                            None
                        },
                        _ => None,
                    }
                };
                match assets {
                    None => LatestStep::Finished {
                        result: Err(
                            if last {
                                "No assets in release list.".to_owned()
                            } else {
                                "No assets in release.".to_owned()
                            },
                        ),
                    },
                    Some(list) => {
                        if list.len() == 0 && !last {
                            self.source = self.source + 1;
                            return LatestStep::Fetch { url: source_url(self.source) };
                        }
                        LatestStep::Finished { result: latest_asset(list) }
                    },
                }
            },
        }
    }
}

fn no_asset_text() -> (r: String)
    ensures
        r@ == no_asset_message(),
{
    "No macOS arm64 zip asset found in GitHub release. Paste a direct .zip asset URL from the release.".to_owned()
}

} // verus!
