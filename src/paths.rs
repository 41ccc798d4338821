//! File-system path text: joining, and the parts std's `Path` reports.

use vstd::prelude::*;
use crate::job::opt_view;

verus! {

/// `name` placed under directory `dir`, with one separator between them.
pub open spec fn joined(dir: Seq<char>, name: Seq<char>) -> Seq<char> {
    if dir.len() == 0 {
        name
    } else if dir.last() == '/' {
        dir + name
    } else {
        dir + seq!['/'] + name
    }
}

/// Joins a relative `name` onto `dir`.
pub fn join_path(dir: &str, name: &str) -> (r: String)
    ensures
        r@ == joined(dir@, name@),
{
    let dc = crate::text::chars_of(dir);
    if dc.len() == 0 {
        return name.to_owned();
    }
    if dc[dc.len() - 1] == '/' {
        let r = dir.to_owned().concat(name);
        r
    } else {
        let r = dir.to_owned().concat("/").concat(name);
        proof {
            reveal_strlit("/");
            assert(r@ =~= joined(dir@, name@));
        }
        r
    }
}

/// The directory part of a path, as `std::path::Path::parent` gives it.
pub uninterp spec fn parent_of(p: Seq<char>) -> Option<Seq<char>>;

/// The last component of a path, as `std::path::Path::file_name` gives it.
pub uninterp spec fn file_name_of(p: Seq<char>) -> Option<Seq<char>>;

/// The index of the last '.' in `n[..i]`.
pub open spec fn last_dot_before(n: Seq<char>, i: int) -> Option<int>
    decreases i,
{
    if i <= 0 || i > n.len() {
        None
    } else if n[i - 1] == '.' {
        Some(i - 1)
    } else {
        last_dot_before(n, i - 1)
    }
}

/// The extension of a file name, as `std::path::Path::extension` documents
/// it: the text after the last '.', unless the name is `..`, has no '.',
/// or has its only '.' first.
pub open spec fn extension_of_name(n: Seq<char>) -> Option<Seq<char>> {
    if n == ".."@ {
        None
    } else {
        match last_dot_before(n, n.len() as int) {
            Some(k) => if k > 0 {
                Some(n.subrange(k + 1, n.len() as int))
            } else {
                None
            },
            None => None,
        }
    }
}

/// The extension of a path: that of its last component.
pub open spec fn extension_of(p: Seq<char>) -> Option<Seq<char>> {
    match file_name_of(p) {
        Some(n) => extension_of_name(n),
        None => None,
    }
}

/// Relies on `std::path::Path::parent`: the path without its last component.
#[verifier::external_body]
pub(crate) fn path_parent(p: &str) -> (r: Option<String>)
    ensures
        opt_view(r) == parent_of(p@),
{
    std::path::Path::new(p).parent().map(|d| d.to_string_lossy().into_owned())
}

/// Relies on `std::path::Path::file_name`: the last component of the path.
#[verifier::external_body]
pub(crate) fn path_file_name(p: &str) -> (r: Option<String>)
    ensures
        opt_view(r) == file_name_of(p@),
{
    std::path::Path::new(p).file_name().map(|n| n.to_string_lossy().into_owned())
}

/// The extension of a path (see `extension_of`).
pub fn path_extension(p: &str) -> (r: Option<String>)
    ensures
        opt_view(r) == extension_of(p@),
{
    let name = match path_file_name(p) {
        Some(n) => n,
        None => {
            return None;
        },
    };
    if crate::text::str_eq(name.as_str(), "..") {
        return None;
    }
    let cs = crate::text::chars_of(name.as_str());
    let mut i: usize = cs.len();
    while i > 0 && cs[i - 1] != '.'
        invariant
            i <= cs@.len(),
            cs@ == name@,
            last_dot_before(cs@, i as int) == last_dot_before(cs@, cs@.len() as int),
        decreases i,
    {
        i = i - 1;
    }
    if i <= 1 {
        return None;
    }
    Some(crate::text::string_of(crate::progress::slice_chars(&cs, i, cs.len()).as_slice()))
}

/// The directory that holds a job's files: the parent of its audio path.
pub fn job_dir_from_audio_path(audio_path: &str) -> (r: Option<String>)
    ensures
        opt_view(r) == parent_of(audio_path@),
{
    path_parent(audio_path)
}

/// The file name of an audio clip from `start_ms` to `end_ms` milliseconds.
pub fn clip_file_name(start_ms: u64, end_ms: u64) -> (r: String)
    ensures
        r@ == "clip_"@ + crate::release::decimal_of(start_ms as nat) + "_"@
            + crate::release::decimal_of(end_ms as nat) + ".wav"@,
{
    "clip_".to_owned().concat(crate::release::decimal_string(start_ms).as_str()).concat("_").concat(
        crate::release::decimal_string(end_ms).as_str(),
    ).concat(".wav")
}

} // verus!
