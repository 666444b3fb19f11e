//! Where the history lives on disk, and where the application bundle is.
//!
//! Paths are plain text with `/` between their parts.

use vstd::prelude::*;
use vstd::string::{StrSliceExecFns, StringExecFns};

verus! {

/// The per-user data directory that `dirs::data_local_dir` reports, as text
/// (bytes that are no UTF-8 are replaced, as `Path::to_string_lossy` does), or
/// `None` where it reports none.
///
/// The answer depends on the user and the machine: nothing is claimed of it.
#[verifier::external_body]
fn local_data_dir() -> Option<String> {
    match dirs::data_local_dir() {
        Some(dir) => Some(dir.to_string_lossy().into_owned()),
        None => None,
    }
}

/// The text of an optional string.
pub open spec fn text_of(text: Option<String>) -> Option<Seq<char>> {
    match text {
        Some(t) => Some(t@),
        None => None,
    }
}

/// `name` placed under the directory `base`: a `/` stands between them unless
/// `base` is empty or ends in one already.
pub open spec fn joined(base: Seq<char>, name: Seq<char>) -> Seq<char> {
    if base.len() == 0 || base.last() == '/' {
        base + name
    } else {
        base + seq!['/'] + name
    }
}

/// The application's data directory under the per-user data directory
/// `base`, or under the current directory where there is none.
pub open spec fn data_dir_path(base: Option<Seq<char>>) -> Seq<char> {
    match base {
        Some(dir) => joined(dir, "banzai"@),
        None => joined("."@, "banzai"@),
    }
}

/// The history file in the application's data directory.
pub open spec fn history_path(base: Option<Seq<char>>) -> Seq<char> {
    joined(data_dir_path(base), "clipboard_history.jsonl"@)
}

/// `pattern` stands in `text` at place `at`.
pub open spec fn occurs_at(text: Seq<char>, pattern: Seq<char>, at: int) -> bool {
    0 <= at && at + pattern.len() <= text.len() && text.subrange(at, at + pattern.len())
        == pattern
}

/// The first place at or after `from` where `pattern` stands in `text`.
pub open spec fn first_occurrence(text: Seq<char>, pattern: Seq<char>, from: int) -> Option<int>
    decreases text.len() - from + 1,
{
    if from < 0 || from + pattern.len() > text.len() {
        None
    } else if occurs_at(text, pattern, from) {
        Some(from)
    } else {
        first_occurrence(text, pattern, from + 1)
    }
}

/// The application bundle that an executable lies in: the path up to and
/// with the first `.app` that a `/` follows, or the whole path if there is
/// none.
pub open spec fn bundle_path(exe_path: Seq<char>) -> Seq<char> {
    match first_occurrence(exe_path, ".app/"@, 0) {
        Some(at) => exe_path.take(at + 4),
        None => exe_path,
    }
}

/// Places `name` under the directory `base`.
pub fn join_path(base: &str, name: &str) -> (path: String)
    ensures
        path@ == joined(base@, name@),
{
    let mut path = String::from_str(base);
    let length = base.unicode_len();
    if length > 0 && base.get_char(length - 1) != '/' {
        proof {
            reveal_strlit("/");
        }
        path.append("/");
        assert("/"@ =~= seq!['/']);
    }
    path.append(name);
    path
}

/// The application's data directory under `base`, the per-user data
/// directory, or under the current directory where `base` is `None`.
pub fn data_dir_under(base: &Option<String>) -> (path: String)
    ensures
        path@ == data_dir_path(text_of(*base)),
{
    match base {
        Some(dir) => join_path(dir.as_str(), "banzai"),
        None => join_path(".", "banzai"),
    }
}

/// The history file under `base`, the per-user data directory.
pub fn history_path_under(base: &Option<String>) -> (path: String)
    ensures
        path@ == history_path(text_of(*base)),
{
    let dir = data_dir_under(base);
    join_path(dir.as_str(), "clipboard_history.jsonl")
}

/// The application's data directory for the current user. Which directory is
/// the per-user data directory is for the system to say; the path under it is
/// as [`data_dir_path`] gives it.
pub fn get_data_dir() -> (path: String)
    ensures
        exists|base: Option<Seq<char>>| path@ == data_dir_path(base),
{
    let base = local_data_dir();
    let path = data_dir_under(&base);
    assert(path@ == data_dir_path(text_of(base)));
    path
}

/// The history file for the current user, under [`get_data_dir`].
pub fn get_history_path() -> (path: String)
    ensures
        exists|base: Option<Seq<char>>| path@ == history_path(base),
{
    let base = local_data_dir();
    let path = history_path_under(&base);
    assert(path@ == history_path(text_of(base)));
    path
}

/// Whether `pattern` stands in `text` at place `at`.
fn matches_at(text: &str, pattern: &str, at: usize) -> (found: bool)
    requires
        at + pattern@.len() <= text@.len(),
        text@.len() <= usize::MAX,
    ensures
        found == occurs_at(text@, pattern@, at as int),
{
    let width = pattern.unicode_len();
    let mut k: usize = 0;
    while k < width
        invariant
            k <= width,
            width == pattern@.len(),
            at + width <= text@.len(),
            text@.len() <= usize::MAX,
            forall|j: int| 0 <= j < k ==> text@[at + j] == pattern@[j],
        decreases width - k,
    {
        if text.get_char(at + k) != pattern.get_char(k) {
            assert(text@.subrange(at as int, at + width)[k as int] != pattern@[k as int]);
            return false;
        }
        k += 1;
    }
    assert(text@.subrange(at as int, at + width) =~= pattern@);
    true
}

/// The application bundle that the executable at `exe_path` lies in.
pub fn app_bundle_path(exe_path: &str) -> (path: String)
    ensures
        path@ == bundle_path(exe_path@),
{
    let marker = ".app/";
    proof {
        reveal_strlit(".app/");
    }
    let length = exe_path.unicode_len();
    let width = marker.unicode_len();
    let mut at: usize = 0;
    while length >= width && at <= length - width
        invariant
            width == 5,
            marker@ == ".app/"@,
            marker@.len() == 5,
            length == exe_path@.len(),
            first_occurrence(exe_path@, marker@, 0) == first_occurrence(
                exe_path@,
                marker@,
                at as int,
            ),
        decreases length - at,
    {
        if matches_at(exe_path, marker, at) {
            let bundle = exe_path.substring_char(0, at + 4);
            assert(exe_path@.subrange(0, at + 4) =~= exe_path@.take(at + 4));
            return String::from_str(bundle);
        }
        at += 1;
    }
    String::from_str(exe_path)
}

} // verus!
