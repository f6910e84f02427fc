//! File-system paths taken as text, through `std::path::Path`.
//!
//! How a path splits into components is the target platform's rule (which
//! characters separate them), so these contracts state only what holds on
//! every platform.

use vstd::prelude::*;
use crate::text::starts_with;

verus! {

/// A Windows verbatim path (`\\?\...`): std rebuilds a join onto such a
/// path component by component.
pub open spec fn is_verbatim(p: Seq<char>) -> bool {
    starts_with(p, seq!['\\', '\\', '?', '\\'])
}

/// A name that a join appends rather than putting in the directory's place:
/// it does not start with a separator (no root) and holds no `:` (no
/// Windows prefix).
pub open spec fn plain_name(n: Seq<char>) -> bool {
    &&& !n.contains(':')
    &&& n.len() > 0 ==> n[0] != '/' && n[0] != '\\'
}

/// `r` is `dir` with `name` appended, directly or after one separator (`/`,
/// or `\` on Windows).
pub open spec fn joined(dir: Seq<char>, name: Seq<char>, r: Seq<char>) -> bool {
    ||| r == dir + name
    ||| r == dir + seq!['/'] + name
    ||| r == dir + seq!['\\'] + name
}

/// `std::path::Path::join` of a directory and a plain name, as text
/// (`to_string_lossy`, the identity on text that came from `&str`). A plain
/// name is adjoined: the result is the directory, a separator where the
/// directory does not already end in one, and the name. Which character
/// separates is the platform's (`/`, or `\` on Windows), so only that it is
/// one of the two is claimed. Onto a verbatim Windows directory std rebuilds
/// the path, and nothing is claimed of the result.
#[verifier::external_body]
pub(crate) fn path_join(dir: &str, name: &str) -> (r: String)
    requires
        plain_name(name@),
    ensures
        !is_verbatim(dir@) ==> joined(dir@, name@, r@),
{
    std::path::Path::new(dir).join(name).to_string_lossy().into_owned()
}

/// What `std::path::Path::parent` gives for a path, taken as text: the path
/// without its final component, `None` for a root or an empty path. Which
/// characters separate components is the target platform's rule, so the
/// result is named, not written out.
pub uninterp spec fn parent_text(path: Seq<char>) -> Option<Seq<char>>;

/// What `std::path::Path::file_name` gives for a path, taken as text: its
/// final component, `None` when it ends in `..` or has none. Named for the
/// same reason as `parent_text`.
pub uninterp spec fn file_name_text(path: Seq<char>) -> Option<Seq<char>>;

/// `std::path::Path::parent`, taken as text (`to_str`, which cannot fail on
/// a part of a path that came from `&str`). Its result is named
/// `parent_text` of the path.
#[verifier::external_body]
pub(crate) fn path_parent(path: &str) -> (r: Option<String>)
    ensures
        match r {
            Some(q) => parent_text(path@) == Some(q@),
            None => parent_text(path@) is None,
        },
{
    std::path::Path::new(path).parent().and_then(|p| p.to_str()).map(|p| p.to_string())
}

/// `std::path::Path::file_name`, taken as text (`to_str`, as above). Its
/// result is named `file_name_text` of the path.
#[verifier::external_body]
pub(crate) fn path_file_name(path: &str) -> (r: Option<String>)
    ensures
        match r {
            Some(n) => file_name_text(path@) == Some(n@),
            None => file_name_text(path@) is None,
        },
{
    std::path::Path::new(path).file_name().and_then(|n| n.to_str()).map(|n| n.to_string())
}

} // verus!
