//! File-system path arithmetic, done by `std::path`.
//!
//! A path is carried as a string. What `std::path` makes of it depends on the
//! platform the crate is compiled for (which separators it accepts, what counts
//! as a root), so the results are named rather than spelled out; on one target
//! they are functions of their arguments alone.

use vstd::prelude::*;
use crate::text::opt_text;

verus! {

/// The final component of `path` as `std::path::Path::file_name` gives it.
pub uninterp spec fn path_file_name(path: Seq<char>) -> Option<Seq<char>>;

/// `path` without its final component, as `std::path::Path::parent` gives it.
pub uninterp spec fn path_parent(path: Seq<char>) -> Option<Seq<char>>;

/// `name` adjoined to `base`, as `std::path::Path::join` gives it.
pub uninterp spec fn path_join(base: Seq<char>, name: Seq<char>) -> Seq<char>;

/// A letter, a digit, `-` or `_`.
pub open spec fn is_name_char(c: char) -> bool {
    ||| 'a' <= c <= 'z'
    ||| 'A' <= c <= 'Z'
    ||| '0' <= c <= '9'
    ||| c == '-'
    ||| c == '_'
}

/// A non-empty name made only of letters, digits, `-` and `_`: a single
/// ordinary path component on every platform.
pub open spec fn is_plain_component(name: Seq<char>) -> bool {
    &&& name.len() > 0
    &&& forall|i: int| 0 <= i < name.len() ==> is_name_char(#[trigger] name[i])
}

/// `path` begins with two separators, each `/` or `\`. Such a beginning can
/// introduce a network share or a device rather than a directory.
pub open spec fn begins_with_two_separators(path: Seq<char>) -> bool {
    &&& path.len() >= 2
    &&& (path[0] == '/' || path[0] == '\\')
    &&& (path[1] == '/' || path[1] == '\\')
}

/// The last component of `path`.
///
/// Trusted: calls `std::path::Path::file_name`, which returns the final
/// component of the path if there is one, and `None` if the path ends in `..`
/// or has no component. The contract only names that result. The path was a
/// string, so its component is valid Unicode and converts without loss.
#[verifier::external_body]
pub(crate) fn file_name(path: &str) -> (r: Option<String>)
    ensures
        opt_text(r) == path_file_name(path@),
{
    std::path::Path::new(path).file_name().map(|n| n.to_string_lossy().into_owned())
}

/// `path` without its last component.
///
/// Trusted: calls `std::path::Path::parent`, which returns the path without
/// its final component, and `None` if the path ends in a root or prefix or is
/// empty. The contract only names that result.
#[verifier::external_body]
pub(crate) fn parent(path: &str) -> (r: Option<String>)
    ensures
        opt_text(r) == path_parent(path@),
{
    std::path::Path::new(path).parent().map(|p| p.to_string_lossy().into_owned())
}

/// `base` extended by `name`.
///
/// Trusted: calls `std::path::Path::join`, which adjoins `name` to `base`
/// (replacing `base` if `name` is absolute). The contract names that result
/// and claims one fact of it: when `name` is a single ordinary component, it
/// is the final component of the joined path, so `file_name` of the result
/// gives it back. The claim leaves out a `base` that begins with two
/// separators: on Windows such a base can be the stub of a share name, which
/// the joined name would complete instead of following.
#[verifier::external_body]
pub(crate) fn join(base: &str, name: &str) -> (r: String)
    ensures
        r@ == path_join(base@, name@),
        is_plain_component(name@) && !begins_with_two_separators(base@) ==> path_file_name(r@)
            == Some(name@),
{
    std::path::Path::new(base).join(name).to_string_lossy().into_owned()
}

} // verus!
