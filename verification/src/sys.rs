//! What the builtin has from the system's own vocabulary: error numbers and paths.

use vstd::prelude::*;

verus! {

/// The text of the system's error with the given number: its symbolic name, a colon and a blank,
/// and its description.
pub uninterp spec fn errno_message(errno: i32) -> Seq<char>;

/// Puts the system's error with the given number into words.
///
/// Calls `nix::errno::Errno::from_i32`, which maps a number to an error (to `UnknownErrno` where
/// the target system has no such number), and that error's `Display`, which writes the name of
/// the error, `": "` and its description. `Errno::last` is `from_i32` of the number that
/// `nix::errno::errno` reads. What is claimed is only that the text is a function of the number:
/// names and descriptions are tables of that crate, fixed for the system that the library is
/// built for, and are not written out here.
#[verifier::external_body]
pub(crate) fn errno_text(errno: i32) -> (r: String)
    ensures
        r@ == errno_message(errno),
{
    nix::errno::Errno::from_i32(errno).to_string()
}

/// Whether a path is the empty one.
///
/// Calls `is_empty` of `nix::NixPath` for `str`, which tells whether the path has no bytes; a
/// text has no bytes exactly if it has no characters.
#[verifier::external_body]
pub(crate) fn path_is_empty(path: &str) -> (r: bool)
    ensures
        r == (path@.len() == 0),
{
    nix::NixPath::is_empty(path)
}

} // verus!
