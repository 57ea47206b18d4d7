//! Paths that clients name.

use crate::acp::error::{malformed, outcome, AcpErrorView, AcpServerError};
use crate::custom_headers::lower_char;
use vstd::prelude::*;
use vstd::string::*;

verus! {

/// A path as a client wrote it, and whether the host takes it for absolute.
pub struct SessionPath {
    pub text: String,
    pub absolute: bool,
}

/// A path that starts with a drive letter, a colon and a separator.
pub open spec fn has_drive_root(text: Seq<char>) -> bool {
    &&& text.len() >= 3
    &&& 'a' <= lower_char(text[0]) <= 'z'
    &&& text[1] == ':'
    &&& is_separator(text[2])
}

/// Some platform may take a text for an absolute path.
pub open spec fn may_be_absolute(text: Seq<char>) -> bool {
    is_rooted(text) || has_drive_root(text)
}

/// `std::path::Path::is_absolute`. What it says depends on the platform: on
/// Unix a path is absolute that starts with the root, on Windows one that has a
/// prefix and starts with the root. Every absolute path there begins with a
/// separator, or with a drive letter, a colon and a separator; which of those
/// are absolute is left open.
#[verifier::external_body]
fn host_is_absolute(text: &str) -> (b: bool)
    ensures
        b ==> may_be_absolute(text@),
{
    std::path::Path::new(text).is_absolute()
}

/// A character that separates the parts of a path on some platform.
pub open spec fn is_separator(c: char) -> bool {
    c == '/' || c == '\\'
}

/// The position of the first separator, or the length.
pub open spec fn part_end(text: Seq<char>) -> nat
    decreases text.len(),
{
    if text.len() == 0 || is_separator(text[0]) {
        0
    } else {
        1 + part_end(text.skip(1))
    }
}

/// The parts of a path between separators, without the empty ones and those
/// that are a single dot.
pub open spec fn path_parts(text: Seq<char>) -> Seq<Seq<char>>
    decreases text.len(),
{
    if text.len() == 0 {
        Seq::empty()
    } else {
        let n: int = part_end(text) as int;
        let first = text.take(n);
        let rest = if n < text.len() {
            path_parts(text.skip(n + 1))
        } else {
            Seq::empty()
        };
        if first.len() == 0 || first == seq!['.'] {
            rest
        } else {
            seq![first] + rest
        }
    }
}

/// A path with its drive letters in lower case: those before a colon.
pub open spec fn drive_folded(text: Seq<char>) -> Seq<char> {
    Seq::new(
        text.len(),
        |i: int|
            if i + 1 < text.len() && text[i + 1] == ':' {
                lower_char(text[i])
            } else {
                text[i]
            },
    )
}

/// A path that starts with a separator.
pub open spec fn is_rooted(text: Seq<char>) -> bool {
    text.len() > 0 && is_separator(text[0])
}

/// Some platform may take the two texts for the same path: their parts are the
/// same, but for the case of drive letters, and both or neither start with a
/// separator.
pub open spec fn may_be_same_path(a: Seq<char>, b: Seq<char>) -> bool {
    is_rooted(a) == is_rooted(b) && path_parts(drive_folded(a)) == path_parts(drive_folded(b))
}

/// `==` of `std::path::Path`, which compares component by component. What
/// separates components, and whether there are drive letters, depends on the
/// platform, so that the result is not fixed for every two texts. On every
/// platform a path equals itself, and equal paths have the same parts after the
/// same start: separators may be repeated, be different or stand at the end, and
/// single dots may be left out, but nothing else is normalised, and case counts
/// except in drive letters.
#[verifier::external_body]
pub(crate) fn same_path(a: &str, b: &str) -> (r: bool)
    ensures
        a@ == b@ ==> r,
        r ==> may_be_same_path(a@, b@),
{
    std::path::Path::new(a) == std::path::Path::new(b)
}

impl SessionPath {
    /// The path that a text names.
    pub fn new(text: &str) -> (p: SessionPath)
        ensures
            p.text@ == text@,
            p.absolute ==> may_be_absolute(text@),
    {
        SessionPath { text: text.to_owned(), absolute: host_is_absolute(text) }
    }
}

/// The outcome of asking that a path be absolute.
pub open spec fn absolute_result(path: SessionPath, field: Seq<char>) -> Result<(), AcpErrorView> {
    if path.absolute {
        Ok(())
    } else {
        malformed(field + " must be an absolute path"@)
    }
}

/// Asks that a path be absolute; `field` names it in the error.
pub fn validate_absolute(path: &SessionPath, field: &str) -> (r: Result<(), AcpServerError>)
    ensures
        outcome(r) == absolute_result(*path, field@),
{
    if path.absolute {
        Ok(())
    } else {
        Err(
            AcpServerError::MalformedMessage(
                field.to_owned().concat(" must be an absolute path"),
            ),
        )
    }
}

/// The outcome of asking that a request's directories be absolute: the working
/// directory first, then the others in order.
pub open spec fn paths_result(cwd: SessionPath, others: Seq<SessionPath>) -> Result<
    (),
    AcpErrorView,
> {
    if absolute_result(cwd, "cwd"@) is Err {
        absolute_result(cwd, "cwd"@)
    } else if forall|i: int| 0 <= i < others.len() ==> (#[trigger] others[i]).absolute {
        Ok(())
    } else {
        malformed("additionalDirectories"@ + " must be an absolute path"@)
    }
}

/// Asks that a request's directories be absolute.
pub fn validate_paths(cwd: &SessionPath, others: &Vec<SessionPath>) -> (r: Result<
    (),
    AcpServerError,
>)
    ensures
        outcome(r) == paths_result(*cwd, others@),
{
    match validate_absolute(cwd, "cwd") {
        Err(e) => {
            return Err(e);
        },
        Ok(()) => {},
    }
    let mut i: usize = 0;
    while i < others.len()
        invariant
            i <= others@.len(),
            absolute_result(*cwd, "cwd"@) is Ok,
            forall|k: int| 0 <= k < i ==> (#[trigger] others@[k]).absolute,
        decreases others@.len() - i,
    {
        match validate_absolute(&others[i], "additionalDirectories") {
            Err(e) => {
                assert(!others@[i as int].absolute);
                return Err(e);
            },
            Ok(()) => {},
        }
        i += 1;
    }
    Ok(())
}

} // verus!
