//! The kinds of error that a run reports, and the lines that it prints.

use num_format::{Locale, ToFormattedString};
use vstd::prelude::*;
use vstd::string::*;

verus! {

/// The least number of bytes that a slice may hold.
pub const MIN_FILE_SLICE_SIZE: usize = 1;

/// Why a run, or one file of it, is given up.
#[derive(Debug, Clone, Copy, PartialEq, Eq, Structural)]
pub enum ErrorKind {
    /// Too few arguments on the command line.
    Usage,
    /// The slice size is not a number that fits the machine.
    InvalidSize,
    /// The slice size is below `MIN_FILE_SLICE_SIZE`.
    SizeTooSmall,
    /// The source file could not be opened.
    OpenFailure,
    /// The path of the source file has no file name to call the output after.
    InvalidName,
    /// The output directory is already there.
    OutputExists,
}

/// The text in which `num_format` writes `n` under its locale `en`.
pub uninterp spec fn en_grouped(n: usize) -> Seq<char>;

/// Calls `to_formatted_string` of `num_format::ToFormattedString` on `n` with
/// `Locale::en`. Trusted: the text handed back is the one that `en_grouped`
/// names, and depends on `n` alone.
#[verifier::external_body]
fn group_digits(n: usize) -> (s: String)
    ensures
        s@ == en_grouped(n),
{
    n.to_formatted_string(&Locale::en)
}

/// The usage line, for a program called `program`.
pub open spec fn usage_text(program: Seq<char>) -> Seq<char> {
    "Usage: "@ + program + " <file_slice_size_in_bytes> <file1_path> <file2_path> ..."@
}

/// The line that refuses `input` as a slice size.
pub open spec fn invalid_size_text(input: Seq<char>) -> Seq<char> {
    "'"@ + input + "' is not a valid file size"@
}

/// The line that refuses a slice size as too small, where `limit` is the
/// least size as it is to be shown.
pub open spec fn too_small_text(limit: Seq<char>) -> Seq<char> {
    "File slice size must be greater than "@ + limit + " bytes"@
}

/// The line for a source file at `path` that could not be opened.
pub open spec fn open_failure_text(path: Seq<char>) -> Seq<char> {
    "Failed to open file: '"@ + path + "'"@
}

/// The line for a source `path` without a file name.
pub open spec fn invalid_name_text(path: Seq<char>) -> Seq<char> {
    "Invalid file path: '"@ + path + "'"@
}

/// The line for an output directory `dir` that is already there.
pub open spec fn output_exists_text(dir: Seq<char>) -> Seq<char> {
    "Path '"@ + dir + "' already exists, skipping. Please remove folder to create a new one."@
}

/// The line for a source file at `path` that has been sliced.
pub open spec fn success_text(path: Seq<char>) -> Seq<char> {
    "Successfully sliced: '"@ + path + "'"@
}

/// The line that reports an error of the given kind. `subject` is what the
/// error is about: the program's name for `Usage`, the size as it was typed
/// for `InvalidSize`, the source path for `OpenFailure` and `InvalidName`,
/// the output directory for `OutputExists`. `SizeTooSmall` names the least
/// size instead.
pub open spec fn error_text(kind: ErrorKind, subject: Seq<char>) -> Seq<char> {
    match kind {
        ErrorKind::Usage => usage_text(subject),
        ErrorKind::InvalidSize => invalid_size_text(subject),
        ErrorKind::SizeTooSmall => too_small_text(en_grouped(MIN_FILE_SLICE_SIZE)),
        ErrorKind::OpenFailure => open_failure_text(subject),
        ErrorKind::InvalidName => invalid_name_text(subject),
        ErrorKind::OutputExists => output_exists_text(subject),
    }
}

/// `before`, `middle` and `after`, joined.
fn framed(before: &str, middle: &str, after: &str) -> (s: String)
    ensures
        s@ == before@ + middle@ + after@,
{
    let mut s = String::from_str(before);
    s.append(middle);
    s.append(after);
    s
}

/// The line that refuses a slice size as too small, where `limit` is the
/// least size as it is to be shown.
pub fn too_small_message(limit: &str) -> (line: String)
    ensures
        line@ == too_small_text(limit@),
{
    framed("File slice size must be greater than ", limit, " bytes")
}

/// The line that reports an error of the given kind about `subject`.
pub fn error_message(kind: ErrorKind, subject: &str) -> (line: String)
    ensures
        line@ == error_text(kind, subject@),
{
    match kind {
        ErrorKind::Usage => framed(
            "Usage: ",
            subject,
            " <file_slice_size_in_bytes> <file1_path> <file2_path> ...",
        ),
        ErrorKind::InvalidSize => framed("'", subject, "' is not a valid file size"),
        ErrorKind::SizeTooSmall => {
            let limit = group_digits(MIN_FILE_SLICE_SIZE);
            too_small_message(limit.as_str())
        },
        ErrorKind::OpenFailure => framed("Failed to open file: '", subject, "'"),
        ErrorKind::InvalidName => framed("Invalid file path: '", subject, "'"),
        ErrorKind::OutputExists => framed(
            "Path '",
            subject,
            "' already exists, skipping. Please remove folder to create a new one.",
        ),
    }
}

/// The line for a source file at `path` that has been sliced.
pub fn success_message(path: &str) -> (line: String)
    ensures
        line@ == success_text(path@),
{
    framed("Successfully sliced: '", path, "'")
}

} // verus!
