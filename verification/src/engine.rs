//! The diff-engine adapter's verified half: the exact command lines handed
//! to the external diff/patch tool, and the error taxonomy every operation
//! reports through.
//!
//! The tool itself is a black-box subprocess the caller runs; it succeeds
//! exactly when it exits zero, and its diagnostic text is surfaced verbatim
//! inside the errors built here.

use vstd::prelude::*;

verus! {

/// Why a backup or restore operation failed.
#[derive(Debug)]
pub enum DiffError {
    /// A filesystem step failed; the message carries path context.
    IoError(String),
    /// The external tool exited nonzero; the message carries its
    /// diagnostics.
    ToolFailed(String),
    /// An explicitly unsupported diff algorithm was requested or detected.
    UnsupportedFormat(String),
    /// The best-effort replay of an unmarked legacy artifact failed; the
    /// message wraps the underlying cause.
    RecoveryFailed(String),
}

impl DiffError {
    /// The human-readable message carried by any variant.
    pub fn message(&self) -> (r: &String)
        ensures
            r@ == self.spec_message(),
    {
        match self {
            DiffError::IoError(m) => m,
            DiffError::ToolFailed(m) => m,
            DiffError::UnsupportedFormat(m) => m,
            DiffError::RecoveryFailed(m) => m,
        }
    }

    /// The message carried by any variant.
    pub open spec fn spec_message(&self) -> Seq<char> {
        match self {
            DiffError::IoError(m) => m@,
            DiffError::ToolFailed(m) => m@,
            DiffError::UnsupportedFormat(m) => m@,
            DiffError::RecoveryFailed(m) => m@,
        }
    }
}

/// The compression codecs the external tool accepts a flag for.
pub open spec fn is_known_compression(c: Seq<char>) -> bool {
    ||| c == "zstd"@
    ||| c == "lzma2"@
    ||| c == "lzma"@
    ||| c == "zlib"@
    ||| c == "ldef"@
    ||| c == "pbzip2"@
    ||| c == "bzip2"@
    ||| c == "none"@
}

/// The compression flag passed to the tool: none at all for `none`, the
/// matching `-c-<codec>` for a known codec, and the default `-c-zstd` for
/// anything unrecognized.
pub open spec fn spec_compression_flag(c: Seq<char>) -> Option<Seq<char>> {
    if c == "none"@ {
        None
    } else if is_known_compression(c) {
        Some("-c-"@ + c)
    } else {
        Some("-c-zstd"@)
    }
}

fn compression_flag(compression: &str) -> (r: Option<String>)
    ensures
        match r {
            Some(f) => spec_compression_flag(compression@) == Some(f@),
            None => spec_compression_flag(compression@) is None,
        },
{
    if crate::strutil::str_eq(compression, "none") {
        return None;
    }
    let known = crate::strutil::str_eq(compression, "zstd") || crate::strutil::str_eq(
        compression,
        "lzma2",
    ) || crate::strutil::str_eq(compression, "lzma") || crate::strutil::str_eq(compression, "zlib")
        || crate::strutil::str_eq(compression, "ldef") || crate::strutil::str_eq(
        compression,
        "pbzip2",
    ) || crate::strutil::str_eq(compression, "bzip2");
    if known {
        let mut f = String::from_str("-c-");
        f.append(compression);
        Some(f)
    } else {
        Some(String::from_str("-c-zstd"))
    }
}

/// The argument list for creating a diff: `-f -s [flag] <old> <new> <out>`.
pub open spec fn spec_make_diff_args(
    old_path: Seq<char>,
    new_path: Seq<char>,
    out_path: Seq<char>,
    compression: Seq<char>,
) -> Seq<Seq<char>> {
    let tail = seq![old_path, new_path, out_path];
    match spec_compression_flag(compression) {
        Some(f) => seq!["-f"@, "-s"@] + seq![f] + tail,
        None => seq!["-f"@, "-s"@] + tail,
    }
}

/// Build the diff-creation command line: force overwrite, streaming mode,
/// the compression flag when one applies, then old file, new file, output.
pub fn make_diff_args(old_path: &str, new_path: &str, out_path: &str, compression: &str) -> (r:
    Vec<String>)
    ensures
        r@.map_values(|s: String| s@) == spec_make_diff_args(
            old_path@,
            new_path@,
            out_path@,
            compression@,
        ),
{
    let mut v: Vec<String> = Vec::new();
    v.push(String::from_str("-f"));
    v.push(String::from_str("-s"));
    match compression_flag(compression) {
        Some(f) => v.push(f),
        None => {},
    }
    v.push(String::from_str(old_path));
    v.push(String::from_str(new_path));
    v.push(String::from_str(out_path));
    proof {
        assert(v@.map_values(|s: String| s@) =~= spec_make_diff_args(
            old_path@,
            new_path@,
            out_path@,
            compression@,
        ));
    }
    v
}

/// The argument list for applying a diff: `-f -s <base> <diff> <out>`.
pub open spec fn spec_apply_diff_args(
    base_path: Seq<char>,
    diff_path: Seq<char>,
    out_path: Seq<char>,
) -> Seq<Seq<char>> {
    seq!["-f"@, "-s"@, base_path, diff_path, out_path]
}

/// Build the patch-application command line: force overwrite, streaming
/// mode, then baseline, diff, output.
pub fn apply_diff_args(base_path: &str, diff_path: &str, out_path: &str) -> (r: Vec<String>)
    ensures
        r@.map_values(|s: String| s@) == spec_apply_diff_args(base_path@, diff_path@, out_path@),
{
    let mut v: Vec<String> = Vec::new();
    v.push(String::from_str("-f"));
    v.push(String::from_str("-s"));
    v.push(String::from_str(base_path));
    v.push(String::from_str(diff_path));
    v.push(String::from_str(out_path));
    proof {
        assert(v@.map_values(|s: String| s@) =~= spec_apply_diff_args(
            base_path@,
            diff_path@,
            out_path@,
        ));
    }
    v
}

/// The error reported when the diff-creation tool exits nonzero: its
/// diagnostic text, prefixed with the tool's name.
pub fn create_tool_error(stderr: &str) -> (r: DiffError)
    ensures
        r matches DiffError::ToolFailed(m) && m@ == "hdiffz error: "@ + stderr@,
{
    let mut m = String::from_str("hdiffz error: ");
    m.append(stderr);
    DiffError::ToolFailed(m)
}

/// The error reported when the patch-application tool exits nonzero: its
/// diagnostic text, prefixed with the tool's name.
pub fn apply_tool_error(stderr: &str) -> (r: DiffError)
    ensures
        r matches DiffError::ToolFailed(m) && m@ == "hpatchz error: "@ + stderr@,
{
    let mut m = String::from_str("hpatchz error: ");
    m.append(stderr);
    DiffError::ToolFailed(m)
}

} // verus!
