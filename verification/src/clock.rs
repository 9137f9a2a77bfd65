//! The one clock access the library makes: a local-time stamp for embedding
//! in artifact and generation names.

use vstd::prelude::*;

use crate::paths::is_sep;

verus! {

/// What every timestamp embedded in a file or directory name satisfies: it
/// is nonempty and free of `.` and path separators, so names built around it
/// keep their dot-separated structure.
pub open spec fn stamp_ok(ts: Seq<char>) -> bool {
    ts.len() >= 1 && forall|i: int| 0 <= i < ts.len() ==> ts[i] != '.' && !is_sep(ts[i])
}

/// Relies on `chrono::Local::now` and `chrono`'s `format`: a
/// `%Y%m%d_%H%M%S` rendering consists of the numeric fields (digits, with a
/// possible leading `-` on the year) joined by `_`, so it never contains `.`
/// or a path separator and is never empty. The value itself depends on the
/// clock, so nothing more is claimed of it.
#[verifier::external_body]
pub fn current_timestamp() -> (r: String)
    ensures
        stamp_ok(r@),
{
    chrono::Local::now().format("%Y%m%d_%H%M%S").to_string()
}

} // verus!
