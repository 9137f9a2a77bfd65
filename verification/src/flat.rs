//! The flat (single-directory) diff backup: the older layout without
//! generations, kept for directories that predate the generation tree.
//!
//! One call either seeds the baseline — when none exists yet — or diffs
//! the working file against it, writing the artifact under its final
//! timestamped name in the same directory.

use vstd::prelude::*;

use crate::clock::{current_timestamp, stamp_ok};
use crate::engine::{make_diff_args, spec_make_diff_args, DiffError};
use crate::genname::{baseline_name, spec_baseline_name};
use crate::naming::spec_default_backup_dir;
use crate::listing::hdiff_list_dir;
use crate::paths::{basename, path_join, spec_basename, spec_join};

verus! {

/// What a flat backup run must do, decided from whether the baseline
/// already exists.
pub enum FlatBackupPlan {
    /// No baseline yet: copy the working file in as the baseline and
    /// stop; no diff is made on this run.
    SeedBaseline { target_dir: String, base_full: String },
    /// The baseline exists: run the diff tool straight to the final
    /// artifact name `<file>.<ts>.diff` in the target directory.
    MakeDiff { target_dir: String, args: Vec<String> },
}

/// The flat artifact name `<file_name>.<ts>.diff` — no algorithm segment,
/// unlike the generation tree's artifacts.
pub open spec fn spec_flat_diff_name(file_name: Seq<char>, ts: Seq<char>) -> Seq<char> {
    file_name + seq!['.'] + ts + seq!['.', 'd', 'i', 'f', 'f']
}

fn flat_diff_name(file_name: &str, ts: &str) -> (r: String)
    ensures
        r@ == spec_flat_diff_name(file_name@, ts@),
{
    let mut r = String::from_str(file_name);
    r.append(".");
    r.append(ts);
    r.append(".diff");
    proof {
        reveal_strlit(".");
        reveal_strlit(".diff");
        assert(r@ =~= spec_flat_diff_name(file_name@, ts@));
    }
    r
}

/// Plan one flat backup run against `custom_dir` — or the default backup
/// directory when none is given — from whether the baseline file already
/// exists there. The caller creates the target directory, then either
/// copies the baseline in or runs the tool, as the plan says.
pub fn plan_flat_backup(
    work_file: &str,
    custom_dir: &Option<String>,
    base_exists: bool,
    compress: &str,
) -> (r: Result<FlatBackupPlan, DiffError>)
    ensures
        ({
            let target = match custom_dir {
                Some(d) => if d@.len() > 0 {
                    d@
                } else {
                    spec_default_backup_dir(work_file@)
                },
                None => spec_default_backup_dir(work_file@),
            };
            let name = spec_basename(work_file@);
            if name.len() == 0 {
                r matches Err(DiffError::IoError(msg)) && msg@ == "Invalid work file name"@
            } else {
                let base_full = spec_join(target, spec_baseline_name(name));
                if !base_exists {
                    r matches Ok(FlatBackupPlan::SeedBaseline { target_dir, base_full: b })
                        && target_dir@ == target && b@ == base_full
                } else {
                    r matches Ok(FlatBackupPlan::MakeDiff { target_dir, args }) && target_dir@
                        == target && exists|ts: Seq<char>|
                        stamp_ok(ts) && args@.map_values(|s: String| s@) == spec_make_diff_args(
                            base_full,
                            work_file@,
                            spec_join(target, spec_flat_diff_name(name, ts)),
                            compress@,
                        )
                }
            }
        }),
{
    let target_dir = hdiff_list_dir(work_file, custom_dir);
    let file_name = basename(work_file);
    if file_name.as_str().unicode_len() == 0 {
        let msg = String::from_str("Invalid work file name");
        proof {
            reveal_strlit("Invalid work file name");
        }
        return Err(DiffError::IoError(msg));
    }
    let base_full = path_join(
        target_dir.as_str(),
        baseline_name(file_name.as_str()).as_str(),
    );
    if !base_exists {
        Ok(FlatBackupPlan::SeedBaseline { target_dir, base_full })
    } else {
        let ts = current_timestamp();
        let diff_path = path_join(
            target_dir.as_str(),
            flat_diff_name(file_name.as_str(), ts.as_str()).as_str(),
        );
        let args = make_diff_args(
            base_full.as_str(),
            work_file,
            diff_path.as_str(),
            compress,
        );
        proof {
            assert(stamp_ok(ts@) && args@.map_values(|s: String| s@) == spec_make_diff_args(
                base_full@,
                work_file@,
                spec_join(target_dir@, spec_flat_diff_name(file_name@, ts@)),
                compress@,
            ));
        }
        Ok(FlatBackupPlan::MakeDiff { target_dir, args })
    }
}

} // verus!
