//! The backup orchestrator: one backup operation as a verified state
//! machine.
//!
//! The machine decides everything — route selection, baseline sync, the
//! speculative diff, the rotation decision, and the commit — and asks the
//! caller to perform each filesystem or tool action, feeding the outcome
//! back as an event. The speculative diff always targets a path outside the
//! backup tree and only a rename puts an artifact under its final name, so
//! no half-written artifact is ever visible as history.

use vstd::prelude::*;

use crate::clock::{current_timestamp, stamp_ok};
use crate::engine::{
    create_tool_error, make_diff_args, spec_make_diff_args, DiffError,
};
use crate::genname::{
    baseline_name, diff_artifact_name, generation_dir_name, name_has_base_prefix,
    parse_base_prefix, spec_baseline_name, spec_diff_artifact_name, spec_gen_dir_name,
    spec_parse_base_prefix, spec_parse_gen_name, temp_diff_name, has_base_prefix,
    spec_temp_diff_name,
};
use crate::naming::{default_backup_dir, spec_default_backup_dir};
use crate::paths::{
    basename, parent_dir, path_join, spec_basename, spec_join, spec_parent,
    spec_trim_trailing_seps, trim_trailing_seps,
};
use crate::resolver::{
    compare_and_adopt, get_latest_generation, is_latest_choice, latest_pick_ok,
    resolve_generation_dir, AdoptDecision, ResolveOutcome, spec_gen_candidate,
};
use crate::rotation::{rotation_due, spec_rotation_due, Threshold};
use crate::strutil::str_eq;

verus! {

/// What the caller must do next for the backup to proceed.
pub enum BackupAction {
    /// List the immediate subdirectory names of `root`; report them as a
    /// `Listing` event, or `None` when the root does not exist.
    ListRoot { root: String },
    /// Create directory `dir` (and parents) and copy `baseline_src` in as
    /// `baseline_dst`; report the outcome as an `Io` event.
    CreateGenDir { dir: String, baseline_src: String, baseline_dst: String },
    /// Ensure directory `dir` exists, and copy `baseline_src` in as
    /// `baseline_dst` only when that file is absent; report as `Io`.
    EnsureDirAndBaseline { dir: String, baseline_src: String, baseline_dst: String },
    /// Run the diff tool with these arguments; report exit status and
    /// captured diagnostics as a `Tool` event.
    RunDiffTool { args: Vec<String> },
    /// Report the byte sizes of the working file and the temp diff as a
    /// `Sizes` event.
    StatSizes { work_file: String, temp_diff: String },
    /// Delete the temp diff, best-effort; report as `Io` (the outcome is
    /// ignored).
    RemoveTemp { path: String },
    /// Atomically rename `from` to `to`; report as `Io`.
    FinalizeRename { from: String, to: String },
}

/// The caller's report on the action last asked for.
pub enum BackupEvent {
    /// The subdirectory names under the listed root, or `None` when the
    /// root does not exist.
    Listing(Option<Vec<String>>),
    /// Outcome of a filesystem action; `Err` carries the message.
    Io(Result<(), String>),
    /// Outcome of a tool run; `Err` carries the diagnostic text of a
    /// nonzero exit.
    Tool(Result<(), String>),
    /// The working-file and temp-diff sizes, in bytes.
    Sizes(Result<(u64, u64), String>),
}

/// One turn of the machine: either an action to perform, or the
/// operation's final outcome.
pub enum BackupStep {
    Do(BackupAction),
    Done(Result<(), DiffError>),
}

/// Where the machine stands.
#[derive(Debug, Clone, Copy, PartialEq, Eq, Structural)]
pub enum BackupPhase {
    /// Waiting for the root listing of the automatic route.
    Resolving,
    /// Waiting for generation 1 to be created.
    CreatingFirst,
    /// Waiting for the target directory and baseline to be ensured.
    Syncing,
    /// Waiting for the speculative diff against the current baseline.
    DiffingTemp,
    /// Waiting for the working-file and temp-diff sizes.
    Measuring,
    /// Rotation under way: waiting for the temp diff to be discarded.
    Discarding,
    /// Rotation under way: waiting for the re-scan listing.
    Rescanning,
    /// Rotation under way: waiting for the new generation's directory and
    /// baseline.
    PreparingNext,
    /// Waiting for the recomputed diff inside the new generation.
    DiffingFinal,
    /// Waiting for the temp diff to be renamed to its final name.
    Renaming,
    /// The operation has ended, in success or failure.
    Finished,
}

/// The view of a listing event's payload: the names, or nothing when the
/// root was absent.
pub open spec fn listing_view(opt: Option<Vec<String>>) -> Seq<String> {
    match opt {
        Some(v) => v@,
        None => Seq::<String>::empty(),
    }
}

/// Some entry of the re-scan listing scans to an index strictly above
/// `cur`: a concurrent actor has already rotated.
pub open spec fn spec_newer_exists(entries: Seq<String>, cur: i32) -> bool {
    exists|j: int|
        0 <= j < entries.len() && spec_parse_gen_name(#[trigger] entries[j]@) is Some
            && spec_parse_gen_name(entries[j]@)->Some_0 > cur
}

/// A single backup operation, driven by events.
pub struct BackupMachine {
    /// Where the machine stands.
    pub phase: BackupPhase,
    /// The working file being backed up.
    pub work_file: String,
    /// Its file name (final path component).
    pub file_name: String,
    /// The requested diff algorithm identifier.
    pub algo: String,
    /// The compression codec handed to the tool.
    pub compress: String,
    /// The rotation threshold ratio.
    pub threshold: Threshold,
    /// The timestamp all names of this operation embed.
    pub ts: String,
    /// The directory whose generations this operation works under.
    pub project_root: String,
    /// The generation directory this operation currently targets.
    pub target_dir: String,
    /// The baseline file inside the target generation.
    pub base_full: String,
    /// The index of the generation this operation started from.
    pub current_idx: i32,
    /// The speculative diff's path, outside the backup tree.
    pub temp_diff: String,
}

impl BackupMachine {
    /// The machine's invariant: the cached names are consistent with the
    /// working file and timestamp, and the baseline path sits inside the
    /// target generation whenever one has been chosen.
    pub open spec fn wf(&self) -> bool {
        self.phase != BackupPhase::Finished ==> {
            &&& self.file_name@ == spec_basename(self.work_file@)
            &&& self.file_name@.len() > 0
            &&& stamp_ok(self.ts@)
            &&& self.threshold.wf()
            &&& self.current_idx >= 0
            &&& self.phase != BackupPhase::Resolving ==> self.base_full@ == spec_join(
                self.target_dir@,
                spec_baseline_name(self.file_name@),
            )
        }
    }

    /// `m1` is `m0` with at most the phase changed.
    pub open spec fn same_but_phase(m0: BackupMachine, m1: BackupMachine) -> bool {
        m1 == (BackupMachine { phase: m1.phase, ..m0 })
    }

    /// Which events the machine can take next.
    pub open spec fn expects(&self, ev: BackupEvent) -> bool {
        match self.phase {
            BackupPhase::Resolving => ev is Listing,
            BackupPhase::CreatingFirst => ev is Io,
            BackupPhase::Syncing => ev is Io,
            BackupPhase::DiffingTemp => ev is Tool,
            BackupPhase::Measuring => ev is Sizes,
            BackupPhase::Discarding => ev is Io,
            BackupPhase::Rescanning => ev is Listing,
            BackupPhase::PreparingNext => ev is Io,
            BackupPhase::DiffingFinal => ev is Tool,
            BackupPhase::Renaming => ev is Io,
            BackupPhase::Finished => false,
        }
    }

    /// The entry into diffing: any algorithm but the live one is rejected
    /// with an unsupported-format error; otherwise the speculative diff
    /// against the current baseline is requested, writing to the temp path.
    pub open spec fn diff_begun(m0: BackupMachine, m1: BackupMachine, r: BackupStep) -> bool {
        if m0.algo@ == "hdiff"@ {
            &&& m1.phase == BackupPhase::DiffingTemp
            &&& r matches BackupStep::Do(BackupAction::RunDiffTool { args })
                && args@.map_values(|s: String| s@) == spec_make_diff_args(
                m0.base_full@,
                m0.work_file@,
                m0.temp_diff@,
                m0.compress@,
            )
        } else {
            &&& m1.phase == BackupPhase::Finished
            &&& r matches BackupStep::Done(Err(DiffError::UnsupportedFormat(msg))) && msg@ == "`"@
                + m0.algo@ + "` is not supported yet."@
        }
    }

    fn begin_diff(&mut self) -> (r: BackupStep)
        ensures
            *final(self) == (BackupMachine { phase: final(self).phase, ..*old(self) }),
            Self::diff_begun(*old(self), *final(self), r),
    {
        if !str_eq(self.algo.as_str(), "hdiff") {
            self.phase = BackupPhase::Finished;
            let mut msg = String::from_str("`");
            msg.append(self.algo.as_str());
            msg.append("` is not supported yet.");
            proof {
                reveal_strlit("`");
                reveal_strlit("` is not supported yet.");
            }
            return BackupStep::Done(Err(DiffError::UnsupportedFormat(msg)));
        }
        self.phase = BackupPhase::DiffingTemp;
        let args = make_diff_args(
            self.base_full.as_str(),
            self.work_file.as_str(),
            self.temp_diff.as_str(),
            self.compress.as_str(),
        );
        BackupStep::Do(BackupAction::RunDiffTool { args })
    }

    /// Begin a backup operation.
    ///
    /// The target is `custom_dir` — trimmed of trailing separators — or
    /// the default `cg_backup_<stem>` root beside the working file when
    /// none is given. A directory whose own name starts with `base` is an
    /// explicitly chosen generation: it is used directly, its parent
    /// becoming the root for any rotation. Anything else is treated as the
    /// root, and the latest generation under it is resolved from its
    /// listing.
    pub fn start(
        work_file: &str,
        custom_dir: &str,
        algo: &str,
        compress: &str,
        threshold: Threshold,
        temp_dir: &str,
    ) -> (r: (BackupMachine, BackupStep))
        requires
            threshold.wf(),
        ensures
            r.0.wf(),
            r.0.work_file@ == work_file@,
            r.0.algo@ == algo@,
            r.0.compress@ == compress@,
            r.0.threshold == threshold,
            ({
                let m = r.0;
                let initial = if custom_dir@.len() == 0 {
                    spec_default_backup_dir(work_file@)
                } else {
                    spec_trim_trailing_seps(custom_dir@)
                };
                let folder = spec_basename(initial);
                if spec_basename(work_file@).len() == 0 {
                    m.phase == BackupPhase::Finished && (r.1 matches BackupStep::Done(
                        Err(DiffError::IoError(msg)),
                    ) && msg@ == "Invalid work file name"@)
                } else {
                    &&& stamp_ok(m.ts@)
                    &&& m.temp_diff@ == spec_join(
                        temp_dir@,
                        spec_temp_diff_name(spec_basename(work_file@), m.ts@),
                    )
                    &&& if has_base_prefix(folder) {
                        &&& m.phase == BackupPhase::Syncing
                        &&& m.target_dir@ == initial
                        &&& m.project_root@ == spec_parent(initial)
                        &&& m.current_idx == spec_parse_base_prefix(folder)
                        &&& r.1 matches BackupStep::Do(
                            BackupAction::EnsureDirAndBaseline { dir, baseline_src, baseline_dst },
                        ) && dir@ == initial && baseline_src@ == work_file@ && baseline_dst@
                            == m.base_full@
                    } else {
                        &&& m.phase == BackupPhase::Resolving
                        &&& m.project_root@ == initial
                        &&& r.1 matches BackupStep::Do(BackupAction::ListRoot { root }) && root@
                            == initial
                    }
                }
            }),
    {
        let file_name = basename(work_file);
        let ts = current_timestamp();
        let temp_diff = path_join(
            temp_dir,
            temp_diff_name(file_name.as_str(), ts.as_str()).as_str(),
        );
        let initial = if custom_dir.unicode_len() == 0 {
            default_backup_dir(work_file)
        } else {
            trim_trailing_seps(custom_dir)
        };
        let mut m = BackupMachine {
            phase: BackupPhase::Finished,
            work_file: String::from_str(work_file),
            file_name,
            algo: String::from_str(algo),
            compress: String::from_str(compress),
            threshold,
            ts,
            project_root: String::new(),
            target_dir: String::new(),
            base_full: String::new(),
            current_idx: 0,
            temp_diff,
        };
        if m.file_name.as_str().unicode_len() == 0 {
            let msg = String::from_str("Invalid work file name");
            proof {
                reveal_strlit("Invalid work file name");
            }
            return (m, BackupStep::Done(Err(DiffError::IoError(msg))));
        }
        let folder = basename(initial.as_str());
        if name_has_base_prefix(folder.as_str()) {
            m.project_root = parent_dir(initial.as_str());
            m.current_idx = parse_base_prefix(folder.as_str());
            m.base_full = path_join(
                initial.as_str(),
                baseline_name(m.file_name.as_str()).as_str(),
            );
            m.target_dir = initial;
            m.phase = BackupPhase::Syncing;
            let dir = m.target_dir.clone();
            let baseline_src = m.work_file.clone();
            let baseline_dst = m.base_full.clone();
            (m, BackupStep::Do(BackupAction::EnsureDirAndBaseline { dir, baseline_src, baseline_dst }))
        } else {
            m.project_root = initial;
            m.phase = BackupPhase::Resolving;
            let root = m.project_root.clone();
            (m, BackupStep::Do(BackupAction::ListRoot { root }))
        }
    }

    /// Feed back the outcome of the last action and get the next turn.
    ///
    /// The contract pins each transition: resolution picks the latest
    /// generation or creates generation 1; a failed tool run or filesystem
    /// step aborts with the matching error; the rotation decision follows
    /// the verified policy exactly; and the rotation commit adopts a
    /// concurrently created newer generation rather than creating a
    /// duplicate, else creates exactly the next index.
    pub fn step(&mut self, ev: BackupEvent) -> (r: BackupStep)
        requires
            old(self).wf(),
            old(self).expects(ev),
        ensures
            final(self).wf(),
            final(self).work_file == old(self).work_file,
            final(self).file_name == old(self).file_name,
            final(self).algo == old(self).algo,
            final(self).compress == old(self).compress,
            final(self).threshold == old(self).threshold,
            final(self).ts == old(self).ts,
            final(self).project_root == old(self).project_root,
            final(self).temp_diff == old(self).temp_diff,
            old(self).phase != BackupPhase::Resolving && old(self).phase
                != BackupPhase::Rescanning ==> Self::same_but_phase(*old(self), *final(self)),
            match old(self).phase {
                BackupPhase::Resolving => match ev {
                    BackupEvent::Listing(opt) => {
                        let es = listing_view(opt);
                        if exists|k: int| spec_gen_candidate(es, k) {
                            &&& final(self).phase == BackupPhase::Syncing
                            &&& latest_pick_ok(
                                old(self).project_root@,
                                es,
                                final(self).target_dir@,
                                final(self).current_idx,
                            )
                            &&& r matches BackupStep::Do(
                                BackupAction::EnsureDirAndBaseline {
                                    dir,
                                    baseline_src,
                                    baseline_dst,
                                },
                            ) && dir@ == final(self).target_dir@ && baseline_src@ == old(
                                self,
                            ).work_file@ && baseline_dst@ == final(self).base_full@
                        } else {
                            &&& final(self).phase == BackupPhase::CreatingFirst
                            &&& final(self).current_idx == 1
                            &&& final(self).target_dir@ == spec_join(
                                old(self).project_root@,
                                spec_gen_dir_name(1, old(self).ts@),
                            )
                            &&& r matches BackupStep::Do(
                                BackupAction::CreateGenDir { dir, baseline_src, baseline_dst },
                            ) && dir@ == final(self).target_dir@ && baseline_src@ == old(
                                self,
                            ).work_file@ && baseline_dst@ == final(self).base_full@
                        }
                    },
                    _ => false,
                },
                BackupPhase::CreatingFirst => match ev {
                    BackupEvent::Io(Ok(())) => Self::diff_begun(*old(self), *final(self), r),
                    BackupEvent::Io(Err(e)) => final(self).phase == BackupPhase::Finished && (
                    r matches BackupStep::Done(Err(DiffError::IoError(msg))) && msg@ == e@),
                    _ => false,
                },
                BackupPhase::Syncing => match ev {
                    BackupEvent::Io(Ok(())) => Self::diff_begun(*old(self), *final(self), r),
                    BackupEvent::Io(Err(e)) => final(self).phase == BackupPhase::Finished && (
                    r matches BackupStep::Done(Err(DiffError::IoError(msg))) && msg@ == e@),
                    _ => false,
                },
                BackupPhase::DiffingTemp => match ev {
                    BackupEvent::Tool(Ok(())) => {
                        &&& final(self).phase == BackupPhase::Measuring
                        &&& r matches BackupStep::Do(
                            BackupAction::StatSizes { work_file, temp_diff },
                        ) && work_file@ == old(self).work_file@ && temp_diff@ == old(
                            self,
                        ).temp_diff@
                    },
                    BackupEvent::Tool(Err(e)) => final(self).phase == BackupPhase::Finished && (
                    r matches BackupStep::Done(Err(DiffError::ToolFailed(msg))) && msg@
                        == "hdiffz error: "@ + e@),
                    _ => false,
                },
                BackupPhase::Measuring => match ev {
                    BackupEvent::Sizes(Ok((work_size, diff_size))) => {
                        if spec_rotation_due(work_size, diff_size, old(self).threshold) {
                            &&& final(self).phase == BackupPhase::Discarding
                            &&& final(self).target_dir == old(self).target_dir
                            &&& final(self).current_idx == old(self).current_idx
                            &&& r matches BackupStep::Do(BackupAction::RemoveTemp { path })
                                && path@ == old(self).temp_diff@
                        } else {
                            &&& final(self).phase == BackupPhase::Renaming
                            &&& final(self).target_dir == old(self).target_dir
                            &&& r matches BackupStep::Do(
                                BackupAction::FinalizeRename { from, to },
                            ) && from@ == old(self).temp_diff@ && to@ == spec_join(
                                old(self).target_dir@,
                                spec_diff_artifact_name(
                                    old(self).file_name@,
                                    old(self).ts@,
                                    old(self).algo@,
                                ),
                            )
                        }
                    },
                    BackupEvent::Sizes(Err(e)) => final(self).phase == BackupPhase::Finished && (
                    r matches BackupStep::Done(Err(DiffError::IoError(msg))) && msg@ == e@),
                    _ => false,
                },
                BackupPhase::Discarding => {
                    &&& final(self).phase == BackupPhase::Rescanning
                    &&& final(self).target_dir == old(self).target_dir
                    &&& final(self).current_idx == old(self).current_idx
                    &&& r matches BackupStep::Do(BackupAction::ListRoot { root }) && root@ == old(
                        self,
                    ).project_root@
                },
                BackupPhase::Rescanning => match ev {
                    BackupEvent::Listing(opt) => {
                        let es = listing_view(opt);
                        if old(self).current_idx == i32::MAX {
                            final(self).phase == BackupPhase::Finished && (r matches
                                BackupStep::Done(Err(DiffError::IoError(msg))) && msg@
                                == "generation index overflow"@)
                        } else if spec_newer_exists(es, old(self).current_idx) {
                            &&& final(self).phase == BackupPhase::PreparingNext
                            &&& final(self).current_idx > old(self).current_idx
                            &&& latest_pick_ok(
                                old(self).project_root@,
                                es,
                                final(self).target_dir@,
                                final(self).current_idx,
                            )
                            &&& r matches BackupStep::Do(
                                BackupAction::EnsureDirAndBaseline {
                                    dir,
                                    baseline_src,
                                    baseline_dst,
                                },
                            ) && dir@ == final(self).target_dir@ && baseline_src@ == old(
                                self,
                            ).work_file@ && baseline_dst@ == final(self).base_full@
                        } else {
                            &&& final(self).phase == BackupPhase::PreparingNext
                            &&& final(self).current_idx == old(self).current_idx + 1
                            &&& final(self).target_dir@ == spec_join(
                                old(self).project_root@,
                                spec_gen_dir_name(old(self).current_idx + 1, old(self).ts@),
                            )
                            &&& r matches BackupStep::Do(
                                BackupAction::CreateGenDir { dir, baseline_src, baseline_dst },
                            ) && dir@ == final(self).target_dir@ && baseline_src@ == old(
                                self,
                            ).work_file@ && baseline_dst@ == final(self).base_full@
                        }
                    },
                    _ => false,
                },
                BackupPhase::PreparingNext => match ev {
                    BackupEvent::Io(Ok(())) => {
                        &&& final(self).phase == BackupPhase::DiffingFinal
                        &&& r matches BackupStep::Do(BackupAction::RunDiffTool { args })
                            && args@.map_values(|s: String| s@) == spec_make_diff_args(
                            old(self).base_full@,
                            old(self).work_file@,
                            spec_join(
                                old(self).target_dir@,
                                spec_diff_artifact_name(
                                    old(self).file_name@,
                                    old(self).ts@,
                                    old(self).algo@,
                                ),
                            ),
                            old(self).compress@,
                        )
                    },
                    BackupEvent::Io(Err(e)) => final(self).phase == BackupPhase::Finished && (
                    r matches BackupStep::Done(Err(DiffError::IoError(msg))) && msg@ == e@),
                    _ => false,
                },
                BackupPhase::DiffingFinal => match ev {
                    BackupEvent::Tool(Ok(())) => final(self).phase == BackupPhase::Finished
                        && r matches BackupStep::Done(Ok(())),
                    BackupEvent::Tool(Err(e)) => final(self).phase == BackupPhase::Finished && (
                    r matches BackupStep::Done(Err(DiffError::ToolFailed(msg))) && msg@
                        == "hdiffz error: "@ + e@),
                    _ => false,
                },
                BackupPhase::Renaming => match ev {
                    BackupEvent::Io(Ok(())) => final(self).phase == BackupPhase::Finished
                        && r matches BackupStep::Done(Ok(())),
                    BackupEvent::Io(Err(e)) => final(self).phase == BackupPhase::Finished && (
                    r matches BackupStep::Done(Err(DiffError::IoError(msg))) && msg@
                        == "Failed to finalize diff: "@ + e@),
                    _ => false,
                },
                BackupPhase::Finished => false,
            },
    {
        match self.phase {
            BackupPhase::Resolving => {
                let ghost gev = ev;
                let entries: Vec<String> = match ev {
                    BackupEvent::Listing(Some(v)) => v,
                    _ => Vec::new(),
                };
                proof {
                    match gev {
                        BackupEvent::Listing(lopt) => {
                            assert(entries@ =~= listing_view(lopt));
                        },
                        _ => {},
                    }
                }
                let outcome = resolve_generation_dir(
                    self.project_root.as_str(),
                    &entries,
                    self.ts.as_str(),
                );
                match outcome {
                    ResolveOutcome::Existing { dir_path, idx } => {
                        self.base_full = path_join(
                            dir_path.as_str(),
                            baseline_name(self.file_name.as_str()).as_str(),
                        );
                        self.target_dir = dir_path;
                        self.current_idx = idx;
                        self.phase = BackupPhase::Syncing;
                        let dir = self.target_dir.clone();
                        let baseline_src = self.work_file.clone();
                        let baseline_dst = self.base_full.clone();
                        BackupStep::Do(
                            BackupAction::EnsureDirAndBaseline { dir, baseline_src, baseline_dst },
                        )
                    },
                    ResolveOutcome::CreateNew { dir_path, dir_name: _, idx } => {
                        self.base_full = path_join(
                            dir_path.as_str(),
                            baseline_name(self.file_name.as_str()).as_str(),
                        );
                        self.target_dir = dir_path;
                        self.current_idx = idx;
                        self.phase = BackupPhase::CreatingFirst;
                        let dir = self.target_dir.clone();
                        let baseline_src = self.work_file.clone();
                        let baseline_dst = self.base_full.clone();
                        BackupStep::Do(
                            BackupAction::CreateGenDir { dir, baseline_src, baseline_dst },
                        )
                    },
                }
            },
            BackupPhase::CreatingFirst => match ev {
                BackupEvent::Io(Ok(())) => self.begin_diff(),
                BackupEvent::Io(Err(e)) => {
                    self.phase = BackupPhase::Finished;
                    BackupStep::Done(Err(DiffError::IoError(e)))
                },
                _ => {
                    self.phase = BackupPhase::Finished;
                    BackupStep::Done(Ok(()))
                },
            },
            BackupPhase::Syncing => match ev {
                BackupEvent::Io(Ok(())) => self.begin_diff(),
                BackupEvent::Io(Err(e)) => {
                    self.phase = BackupPhase::Finished;
                    BackupStep::Done(Err(DiffError::IoError(e)))
                },
                _ => {
                    self.phase = BackupPhase::Finished;
                    BackupStep::Done(Ok(()))
                },
            },
            BackupPhase::DiffingTemp => match ev {
                BackupEvent::Tool(Ok(())) => {
                    self.phase = BackupPhase::Measuring;
                    let work_file = self.work_file.clone();
                    let temp_diff = self.temp_diff.clone();
                    BackupStep::Do(BackupAction::StatSizes { work_file, temp_diff })
                },
                BackupEvent::Tool(Err(e)) => {
                    self.phase = BackupPhase::Finished;
                    BackupStep::Done(Err(create_tool_error(e.as_str())))
                },
                _ => {
                    self.phase = BackupPhase::Finished;
                    BackupStep::Done(Ok(()))
                },
            },
            BackupPhase::Measuring => match ev {
                BackupEvent::Sizes(Ok((work_size, diff_size))) => {
                    if rotation_due(work_size, diff_size, &self.threshold) {
                        self.phase = BackupPhase::Discarding;
                        let path = self.temp_diff.clone();
                        BackupStep::Do(BackupAction::RemoveTemp { path })
                    } else {
                        self.phase = BackupPhase::Renaming;
                        let from = self.temp_diff.clone();
                        let to = path_join(
                            self.target_dir.as_str(),
                            diff_artifact_name(
                                self.file_name.as_str(),
                                self.ts.as_str(),
                                self.algo.as_str(),
                            ).as_str(),
                        );
                        BackupStep::Do(BackupAction::FinalizeRename { from, to })
                    }
                },
                BackupEvent::Sizes(Err(e)) => {
                    self.phase = BackupPhase::Finished;
                    BackupStep::Done(Err(DiffError::IoError(e)))
                },
                _ => {
                    self.phase = BackupPhase::Finished;
                    BackupStep::Done(Ok(()))
                },
            },
            BackupPhase::Discarding => {
                self.phase = BackupPhase::Rescanning;
                let root = self.project_root.clone();
                BackupStep::Do(BackupAction::ListRoot { root })
            },
            BackupPhase::Rescanning => {
                let ghost gev = ev;
                let entries: Vec<String> = match ev {
                    BackupEvent::Listing(Some(v)) => v,
                    _ => Vec::new(),
                };
                proof {
                    match gev {
                        BackupEvent::Listing(lopt) => {
                            assert(entries@ =~= listing_view(lopt));
                        },
                        _ => {},
                    }
                }
                if self.current_idx == i32::MAX {
                    self.phase = BackupPhase::Finished;
                    let msg = String::from_str("generation index overflow");
                    proof {
                        reveal_strlit("generation index overflow");
                    }
                    return BackupStep::Done(Err(DiffError::IoError(msg)));
                }
                let latest = get_latest_generation(self.project_root.as_str(), &entries);
                let ghost glatest = latest;
                proof {
                    let es = entries@;
                    let cur = self.current_idx;
                    match glatest {
                        Some(info) => {
                            let k = choose|k: int|
                                #![trigger is_latest_choice(es, k, info.base_idx)]
                                is_latest_choice(es, k, info.base_idx) && info.dir_path@
                                    == spec_join(self.project_root@, es[k]@);
                            if info.base_idx > cur {
                                assert(0 <= k < es.len() && spec_parse_gen_name(es[k]@) is Some
                                    && spec_parse_gen_name(es[k]@)->Some_0 > cur);
                                assert(spec_newer_exists(es, cur));
                            } else {
                                assert(!spec_newer_exists(es, cur)) by {
                                    if spec_newer_exists(es, cur) {
                                        let j = choose|j: int|
                                            0 <= j < es.len() && spec_parse_gen_name(
                                                #[trigger] es[j]@,
                                            ) is Some && spec_parse_gen_name(es[j]@)->Some_0
                                                > cur;
                                        assert(spec_parse_gen_name(es[j]@)->Some_0
                                            <= info.base_idx);
                                    }
                                }
                            }
                        },
                        None => {
                            assert(!spec_newer_exists(es, cur)) by {
                                if spec_newer_exists(es, cur) {
                                    let j = choose|j: int|
                                        0 <= j < es.len() && spec_parse_gen_name(
                                            #[trigger] es[j]@,
                                        ) is Some && spec_parse_gen_name(es[j]@)->Some_0 > cur;
                                }
                            }
                        },
                    }
                }
                let decision = compare_and_adopt(latest.as_ref(), self.current_idx);
                match decision {
                    AdoptDecision::AdoptExisting { dir_path, idx } => {
                        self.base_full = path_join(
                            dir_path.as_str(),
                            baseline_name(self.file_name.as_str()).as_str(),
                        );
                        self.target_dir = dir_path;
                        self.current_idx = idx;
                        self.phase = BackupPhase::PreparingNext;
                        let dir = self.target_dir.clone();
                        let baseline_src = self.work_file.clone();
                        let baseline_dst = self.base_full.clone();
                        BackupStep::Do(
                            BackupAction::EnsureDirAndBaseline { dir, baseline_src, baseline_dst },
                        )
                    },
                    AdoptDecision::CreateNext { idx } => {
                        let dir_name = generation_dir_name(idx, self.ts.as_str());
                        let dir_path = path_join(self.project_root.as_str(), dir_name.as_str());
                        self.base_full = path_join(
                            dir_path.as_str(),
                            baseline_name(self.file_name.as_str()).as_str(),
                        );
                        self.target_dir = dir_path;
                        self.current_idx = idx;
                        self.phase = BackupPhase::PreparingNext;
                        let dir = self.target_dir.clone();
                        let baseline_src = self.work_file.clone();
                        let baseline_dst = self.base_full.clone();
                        BackupStep::Do(
                            BackupAction::CreateGenDir { dir, baseline_src, baseline_dst },
                        )
                    },
                }
            },
            BackupPhase::PreparingNext => match ev {
                BackupEvent::Io(Ok(())) => {
                    self.phase = BackupPhase::DiffingFinal;
                    let final_path = path_join(
                        self.target_dir.as_str(),
                        diff_artifact_name(
                            self.file_name.as_str(),
                            self.ts.as_str(),
                            self.algo.as_str(),
                        ).as_str(),
                    );
                    let args = make_diff_args(
                        self.base_full.as_str(),
                        self.work_file.as_str(),
                        final_path.as_str(),
                        self.compress.as_str(),
                    );
                    BackupStep::Do(BackupAction::RunDiffTool { args })
                },
                BackupEvent::Io(Err(e)) => {
                    self.phase = BackupPhase::Finished;
                    BackupStep::Done(Err(DiffError::IoError(e)))
                },
                _ => {
                    self.phase = BackupPhase::Finished;
                    BackupStep::Done(Ok(()))
                },
            },
            BackupPhase::DiffingFinal => match ev {
                BackupEvent::Tool(Ok(())) => {
                    self.phase = BackupPhase::Finished;
                    BackupStep::Done(Ok(()))
                },
                BackupEvent::Tool(Err(e)) => {
                    self.phase = BackupPhase::Finished;
                    BackupStep::Done(Err(create_tool_error(e.as_str())))
                },
                _ => {
                    self.phase = BackupPhase::Finished;
                    BackupStep::Done(Ok(()))
                },
            },
            BackupPhase::Renaming => match ev {
                BackupEvent::Io(Ok(())) => {
                    self.phase = BackupPhase::Finished;
                    BackupStep::Done(Ok(()))
                },
                BackupEvent::Io(Err(e)) => {
                    self.phase = BackupPhase::Finished;
                    let mut msg = String::from_str("Failed to finalize diff: ");
                    msg.append(e.as_str());
                    BackupStep::Done(Err(DiffError::IoError(msg)))
                },
                _ => {
                    self.phase = BackupPhase::Finished;
                    BackupStep::Done(Ok(()))
                },
            },
            BackupPhase::Finished => BackupStep::Done(Ok(())),
        }
    }
}


/// One rotation against a root where no newer generation has appeared
/// commits exactly one new generation: any latest choice the re-scan could
/// have made carries an index at or below the one the operation started
/// from, so the machine creates index `cur + 1` — and the directory name
/// it creates scans back to exactly that index, whatever the timestamp.
pub proof fn lemma_rotation_creates_next_index(entries: Seq<String>, cur: i32, ts: Seq<char>)
    requires
        0 <= cur < i32::MAX,
        !spec_newer_exists(entries, cur),
    ensures
        forall|k: int, idx: i32| is_latest_choice(entries, k, idx) ==> idx <= cur,
        spec_parse_gen_name(spec_gen_dir_name(cur + 1, ts)) == Some((cur + 1) as i32),
{
    assert forall|k: int, idx: i32| is_latest_choice(entries, k, idx) implies idx <= cur by {
        if is_latest_choice(entries, k, idx) && idx > cur {
            assert(spec_parse_gen_name(entries[k]@) is Some && spec_parse_gen_name(entries[k]@)->Some_0 > cur);
            assert(spec_newer_exists(entries, cur));
        }
    }
    crate::genname::lemma_gen_dir_name_parses((cur + 1) as i32, ts);
}

} // verus!
