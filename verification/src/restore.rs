//! The restore chain applier: replay an ordered list of diff artifacts
//! against their baselines to reconstruct the working file.
//!
//! Each artifact is classified by its file name: an explicitly unsupported
//! legacy algorithm aborts the whole chain; the current format is applied
//! against an inferred baseline; an unmarked artifact is replayed the same
//! way as best-effort recovery, with its failure reported distinctly. The
//! caller performs the filesystem checks and tool runs the machine asks
//! for, and feeds the outcome back in.

use vstd::prelude::*;

use crate::engine::{apply_diff_args, spec_apply_diff_args, DiffError};
use crate::genname::{baseline_name, spec_baseline_name};
use crate::clock::{current_timestamp, stamp_ok};
use crate::naming::{auto_output_path_with, spec_auto_output_path};
use crate::paths::{basename, parent_dir, path_join, spec_basename, spec_join, spec_parent};
use crate::strutil::{
    contains_str, ends_with_str, find_first, lower_of, lowercase, occurs_at, spec_contains,
    spec_ends_with,
};

verus! {

/// The marker of the explicitly unsupported legacy algorithm.
pub open spec fn bsdiff_marker() -> Seq<char> {
    seq!['.', 'b', 's', 'd', 'i', 'f', 'f', '.']
}

/// The marker of the current diff format.
pub open spec fn hdiff_marker() -> Seq<char> {
    seq!['.', 'h', 'd', 'i', 'f', 'f', '.']
}

/// The start of the timestamp segment in an artifact name: a dot followed
/// by the century digits.
pub open spec fn ts_marker() -> Seq<char> {
    seq!['.', '2', '0']
}

/// How an artifact in the chain is to be treated.
#[derive(Debug, Clone, Copy, PartialEq, Eq, Structural)]
pub enum DiffClass {
    /// Names the explicitly unsupported legacy algorithm: abort the chain.
    UnsupportedLegacy,
    /// Names the current format: apply it.
    Current,
    /// Carries neither marker: attempt the current path as best-effort
    /// recovery.
    Legacy,
}

/// The class an artifact name falls in.
pub open spec fn spec_classify_diff(name: Seq<char>) -> DiffClass {
    if spec_contains(name, bsdiff_marker()) {
        DiffClass::UnsupportedLegacy
    } else if spec_contains(name, hdiff_marker()) {
        DiffClass::Current
    } else {
        DiffClass::Legacy
    }
}

/// Classify an artifact by the markers in its file name.
pub fn classify_diff(name: &str) -> (r: DiffClass)
    ensures
        r == spec_classify_diff(name@),
{
    proof {
        reveal_strlit(".bsdiff.");
        reveal_strlit(".hdiff.");
        assert(".bsdiff."@ =~= bsdiff_marker());
        assert(".hdiff."@ =~= hdiff_marker());
    }
    if contains_str(name, ".bsdiff.") {
        DiffClass::UnsupportedLegacy
    } else if contains_str(name, ".hdiff.") {
        DiffClass::Current
    } else {
        DiffClass::Legacy
    }
}

/// `r` is `name` cut at the first timestamp marker: everything before the
/// first `.20`, or all of `name` when no marker occurs.
pub open spec fn base_prefix_ok(name: Seq<char>, r: Seq<char>) -> bool {
    if spec_contains(name, ts_marker()) {
        exists|i: int|
            #![trigger occurs_at(name, ts_marker(), i)]
            occurs_at(name, ts_marker(), i) && (forall|j: int|
                0 <= j < i ==> !occurs_at(name, ts_marker(), j)) && r == name.take(i)
    } else {
        r == name
    }
}

/// Cut an artifact name at the start of its timestamp segment, recovering
/// the baseline file name it was computed against.
pub fn diff_base_prefix(name: &str) -> (r: String)
    ensures
        base_prefix_ok(name@, r@),
{
    proof {
        reveal_strlit(".20");
        assert(".20"@ =~= ts_marker());
    }
    match find_first(name, ".20") {
        Some(i) => {
            let sub = name.substring_char(0, i);
            let r = String::from_str(sub);
            proof {
                assert(occurs_at(name@, ts_marker(), i as int));
                assert(r@ =~= name@.take(i as int));
            }
            r
        },
        None => String::from_str(name),
    }
}

/// `path` is the baseline inferred from the artifact's own name: its
/// timestamp-and-suffix portion stripped, `.base` appended, in the
/// artifact's directory.
pub open spec fn primary_base_ok(dp: Seq<char>, path: Seq<char>) -> bool {
    exists|p: Seq<char>|
        #![trigger spec_baseline_name(p)]
        base_prefix_ok(spec_basename(dp), p) && path == spec_join(
            spec_parent(dp),
            spec_baseline_name(p),
        )
}

proof fn lemma_primary_base_intro(dp: Seq<char>, p: Seq<char>, path: Seq<char>)
    requires
        base_prefix_ok(spec_basename(dp), p),
        path == spec_join(spec_parent(dp), spec_baseline_name(p)),
    ensures
        primary_base_ok(dp, path),
{
}

/// The fallback baseline when the inferred one is absent: the working
/// file's own `.base` name in the artifact's directory.
pub open spec fn fallback_base_ok(dp: Seq<char>, work_file: Seq<char>, path: Seq<char>) -> bool {
    path == spec_join(spec_parent(dp), spec_baseline_name(spec_basename(work_file)))
}

/// The two baseline candidates for an artifact: the one inferred from its
/// own name, and the working-file fallback used when that one is absent.
pub fn infer_baseline_candidates(diff_path: &str, work_file: &str) -> (r: (String, String))
    ensures
        primary_base_ok(diff_path@, r.0@),
        fallback_base_ok(diff_path@, work_file@, r.1@),
{
    let dir = parent_dir(diff_path);
    let name = basename(diff_path);
    let prefix = diff_base_prefix(name.as_str());
    let primary = path_join(dir.as_str(), baseline_name(prefix.as_str()).as_str());
    let wf_name = basename(work_file);
    let fallback = path_join(dir.as_str(), baseline_name(wf_name.as_str()).as_str());
    proof {
        lemma_primary_base_intro(diff_path@, prefix@, primary@);
    }
    (primary, fallback)
}

/// A chain failure: which artifact failed, and why.
#[derive(Debug)]
pub struct ChainFailure {
    /// File name of the artifact that failed.
    pub entry: String,
    /// The underlying error.
    pub error: DiffError,
}

impl ChainFailure {
    /// The failure as one line: `restore failed (<entry>): <cause>`.
    pub fn message(&self) -> (r: String)
        ensures
            r@ == "restore failed ("@ + self.entry@ + "): "@ + self.error.spec_message(),
    {
        let mut r = String::from_str("restore failed (");
        r.append(self.entry.as_str());
        r.append("): ");
        r.append(self.error.message().as_str());
        r
    }
}

/// What the caller must do next for the restore to proceed.
pub enum RestoreAction {
    /// Report whether the file at `path` exists, as a `FileExists` event.
    CheckFile { path: String },
    /// Run the patch tool with these arguments; report exit status and
    /// captured diagnostics as a `Tool` event.
    RunPatch { args: Vec<String> },
}

/// The caller's report on the action last asked for.
pub enum RestoreEvent {
    /// Whether the checked file exists.
    FileExists(bool),
    /// The tool run's outcome: `Err` carries the diagnostic text of a
    /// nonzero exit.
    Tool(Result<(), String>),
}

/// One turn of the machine: either an action to perform, or the chain's
/// final outcome.
pub enum RestoreStep {
    Do(RestoreAction),
    Done(Result<(), ChainFailure>),
}

/// Where the machine stands.
#[derive(Debug, Clone, Copy, PartialEq, Eq, Structural)]
pub enum RestorePhase {
    /// Waiting to hear whether the inferred baseline exists.
    CheckingBase,
    /// Waiting for the patch tool's outcome.
    Patching,
    /// The chain has ended, in success or failure.
    Finished,
}

/// The restore chain applier: processes the artifacts in caller-supplied
/// order, stopping at the first failure.
pub struct RestoreMachine {
    /// The working file being reconstructed.
    pub work_file: String,
    /// The artifacts, in application order.
    pub diff_paths: Vec<String>,
    /// Index of the artifact currently being processed.
    pub pos: usize,
    /// Where the machine stands.
    pub phase: RestorePhase,
    /// File name of the current artifact.
    pub cur_name: String,
    /// Its class.
    pub cur_class: DiffClass,
    /// The baseline inferred from its name.
    pub cur_primary: String,
    /// The working-file fallback baseline.
    pub cur_fallback: String,
}

impl RestoreMachine {
    /// The machine's invariant: the position is in range while work
    /// remains, and the cached fields describe the artifact at `pos`.
    pub open spec fn wf(&self) -> bool {
        &&& self.pos <= self.diff_paths@.len()
        &&& self.phase != RestorePhase::Finished ==> {
            &&& self.pos < self.diff_paths@.len()
            &&& self.cur_name@ == spec_basename(self.diff_paths@[self.pos as int]@)
            &&& self.cur_class == spec_classify_diff(self.cur_name@)
            &&& self.cur_class != DiffClass::UnsupportedLegacy
            &&& primary_base_ok(self.diff_paths@[self.pos as int]@, self.cur_primary@)
            &&& fallback_base_ok(
                self.diff_paths@[self.pos as int]@,
                self.work_file@,
                self.cur_fallback@,
            )
        }
    }

    /// `m1` is `m0` with at most the phase changed.
    pub open spec fn same_but_phase(m0: RestoreMachine, m1: RestoreMachine) -> bool {
        m1 == (RestoreMachine { phase: m1.phase, ..m0 })
    }

    /// Which events the machine can take next.
    pub open spec fn expects(&self, ev: RestoreEvent) -> bool {
        match self.phase {
            RestorePhase::CheckingBase => ev is FileExists,
            RestorePhase::Patching => ev is Tool,
            RestorePhase::Finished => false,
        }
    }

    /// What beginning work on entry `pos` of `m` looks like: an immediate
    /// abort for the unsupported legacy marker, else a baseline existence
    /// check for the artifact, with the machine's cache filled in.
    pub open spec fn entry_begun(m: RestoreMachine, pos: int, r: RestoreStep) -> bool {
        let dp = m.diff_paths@[pos]@;
        let name = spec_basename(dp);
        if spec_classify_diff(name) == DiffClass::UnsupportedLegacy {
            &&& m.phase == RestorePhase::Finished
            &&& r matches RestoreStep::Done(Err(f)) && f.entry@ == name && (f.error matches
            DiffError::UnsupportedFormat(msg) && msg@ == "`bsdiff` is not supported."@)
        } else {
            &&& m.phase == RestorePhase::CheckingBase
            &&& m.pos == pos
            &&& r matches RestoreStep::Do(RestoreAction::CheckFile { path }) && path@
                == m.cur_primary@
        }
    }

    /// Advance to the entry at `self.pos`, or finish the chain when every
    /// entry has been applied.
    fn advance(&mut self) -> (r: RestoreStep)
        requires
            old(self).pos <= old(self).diff_paths@.len(),
        ensures
            final(self).wf(),
            final(self).work_file == old(self).work_file,
            final(self).diff_paths == old(self).diff_paths,
            final(self).pos == old(self).pos,
            if old(self).pos == old(self).diff_paths@.len() {
                final(self).phase == RestorePhase::Finished && r matches RestoreStep::Done(
                    Ok(()),
                )
            } else {
                Self::entry_begun(*final(self), old(self).pos as int, r)
            },
    {
        if self.pos == self.diff_paths.len() {
            self.phase = RestorePhase::Finished;
            return RestoreStep::Done(Ok(()));
        }
        let dp: &String = &self.diff_paths[self.pos];
        let name = basename(dp.as_str());
        let class = classify_diff(name.as_str());
        match class {
            DiffClass::UnsupportedLegacy => {
                self.phase = RestorePhase::Finished;
                RestoreStep::Done(
                    Err(
                        ChainFailure {
                            entry: name,
                            error: DiffError::UnsupportedFormat(
                                String::from_str("`bsdiff` is not supported."),
                            ),
                        },
                    ),
                )
            },
            _ => {
                let dp_owned = self.diff_paths[self.pos].clone();
                let (primary, fallback) = infer_baseline_candidates(
                    dp_owned.as_str(),
                    self.work_file.as_str(),
                );
                let action_path = primary.clone();
                self.cur_name = name;
                self.cur_class = class;
                self.cur_primary = primary;
                self.cur_fallback = fallback;
                self.phase = RestorePhase::CheckingBase;
                RestoreStep::Do(RestoreAction::CheckFile { path: action_path })
            },
        }
    }

    /// Begin a restore chain: the machine, and the first thing to do.
    pub fn start(work_file: String, diff_paths: Vec<String>) -> (r: (RestoreMachine, RestoreStep))
        ensures
            r.0.wf(),
            r.0.work_file@ == work_file@,
            r.0.diff_paths@ == diff_paths@,
            if diff_paths@.len() == 0 {
                r.0.phase == RestorePhase::Finished && r.1 matches RestoreStep::Done(Ok(()))
            } else {
                Self::entry_begun(r.0, 0, r.1)
            },
    {
        let mut m = RestoreMachine {
            work_file,
            diff_paths,
            pos: 0,
            phase: RestorePhase::Finished,
            cur_name: String::new(),
            cur_class: DiffClass::Legacy,
            cur_primary: String::new(),
            cur_fallback: String::new(),
        };
        let step = m.advance();
        (m, step)
    }

    /// Feed back the outcome of the last action and get the next turn.
    ///
    /// On a baseline check, the inferred baseline is used when it exists,
    /// the working-file fallback otherwise, and the artifact is applied to
    /// a fresh `<stem>_restored_<ts>` output. On a successful application
    /// the machine moves to the next artifact; on a failed one the chain
    /// aborts, naming the artifact — with the failure wrapped as a
    /// legacy-recovery error when the artifact carried no format marker.
    pub fn step(&mut self, ev: RestoreEvent) -> (r: RestoreStep)
        requires
            old(self).wf(),
            old(self).expects(ev),
        ensures
            final(self).wf(),
            final(self).work_file == old(self).work_file,
            final(self).diff_paths == old(self).diff_paths,
            old(self).phase == RestorePhase::CheckingBase ==> Self::same_but_phase(
                *old(self),
                *final(self),
            ),
            match old(self).phase {
                RestorePhase::CheckingBase => {
                    let base = if ev matches RestoreEvent::FileExists(true) {
                        old(self).cur_primary@
                    } else {
                        old(self).cur_fallback@
                    };
                    &&& final(self).phase == RestorePhase::Patching
                    &&& final(self).pos == old(self).pos
                    &&& final(self).cur_name == old(self).cur_name
                    &&& final(self).cur_class == old(self).cur_class
                    &&& r matches RestoreStep::Do(RestoreAction::RunPatch { args }) && exists|
                        ts: Seq<char>,
                    |
                        stamp_ok(ts) && args@.map_values(|s: String| s@) == spec_apply_diff_args(
                            base,
                            old(self).diff_paths@[old(self).pos as int]@,
                            spec_auto_output_path(old(self).work_file@, ts),
                        )
                },
                RestorePhase::Patching => {
                    match ev {
                        RestoreEvent::Tool(Ok(())) => {
                            &&& final(self).pos == old(self).pos + 1
                            &&& if old(self).pos + 1 == old(self).diff_paths@.len() {
                                final(self).phase == RestorePhase::Finished && r matches
                                    RestoreStep::Done(Ok(()))
                            } else {
                                Self::entry_begun(*final(self), old(self).pos + 1, r)
                            }
                        },
                        RestoreEvent::Tool(Err(stderr)) => {
                            &&& final(self).phase == RestorePhase::Finished
                            &&& r matches RestoreStep::Done(Err(f)) && f.entry@ == old(
                                self,
                            ).cur_name@ && (if old(self).cur_class == DiffClass::Current {
                                f.error matches DiffError::ToolFailed(m) && m@ == "hpatchz error: "@
                                    + stderr@
                            } else {
                                f.error matches DiffError::RecoveryFailed(m) && m@
                                    == "recovery failed for legacy format: hpatchz error: "@
                                    + stderr@
                            })
                        },
                        _ => false,
                    }
                },
                RestorePhase::Finished => false,
            },
    {
        match self.phase {
            RestorePhase::CheckingBase => {
                let found = match ev {
                    RestoreEvent::FileExists(b) => b,
                    _ => false,
                };
                let base = if found {
                    self.cur_primary.clone()
                } else {
                    self.cur_fallback.clone()
                };
                let ts = current_timestamp();
                let out = auto_output_path_with(self.work_file.as_str(), ts.as_str());
                let dp: &String = &self.diff_paths[self.pos];
                let args = apply_diff_args(base.as_str(), dp.as_str(), out.as_str());
                self.phase = RestorePhase::Patching;
                proof {
                    assert(stamp_ok(ts@) && args@.map_values(|s: String| s@)
                        == spec_apply_diff_args(
                        base@,
                        old(self).diff_paths@[old(self).pos as int]@,
                        spec_auto_output_path(old(self).work_file@, ts@),
                    ));
                }
                RestoreStep::Do(RestoreAction::RunPatch { args })
            },
            RestorePhase::Patching => {
                match ev {
                    RestoreEvent::Tool(Ok(())) => {
                        let n = self.diff_paths.len();
                        proof {
                            assert(self.pos < n);
                        }
                        self.pos = self.pos + 1;
                        self.advance()
                    },
                    RestoreEvent::Tool(Err(stderr)) => {
                        self.phase = RestorePhase::Finished;
                        let error = if matches!(self.cur_class, DiffClass::Current) {
                            let mut m = String::from_str("hpatchz error: ");
                            m.append(stderr.as_str());
                            DiffError::ToolFailed(m)
                        } else {
                            let mut m = String::from_str(
                                "recovery failed for legacy format: hpatchz error: ",
                            );
                            m.append(stderr.as_str());
                            DiffError::RecoveryFailed(m)
                        };
                        RestoreStep::Done(
                            Err(ChainFailure { entry: self.cur_name.clone(), error }),
                        )
                    },
                    _ => {
                        // Unreachable: `expects` rules this event out here.
                        self.phase = RestorePhase::Finished;
                        RestoreStep::Done(Ok(()))
                    },
                }
            },
            RestorePhase::Finished => {
                // Unreachable: `expects` admits no event here.
                RestoreStep::Done(Ok(()))
            },
        }
    }
}


/// How a chosen backup artifact is restored, judged by its lowercased
/// name: a diff is replayed through the chain applier, the archive forms
/// are unpacked, and anything else is restored by plain copy.
#[derive(Debug, Clone, Copy, PartialEq, Eq, Structural)]
pub enum RestoreSource {
    /// A diff artifact: replay it through the chain applier.
    DiffChain,
    /// A zip archive.
    ZipArchive,
    /// A gzip-compressed tar archive.
    TarGzArchive,
    /// A full copy of the working file.
    PlainCopy,
}

/// The routing decision for a restore source path.
pub open spec fn spec_classify_restore_source(path: Seq<char>) -> RestoreSource {
    let l = lower_of(path);
    if spec_ends_with(l, seq!['.', 'd', 'i', 'f', 'f']) {
        RestoreSource::DiffChain
    } else if spec_ends_with(l, seq!['.', 'z', 'i', 'p']) {
        RestoreSource::ZipArchive
    } else if spec_ends_with(l, seq!['.', 't', 'a', 'r', '.', 'g', 'z']) {
        RestoreSource::TarGzArchive
    } else {
        RestoreSource::PlainCopy
    }
}

/// Route a restore by the artifact's lowercased file name.
pub fn classify_restore_source(path: &str) -> (r: RestoreSource)
    ensures
        r == spec_classify_restore_source(path@),
{
    proof {
        reveal_strlit(".diff");
        reveal_strlit(".zip");
        reveal_strlit(".tar.gz");
        assert(".diff"@ =~= seq!['.', 'd', 'i', 'f', 'f']);
        assert(".zip"@ =~= seq!['.', 'z', 'i', 'p']);
        assert(".tar.gz"@ =~= seq!['.', 't', 'a', 'r', '.', 'g', 'z']);
    }
    let l = lowercase(path);
    if ends_with_str(l.as_str(), ".diff") {
        RestoreSource::DiffChain
    } else if ends_with_str(l.as_str(), ".zip") {
        RestoreSource::ZipArchive
    } else if ends_with_str(l.as_str(), ".tar.gz") {
        RestoreSource::TarGzArchive
    } else {
        RestoreSource::PlainCopy
    }
}

} // verus!
