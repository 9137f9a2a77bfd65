//! Generation resolution: find the latest generation among the entries of a
//! backup root, decide whether one must be created, and guard against a
//! concurrent actor having created a newer one.
//!
//! The caller lists the root's immediate subdirectories and passes their
//! names in; every decision over those names is made and verified here.

use vstd::prelude::*;

use crate::genname::{
    generation_dir_name, lemma_gen_dir_name_parses, parse_generation_name, spec_gen_dir_name,
    spec_parse_gen_name,
};
use crate::paths::{path_join, spec_join};
use crate::strutil::{
    lemma_lex_leq_refl, lemma_lex_leq_total, lemma_lex_leq_trans, lex_leq, str_lex_geq,
};

verus! {

/// The latest generation found under a backup root.
#[derive(Debug)]
pub struct BackupGenInfo {
    /// Full path of the generation directory.
    pub dir_path: String,
    /// The generation's index, parsed from its name.
    pub base_idx: i32,
}

/// Entry `k` of `entries` scans as a generation directory.
pub open spec fn spec_gen_candidate(entries: Seq<String>, k: int) -> bool {
    0 <= k < entries.len() && spec_parse_gen_name(entries[k]@) is Some
}

/// Entry `k` carries index `idx` and is the latest: no other entry scans to
/// a higher index, and among entries of equal index none has a
/// lexicographically larger full name.
pub open spec fn is_latest_choice(entries: Seq<String>, k: int, idx: i32) -> bool {
    &&& 0 <= k < entries.len()
    &&& spec_parse_gen_name(entries[k]@) == Some(idx)
    &&& forall|j: int|
        0 <= j < entries.len() && spec_parse_gen_name(#[trigger] entries[j]@) is Some ==> {
            let m = spec_parse_gen_name(entries[j]@)->Some_0;
            m < idx || (m == idx && lex_leq(entries[j]@, entries[k]@))
        }
}

/// `dir_path` with index `idx` names the latest generation under `root`:
/// it is `root` joined with some entry that is the latest choice.
pub open spec fn latest_pick_ok(
    root: Seq<char>,
    entries: Seq<String>,
    dir_path: Seq<char>,
    idx: i32,
) -> bool {
    exists|k: int|
        #![trigger is_latest_choice(entries, k, idx)]
        is_latest_choice(entries, k, idx) && dir_path == spec_join(root, entries[k]@)
}

proof fn lemma_latest_pick_intro(
    root: Seq<char>,
    entries: Seq<String>,
    dir_path: Seq<char>,
    idx: i32,
    k: int,
)
    requires
        is_latest_choice(entries, k, idx),
        dir_path == spec_join(root, entries[k]@),
    ensures
        latest_pick_ok(root, entries, dir_path, idx),
{
}

/// Scan the subdirectory names of a backup root for the latest generation:
/// the maximum parsed index, ties resolved toward the lexicographically
/// larger full name. Entries that do not match the generation pattern are
/// ignored.
pub fn scan_latest_entry(entries: &Vec<String>) -> (r: Option<(usize, i32)>)
    ensures
        match r {
            Some((k, idx)) => is_latest_choice(entries@, k as int, idx) && idx >= 0,
            None => forall|j: int|
                0 <= j < entries@.len() ==> spec_parse_gen_name(#[trigger] entries@[j]@) is None,
        },
{
    let mut best: Option<(usize, i32)> = None;
    let n = entries.len();
    let mut i: usize = 0;
    while i < n
        invariant
            n == entries@.len(),
            i <= n,
            match best {
                Some((k, idx)) => (k as int) < (i as int) && idx >= 0 && spec_parse_gen_name(
                    entries@[k as int]@,
                ) == Some(idx) && forall|j: int|
                    0 <= j < i && spec_parse_gen_name(#[trigger] entries@[j]@) is Some ==> {
                        let m = spec_parse_gen_name(entries@[j]@)->Some_0;
                        m < idx || (m == idx && lex_leq(entries@[j]@, entries@[k as int]@))
                    },
                None => forall|j: int|
                    0 <= j < i ==> spec_parse_gen_name(#[trigger] entries@[j]@) is None,
            },
        decreases n - i,
    {
        let name: &String = &entries[i];
        match parse_generation_name(name.as_str()) {
            Some(idx) => {
                match best {
                    None => {
                        proof {
                            lemma_lex_leq_refl(entries@[i as int]@);
                        }
                        best = Some((i, idx));
                    },
                    Some((bk, bidx)) => {
                        let take = if idx > bidx {
                            true
                        } else if idx == bidx {
                            str_lex_geq(name.as_str(), entries[bk].as_str())
                        } else {
                            false
                        };
                        if take {
                            proof {
                                lemma_lex_leq_refl(entries@[i as int]@);
                                if idx == bidx {
                                    assert forall|j: int|
                                        0 <= j < i + 1 && spec_parse_gen_name(
                                            #[trigger] entries@[j]@,
                                        ) is Some implies {
                                        let m = spec_parse_gen_name(entries@[j]@)->Some_0;
                                        m < idx || (m == idx && lex_leq(
                                            entries@[j]@,
                                            entries@[i as int]@,
                                        ))
                                    } by {
                                        let m = spec_parse_gen_name(entries@[j]@)->Some_0;
                                        if j < i && m == idx {
                                            lemma_lex_leq_trans(
                                                entries@[j]@,
                                                entries@[bk as int]@,
                                                entries@[i as int]@,
                                            );
                                        }
                                    }
                                }
                            }
                            best = Some((i, idx));
                        } else {
                            proof {
                                if idx == bidx {
                                    lemma_lex_leq_total(
                                        entries@[i as int]@,
                                        entries@[bk as int]@,
                                    );
                                }
                            }
                        }
                    },
                }
            },
            None => {},
        }
        i = i + 1;
    }
    best
}

/// Find the latest generation under `root`, given the names of its
/// immediate subdirectories. Nothing matching the generation pattern means
/// there is no generation yet.
pub fn get_latest_generation(root: &str, entries: &Vec<String>) -> (r: Option<BackupGenInfo>)
    ensures
        match r {
            Some(info) => latest_pick_ok(root@, entries@, info.dir_path@, info.base_idx)
                && info.base_idx >= 0,
            None => forall|j: int|
                0 <= j < entries@.len() ==> spec_parse_gen_name(#[trigger] entries@[j]@) is None,
        },
        r is Some <==> exists|k: int| spec_gen_candidate(entries@, k),
{
    match scan_latest_entry(entries) {
        Some((k, idx)) => {
            let dir_path = path_join(root, entries[k].as_str());
            proof {
                assert(spec_gen_candidate(entries@, k as int));
                lemma_latest_pick_intro(root@, entries@, dir_path@, idx, k as int);
            }
            Some(BackupGenInfo { dir_path, base_idx: idx })
        },
        None => {
            proof {
                assert forall|k: int| !spec_gen_candidate(entries@, k) by {}
            }
            None
        },
    }
}

/// What a resolution decided: use the latest existing generation, or create
/// generation 1 because none exists yet.
pub enum ResolveOutcome {
    /// The latest existing generation; nothing is to be created.
    Existing { dir_path: String, idx: i32 },
    /// No generation matched: generation 1 is to be created under the root
    /// with this name, seeded with a copy of the working file as baseline.
    CreateNew { dir_path: String, dir_name: String, idx: i32 },
}

/// Resolve the generation a backup operation will target: the latest one
/// when any exists, otherwise a fresh generation 1 named with the given
/// timestamp.
pub fn resolve_generation_dir(root: &str, entries: &Vec<String>, ts: &str) -> (r: ResolveOutcome)
    ensures
        (exists|k: int| spec_gen_candidate(entries@, k)) <==> r is Existing,
        match r {
            ResolveOutcome::Existing { dir_path, idx } => latest_pick_ok(
                root@,
                entries@,
                dir_path@,
                idx,
            ) && idx >= 0,
            ResolveOutcome::CreateNew { dir_path, dir_name, idx } => {
                &&& idx == 1
                &&& dir_name@ == spec_gen_dir_name(1, ts@)
                &&& dir_path@ == spec_join(root@, dir_name@)
            },
        },
{
    match get_latest_generation(root, entries) {
        Some(info) => ResolveOutcome::Existing { dir_path: info.dir_path, idx: info.base_idx },
        None => {
            let dir_name = generation_dir_name(1, ts);
            let dir_path = path_join(root, dir_name.as_str());
            ResolveOutcome::CreateNew { dir_path, dir_name, idx: 1 }
        },
    }
}

/// The rotation race guard's decision.
pub enum AdoptDecision {
    /// A generation newer than the one this operation started from already
    /// exists; use it instead of creating a duplicate.
    AdoptExisting { dir_path: String, idx: i32 },
    /// Nothing newer appeared: create the generation with this index.
    CreateNext { idx: i32 },
}

/// The re-scan-and-adopt guard of the rotation commit: adopt a generation a
/// concurrent actor created with a strictly higher index, else step to
/// `current_idx + 1`.
pub fn compare_and_adopt(latest: Option<&BackupGenInfo>, current_idx: i32) -> (r: AdoptDecision)
    requires
        current_idx < i32::MAX,
    ensures
        match latest {
            Some(info) => if info.base_idx > current_idx {
                r matches AdoptDecision::AdoptExisting { dir_path, idx } && dir_path@
                    == info.dir_path@ && idx == info.base_idx
            } else {
                r matches AdoptDecision::CreateNext { idx } && idx == current_idx + 1
            },
            None => r matches AdoptDecision::CreateNext { idx } && idx == current_idx + 1,
        },
{
    match latest {
        Some(info) => {
            if info.base_idx > current_idx {
                AdoptDecision::AdoptExisting { dir_path: info.dir_path.clone(), idx: info.base_idx }
            } else {
                AdoptDecision::CreateNext { idx: current_idx + 1 }
            }
        },
        None => AdoptDecision::CreateNext { idx: current_idx + 1 },
    }
}

/// Both calls of a back-to-back pair against an initially empty root settle
/// on generation 1. The first sees no candidate and decides to create
/// `base1_<ts>`; the second, seeing exactly the directory the first
/// created, finds it as the latest — with index 1 — and creates nothing.
pub proof fn lemma_resolve_twice_yields_generation_one(ts: Seq<char>, entries: Seq<String>)
    requires
        entries.len() == 1,
        entries[0]@ == spec_gen_dir_name(1, ts),
    ensures
        exists|k: int| spec_gen_candidate(entries, k),
        forall|k: int, idx: i32| is_latest_choice(entries, k, idx) ==> idx == 1,
{
    lemma_gen_dir_name_parses(1, ts);
    assert(spec_parse_gen_name(entries[0]@) == Some(1i32));
    assert(spec_gen_candidate(entries, 0));
    assert forall|k: int, idx: i32| is_latest_choice(entries, k, idx) implies idx == 1 by {
        if is_latest_choice(entries, k, idx) {
            assert(k == 0);
        }
    }
}

/// If any entry of the re-scan listing carries an index above the one this
/// operation started from, the latest choice does too — so the guard
/// adopts it and no duplicate generation is created.
pub proof fn lemma_rescan_adopts_newer(
    entries: Seq<String>,
    k: int,
    idx: i32,
    j: int,
    m: i32,
    current_idx: i32,
)
    requires
        is_latest_choice(entries, k, idx),
        0 <= j < entries.len(),
        spec_parse_gen_name(entries[j]@) == Some(m),
        m > current_idx,
    ensures
        idx > current_idx,
{
}

/// If every entry of the re-scan listing carries an index at or below the
/// one this operation started from, the latest choice does too — so the
/// guard creates exactly the next index, `current_idx + 1`.
pub proof fn lemma_rescan_creates_next(entries: Seq<String>, k: int, idx: i32, current_idx: i32)
    requires
        is_latest_choice(entries, k, idx),
        forall|j: int|
            0 <= j < entries.len() && spec_parse_gen_name(#[trigger] entries[j]@) is Some
                ==> spec_parse_gen_name(entries[j]@)->Some_0 <= current_idx,
    ensures
        idx <= current_idx,
{
}

} // verus!
