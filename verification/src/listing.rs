//! Selecting backup artifacts out of directory listings: the diff list of
//! a flat backup directory, and the full backup history across a root and
//! its generation directories.
//!
//! The caller lists directories and hands the entries in; which entries
//! count as artifacts, and what is reported of each, is decided and
//! verified here.

use vstd::prelude::*;

use crate::genname::{parse_generation_list_index, spec_parse_gen_list_index};
use crate::naming::{
    extract_timestamp_from_backup, spec_default_backup_dir, spec_extract_timestamp,
    default_backup_dir,
};
use crate::paths::{path_join, spec_join, split_stem_extension, spec_extension};
use crate::strutil::{
    ends_with_str, contains_str, lower_of, lowercase, spec_contains, spec_ends_with, str_eq,
};

verus! {

/// One directory entry, as the caller saw it: its name, whether it is a
/// regular file, its size in bytes, and its modification time already
/// formatted for display.
pub struct FsEntry {
    pub name: String,
    pub is_file: bool,
    pub size: i64,
    pub modified: String,
}

/// One diff artifact of a flat backup directory.
#[derive(Debug)]
pub struct DiffFileInfo {
    /// The artifact's file name.
    pub file_name: String,
    /// Its full path.
    pub file_path: String,
    /// The timestamp segment of its name.
    pub timestamp: String,
    /// Its size in bytes.
    pub file_size: i64,
}

/// One entry of the backup history list.
#[derive(Debug)]
pub struct BackupItem {
    /// The artifact's file name.
    pub file_name: String,
    /// Its full path.
    pub file_path: String,
    /// Its modification time, formatted for display.
    pub timestamp: String,
    /// Its size in bytes.
    pub file_size: i64,
    /// The index of the generation it sits in; `0` for root-level
    /// artifacts.
    pub generation: i32,
}

/// A generation directory and its entries, as listed by the caller.
pub struct GenDirListing {
    /// The directory's own name.
    pub dir_name: String,
    /// Its entries.
    pub entries: Vec<FsEntry>,
}

/// The directory a diff list is read from: the configured one when it is
/// nonempty, else the default backup root beside the working file.
pub fn hdiff_list_dir(work_file: &str, custom_dir: &Option<String>) -> (r: String)
    ensures
        r@ == (match custom_dir {
            Some(d) => if d@.len() > 0 {
                d@
            } else {
                spec_default_backup_dir(work_file@)
            },
            None => spec_default_backup_dir(work_file@),
        }),
{
    match custom_dir {
        Some(d) => {
            if d.as_str().unicode_len() > 0 {
                d.clone()
            } else {
                default_backup_dir(work_file)
            }
        },
        None => default_backup_dir(work_file),
    }
}

/// An entry that belongs in the diff list: a regular file named `*.diff`.
pub open spec fn keeps_diff(e: FsEntry) -> bool {
    e.is_file && spec_ends_with(e.name@, seq!['.', 'd', 'i', 'f', 'f'])
}

/// `keeps_diff`, as a spec closure for filtering.
pub open spec fn keeps_diff_fn() -> spec_fn(FsEntry) -> bool {
    |e: FsEntry| keeps_diff(e)
}

/// What the diff list reports of a kept entry.
pub open spec fn diff_item_matches(info: DiffFileInfo, dir: Seq<char>, e: FsEntry) -> bool {
    &&& info.file_name@ == e.name@
    &&& info.file_path@ == spec_join(dir, e.name@)
    &&& info.timestamp@ == spec_extract_timestamp(e.name@)
    &&& info.file_size == e.size
}

proof fn lemma_filter_push(s: Seq<FsEntry>, pred: spec_fn(FsEntry) -> bool, x: FsEntry)
    ensures
        s.push(x).filter(pred) == (if pred(x) {
            s.filter(pred).push(x)
        } else {
            s.filter(pred)
        }),
{
    reveal(Seq::filter);
    assert(s.push(x).drop_last() =~= s);
    assert(s.push(x).last() == x);
}

/// The diff artifacts in a flat backup directory, in listing order: every
/// regular `*.diff` file, reported with its path under `dir`, the
/// timestamp read from its name, and its size.
pub fn get_hdiff_list(dir: &str, entries: &Vec<FsEntry>) -> (r: Vec<DiffFileInfo>)
    ensures
        r@.len() == entries@.filter(keeps_diff_fn()).len(),
        forall|k: int|
            0 <= k < r@.len() ==> diff_item_matches(
                #[trigger] r@[k],
                dir@,
                entries@.filter(keeps_diff_fn())[k],
            ),
{
    let mut out: Vec<DiffFileInfo> = Vec::new();
    let n = entries.len();
    let mut i: usize = 0;
    proof {
        assert(entries@.take(0) =~= Seq::<FsEntry>::empty());
        reveal(Seq::filter);
    }
    while i < n
        invariant
            n == entries@.len(),
            i <= n,
            out@.len() == entries@.take(i as int).filter(keeps_diff_fn()).len(),
            forall|k: int|
                0 <= k < out@.len() ==> diff_item_matches(
                    #[trigger] out@[k],
                    dir@,
                    entries@.take(i as int).filter(keeps_diff_fn())[k],
                ),
        decreases n - i,
    {
        let e: &FsEntry = &entries[i];
        proof {
            assert(entries@.take(i + 1) =~= entries@.take(i as int).push(entries@[i as int]));
            lemma_filter_push(entries@.take(i as int), keeps_diff_fn(), entries@[i as int]);
        }
        let keep = e.is_file && ends_with_str(e.name.as_str(), ".diff");
        proof {
            reveal_strlit(".diff");
            assert(".diff"@ =~= seq!['.', 'd', 'i', 'f', 'f']);
            assert(keep == keeps_diff(entries@[i as int]));
        }
        if keep {
            let ts = match extract_timestamp_from_backup(e.name.as_str()) {
                Ok(t) => t,
                Err(_) => String::new(),
            };
            let info = DiffFileInfo {
                file_name: e.name.clone(),
                file_path: path_join(dir, e.name.as_str()),
                timestamp: ts,
                file_size: e.size,
            };
            out.push(info);
        }
        i = i + 1;
    }
    proof {
        assert(entries@.take(n as int) =~= entries@);
    }
    out
}

/// `name` ends with one of the listed extensions.
pub open spec fn spec_valid_backup_ext(name: Seq<char>, exts: Seq<&str>) -> bool {
    exists|j: int| 0 <= j < exts.len() && spec_ends_with(name, exts[j]@)
}

/// Whether `name` carries one of the listed extensions.
pub fn is_valid_backup_ext(name: &str, exts: &[&str]) -> (r: bool)
    ensures
        r == spec_valid_backup_ext(name@, exts@),
{
    let n = exts.len();
    let mut j: usize = 0;
    while j < n
        invariant
            n == exts@.len(),
            j <= n,
            forall|m: int| 0 <= m < j ==> !spec_ends_with(name@, #[trigger] exts@[m]@),
        decreases n - j,
    {
        if ends_with_str(name, exts[j]) {
            proof {
                assert(spec_ends_with(name@, exts@[j as int]@));
            }
            return true;
        }
        j = j + 1;
    }
    false
}

/// The extension list backup artifacts are recognised by: the archive and
/// diff suffixes, plus the working file's own extension in lowercase when
/// it has one.
pub fn valid_backup_exts(work_file: &str) -> (r: Vec<String>)
    ensures
        ({
            let ext = spec_extension(work_file@);
            if ext.len() == 0 {
                r@.len() == 5
            } else {
                r@.len() == 6 && r@[5]@ == lower_of(seq!['.'] + ext)
            }
        }),
        r@.len() >= 5,
        r@[0]@ == ".diff"@,
        r@[1]@ == ".zip"@,
        r@[2]@ == ".tar.gz"@,
        r@[3]@ == ".tar"@,
        r@[4]@ == ".gz"@,
{
    let mut v: Vec<String> = Vec::new();
    v.push(String::from_str(".diff"));
    v.push(String::from_str(".zip"));
    v.push(String::from_str(".tar.gz"));
    v.push(String::from_str(".tar"));
    v.push(String::from_str(".gz"));
    let (_, ext) = split_stem_extension(work_file);
    if ext.as_str().unicode_len() > 0 {
        let mut dotted = String::from_str(".");
        dotted.append(ext.as_str());
        proof {
            reveal_strlit(".");
            assert(dotted@ =~= seq!['.'] + spec_extension(work_file@));
        }
        v.push(lowercase(dotted.as_str()));
    }
    v
}

/// An entry that belongs in the backup history: a regular file whose
/// lowercased name contains the working file's lowercased stem and carries
/// a recognised extension; inside a generation directory, baseline files
/// and the checksum record are excluded.
pub open spec fn keeps_backup(
    e: FsEntry,
    stem_l: Seq<char>,
    exts: Seq<String>,
    in_generation: bool,
) -> bool {
    &&& e.is_file
    &&& in_generation ==> !spec_ends_with(e.name@, seq!['.', 'b', 'a', 's', 'e']) && e.name@
        != "checksum.json"@
    &&& spec_contains(lower_of(e.name@), stem_l)
    &&& exists|j: int| 0 <= j < exts.len() && spec_ends_with(lower_of(e.name@), lower_of(exts[j]@))
}

/// `keeps_backup`, as a spec closure for filtering.
pub open spec fn keeps_backup_fn(stem_l: Seq<char>, exts: Seq<String>, in_generation: bool)
    -> spec_fn(FsEntry) -> bool {
    |e: FsEntry| keeps_backup(e, stem_l, exts, in_generation)
}

/// What the history list reports of a kept entry.
pub open spec fn backup_item_matches(
    item: BackupItem,
    dir: Seq<char>,
    e: FsEntry,
    generation: i32,
) -> bool {
    &&& item.file_name@ == e.name@
    &&& item.file_path@ == spec_join(dir, e.name@)
    &&& item.timestamp@ == e.modified@
    &&& item.file_size == e.size
    &&& item.generation == generation
}

fn matches_any_ext(name_l: &str, exts: &Vec<String>) -> (r: bool)
    ensures
        r == exists|j: int|
            0 <= j < exts@.len() && spec_ends_with(name_l@, lower_of(#[trigger] exts@[j]@)),
{
    let n = exts.len();
    let mut j: usize = 0;
    while j < n
        invariant
            n == exts@.len(),
            j <= n,
            forall|m: int|
                0 <= m < j ==> !spec_ends_with(name_l@, lower_of(#[trigger] exts@[m]@)),
        decreases n - j,
    {
        let el = lowercase(exts[j].as_str());
        if ends_with_str(name_l, el.as_str()) {
            proof {
                assert(spec_ends_with(name_l@, lower_of(exts@[j as int]@)));
            }
            return true;
        }
        j = j + 1;
    }
    false
}

fn entry_kept(e: &FsEntry, stem_l: &str, exts: &Vec<String>, in_generation: bool) -> (r: bool)
    ensures
        r == keeps_backup(*e, stem_l@, exts@, in_generation),
{
    if !e.is_file {
        return false;
    }
    if in_generation {
        proof {
            reveal_strlit(".base");
            assert(".base"@ =~= seq!['.', 'b', 'a', 's', 'e']);
        }
        if ends_with_str(e.name.as_str(), ".base") {
            return false;
        }
        if str_eq(e.name.as_str(), "checksum.json") {
            return false;
        }
    }
    let name_l = lowercase(e.name.as_str());
    contains_str(name_l.as_str(), stem_l) && matches_any_ext(name_l.as_str(), exts)
}

/// The entries of one directory that belong in the history, reported in
/// listing order under the given directory path and generation index.
pub fn select_backup_items(
    dir: &str,
    entries: &Vec<FsEntry>,
    stem_l: &str,
    exts: &Vec<String>,
    in_generation: bool,
    generation: i32,
) -> (r: Vec<BackupItem>)
    ensures
        r@.len() == entries@.filter(keeps_backup_fn(stem_l@, exts@, in_generation)).len(),
        forall|k: int|
            0 <= k < r@.len() ==> backup_item_matches(
                #[trigger] r@[k],
                dir@,
                entries@.filter(keeps_backup_fn(stem_l@, exts@, in_generation))[k],
                generation,
            ),
{
    let ghost pf = keeps_backup_fn(stem_l@, exts@, in_generation);
    let mut out: Vec<BackupItem> = Vec::new();
    let n = entries.len();
    let mut i: usize = 0;
    proof {
        assert(entries@.take(0) =~= Seq::<FsEntry>::empty());
        reveal(Seq::filter);
    }
    while i < n
        invariant
            n == entries@.len(),
            pf == keeps_backup_fn(stem_l@, exts@, in_generation),
            i <= n,
            out@.len() == entries@.take(i as int).filter(pf).len(),
            forall|k: int|
                0 <= k < out@.len() ==> backup_item_matches(
                    #[trigger] out@[k],
                    dir@,
                    entries@.take(i as int).filter(pf)[k],
                    generation,
                ),
        decreases n - i,
    {
        let e: &FsEntry = &entries[i];
        proof {
            assert(entries@.take(i + 1) =~= entries@.take(i as int).push(entries@[i as int]));
            lemma_filter_push(entries@.take(i as int), pf, entries@[i as int]);
        }
        let keep = entry_kept(e, stem_l, exts, in_generation);
        if keep {
            let item = BackupItem {
                file_name: e.name.clone(),
                file_path: path_join(dir, e.name.as_str()),
                timestamp: e.modified.clone(),
                file_size: e.size,
                generation,
            };
            out.push(item);
        }
        i = i + 1;
    }
    proof {
        assert(entries@.take(n as int) =~= entries@);
    }
    out
}

/// What one generation directory contributes to the history: its kept
/// entries, under the directory's path, carrying its parsed index.
#[verifier::opaque]
pub open spec fn gen_dir_items_ok(
    root: Seq<char>,
    stem_l: Seq<char>,
    exts: Seq<String>,
    g: GenDirListing,
    items: Seq<BackupItem>,
) -> bool {
    let kept = g.entries@.filter(keeps_backup_fn(stem_l, exts, true));
    &&& items.len() == kept.len()
    &&& forall|k: int|
        0 <= k < items.len() ==> backup_item_matches(
            #[trigger] items[k],
            spec_join(root, g.dir_name@),
            kept[k],
            spec_parse_gen_list_index(g.dir_name@),
        )
}

proof fn lemma_gen_dir_items_intro(
    root: Seq<char>,
    stem_l: Seq<char>,
    exts: Seq<String>,
    g: GenDirListing,
    items: Seq<BackupItem>,
)
    requires
        items.len() == g.entries@.filter(keeps_backup_fn(stem_l, exts, true)).len(),
        forall|k: int|
            0 <= k < items.len() ==> backup_item_matches(
                #[trigger] items[k],
                spec_join(root, g.dir_name@),
                g.entries@.filter(keeps_backup_fn(stem_l, exts, true))[k],
                spec_parse_gen_list_index(g.dir_name@),
            ),
    ensures
        gen_dir_items_ok(root, stem_l, exts, g, items),
{
    reveal(gen_dir_items_ok);
}

/// The backup history: the kept root-level artifacts first, then each
/// generation directory's kept artifacts, in listing order throughout. The
/// ghost cut positions returned mark where each directory's contribution
/// begins and ends.
pub fn get_backup_list(
    root: &str,
    root_entries: &Vec<FsEntry>,
    gen_dirs: &Vec<GenDirListing>,
    stem_l: &str,
    exts: &Vec<String>,
) -> (r: (Vec<BackupItem>, Ghost<Seq<int>>))
    ensures
        ({
            let root_kept = root_entries@.filter(keeps_backup_fn(stem_l@, exts@, false));
            let items = r.0@;
            let cuts = r.1@;
            &&& items.len() >= root_kept.len()
            &&& forall|k: int|
                0 <= k < root_kept.len() ==> backup_item_matches(
                    #[trigger] items[k],
                    root@,
                    root_kept[k],
                    0,
                )
            &&& cuts.len() == gen_dirs@.len() + 1
            &&& cuts[0] == root_kept.len()
            &&& cuts[gen_dirs@.len() as int] == items.len()
            &&& forall|d: int|
                0 <= d < gen_dirs@.len() ==> #[trigger] cuts[d] <= cuts[d + 1] && cuts[d] >= 0
                    && cuts[d + 1] <= items.len() && gen_dir_items_ok(
                    root@,
                    stem_l@,
                    exts@,
                    gen_dirs@[d],
                    items.subrange(cuts[d], cuts[d + 1]),
                )
        }),
{
    let ghost root_kept = root_entries@.filter(keeps_backup_fn(stem_l@, exts@, false));
    let mut out = select_backup_items(root, root_entries, stem_l, exts, false, 0);
    let ghost mut cuts: Seq<int> = seq![out@.len() as int];
    let n = gen_dirs.len();
    let mut d: usize = 0;
    while d < n
        invariant
            n == gen_dirs@.len(),
            d <= n,
            cuts.len() == d + 1,
            cuts[0] == root_kept.len(),
            cuts[d as int] == out@.len(),
            root_kept.len() <= out@.len(),
            root_kept == root_entries@.filter(keeps_backup_fn(stem_l@, exts@, false)),
            forall|k: int|
                0 <= k < root_kept.len() ==> backup_item_matches(
                    #[trigger] out@[k],
                    root@,
                    root_kept[k],
                    0,
                ),
            forall|e: int| 0 <= e <= d ==> 0 <= #[trigger] cuts[e] <= out@.len(),
            forall|e: int|
                0 <= e < d ==> #[trigger] cuts[e] <= cuts[e + 1] && gen_dir_items_ok(
                    root@,
                    stem_l@,
                    exts@,
                    gen_dirs@[e],
                    out@.subrange(cuts[e], cuts[e + 1]),
                ),
        decreases n - d,
    {
        let g: &GenDirListing = &gen_dirs[d];
        let idx = parse_generation_list_index(g.dir_name.as_str());
        let dir = path_join(root, g.dir_name.as_str());
        let ghost out_before = out@;
        let mut items = select_backup_items(dir.as_str(), &g.entries, stem_l, exts, true, idx);
        let ghost items_view = items@;
        out.append(&mut items);
        proof {
            let dd = d as int;
            cuts = cuts.push(out@.len() as int);
            assert(out@ =~= out_before + items_view);
            assert(out@.subrange(cuts[dd], cuts[dd + 1]) =~= items_view);
            lemma_gen_dir_items_intro(root@, stem_l@, exts@, gen_dirs@[dd], items_view);
            assert forall|e: int|
                0 <= e < dd implies #[trigger] cuts[e] <= cuts[e + 1] && gen_dir_items_ok(
                root@,
                stem_l@,
                exts@,
                gen_dirs@[e],
                out@.subrange(cuts[e], cuts[e + 1]),
            ) by {
                assert(out@.subrange(cuts[e], cuts[e + 1]) =~= out_before.subrange(
                    cuts[e],
                    cuts[e + 1],
                ));
            }
            assert(forall|k: int|
                0 <= k < root_kept.len() ==> #[trigger] out@[k] == out_before[k]);
        }
        d = d + 1;
    }
    let ghost final_cuts = cuts;
    (out, Ghost(final_cuts))
}

} // verus!
