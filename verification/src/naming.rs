//! Names derived from the working file: the default backup root, the
//! timestamped copies, the restore output path, and the timestamp read back
//! out of an artifact name.

use vstd::prelude::*;

use crate::clock::{current_timestamp, stamp_ok};
use crate::paths::{
    basename, dot_fn, last_dot_pos, last_match, lemma_last_match_props, parent_dir, path_join,
    spec_basename, spec_extension, spec_file_stem, spec_join, spec_parent, split_stem_extension,
};

verus! {

/// The default backup root for a working file: `cg_backup_<stem>` beside
/// it.
pub open spec fn spec_default_backup_dir(work_file: Seq<char>) -> Seq<char> {
    spec_join(
        spec_parent(work_file),
        seq!['c', 'g', '_', 'b', 'a', 'c', 'k', 'u', 'p', '_'] + spec_file_stem(work_file),
    )
}

/// The backup root used when none is configured: a `cg_backup_<stem>`
/// directory next to the working file.
pub fn default_backup_dir(work_file: &str) -> (r: String)
    ensures
        r@ == spec_default_backup_dir(work_file@),
{
    let dir = parent_dir(work_file);
    let (stem, _) = split_stem_extension(work_file);
    let mut name = String::from_str("cg_backup_");
    name.append(stem.as_str());
    proof {
        reveal_strlit("cg_backup_");
        assert(name@ =~= seq!['c', 'g', '_', 'b', 'a', 'c', 'k', 'u', 'p', '_'] + spec_file_stem(
            work_file@,
        ));
    }
    path_join(dir.as_str(), name.as_str())
}

/// `<stem>_<ts>` with the original extension kept, or `<stem>_<ts>` alone
/// when there is none.
pub open spec fn spec_timestamped_name(original: Seq<char>, ts: Seq<char>) -> Seq<char> {
    let stem = spec_file_stem(original);
    let ext = spec_extension(original);
    if ext.len() == 0 {
        stem + seq!['_'] + ts
    } else {
        stem + seq!['_'] + ts + seq!['.'] + ext
    }
}

/// Build the timestamped copy name for `original` with a given stamp.
pub fn timestamped_name_with(original: &str, ts: &str) -> (r: String)
    ensures
        r@ == spec_timestamped_name(original@, ts@),
{
    let (stem, ext) = split_stem_extension(original);
    let mut r = stem;
    r.append("_");
    r.append(ts);
    if ext.as_str().unicode_len() > 0 {
        r.append(".");
        r.append(ext.as_str());
        proof {
            reveal_strlit("_");
            reveal_strlit(".");
            assert(r@ =~= spec_timestamped_name(original@, ts@));
        }
        r
    } else {
        proof {
            reveal_strlit("_");
            assert(r@ =~= spec_timestamped_name(original@, ts@));
        }
        r
    }
}

/// The name a plain timestamped copy of `original` is stored under, using
/// the current local time.
pub fn timestamped_name(original: &str) -> (r: String)
    ensures
        exists|ts: Seq<char>| stamp_ok(ts) && r@ == spec_timestamped_name(original@, ts),
{
    let ts = current_timestamp();
    let r = timestamped_name_with(original, ts.as_str());
    proof {
        assert(stamp_ok(ts@) && r@ == spec_timestamped_name(original@, ts@));
    }
    r
}

/// The restore output path: `<stem>_restored_<ts>` beside the working
/// file, with the working file's extension kept.
pub open spec fn spec_auto_output_path(work_file: Seq<char>, ts: Seq<char>) -> Seq<char> {
    let stem = spec_file_stem(work_file);
    let ext = spec_extension(work_file);
    let marked = stem + seq!['_', 'r', 'e', 's', 't', 'o', 'r', 'e', 'd', '_'] + ts;
    let name = if ext.len() == 0 {
        marked
    } else {
        marked + seq!['.'] + ext
    };
    spec_join(spec_parent(work_file), name)
}

/// Build the restore output path for `work_file` with a given stamp.
pub fn auto_output_path_with(work_file: &str, ts: &str) -> (r: String)
    ensures
        r@ == spec_auto_output_path(work_file@, ts@),
{
    let dir = parent_dir(work_file);
    let (stem, ext) = split_stem_extension(work_file);
    let mut name = stem;
    name.append("_restored_");
    name.append(ts);
    if ext.as_str().unicode_len() > 0 {
        name.append(".");
        name.append(ext.as_str());
    }
    proof {
        reveal_strlit("_restored_");
        reveal_strlit(".");
        assert(name@ =~= (if spec_extension(work_file@).len() == 0 {
            spec_file_stem(work_file@) + seq!['_', 'r', 'e', 's', 't', 'o', 'r', 'e', 'd', '_']
                + ts@
        } else {
            spec_file_stem(work_file@) + seq!['_', 'r', 'e', 's', 't', 'o', 'r', 'e', 'd', '_']
                + ts@ + seq!['.'] + spec_extension(work_file@)
        }));
    }
    path_join(dir.as_str(), name.as_str())
}

/// Where a restored copy of the working file is written: a fresh
/// `<stem>_restored_<ts>` name beside it, so the working file itself is
/// never overwritten.
pub fn auto_output_path(work_file: &str) -> (r: String)
    ensures
        exists|ts: Seq<char>| stamp_ok(ts) && r@ == spec_auto_output_path(work_file@, ts),
{
    let ts = current_timestamp();
    let r = auto_output_path_with(work_file, ts.as_str());
    proof {
        assert(stamp_ok(ts@) && r@ == spec_auto_output_path(work_file@, ts@));
    }
    r
}

/// The timestamp segment of a dot-separated artifact name: the next-to-last
/// segment when the name has at least three, else the fixed marker text.
pub open spec fn spec_extract_timestamp(path: Seq<char>) -> Seq<char> {
    let b = spec_basename(path);
    let d1 = last_match(b, dot_fn());
    if d1 >= 0 && last_match(b.take(d1), dot_fn()) >= 0 {
        b.subrange(last_match(b.take(d1), dot_fn()) + 1, d1)
    } else {
        seq!['N', 'o', ' ', 'T', 'i', 'm', 'e', 's', 't', 'a', 'm', 'p']
    }
}

/// Read the timestamp segment back out of an artifact name: with the name
/// split on dots, the next-to-last segment when there are at least three;
/// `No Timestamp` otherwise. Never fails.
pub fn extract_timestamp_from_backup(path: &str) -> (r: Result<String, String>)
    ensures
        r is Ok,
        r matches Ok(ts) && ts@ == spec_extract_timestamp(path@),
{
    let b = basename(path);
    let blen = b.as_str().unicode_len();
    proof {
        lemma_last_match_props(b@, dot_fn());
    }
    match last_dot_pos(b.as_str()) {
        Some(d1) => {
            let head = b.as_str().substring_char(0, d1);
            proof {
                assert(head@ =~= b@.take(d1 as int));
                lemma_last_match_props(b@.take(d1 as int), dot_fn());
            }
            match last_dot_pos(head) {
                Some(d0) => {
                    let ts = String::from_str(b.as_str().substring_char(d0 + 1, d1));
                    Ok(ts)
                },
                None => {
                    let r = String::from_str("No Timestamp");
                    proof {
                        reveal_strlit("No Timestamp");
                        assert(r@ =~= spec_extract_timestamp(path@));
                    }
                    Ok(r)
                },
            }
        },
        None => {
            let r = String::from_str("No Timestamp");
            proof {
                reveal_strlit("No Timestamp");
                assert(r@ =~= spec_extract_timestamp(path@));
            }
            Ok(r)
        },
    }
}

} // verus!
