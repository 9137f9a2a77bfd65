use cg_backup::flat::{plan_flat_backup, FlatBackupPlan};
use cg_backup::listing::{
    get_backup_list, get_hdiff_list, hdiff_list_dir, is_valid_backup_ext, valid_backup_exts,
    FsEntry, GenDirListing,
};

fn entry(name: &str, is_file: bool, size: i64) -> FsEntry {
    FsEntry {
        name: name.to_string(),
        is_file,
        size,
        modified: "2024-01-01 12:00:00".to_string(),
    }
}

#[test]
fn hdiff_list_keeps_only_diff_files() {
    let entries = vec![
        entry("test.clip.20240101_000000.diff", true, 10),
        entry("test.clip.base", true, 99),
        entry("somedir.diff", false, 0),
        entry("test.clip.20240102_000000.diff", true, 20),
        entry("notes.txt", true, 5),
    ];
    let list = get_hdiff_list("/d", &entries);
    assert_eq!(list.len(), 2);
    assert_eq!(list[0].file_name, "test.clip.20240101_000000.diff");
    assert_eq!(list[0].file_path, "/d/test.clip.20240101_000000.diff");
    assert_eq!(list[0].timestamp, "20240101_000000");
    assert_eq!(list[0].file_size, 10);
    assert_eq!(list[1].file_name, "test.clip.20240102_000000.diff");
    assert_eq!(list[1].file_size, 20);
}

#[test]
fn hdiff_list_dir_prefers_the_custom_directory() {
    assert_eq!(hdiff_list_dir("/w/test.clip", &Some("/custom".to_string())), "/custom");
    assert_eq!(hdiff_list_dir("/w/test.clip", &Some(String::new())), "/w/cg_backup_test");
    assert_eq!(hdiff_list_dir("/w/test.clip", &None), "/w/cg_backup_test");
}

#[test]
fn extension_checks_cover_the_list() {
    let exts = [".diff", ".zip", ".tar.gz"];
    assert!(is_valid_backup_ext("a.diff", &exts));
    assert!(is_valid_backup_ext("a.tar.gz", &exts));
    assert!(!is_valid_backup_ext("a.tar", &exts));
    assert!(!is_valid_backup_ext("diff", &[]));
}

#[test]
fn the_extension_list_includes_the_working_files_own() {
    let exts = valid_backup_exts("/w/test.CLIP");
    assert_eq!(
        exts,
        vec![".diff", ".zip", ".tar.gz", ".tar", ".gz", ".clip"]
    );
    let exts = valid_backup_exts("/w/noext");
    assert_eq!(exts, vec![".diff", ".zip", ".tar.gz", ".tar", ".gz"]);
}

#[test]
fn the_history_walks_root_then_generations() {
    let root_entries = vec![
        entry("test_20240101_000000.clip", true, 100),
        entry("other_20240101_000000.clip", true, 100),
        entry("test.zip", true, 50),
        entry("base1_20240101_000000", false, 0),
    ];
    let gen1 = GenDirListing {
        dir_name: "base1_20240101_000000".to_string(),
        entries: vec![
            entry("test.clip.base", true, 500),
            entry("test.clip.20240102_000000.hdiff.diff", true, 10),
            entry("checksum.json", true, 1),
        ],
    };
    let gen2 = GenDirListing {
        dir_name: "base2_20240103_000000".to_string(),
        entries: vec![entry("test.clip.20240104_000000.hdiff.diff", true, 20)],
    };
    let exts = valid_backup_exts("/w/test.clip");
    let (items, _) = get_backup_list("/r", &root_entries, &vec![gen1, gen2], "test", &exts);
    assert_eq!(items.len(), 4);
    // Root artifacts first: the stray copy and the zip, not the unrelated
    // file and not the directory.
    assert_eq!(items[0].file_name, "test_20240101_000000.clip");
    assert_eq!(items[0].file_path, "/r/test_20240101_000000.clip");
    assert_eq!(items[0].generation, 0);
    assert_eq!(items[1].file_name, "test.zip");
    // Then each generation: the baseline and checksum record stay out.
    assert_eq!(items[2].file_name, "test.clip.20240102_000000.hdiff.diff");
    assert_eq!(items[2].file_path, "/r/base1_20240101_000000/test.clip.20240102_000000.hdiff.diff");
    assert_eq!(items[2].generation, 1);
    assert_eq!(items[2].timestamp, "2024-01-01 12:00:00");
    assert_eq!(items[3].file_name, "test.clip.20240104_000000.hdiff.diff");
    assert_eq!(items[3].generation, 2);
    assert_eq!(items[3].file_size, 20);
}

#[test]
fn matching_ignores_case() {
    let root_entries = vec![entry("TEST_copy.CLIP", true, 7)];
    let exts = valid_backup_exts("/w/test.clip");
    let (items, _) = get_backup_list("/r", &root_entries, &Vec::new(), "test", &exts);
    assert_eq!(items.len(), 1);
    assert_eq!(items[0].file_name, "TEST_copy.CLIP");
}

#[test]
fn flat_backup_seeds_the_baseline_first() {
    match plan_flat_backup("/w/test.clip", &None, false, "zstd") {
        Ok(FlatBackupPlan::SeedBaseline { target_dir, base_full }) => {
            assert_eq!(target_dir, "/w/cg_backup_test");
            assert_eq!(base_full, "/w/cg_backup_test/test.clip.base");
        },
        _ => panic!("without a baseline, the first run only seeds it"),
    }
}

#[test]
fn flat_backup_diffs_once_the_baseline_exists() {
    match plan_flat_backup("/w/test.clip", &Some("/d".to_string()), true, "none") {
        Ok(FlatBackupPlan::MakeDiff { target_dir, args }) => {
            assert_eq!(target_dir, "/d");
            assert_eq!(args.len(), 5);
            assert_eq!(args[0], "-f");
            assert_eq!(args[1], "-s");
            assert_eq!(args[2], "/d/test.clip.base");
            assert_eq!(args[3], "/w/test.clip");
            assert!(args[4].starts_with("/d/test.clip."));
            assert!(args[4].ends_with(".diff"));
            assert!(!args[4].contains(".hdiff."));
        },
        _ => panic!("with a baseline, the run diffs against it"),
    }
}
