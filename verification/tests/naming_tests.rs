use cg_backup::genname::{
    baseline_name, diff_artifact_name, generation_dir_name, parse_base_prefix,
    parse_generation_list_index, parse_generation_name, temp_diff_name,
};
use cg_backup::naming::{
    auto_output_path_with, default_backup_dir, extract_timestamp_from_backup,
    timestamped_name_with,
};
use cg_backup::paths::{
    basename, parent_dir, path_join, split_stem_extension, trim_trailing_seps,
};

#[test]
fn parses_generation_names() {
    assert_eq!(parse_generation_name("base1_20240101_120000"), Some(1));
    assert_eq!(parse_generation_name("base12_x"), Some(12));
    assert_eq!(parse_generation_name("base007_t"), Some(7));
    assert_eq!(parse_generation_name("base1"), None);
    assert_eq!(parse_generation_name("base_x"), None);
    assert_eq!(parse_generation_name("vase1_x"), None);
    assert_eq!(parse_generation_name("base"), None);
    assert_eq!(parse_generation_name(""), None);
    assert_eq!(parse_generation_name("base99999999999999999999_x"), None);
    assert_eq!(parse_generation_name("base2147483647_x"), Some(i32::MAX));
    assert_eq!(parse_generation_name("base2147483648_x"), None);
}

#[test]
fn parses_manual_prefixes() {
    assert_eq!(parse_base_prefix("base3"), 3);
    assert_eq!(parse_base_prefix("base3_20240101"), 3);
    assert_eq!(parse_base_prefix("basefoo"), 0);
    assert_eq!(parse_base_prefix("nonsense"), 0);
    assert_eq!(parse_base_prefix("base99999999999999999999"), 0);
}

#[test]
fn parses_list_indices() {
    assert_eq!(parse_generation_list_index("base1_20240101"), 1);
    assert_eq!(parse_generation_list_index("base12"), 12);
    assert_eq!(parse_generation_list_index("base1a_x"), 0);
    assert_eq!(parse_generation_list_index("other"), 0);
}

#[test]
fn generation_name_round_trips() {
    let name = generation_dir_name(7, "20240101_120000");
    assert_eq!(name, "base7_20240101_120000");
    assert_eq!(parse_generation_name(&name), Some(7));
    let name = generation_dir_name(120, "20991231_235959");
    assert_eq!(name, "base120_20991231_235959");
    assert_eq!(parse_generation_name(&name), Some(120));
}

#[test]
fn builds_artifact_names() {
    assert_eq!(baseline_name("test.clip"), "test.clip.base");
    assert_eq!(
        diff_artifact_name("test.clip", "20240101_120000", "hdiff"),
        "test.clip.20240101_120000.hdiff.diff"
    );
    assert_eq!(
        temp_diff_name("test.clip", "20240101_120000"),
        "test.clip.20240101_120000.tmp"
    );
}

#[test]
fn path_helpers_work() {
    assert_eq!(basename("/a/b/c.txt"), "c.txt");
    assert_eq!(basename("c.txt"), "c.txt");
    assert_eq!(basename("/a/b/"), "");
    assert_eq!(parent_dir("/a/b/c.txt"), "/a/b");
    assert_eq!(parent_dir("/a"), "/");
    assert_eq!(parent_dir("c.txt"), "");
    assert_eq!(path_join("/a/b", "c"), "/a/b/c");
    assert_eq!(path_join("", "c"), "c");
    assert_eq!(path_join("/a/", "c"), "/a/c");
    assert_eq!(trim_trailing_seps("/a/b///"), "/a/b");
    assert_eq!(trim_trailing_seps("c:\\x\\"), "c:\\x");
    assert_eq!(trim_trailing_seps("plain"), "plain");
}

#[test]
fn splits_stem_and_extension() {
    let (stem, ext) = split_stem_extension("/w/test.clip");
    assert_eq!(stem, "test");
    assert_eq!(ext, "clip");
    let (stem, ext) = split_stem_extension("archive.tar.gz");
    assert_eq!(stem, "archive.tar");
    assert_eq!(ext, "gz");
    let (stem, ext) = split_stem_extension("noext");
    assert_eq!(stem, "noext");
    assert_eq!(ext, "");
    let (stem, ext) = split_stem_extension(".hidden");
    assert_eq!(stem, ".hidden");
    assert_eq!(ext, "");
}

#[test]
fn default_backup_dir_sits_beside_the_working_file() {
    assert_eq!(default_backup_dir("/w/test.clip"), "/w/cg_backup_test");
    assert_eq!(default_backup_dir("test.clip"), "cg_backup_test");
}

#[test]
fn timestamped_names_keep_the_extension() {
    assert_eq!(
        timestamped_name_with("/w/test.clip", "20240101_120000"),
        "test_20240101_120000.clip"
    );
    assert_eq!(
        timestamped_name_with("bare", "20240101_120000"),
        "bare_20240101_120000"
    );
}

#[test]
fn auto_output_path_marks_restored_copies() {
    assert_eq!(
        auto_output_path_with("/w/test.clip", "20240101_120000"),
        "/w/test_restored_20240101_120000.clip"
    );
    assert_eq!(
        auto_output_path_with("bare", "20240101_120000"),
        "bare_restored_20240101_120000"
    );
}

#[test]
fn extracts_timestamps_from_artifact_names() {
    assert_eq!(
        extract_timestamp_from_backup("test.clip.20251231_150000.diff"),
        Ok("20251231_150000".to_string())
    );
    // With the algorithm segment present, the next-to-last dot segment is
    // the algorithm tag; the reader reports exactly that segment.
    assert_eq!(
        extract_timestamp_from_backup("test.clip.20251231_150000.hdiff.diff"),
        Ok("hdiff".to_string())
    );
    assert_eq!(
        extract_timestamp_from_backup("/d/test.clip.20251231_150000.diff"),
        Ok("20251231_150000".to_string())
    );
    assert_eq!(
        extract_timestamp_from_backup("test.diff"),
        Ok("No Timestamp".to_string())
    );
    assert_eq!(
        extract_timestamp_from_backup("plain"),
        Ok("No Timestamp".to_string())
    );
}

#[test]
fn clock_backed_names_embed_a_clean_stamp() {
    // The stamp between the marker and the extension is nonempty and free
    // of dots and separators, so the name keeps its dot structure.
    let out = cg_backup::naming::auto_output_path("/w/test.clip");
    assert!(out.starts_with("/w/test_restored_"));
    assert!(out.ends_with(".clip"));
    let stamp = &out["/w/test_restored_".len()..out.len() - ".clip".len()];
    assert!(!stamp.is_empty());
    assert!(!stamp.contains('.'));
    assert!(!stamp.contains('/'));

    let name = cg_backup::naming::timestamped_name("/w/test.clip");
    assert!(name.starts_with("test_"));
    assert!(name.ends_with(".clip"));
    let stamp = &name["test_".len()..name.len() - ".clip".len()];
    assert!(!stamp.is_empty());
    assert!(!stamp.contains('.'));
    assert!(!stamp.contains('/'));
}
