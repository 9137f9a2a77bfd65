use cg_backup::resolver::{
    compare_and_adopt, get_latest_generation, resolve_generation_dir, AdoptDecision,
    BackupGenInfo, ResolveOutcome,
};

fn names(v: &[&str]) -> Vec<String> {
    v.iter().map(|s| s.to_string()).collect()
}

#[test]
fn scan_keeps_the_maximum_index() {
    let entries = names(&[
        "base1_20240101_000000",
        "base3_20240101_000000",
        "base2_20240901_000000",
        "unrelated",
        "base_x",
    ]);
    let info = get_latest_generation("/root/dir", &entries).unwrap();
    assert_eq!(info.base_idx, 3);
    assert_eq!(info.dir_path, "/root/dir/base3_20240101_000000");
}

#[test]
fn scan_breaks_index_ties_lexicographically() {
    let entries = names(&["base2_20240101_000000", "base2_20240102_000000"]);
    let info = get_latest_generation("r", &entries).unwrap();
    assert_eq!(info.base_idx, 2);
    assert_eq!(info.dir_path, "r/base2_20240102_000000");
    // The same pair in the other order resolves identically.
    let entries = names(&["base2_20240102_000000", "base2_20240101_000000"]);
    let info = get_latest_generation("r", &entries).unwrap();
    assert_eq!(info.dir_path, "r/base2_20240102_000000");
}

#[test]
fn scan_ignores_non_matching_entries() {
    let entries = names(&["stuff", "base", "base_", "basex_1", "checksum.json"]);
    assert!(get_latest_generation("r", &entries).is_none());
    let empty: Vec<String> = Vec::new();
    assert!(get_latest_generation("r", &empty).is_none());
}

#[test]
fn resolve_creates_generation_one_on_an_empty_root() {
    let empty: Vec<String> = Vec::new();
    match resolve_generation_dir("/r", &empty, "20240101_000000") {
        ResolveOutcome::CreateNew { dir_path, dir_name, idx } => {
            assert_eq!(idx, 1);
            assert_eq!(dir_name, "base1_20240101_000000");
            assert_eq!(dir_path, "/r/base1_20240101_000000");
        },
        ResolveOutcome::Existing { .. } => panic!("nothing to resolve on an empty root"),
    }
}

#[test]
fn resolve_twice_yields_generation_one_both_times() {
    // First call: empty root, decides to create generation 1.
    let empty: Vec<String> = Vec::new();
    let created = match resolve_generation_dir("/r", &empty, "20240101_000000") {
        ResolveOutcome::CreateNew { dir_name, idx, .. } => {
            assert_eq!(idx, 1);
            dir_name
        },
        ResolveOutcome::Existing { .. } => panic!("first call must create"),
    };
    // Second call: the listing now shows exactly what the first created.
    let entries = vec![created];
    match resolve_generation_dir("/r", &entries, "20240101_000001") {
        ResolveOutcome::Existing { dir_path, idx } => {
            assert_eq!(idx, 1);
            assert_eq!(dir_path, "/r/base1_20240101_000000");
        },
        ResolveOutcome::CreateNew { .. } => panic!("second call must not create a duplicate"),
    }
}

#[test]
fn adopt_takes_a_strictly_newer_generation() {
    let info = BackupGenInfo { dir_path: "/r/base5_x".to_string(), base_idx: 5 };
    match compare_and_adopt(Some(&info), 3) {
        AdoptDecision::AdoptExisting { dir_path, idx } => {
            assert_eq!(idx, 5);
            assert_eq!(dir_path, "/r/base5_x");
        },
        AdoptDecision::CreateNext { .. } => panic!("a newer generation must be adopted"),
    }
}

#[test]
fn adopt_steps_to_the_next_index_otherwise() {
    let same = BackupGenInfo { dir_path: "/r/base3_x".to_string(), base_idx: 3 };
    match compare_and_adopt(Some(&same), 3) {
        AdoptDecision::CreateNext { idx } => assert_eq!(idx, 4),
        AdoptDecision::AdoptExisting { .. } => panic!("an equal index is not newer"),
    }
    match compare_and_adopt(None, 7) {
        AdoptDecision::CreateNext { idx } => assert_eq!(idx, 8),
        AdoptDecision::AdoptExisting { .. } => panic!("nothing to adopt"),
    }
}
