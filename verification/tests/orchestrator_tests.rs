use cg_backup::engine::DiffError;
use cg_backup::orchestrator::{
    BackupAction, BackupEvent, BackupMachine, BackupPhase, BackupStep,
};
use cg_backup::rotation::Threshold;

fn start_auto(work: &str, dir: &str, threshold: Threshold) -> (BackupMachine, BackupStep) {
    BackupMachine::start(work, dir, "hdiff", "zstd", threshold, "/tmp")
}

#[test]
fn auto_route_lists_the_default_root() {
    let (m, step) = start_auto("/w/test.clip", "", Threshold::default_ratio());
    assert_eq!(m.phase, BackupPhase::Resolving);
    match step {
        BackupStep::Do(BackupAction::ListRoot { root }) => {
            assert_eq!(root, "/w/cg_backup_test");
        },
        _ => panic!("the automatic route starts by listing the root"),
    }
}

#[test]
fn manual_route_targets_the_chosen_generation() {
    let (m, step) = start_auto("/w/test.clip", "/r/base3_20240101_000000/", Threshold::default_ratio());
    assert_eq!(m.phase, BackupPhase::Syncing);
    assert_eq!(m.current_idx, 3);
    assert_eq!(m.project_root, "/r");
    match step {
        BackupStep::Do(BackupAction::EnsureDirAndBaseline { dir, baseline_src, baseline_dst }) => {
            assert_eq!(dir, "/r/base3_20240101_000000");
            assert_eq!(baseline_src, "/w/test.clip");
            assert_eq!(baseline_dst, "/r/base3_20240101_000000/test.clip.base");
        },
        _ => panic!("the manual route syncs the chosen generation"),
    }
}

#[test]
fn a_working_file_without_a_name_is_rejected() {
    let (m, step) = start_auto("/w/dir/", "", Threshold::default_ratio());
    assert_eq!(m.phase, BackupPhase::Finished);
    match step {
        BackupStep::Done(Err(DiffError::IoError(msg))) => {
            assert_eq!(msg, "Invalid work file name");
        },
        _ => panic!("an unnameable working file fails at once"),
    }
}

#[test]
fn unsupported_algorithms_are_rejected_after_sync() {
    let (mut m, _) = BackupMachine::start(
        "/w/test.clip",
        "/r/base1_x",
        "bsdiff",
        "zstd",
        Threshold::default_ratio(),
        "/tmp",
    );
    let step = m.step(BackupEvent::Io(Ok(())));
    assert_eq!(m.phase, BackupPhase::Finished);
    match step {
        BackupStep::Done(Err(DiffError::UnsupportedFormat(msg))) => {
            assert_eq!(msg, "`bsdiff` is not supported yet.");
        },
        _ => panic!("only the live algorithm is accepted"),
    }
}

#[test]
fn a_small_file_commits_into_the_current_generation() {
    let (mut m, step) = start_auto("/w/test.clip", "/r", Threshold::default_ratio());
    // Empty root: generation 1 is created.
    match step {
        BackupStep::Do(BackupAction::ListRoot { root }) => assert_eq!(root, "/r"),
        _ => panic!("expected a listing request"),
    }
    let step = m.step(BackupEvent::Listing(None));
    let expected_gen = format!("/r/base1_{}", m.ts);
    match step {
        BackupStep::Do(BackupAction::CreateGenDir { dir, baseline_src, baseline_dst }) => {
            assert_eq!(dir, expected_gen);
            assert_eq!(baseline_src, "/w/test.clip");
            assert_eq!(baseline_dst, format!("{}/test.clip.base", expected_gen));
        },
        _ => panic!("an empty root gets generation 1"),
    }
    // Speculative diff into the temp path.
    let step = m.step(BackupEvent::Io(Ok(())));
    let temp = format!("/tmp/test.clip.{}.tmp", m.ts);
    match step {
        BackupStep::Do(BackupAction::RunDiffTool { args }) => {
            assert_eq!(
                args,
                vec![
                    "-f".to_string(),
                    "-s".to_string(),
                    "-c-zstd".to_string(),
                    format!("{}/test.clip.base", expected_gen),
                    "/w/test.clip".to_string(),
                    temp.clone(),
                ]
            );
        },
        _ => panic!("the speculative diff runs next"),
    }
    let step = m.step(BackupEvent::Tool(Ok(())));
    match step {
        BackupStep::Do(BackupAction::StatSizes { work_file, temp_diff }) => {
            assert_eq!(work_file, "/w/test.clip");
            assert_eq!(temp_diff, temp);
        },
        _ => panic!("sizes are measured next"),
    }
    // A file under the 100 KiB floor never rotates.
    let step = m.step(BackupEvent::Sizes(Ok((50_000, 49_999))));
    match step {
        BackupStep::Do(BackupAction::FinalizeRename { from, to }) => {
            assert_eq!(from, temp);
            assert_eq!(to, format!("{}/test.clip.{}.hdiff.diff", expected_gen, m.ts));
        },
        _ => panic!("no rotation: the temp diff is renamed into place"),
    }
    let step = m.step(BackupEvent::Io(Ok(())));
    assert!(matches!(step, BackupStep::Done(Ok(()))));
    assert_eq!(m.phase, BackupPhase::Finished);
}

#[test]
fn rotation_creates_exactly_the_next_generation() {
    // Tiny threshold, large working file: rotation is due.
    let tight = Threshold::new(1, 10_000);
    let (mut m, _) = start_auto("/w/test.clip", "/r", tight);
    let gen1 = format!("base1_{}", m.ts);
    let step = m.step(BackupEvent::Listing(Some(vec![gen1.clone()])));
    match step {
        BackupStep::Do(BackupAction::EnsureDirAndBaseline { dir, .. }) => {
            assert_eq!(dir, format!("/r/{}", gen1));
        },
        _ => panic!("the existing generation is used"),
    }
    assert_eq!(m.current_idx, 1);
    let _ = m.step(BackupEvent::Io(Ok(())));
    let _ = m.step(BackupEvent::Tool(Ok(())));
    // Working file over the floor, diff over the ratio: rotate.
    let mut creations = 0;
    let step = m.step(BackupEvent::Sizes(Ok((200 * 1024, 1024))));
    let temp = format!("/tmp/test.clip.{}.tmp", m.ts);
    match step {
        BackupStep::Do(BackupAction::RemoveTemp { path }) => assert_eq!(path, temp),
        _ => panic!("rotation discards the speculative diff"),
    }
    let step = m.step(BackupEvent::Io(Ok(())));
    match step {
        BackupStep::Do(BackupAction::ListRoot { root }) => assert_eq!(root, "/r"),
        _ => panic!("rotation re-scans the root"),
    }
    // No newer generation appeared: exactly one new generation, index 2.
    let step = m.step(BackupEvent::Listing(Some(vec![gen1.clone()])));
    let gen2 = format!("/r/base2_{}", m.ts);
    match step {
        BackupStep::Do(BackupAction::CreateGenDir { dir, baseline_dst, .. }) => {
            creations += 1;
            assert_eq!(dir, gen2);
            assert_eq!(baseline_dst, format!("{}/test.clip.base", gen2));
        },
        _ => panic!("no concurrent rotation: the next index is created"),
    }
    assert_eq!(m.current_idx, 2);
    // The final diff lands inside the new generation, not the old one.
    let step = m.step(BackupEvent::Io(Ok(())));
    match step {
        BackupStep::Do(BackupAction::RunDiffTool { args }) => {
            let out = args.last().unwrap();
            assert_eq!(out, &format!("{}/test.clip.{}.hdiff.diff", gen2, m.ts));
            assert!(!out.contains(&format!("/r/{}/", gen1)));
        },
        _ => panic!("the diff is recomputed against the new baseline"),
    }
    let step = m.step(BackupEvent::Tool(Ok(())));
    assert!(matches!(step, BackupStep::Done(Ok(()))));
    assert_eq!(creations, 1);
}

#[test]
fn rotation_adopts_a_concurrently_created_generation() {
    let tight = Threshold::new(1, 10_000);
    let (mut m, _) = start_auto("/w/test.clip", "/r", tight);
    let gen1 = format!("base1_{}", m.ts);
    let _ = m.step(BackupEvent::Listing(Some(vec![gen1.clone()])));
    let _ = m.step(BackupEvent::Io(Ok(())));
    let _ = m.step(BackupEvent::Tool(Ok(())));
    let _ = m.step(BackupEvent::Sizes(Ok((200 * 1024, 1024))));
    let _ = m.step(BackupEvent::Io(Ok(())));
    // A concurrent actor already created generation 5.
    let step = m.step(BackupEvent::Listing(Some(vec![
        gen1.clone(),
        "base5_20990101_000000".to_string(),
    ])));
    match step {
        BackupStep::Do(BackupAction::EnsureDirAndBaseline { dir, .. }) => {
            assert_eq!(dir, "/r/base5_20990101_000000");
        },
        BackupStep::Do(BackupAction::CreateGenDir { .. }) => {
            panic!("a newer generation must be adopted, not duplicated")
        },
        _ => panic!("unexpected step"),
    }
    assert_eq!(m.current_idx, 5);
}

#[test]
fn failures_surface_with_their_context() {
    let (mut m, _) = start_auto("/w/test.clip", "/r/base1_x", Threshold::default_ratio());
    let step = m.step(BackupEvent::Io(Err("copy failed".to_string())));
    match step {
        BackupStep::Done(Err(DiffError::IoError(msg))) => assert_eq!(msg, "copy failed"),
        _ => panic!("a failed sync is fatal"),
    }

    let (mut m, _) = start_auto("/w/test.clip", "/r/base1_x", Threshold::default_ratio());
    let _ = m.step(BackupEvent::Io(Ok(())));
    let step = m.step(BackupEvent::Tool(Err("bad input".to_string())));
    match step {
        BackupStep::Done(Err(DiffError::ToolFailed(msg))) => {
            assert_eq!(msg, "hdiffz error: bad input");
        },
        _ => panic!("a failed tool run is fatal"),
    }

    let (mut m, _) = start_auto("/w/test.clip", "/r/base1_x", Threshold::default_ratio());
    let _ = m.step(BackupEvent::Io(Ok(())));
    let _ = m.step(BackupEvent::Tool(Ok(())));
    let _ = m.step(BackupEvent::Sizes(Ok((50, 10))));
    let step = m.step(BackupEvent::Io(Err("cross-device".to_string())));
    match step {
        BackupStep::Done(Err(DiffError::IoError(msg))) => {
            assert_eq!(msg, "Failed to finalize diff: cross-device");
        },
        _ => panic!("a failed rename is fatal and not retried"),
    }
}

#[test]
fn rotation_at_the_index_ceiling_stops_cleanly() {
    // A manually chosen generation whose index is already the largest
    // representable one cannot rotate further.
    let tight = Threshold::new(1, 10_000);
    let (mut m, _) = start_auto("/w/test.clip", "/r/base2147483647_x", tight);
    assert_eq!(m.current_idx, i32::MAX);
    let _ = m.step(BackupEvent::Io(Ok(())));
    let _ = m.step(BackupEvent::Tool(Ok(())));
    let _ = m.step(BackupEvent::Sizes(Ok((200 * 1024, 1024))));
    let _ = m.step(BackupEvent::Io(Ok(())));
    let step = m.step(BackupEvent::Listing(Some(Vec::new())));
    match step {
        BackupStep::Done(Err(DiffError::IoError(msg))) => {
            assert_eq!(msg, "generation index overflow");
        },
        _ => panic!("the index ceiling is an error, not a wrap"),
    }
}

#[test]
fn measurement_failures_are_fatal() {
    let (mut m, _) = start_auto("/w/test.clip", "/r/base1_x", Threshold::default_ratio());
    let _ = m.step(BackupEvent::Io(Ok(())));
    let _ = m.step(BackupEvent::Tool(Ok(())));
    let step = m.step(BackupEvent::Sizes(Err("gone".to_string())));
    match step {
        BackupStep::Done(Err(DiffError::IoError(msg))) => assert_eq!(msg, "gone"),
        _ => panic!("a failed size read is fatal"),
    }
}

#[test]
fn a_failed_rotation_commit_is_fatal() {
    let tight = Threshold::new(1, 10_000);
    let (mut m, _) = start_auto("/w/test.clip", "/r/base1_x", tight);
    let _ = m.step(BackupEvent::Io(Ok(())));
    let _ = m.step(BackupEvent::Tool(Ok(())));
    let _ = m.step(BackupEvent::Sizes(Ok((200 * 1024, 1024))));
    let _ = m.step(BackupEvent::Io(Ok(())));
    let _ = m.step(BackupEvent::Listing(None));
    assert_eq!(m.current_idx, 2);
    let step = m.step(BackupEvent::Io(Err("disk full".to_string())));
    match step {
        BackupStep::Done(Err(DiffError::IoError(msg))) => assert_eq!(msg, "disk full"),
        _ => panic!("a failed generation creation is fatal"),
    }

    // And a failed recomputed diff reports the tool's diagnostics.
    let (mut m, _) = start_auto("/w/test.clip", "/r/base1_x", Threshold::new(1, 10_000));
    let _ = m.step(BackupEvent::Io(Ok(())));
    let _ = m.step(BackupEvent::Tool(Ok(())));
    let _ = m.step(BackupEvent::Sizes(Ok((200 * 1024, 1024))));
    let _ = m.step(BackupEvent::Io(Ok(())));
    let _ = m.step(BackupEvent::Listing(None));
    let _ = m.step(BackupEvent::Io(Ok(())));
    let step = m.step(BackupEvent::Tool(Err("out of space".to_string())));
    match step {
        BackupStep::Done(Err(DiffError::ToolFailed(msg))) => {
            assert_eq!(msg, "hdiffz error: out of space");
        },
        _ => panic!("a failed final diff is fatal"),
    }
}
