use cg_backup::engine::{apply_diff_args, make_diff_args, DiffError};

#[test]
fn diff_args_carry_the_compression_flag() {
    let args = make_diff_args("old", "new", "out", "zstd");
    assert_eq!(args, vec!["-f", "-s", "-c-zstd", "old", "new", "out"]);
    let args = make_diff_args("old", "new", "out", "lzma2");
    assert_eq!(args, vec!["-f", "-s", "-c-lzma2", "old", "new", "out"]);
    let args = make_diff_args("old", "new", "out", "lzma");
    assert_eq!(args, vec!["-f", "-s", "-c-lzma", "old", "new", "out"]);
    let args = make_diff_args("old", "new", "out", "zlib");
    assert_eq!(args, vec!["-f", "-s", "-c-zlib", "old", "new", "out"]);
    let args = make_diff_args("old", "new", "out", "ldef");
    assert_eq!(args, vec!["-f", "-s", "-c-ldef", "old", "new", "out"]);
    let args = make_diff_args("old", "new", "out", "pbzip2");
    assert_eq!(args, vec!["-f", "-s", "-c-pbzip2", "old", "new", "out"]);
    let args = make_diff_args("old", "new", "out", "bzip2");
    assert_eq!(args, vec!["-f", "-s", "-c-bzip2", "old", "new", "out"]);
}

#[test]
fn no_compression_omits_the_flag() {
    let args = make_diff_args("old", "new", "out", "none");
    assert_eq!(args, vec!["-f", "-s", "old", "new", "out"]);
}

#[test]
fn unknown_compression_falls_back_to_zstd() {
    let args = make_diff_args("old", "new", "out", "mystery");
    assert_eq!(args, vec!["-f", "-s", "-c-zstd", "old", "new", "out"]);
    let args = make_diff_args("old", "new", "out", "");
    assert_eq!(args, vec!["-f", "-s", "-c-zstd", "old", "new", "out"]);
}

#[test]
fn apply_args_are_fixed() {
    let args = apply_diff_args("base", "delta", "out");
    assert_eq!(args, vec!["-f", "-s", "base", "delta", "out"]);
}

#[test]
fn errors_carry_their_messages() {
    let e = DiffError::IoError("no such file".to_string());
    assert_eq!(e.message(), "no such file");
    let e = DiffError::ToolFailed("hdiffz error: boom".to_string());
    assert_eq!(e.message(), "hdiffz error: boom");
    let e = DiffError::UnsupportedFormat("`bsdiff` is not supported.".to_string());
    assert_eq!(e.message(), "`bsdiff` is not supported.");
    let e = DiffError::RecoveryFailed("recovery failed for legacy format: x".to_string());
    assert_eq!(e.message(), "recovery failed for legacy format: x");
}
