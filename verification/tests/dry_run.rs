use unofficial_neuro_kar_manager::api::gdrive::download::FilesystemPaths;
use unofficial_neuro_kar_manager::api::gdrive::dry_run::{
    check_dry_run, dry_run_body, dry_run_config, dry_run_endpoint, summarize, DryRunSession,
};
use unofficial_neuro_kar_manager::api::gdrive::download::{
    ConfigError, DownloadConfig, TransferMode,
};
use unofficial_neuro_kar_manager::api::gdrive::job::SyncJobResult;
use unofficial_neuro_kar_manager::api::rclone::log::{
    deleted_files_in, deleted_path_in, get_current_offset, lines_since, parse_deleted_files,
    DELETE_KEYWORD,
};

fn strings(items: &[&str]) -> Vec<String> {
    items.iter().map(|s| s.to_string()).collect()
}

fn counts(deletes: i64) -> SyncJobResult {
    SyncJobResult { deletes, checks: 5, transfers: 3, errors: 0 }
}

#[test]
fn dry_run_reads_deletions_from_the_log() {
    let before = b"2023-12-31 10:00:00 INFO  : Deleted old.txt\n".to_vec();
    let session = DryRunSession::begin(&before);
    let mut after = before.clone();
    after.extend_from_slice(b"2024-01-01 12:00:00 NOTICE: Deleted a.txt\n");
    after.extend_from_slice(b"2024-01-01 12:00:01 INFO  : there is nothing to transfer\n");
    after.extend_from_slice(b"2024-01-01 12:00:02 NOTICE: Deleted b/c.txt\n");
    let result = session.finish(&counts(0), &after);
    assert!(result.would_delete);
    assert_eq!(result.deleted_files, strings(&["a.txt", "b/c.txt"]));
    assert_eq!(result.stats, "Checks: 5, Transfers: 3, Deletes: 0, Errors: 0");
}

#[test]
fn dry_run_without_deletions() {
    let before = b"2024-01-01 11:00:00 NOTICE: Deleted stale.txt\n".to_vec();
    let session = DryRunSession::begin(&before);
    let mut after = before.clone();
    after.extend_from_slice(b"2024-01-01 12:00:00 INFO  : nothing to do\n");
    let result = session.finish(&counts(0), &after);
    assert!(!result.would_delete);
    assert!(result.deleted_files.is_empty());
}

#[test]
fn delete_counter_alone_is_enough() {
    let log = b"".to_vec();
    let result = DryRunSession::begin(&log).finish(&counts(2), &log);
    assert!(result.would_delete);
    assert!(result.deleted_files.is_empty());
    assert_eq!(result.stats, "Checks: 5, Transfers: 3, Deletes: 2, Errors: 0");
}

#[test]
fn would_delete_from_either_sign() {
    assert!(!check_dry_run(&counts(0), Vec::new()).would_delete);
    assert!(check_dry_run(&counts(1), Vec::new()).would_delete);
    assert!(check_dry_run(&counts(0), strings(&["x"])).would_delete);
    assert!(check_dry_run(&counts(3), strings(&["x"])).would_delete);
    assert!(!check_dry_run(&counts(-1), Vec::new()).would_delete);
    let r = check_dry_run(&counts(0), strings(&["x", "y"]));
    assert_eq!(r.deleted_files, strings(&["x", "y"]));
}

#[test]
fn summary_of_counters() {
    let r = SyncJobResult { deletes: -1, checks: 1234567890123, transfers: 0, errors: 10 };
    assert_eq!(summarize(&r), "Checks: 1234567890123, Transfers: 0, Deletes: -1, Errors: 10");
}

#[test]
fn dry_run_is_always_a_sync_without_backup() {
    let config = match dry_run_config(
        "ID".to_string(),
        "/".to_string(),
        Some("gdrive".to_string()),
        false,
        Some(strings(&["a"])),
        true,
    ) {
        Ok(c) => c,
        Err(e) => panic!("{:?}", e),
    };
    assert_eq!(config.mode(), TransferMode::Sync { delete_excluded: true });
    let paths = match config.build_filesystem_paths() {
        Ok(p) => p,
        Err(e) => panic!("a dry run asked for a backup: {:?}", e),
    };
    assert_eq!(paths.backup_path, None);
    let body = dry_run_body(&config, &paths);
    assert!(body.dry_run);
    assert_eq!(body.backup_dir, None);
    let v: serde_json::Value = match serde_json::from_str(&body.to_json()) {
        Ok(v) => v,
        Err(e) => panic!("{}", e),
    };
    let expected: serde_json::Value = match serde_json::from_str(
        r#"{"_async":true,"srcFs":"gdrive,root_folder_id=ID:","dstFs":"/",
            "_config":{"DryRun":true},
            "_filter":{"IncludeRule":["/a","/a/**"],"DeleteExcluded":true}}"#,
    ) {
        Ok(v) => v,
        Err(e) => panic!("{}", e),
    };
    assert_eq!(v, expected);
}

#[test]
fn dry_run_body_keeps_a_backup_directory_of_the_paths() {
    let config = match dry_run_config(
        "ID".to_string(),
        "/d".to_string(),
        Some("gdrive".to_string()),
        false,
        None,
        false,
    ) {
        Ok(c) => c,
        Err(e) => panic!("{:?}", e),
    };
    let paths = FilesystemPaths {
        src_fs: "s".to_string(),
        dst_fs: "d".to_string(),
        backup_path: Some("b".to_string()),
    };
    let v: serde_json::Value = match serde_json::from_str(&dry_run_body(&config, &paths).to_json())
    {
        Ok(v) => v,
        Err(e) => panic!("{}", e),
    };
    let expected: serde_json::Value = match serde_json::from_str(
        r#"{"_async":true,"srcFs":"s","dstFs":"d","_config":{"BackupDir":"b","DryRun":true}}"#,
    ) {
        Ok(v) => v,
        Err(e) => panic!("{}", e),
    };
    assert_eq!(v, expected);
}

#[test]
fn dry_run_of_a_copy_request_is_still_a_sync() {
    let copy = match DownloadConfig::new(
        "ID".to_string(),
        "/d".to_string(),
        Some("gdrive".to_string()),
        false,
        false,
        Some(strings(&["a"])),
        false,
        true,
    ) {
        Ok(c) => c,
        Err(e) => panic!("{:?}", e),
    };
    assert_eq!(copy.mode(), TransferMode::Copy);
    let paths = FilesystemPaths {
        src_fs: "s".to_string(),
        dst_fs: "d".to_string(),
        backup_path: None,
    };
    let body = dry_run_body(&copy, &paths);
    assert!(body.dry_run);
    match &body.filter {
        Some(f) => assert!(f.delete_excluded),
        None => panic!("no filter"),
    }
    assert_eq!(dry_run_endpoint(), "/sync/sync");
    assert!(!copy.build_request_body(&paths).dry_run);
    assert!(copy.build_dry_run_body(&paths).dry_run);
}

#[test]
fn dry_run_needs_an_identity() {
    let r = dry_run_config("ID".to_string(), "/".to_string(), None, false, None, false);
    assert!(matches!(r, Err(ConfigError::MissingIdentity)));
}

#[test]
fn offset_is_the_length_of_the_log() {
    assert_eq!(get_current_offset(b""), 0);
    assert_eq!(get_current_offset(b"abc\n"), 4);
}

#[test]
fn offset_is_stable_without_writes_and_grows_with_them() {
    let mut log = b"one\n".to_vec();
    let first = get_current_offset(&log);
    let second = get_current_offset(&log);
    assert_eq!(first, second);
    log.push(b'x');
    assert!(get_current_offset(&log) > second);
}

#[test]
fn lines_since_sees_only_what_was_appended() {
    let mut log = b"old 1\nold 2\n".to_vec();
    let offset = get_current_offset(&log);
    assert!(lines_since(&log, offset).is_empty());
    log.extend_from_slice(b"new 1\nnew 2\n");
    assert_eq!(lines_since(&log, offset), strings(&["new 1", "new 2"]));
    assert_eq!(lines_since(&log, 0), strings(&["old 1", "old 2", "new 1", "new 2"]));
}

#[test]
fn lines_end_at_line_feeds() {
    assert_eq!(lines_since(b"a\r\nb\n\nc", 0), strings(&["a", "b", "", "c"]));
    assert_eq!(lines_since(b"a\rb\n", 0), strings(&["a\rb"]));
    assert_eq!(lines_since(b"\n", 0), strings(&[""]));
    assert_eq!(lines_since(b"\r\n\r", 0), strings(&["", "\r"]));
    assert_eq!(lines_since(b"abc", 1), strings(&["bc"]));
    assert!(lines_since(b"", 0).is_empty());
}

#[test]
fn offset_beyond_the_log_gives_no_lines() {
    assert!(lines_since(b"abc\n", 5).is_empty());
    assert!(lines_since(b"abc\n", 4).is_empty());
    assert!(parse_deleted_files(b"x Deleted a\n", 100).is_empty());
}

#[test]
fn lines_that_are_no_utf8_are_read_with_replacements() {
    assert_eq!(lines_since(b"caf\xc3\xa9\n\xff!\n", 0), strings(&["caf\u{e9}", "\u{fffd}!"]));
}

#[test]
fn deleted_path_follows_the_keyword() {
    assert_eq!(DELETE_KEYWORD, "Deleted ");
    assert_eq!(
        deleted_path_in("2024-01-01 12:00:00 NOTICE: Deleted a.txt"),
        Some("a.txt".to_string())
    );
    assert_eq!(deleted_path_in("Deleted b/c d.txt"), Some("b/c d.txt".to_string()));
    assert_eq!(
        deleted_path_in("x Deleted Deleted Scenes/1.mp4"),
        Some("Deleted Scenes/1.mp4".to_string())
    );
}

#[test]
fn lines_of_another_shape_are_passed_over() {
    assert_eq!(deleted_path_in(""), None);
    assert_eq!(deleted_path_in("2024-01-01 INFO  : a.txt: Copied (new)"), None);
    assert_eq!(deleted_path_in("x Deleted"), None);
    assert_eq!(deleted_path_in("x Deleted "), None);
    assert_eq!(deleted_path_in("x deleted a.txt"), None);
    assert_eq!(deleted_path_in("x Deleteda.txt"), None);
}

#[test]
fn deleted_files_keep_the_order_of_the_log() {
    let lines = strings(&["t Deleted z", "noise", "t Deleted a", "t Deleted z"]);
    assert_eq!(deleted_files_in(&lines), strings(&["z", "a", "z"]));
    assert_eq!(
        parse_deleted_files(b"t Deleted z\r\nnoise\nt Deleted a", 2),
        strings(&["z", "a"])
    );
}
