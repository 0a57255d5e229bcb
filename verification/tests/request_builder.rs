use unofficial_neuro_kar_manager::api::gdrive::download::{
    backup_path_at, build_file_filter, ConfigError, DownloadConfig, FilesystemPaths, TransferMode,
    ARCHIVE_FOLDER, EMPTY_SELECTION_RULE,
};
use unofficial_neuro_kar_manager::api::gdrive::utils::parse_gdrive_id;

fn config(
    destination: &str,
    sync_mode: bool,
    create_subfolder: bool,
    selected_files: Option<Vec<String>>,
    create_backup: bool,
    delete_excluded: bool,
) -> DownloadConfig {
    match DownloadConfig::new(
        "https://drive.google.com/drive/folders/1AbC_dEf?usp=sharing".to_string(),
        destination.to_string(),
        Some("gdrive".to_string()),
        sync_mode,
        create_subfolder,
        selected_files,
        create_backup,
        delete_excluded,
    ) {
        Ok(c) => c,
        Err(e) => panic!("unexpected refusal: {:?}", e),
    }
}

fn strings(items: &[&str]) -> Vec<String> {
    items.iter().map(|s| s.to_string()).collect()
}

fn json(text: &str) -> serde_json::Value {
    match serde_json::from_str(text) {
        Ok(v) => v,
        Err(e) => panic!("not JSON: {} in {}", e, text),
    }
}

#[test]
fn folder_id_from_folder_url() {
    assert_eq!(parse_gdrive_id("https://drive.google.com/drive/folders/12345abc"), "12345abc");
    assert_eq!(
        parse_gdrive_id("https://drive.google.com/drive/folders/12345abc?usp=sharing"),
        "12345abc"
    );
    assert_eq!(
        parse_gdrive_id("https://drive.google.com/drive/folders/12345abc/view"),
        "12345abc"
    );
    assert_eq!(parse_gdrive_id("x/folders/"), "");
}

#[test]
fn folder_id_from_id_parameter() {
    assert_eq!(parse_gdrive_id("https://drive.google.com/open?id=XYZ&authuser=0"), "XYZ");
    assert_eq!(parse_gdrive_id("https://drive.google.com/open?id=XYZ"), "XYZ");
}

#[test]
fn folder_id_prefers_folder_url_over_id_parameter() {
    assert_eq!(parse_gdrive_id("https://h/folders/F1?id=I2&x=1"), "F1");
    assert_eq!(parse_gdrive_id("id=I2&u=/folders/F1/rest"), "F1");
}

#[test]
fn bare_folder_id_is_kept() {
    assert_eq!(parse_gdrive_id("1a2B3c"), "1a2B3c");
    assert_eq!(parse_gdrive_id(""), "");
}

#[test]
fn missing_identity_is_refused() {
    let r = DownloadConfig::new(
        "s".to_string(),
        "/d".to_string(),
        None,
        false,
        false,
        None,
        false,
        false,
    );
    match r {
        Err(e) => {
            assert_eq!(e, ConfigError::MissingIdentity);
            assert_eq!(e.message(), "Remote configuration is required. Please authorize first.");
        }
        Ok(_) => panic!("a request without a remote was accepted"),
    }
}

#[test]
fn empty_identity_is_refused() {
    let r = DownloadConfig::new(
        "s".to_string(),
        "/d".to_string(),
        Some(String::new()),
        true,
        false,
        None,
        false,
        false,
    );
    assert!(matches!(r, Err(ConfigError::MissingIdentity)));
}

#[test]
fn identity_is_kept() {
    let c = config("/d", false, false, None, false, false);
    assert_eq!(c.remote_config(), "gdrive");
}

#[test]
fn mode_follows_the_request() {
    assert_eq!(config("/d", false, false, None, false, true).mode(), TransferMode::Copy);
    assert_eq!(
        config("/d", true, false, None, false, true).mode(),
        TransferMode::Sync { delete_excluded: true }
    );
    assert_eq!(
        config("/d", true, false, None, false, false).mode(),
        TransferMode::Sync { delete_excluded: false }
    );
    assert_eq!(TransferMode::Copy.endpoint(), "/sync/copy");
    assert_eq!(TransferMode::Sync { delete_excluded: false }.endpoint(), "/sync/sync");
}

#[test]
fn destination_gets_the_archive_folder() {
    let c = config("/home/u/music", false, true, None, false, false);
    assert_eq!(c.build_destination_path(), "/home/u/music/Unofficial-Neuro-Karaoke-Archive");
}

#[test]
fn destination_without_subfolder_is_unchanged() {
    let c = config("/home/u/music", false, false, None, false, false);
    assert_eq!(c.build_destination_path(), "/home/u/music");
}

#[test]
fn destination_is_not_nested_twice() {
    let once = config("/home/u/music", false, true, None, false, false).build_destination_path();
    let twice = config(&once, false, true, None, false, false).build_destination_path();
    assert_eq!(twice, once);
    let slash = config("/home/u/Unofficial-Neuro-Karaoke-Archive/", false, true, None, false, false);
    assert_eq!(slash.build_destination_path(), "/home/u/Unofficial-Neuro-Karaoke-Archive/");
    assert_eq!(ARCHIVE_FOLDER, "Unofficial-Neuro-Karaoke-Archive");
}

#[test]
fn destination_ending_in_a_longer_name_is_nested() {
    let c = config("/x/My-Unofficial-Neuro-Karaoke-Archive", false, true, None, false, false);
    assert_eq!(
        c.build_destination_path(),
        "/x/My-Unofficial-Neuro-Karaoke-Archive/Unofficial-Neuro-Karaoke-Archive"
    );
}

#[test]
fn backup_is_a_sibling_of_the_destination() {
    match backup_path_at("/home/u/music", "20240102_030405") {
        Ok(p) => assert_eq!(p, "/home/u/Backup-KAR-20240102_030405"),
        Err(e) => panic!("{:?}", e),
    }
    match backup_path_at("music", "20240102_030405") {
        Ok(p) => assert_eq!(p, "Backup-KAR-20240102_030405"),
        Err(e) => panic!("{:?}", e),
    }
}

#[test]
fn backup_of_a_root_has_no_parent() {
    match backup_path_at("/", "20240102_030405") {
        Err(e) => {
            assert_eq!(e, ConfigError::NoParentDirectory);
            assert_eq!(e.message(), "Cannot get parent directory of destination");
        }
        Ok(p) => panic!("a backup path for the root: {}", p),
    }
    assert!(matches!(backup_path_at("", "t"), Err(ConfigError::NoParentDirectory)));
}

#[test]
fn backup_path_carries_a_timestamp_of_the_clock() {
    let c = config("/home/u/music", true, false, None, true, false);
    let p = match c.build_backup_path("/home/u/music") {
        Ok(p) => p,
        Err(e) => panic!("{:?}", e),
    };
    let prefix = "/home/u/Backup-KAR-";
    assert!(p.starts_with(prefix));
    let stamp: Vec<char> = p[prefix.len()..].chars().collect();
    assert_eq!(stamp.len(), 15);
    for (i, ch) in stamp.iter().enumerate() {
        if i == 8 {
            assert_eq!(*ch, '_');
        } else {
            assert!(ch.is_ascii_digit());
        }
    }
    assert!(matches!(c.build_backup_path("/"), Err(ConfigError::NoParentDirectory)));
}

#[test]
fn paths_without_backup() {
    let c = config("/home/u/music", false, true, None, false, false);
    let p = match c.build_filesystem_paths() {
        Ok(p) => p,
        Err(e) => panic!("{:?}", e),
    };
    assert_eq!(p.src_fs, "gdrive,root_folder_id=1AbC_dEf:");
    assert_eq!(p.dst_fs, "/home/u/music/Unofficial-Neuro-Karaoke-Archive");
    assert_eq!(p.backup_path, None);
}

#[test]
fn paths_with_backup_at_a_given_time() {
    let c = config("/home/u/music", true, true, None, true, false);
    let p = match c.build_filesystem_paths_at("20240102_030405") {
        Ok(p) => p,
        Err(e) => panic!("{:?}", e),
    };
    assert_eq!(p.src_fs, "gdrive,root_folder_id=1AbC_dEf:");
    assert_eq!(p.dst_fs, "/home/u/music/Unofficial-Neuro-Karaoke-Archive");
    assert_eq!(p.backup_path, Some("/home/u/music/Backup-KAR-20240102_030405".to_string()));
}

#[test]
fn paths_with_backup_read_the_clock() {
    let c = config("/home/u/music", true, false, None, true, false);
    let p = match c.build_filesystem_paths() {
        Ok(p) => p,
        Err(e) => panic!("{:?}", e),
    };
    match p.backup_path {
        Some(b) => assert!(b.starts_with("/home/u/Backup-KAR-") && b.len() == 19 + 15),
        None => panic!("no backup path"),
    }
}

#[test]
fn paths_with_backup_of_a_root_fail() {
    let c = config("/", true, false, None, true, false);
    assert!(matches!(c.build_filesystem_paths(), Err(ConfigError::NoParentDirectory)));
    assert!(matches!(c.build_filesystem_paths_at("t"), Err(ConfigError::NoParentDirectory)));
    let no_backup = config("/", true, false, None, false, false);
    assert!(no_backup.build_filesystem_paths().is_ok());
}

#[test]
fn filter_has_two_rules_per_selected_path() {
    let selection = strings(&["a.txt", "/dir/sub", "//x", "dir/"]);
    let f = build_file_filter(&selection);
    assert_eq!(f.include_rule.len(), 2 * selection.len());
    assert_eq!(
        f.include_rule,
        strings(&[
            "/a.txt",
            "/a.txt/**",
            "/dir/sub",
            "/dir/sub/**",
            "/x",
            "/x/**",
            "/dir/",
            "/dir//**"
        ])
    );
    assert!(!f.delete_excluded);
}

#[test]
fn filter_of_a_path_of_slashes_only() {
    let f = build_file_filter(&strings(&["///", ""]));
    assert_eq!(f.include_rule, strings(&["/", "//**", "/", "//**"]));
}

#[test]
fn filter_of_an_empty_selection_is_the_sentinel_only() {
    let f = build_file_filter(&[]);
    assert_eq!(f.include_rule, strings(&["non_existent_file_marker"]));
    assert_eq!(EMPTY_SELECTION_RULE, "non_existent_file_marker");
    assert!(!f.delete_excluded);
}

fn paths(backup: Option<&str>) -> FilesystemPaths {
    FilesystemPaths {
        src_fs: "gdrive,root_folder_id=ID:".to_string(),
        dst_fs: "/d \"q\"".to_string(),
        backup_path: backup.map(|b| b.to_string()),
    }
}

#[test]
fn body_without_selection_has_no_filter() {
    let c = config("/d", true, false, None, false, true);
    let body = c.build_request_body(&paths(None));
    assert_eq!(body.src_fs, "gdrive,root_folder_id=ID:");
    assert_eq!(body.dst_fs, "/d \"q\"");
    assert_eq!(body.backup_dir, None);
    assert!(!body.dry_run);
    assert!(body.filter.is_none());
    assert_eq!(
        json(&body.to_json()),
        json(r#"{"_async":true,"srcFs":"gdrive,root_folder_id=ID:","dstFs":"/d \"q\""}"#)
    );
}

#[test]
fn body_with_backup_and_selection() {
    let c = config("/d", true, false, Some(strings(&["a", "/b/c"])), true, true);
    let body = c.build_request_body(&paths(Some("/Backup-KAR-1")));
    assert_eq!(body.backup_dir, Some("/Backup-KAR-1".to_string()));
    match &body.filter {
        Some(f) => {
            assert_eq!(f.include_rule, strings(&["/a", "/a/**", "/b/c", "/b/c/**"]));
            assert!(f.delete_excluded);
        }
        None => panic!("no filter"),
    }
    assert_eq!(
        json(&body.to_json()),
        json(
            r#"{"_async":true,"srcFs":"gdrive,root_folder_id=ID:","dstFs":"/d \"q\"",
                "_config":{"BackupDir":"/Backup-KAR-1"},
                "_filter":{"IncludeRule":["/a","/a/**","/b/c","/b/c/**"],"DeleteExcluded":true}}"#
        )
    );
}

#[test]
fn body_of_an_empty_selection_selects_nothing() {
    let c = config("/d", false, false, Some(Vec::new()), false, false);
    let body = c.build_request_body(&paths(None));
    match &body.filter {
        Some(f) => {
            assert_eq!(f.include_rule, strings(&["non_existent_file_marker"]));
            assert!(!f.delete_excluded);
        }
        None => panic!("an empty selection must not become no selection"),
    }
    assert_eq!(
        json(&body.to_json()),
        json(
            r#"{"_async":true,"srcFs":"gdrive,root_folder_id=ID:","dstFs":"/d \"q\"",
                "_filter":{"IncludeRule":["non_existent_file_marker"]}}"#
        )
    );
}

#[test]
fn delete_excluded_is_left_out_of_a_copy() {
    let c = config("/d", false, false, Some(strings(&["a"])), false, true);
    let body = c.build_request_body(&paths(None));
    match &body.filter {
        Some(f) => assert!(!f.delete_excluded),
        None => panic!("no filter"),
    }
    let s = config("/d", true, false, Some(strings(&["a"])), false, false);
    match &s.build_request_body(&paths(None)).filter {
        Some(f) => assert!(!f.delete_excluded),
        None => panic!("no filter"),
    }
}

#[test]
fn body_text_escapes_what_json_requires() {
    let c = config("/d", false, false, Some(strings(&["a\"b\\c\n"])), false, false);
    let text = c.build_request_body(&paths(None)).to_json();
    let v = json(&text);
    assert_eq!(v["_filter"]["IncludeRule"][0].as_str(), Some("/a\"b\\c\n"));
    assert_eq!(v["_filter"]["IncludeRule"][1].as_str(), Some("/a\"b\\c\n/**"));
    assert_eq!(v["dstFs"].as_str(), Some("/d \"q\""));
    assert!(text.contains(r#""dstFs":"/d \"q\"""#));
}
